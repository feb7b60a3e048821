//! Command-line parsing: comma-separated number lists, the shared flags, and
//! the positional arguments of the `bench` and `stress` commands.
//!
//! Parsing decides; printing the usage text and exiting are left to the
//! program that calls it, which receives what went wrong as a `CliError`.
use vstd::prelude::*;
use vstd::string::StringExecFns;
use crate::text::{
    comma_free, decimal, is_digit, join_commas, lemma_decimal, lemma_parse_decimal, lemma_split_comma_free, lemma_split_join,
    parse_unsigned, parse_unsigned_spec, split_commas, str_eq, to_chars, trim, trim_bounds,
};

verus! {

/// What `parse_list` gives for `s`: nothing for `-` or for a piece that is
/// not a number up to `max` once trimmed, else the value of each piece.
pub open spec fn parse_list_spec(s: Seq<char>, max: nat) -> Option<Seq<nat>> {
    let pieces = split_commas(s);
    if s == seq!['-'] {
        None
    } else if forall|i: int| 0 <= i < pieces.len() ==> (#[trigger] parse_unsigned_spec(trim(pieces[i]), max)) is Some {
        Some(Seq::new(pieces.len(), |i: int| parse_unsigned_spec(trim(pieces[i]), max)->0))
    } else {
        None
    }
}

/// Whether `r` holds the values of `spec`.
pub open spec fn list_matches(r: Option<Vec<u64>>, spec: Option<Seq<nat>>) -> bool {
    match spec {
        Some(ns) => r matches Some(v) && v@.len() == ns.len() && forall|i: int| 0 <= i < ns.len() ==> #[trigger] ns[i] == v@[i] as nat,
        None => r is None,
    }
}

/// Whether `r` holds the values of `spec`.
pub open spec fn usize_list_matches(r: Option<Vec<usize>>, spec: Option<Seq<nat>>) -> bool {
    match spec {
        Some(ns) => r matches Some(v) && v@.len() == ns.len() && forall|i: int| 0 <= i < ns.len() ==> #[trigger] ns[i] == v@[i] as nat,
        None => r is None,
    }
}

proof fn lemma_split_len(s: Seq<char>)
    ensures
        split_commas(s).len() >= 1,
    decreases s.len(),
{
    if s.len() > 0 {
        lemma_split_len(s.drop_last());
    }
}

/// The finished pieces of a prefix are pieces of every longer prefix.
proof fn lemma_split_prefix(s: Seq<char>, k: int, n: int)
    requires
        0 <= k <= n <= s.len(),
    ensures
        split_commas(s.take(k)).len() <= split_commas(s.take(n)).len(),
        forall|j: int| 0 <= j < split_commas(s.take(k)).len() - 1
            ==> split_commas(s.take(n))[j] == split_commas(s.take(k))[j],
    decreases n - k,
{
    if n > k {
        lemma_split_prefix(s, k, n - 1);
        assert(s.take(n).drop_last() =~= s.take(n - 1));
        lemma_split_len(s.take(n - 1));
    }
}

/// How the pieces of `s.take(i)` change when `s[i]` is added.
proof fn lemma_split_step(s: Seq<char>, i: int)
    requires
        0 <= i < s.len(),
    ensures
        split_commas(s.take(i + 1)) == (if s[i] == ',' {
            split_commas(s.take(i)).push(Seq::<char>::empty())
        } else {
            let p = split_commas(s.take(i));
            p.update(p.len() - 1, p.last().push(s[i]))
        }),
{
    assert(s.take(i + 1).drop_last() =~= s.take(i));
}

/// Parse a piece of a list: its trimmed text as a number up to `max`.
fn parse_piece(piece: &Vec<char>, max: u64) -> (r: Option<u64>)
    ensures
        match parse_unsigned_spec(trim(piece@), max as nat) {
            Some(n) => r == Some(n as u64),
            None => r is None,
        },
{
    let (a, b) = trim_bounds(piece);
    parse_unsigned(piece, a, b, max)
}

/// Parse a comma-separated list of numbers up to `max`, or `-` meaning "skip".
/// Each piece is trimmed of white space and must be a number.
pub fn parse_list(arg: &str, max: u64) -> (r: Option<Vec<u64>>)
    ensures
        list_matches(r, parse_list_spec(arg@, max as nat)),
{
    let v = to_chars(arg);
    if v.len() == 1 && v[0] == '-' {
        assert(v@ =~= seq!['-']);
        return None;
    }
    assert(v@ != seq!['-']);
    let ghost s = v@;
    let ghost mut done: Seq<Seq<char>> = Seq::empty();
    let mut values: Vec<u64> = Vec::new();
    let mut current: Vec<char> = Vec::new();
    assert(s.take(0) =~= Seq::<char>::empty());
    let mut i: usize = 0;
    while i < v.len()
        invariant
            s == v@,
            s == arg@,
            s != seq!['-'],
            i <= v@.len(),
            split_commas(s.take(i as int)) == done.push(current@),
            values@.len() == done.len(),
            forall|j: int| 0 <= j < done.len()
                ==> (#[trigger] parse_unsigned_spec(trim(done[j]), max as nat)) == Some(values@[j] as nat),
        decreases v@.len() - i,
    {
        proof {
            lemma_split_step(s, i as int);
        }
        if v[i] == ',' {
            match parse_piece(&current, max) {
                None => {
                    proof {
                        lemma_split_prefix(s, i + 1, s.len() as int);
                        assert(s.take(s.len() as int) =~= s);
                        assert(split_commas(s)[done.len() as int] == current@);
                    }
                    return None;
                },
                Some(x) => {
                    values.push(x);
                },
            }
            proof {
                done = done.push(current@);
            }
            current = Vec::new();
            assert(split_commas(s.take(i + 1)) =~= done.push(current@));
        } else {
            current.push(v[i]);
            assert(split_commas(s.take(i + 1)) =~= done.push(current@));
        }
        i = i + 1;
    }
    assert(s.take(i as int) =~= s);
    let ghost pieces = split_commas(s);
    match parse_piece(&current, max) {
        None => {
            assert(pieces[done.len() as int] == current@);
            None
        },
        Some(x) => {
            values.push(x);
            proof {
                done = done.push(current@);
                assert(pieces == done);
                assert forall|j: int| 0 <= j < pieces.len() implies (#[trigger] parse_unsigned_spec(trim(pieces[j]), max as nat)) is Some by {
                    assert(parse_unsigned_spec(trim(done[j]), max as nat) == Some(values@[j] as nat));
                }
            }
            Some(values)
        },
    }
}

/// Parse a comma-separated list of `u64` values, or `-` meaning "skip".
pub fn parse_u64_list(arg: &str) -> (r: Option<Vec<u64>>)
    ensures
        list_matches(r, parse_list_spec(arg@, u64::MAX as nat)),
{
    parse_list(arg, 0xffff_ffff_ffff_ffffu64)
}

/// Parse a comma-separated list of `usize` values, or `-` meaning "skip".
pub fn parse_usize_list(arg: &str) -> (r: Option<Vec<usize>>)
    ensures
        usize_list_matches(r, parse_list_spec(arg@, usize::MAX as nat)),
{
    let parsed = parse_list(arg, usize::MAX as u64);
    match parsed {
        None => None,
        Some(values) => {
            let mut out: Vec<usize> = Vec::new();
            let mut i: usize = 0;
            while i < values.len()
                invariant
                    i <= values@.len(),
                    list_matches(Some(values), parse_list_spec(arg@, usize::MAX as nat)),
                    out@.len() == i,
                    forall|k: int| 0 <= k < i ==> #[trigger] out@[k] as nat == values@[k] as nat,
                decreases values@.len() - i,
            {
                let x = values[i];
                assert(x <= usize::MAX) by {
                    let ns = parse_list_spec(arg@, usize::MAX as nat)->0;
                    let pieces = split_commas(arg@);
                    assert(parse_unsigned_spec(trim(pieces[i as int]), usize::MAX as nat) is Some);
                    assert(ns[i as int] == values@[i as int] as nat);
                    assert(ns[i as int] <= usize::MAX);
                }
                out.push(x as usize);
                i = i + 1;
            }
            Some(out)
        },
    }
}

/// Writing numbers up to `max` in decimal and joining them with commas gives
/// a list that parses back to the same numbers.
pub proof fn law_list_round_trip(values: Seq<nat>, max: nat)
    requires
        values.len() > 0,
        forall|i: int| 0 <= i < values.len() ==> #[trigger] values[i] <= max,
    ensures
        parse_list_spec(join_commas(values.map_values(|n: nat| decimal(n))), max) == Some(values),
{
    let pieces = values.map_values(|n: nat| decimal(n));
    let s = join_commas(pieces);
    assert forall|i: int| 0 <= i < pieces.len() implies
        (#[trigger] parse_unsigned_spec(trim(pieces[i]), max)) == Some(values[i]) by {
        assert(values[i] <= max);
        lemma_parse_decimal(values[i], max);
    }
    assert forall|i: int| 0 <= i < pieces.len() implies comma_free(#[trigger] pieces[i]) by {
        lemma_parse_decimal(values[i], max);
    }
    lemma_split_join(pieces);
    if s == seq!['-'] {
        lemma_split_comma_free(seq!['-']);
        assert(pieces[0] == seq!['-']);
        lemma_decimal(values[0]);
        assert(is_digit(pieces[0][0]));
    }
    assert(Seq::new(pieces.len(), |i: int| parse_unsigned_spec(trim(pieces[i]), max)->0) =~= values);
}

/// Number of zeros in `v`.
pub open spec fn zero_count(v: Seq<nat>) -> nat
    decreases v.len(),
{
    if v.len() == 0 {
        0
    } else {
        zero_count(v.drop_last()) + if v.last() == 0 { 1nat } else { 0nat }
    }
}

/// Dropping the zero zone counts keeps exactly the positive ones, in order:
/// every kept count is positive and comes from the list, every positive
/// count of the list is kept, the kept ones are as many as the list has
/// positive counts, and a list without zero comes back unchanged.
pub proof fn law_positive_entries(v: Seq<nat>)
    ensures
        forall|i: int| 0 <= i < positive_entries(v).len()
            ==> #[trigger] positive_entries(v)[i] > 0 && v.contains(positive_entries(v)[i]),
        forall|i: int| 0 <= i < v.len() && v[i] > 0 ==> positive_entries(v).contains(#[trigger] v[i]),
        positive_entries(v).len() + zero_count(v) == v.len(),
        (forall|i: int| 0 <= i < v.len() ==> #[trigger] v[i] > 0) ==> positive_entries(v) == v,
    decreases v.len(),
{
    broadcast use vstd::seq_lib::group_filter_ensures;
    let p = |z: nat| z > 0;
    if v.len() > 0 {
        let w = v.drop_last();
        let x = v.last();
        law_positive_entries(w);
        assert(w.push(x) =~= v);
        w.lemma_filter_push(x, p);
        assert forall|i: int| 0 <= i < positive_entries(v).len()
            implies #[trigger] positive_entries(v)[i] > 0 && v.contains(positive_entries(v)[i]) by {
            v.lemma_filter_contains_rev(p, positive_entries(v)[i]);
        }
        assert forall|i: int| 0 <= i < v.len() && v[i] > 0 implies positive_entries(v).contains(#[trigger] v[i]) by {
            v.lemma_filter_contains(p, i);
        }
        if forall|i: int| 0 <= i < v.len() ==> #[trigger] v[i] > 0 {
            assert forall|i: int| 0 <= i < w.len() implies #[trigger] w[i] > 0 by {
                assert(v[i] > 0);
            }
            assert(x > 0);
        }
    } else {
        assert(positive_entries(v) =~= v);
    }
}

/// What `parse_stress_args` returns for the zone counts: exactly the positive
/// counts it read, with the number of zeros dropped; a list without zero comes
/// back unchanged with nothing dropped.
pub proof fn law_stress_zone_sets(args: Seq<Seq<char>>)
    requires
        stress_fold(args) matches Ok(st) && st.zone_sets is Some,
        parse_stress_spec(args) is Ok,
    ensures
        ({
            let zs = stress_fold(args)->Ok_0.zone_sets->0;
            let v = parse_stress_spec(args)->Ok_0;
            &&& v.zone_sets matches Some(r)
            &&& forall|i: int| 0 <= i < r.len() ==> #[trigger] r[i] > 0 && zs.contains(r[i])
            &&& forall|i: int| 0 <= i < zs.len() && zs[i] > 0 ==> r.contains(#[trigger] zs[i])
            &&& v.dropped_zone_sets == zero_count(zs)
            &&& (forall|i: int| 0 <= i < zs.len() ==> #[trigger] zs[i] > 0) ==> r == zs && v.dropped_zone_sets == 0
        }),
{
    let zs = stress_fold(args)->Ok_0.zone_sets->0;
    law_positive_entries(zs);
}

/// A flag that both commands accept anywhere among their arguments.
#[derive(PartialEq, Eq, Structural, Debug, Clone, Copy)]
pub enum CommonFlag {
    /// `validate`: enable extra safety checks.
    Validate,
    /// `offline`, `offline-demo` or `--offline-demo`: simulate a robot going offline.
    SimulateOffline,
}

/// Which flag `s` spells, if any.
pub open spec fn flag_of(s: Seq<char>) -> Option<CommonFlag> {
    if s == "validate"@ {
        Some(CommonFlag::Validate)
    } else if s == "offline"@ || s == "offline-demo"@ || s == "--offline-demo"@ {
        Some(CommonFlag::SimulateOffline)
    } else {
        None
    }
}

/// Recognise a shared flag and record it; returns whether `arg` was one.
pub fn parse_common_flag(arg: &str, validate: &mut bool, simulate_offline: &mut bool) -> (is_flag: bool)
    ensures
        is_flag == flag_of(arg@) is Some,
        *final(validate) == (*old(validate) || flag_of(arg@) == Some(CommonFlag::Validate)),
        *final(simulate_offline) == (*old(simulate_offline) || flag_of(arg@) == Some(CommonFlag::SimulateOffline)),
{
    let v = to_chars(arg);
    if str_eq(&v, "validate") {
        *validate = true;
        true
    } else if str_eq(&v, "offline") || str_eq(&v, "offline-demo") || str_eq(&v, "--offline-demo") {
        *simulate_offline = true;
        true
    } else {
        false
    }
}

/// A positional argument of the `bench` or `stress` command.
#[derive(PartialEq, Eq, Structural, Debug, Clone, Copy)]
pub enum ArgField {
    Robots,
    TasksPerRobot,
    Zones,
    WorkMs,
    RobotSets,
    TaskSets,
    ZoneSets,
}

/// Why the arguments of a command were refused.
#[derive(PartialEq, Eq, Structural, Debug, Clone, Copy)]
pub enum CliError {
    /// The argument at `index` is not a valid value for `field`.
    Invalid { field: ArgField, index: usize },
    /// `field` must be greater than zero.
    NotPositive { field: ArgField },
    /// The argument at `index` is one more than the command takes.
    Unexpected { index: usize },
    /// Every zone count given to `stress` is zero; `dropped` of them were dropped.
    NoZoneSetsLeft { dropped: usize },
}

/// Arguments of the `bench` command; `None` keeps the default.
#[derive(PartialEq, Eq, Structural, Debug, Clone, Copy)]
pub struct BenchArgs {
    pub robots: Option<usize>,
    pub tasks_per_robot: Option<usize>,
    pub zones: Option<u64>,
    pub work_ms: Option<u64>,
    pub validate: bool,
    pub simulate_offline: bool,
}

/// The characters of each argument.
pub open spec fn arg_views(args: Seq<String>) -> Seq<Seq<char>> {
    args.map_values(|a: String| a@)
}

/// Arguments of `bench` before any is read.
pub open spec fn bench_start() -> BenchArgs {
    BenchArgs {
        robots: None,
        tasks_per_robot: None,
        zones: None,
        work_ms: None,
        validate: false,
        simulate_offline: false,
    }
}

/// Reading the argument `arg`, at position `index`, of the `bench` command.
pub open spec fn bench_step(st: BenchArgs, arg: Seq<char>, index: usize) -> Result<BenchArgs, CliError> {
    match flag_of(arg) {
        Some(CommonFlag::Validate) => Ok(BenchArgs { validate: true, ..st }),
        Some(CommonFlag::SimulateOffline) => Ok(BenchArgs { simulate_offline: true, ..st }),
        None => {
            if st.robots is None {
                match parse_unsigned_spec(arg, usize::MAX as nat) {
                    None => Err(CliError::Invalid { field: ArgField::Robots, index }),
                    Some(n) => if n == 0 {
                        Err(CliError::NotPositive { field: ArgField::Robots })
                    } else {
                        Ok(BenchArgs { robots: Some(n as usize), ..st })
                    },
                }
            } else if st.tasks_per_robot is None {
                match parse_unsigned_spec(arg, usize::MAX as nat) {
                    None => Err(CliError::Invalid { field: ArgField::TasksPerRobot, index }),
                    Some(n) => if n == 0 {
                        Err(CliError::NotPositive { field: ArgField::TasksPerRobot })
                    } else {
                        Ok(BenchArgs { tasks_per_robot: Some(n as usize), ..st })
                    },
                }
            } else if st.zones is None {
                match parse_unsigned_spec(arg, u64::MAX as nat) {
                    None => Err(CliError::Invalid { field: ArgField::Zones, index }),
                    Some(n) => if n == 0 {
                        Err(CliError::NotPositive { field: ArgField::Zones })
                    } else {
                        Ok(BenchArgs { zones: Some(n as u64), ..st })
                    },
                }
            } else if st.work_ms is None {
                match parse_unsigned_spec(arg, u64::MAX as nat) {
                    None => Err(CliError::Invalid { field: ArgField::WorkMs, index }),
                    Some(n) => Ok(BenchArgs { work_ms: Some(n as u64), ..st }),
                }
            } else {
                Err(CliError::Unexpected { index })
            }
        },
    }
}

/// Reading all of `args` for the `bench` command, stopping at the first error.
pub open spec fn bench_fold(args: Seq<Seq<char>>) -> Result<BenchArgs, CliError>
    decreases args.len(),
{
    if args.len() == 0 {
        Ok(bench_start())
    } else {
        match bench_fold(args.drop_last()) {
            Err(e) => Err(e),
            Ok(st) => bench_step(st, args.last(), (args.len() - 1) as usize),
        }
    }
}

/// Once a prefix of the arguments is refused, so are all of them.
proof fn lemma_bench_fold_err(args: Seq<Seq<char>>, k: int)
    requires
        0 <= k <= args.len(),
        bench_fold(args.take(k)) is Err,
    ensures
        bench_fold(args) == bench_fold(args.take(k)),
    decreases args.len() - k,
{
    if k < args.len() {
        assert(args.take(k + 1).drop_last() =~= args.take(k));
        lemma_bench_fold_err(args, k + 1 as int);
    } else {
        assert(args.take(k) =~= args);
    }
}

/// Read one argument as an unsigned number no larger than `max`.
fn parse_value(arg: &str, max: u64) -> (r: Option<u64>)
    ensures
        match parse_unsigned_spec(arg@, max as nat) {
            Some(n) => r == Some(n as u64),
            None => r is None,
        },
{
    let v = to_chars(arg);
    assert(v@.subrange(0, v@.len() as int) =~= v@);
    parse_unsigned(&v, 0, v.len(), max)
}

/// One argument of the `bench` command.
fn bench_step_exec(st: BenchArgs, arg: &str, index: usize) -> (r: Result<BenchArgs, CliError>)
    ensures
        r == bench_step(st, arg@, index),
{
    let mut st = st;
    if parse_common_flag(arg, &mut st.validate, &mut st.simulate_offline) {
        return Ok(st);
    }
    if st.robots.is_none() {
        match parse_value(arg, usize::MAX as u64) {
            None => Err(CliError::Invalid { field: ArgField::Robots, index }),
            Some(n) => if n == 0 {
                Err(CliError::NotPositive { field: ArgField::Robots })
            } else {
                Ok(BenchArgs { robots: Some(n as usize), ..st })
            },
        }
    } else if st.tasks_per_robot.is_none() {
        match parse_value(arg, usize::MAX as u64) {
            None => Err(CliError::Invalid { field: ArgField::TasksPerRobot, index }),
            Some(n) => if n == 0 {
                Err(CliError::NotPositive { field: ArgField::TasksPerRobot })
            } else {
                Ok(BenchArgs { tasks_per_robot: Some(n as usize), ..st })
            },
        }
    } else if st.zones.is_none() {
        match parse_value(arg, 0xffff_ffff_ffff_ffffu64) {
            None => Err(CliError::Invalid { field: ArgField::Zones, index }),
            Some(n) => if n == 0 {
                Err(CliError::NotPositive { field: ArgField::Zones })
            } else {
                Ok(BenchArgs { zones: Some(n), ..st })
            },
        }
    } else if st.work_ms.is_none() {
        match parse_value(arg, 0xffff_ffff_ffff_ffffu64) {
            None => Err(CliError::Invalid { field: ArgField::WorkMs, index }),
            Some(n) => Ok(BenchArgs { work_ms: Some(n), ..st }),
        }
    } else {
        Err(CliError::Unexpected { index })
    }
}

/// Parse the arguments that follow `bench`: `[robots] [tasks_per_robot]
/// [zones] [work_ms]` in that order, with the shared flags anywhere.
pub fn parse_bench_args(args: &Vec<String>) -> (r: Result<BenchArgs, CliError>)
    ensures
        r == bench_fold(arg_views(args@)),
{
    let ghost views = arg_views(args@);
    let mut st = BenchArgs {
        robots: None,
        tasks_per_robot: None,
        zones: None,
        work_ms: None,
        validate: false,
        simulate_offline: false,
    };
    assert(views.take(0) =~= Seq::<Seq<char>>::empty());
    let mut i: usize = 0;
    while i < args.len()
        invariant
            views == arg_views(args@),
            i <= args@.len(),
            bench_fold(views.take(i as int)) == Ok::<BenchArgs, CliError>(st),
        decreases args@.len() - i,
    {
        assert(views.take(i + 1).drop_last() =~= views.take(i as int));
        assert(views[i as int] == args@[i as int]@);
        match bench_step_exec(st, args[i].as_str(), i) {
            Err(e) => {
                proof {
                    lemma_bench_fold_err(views, i + 1);
                }
                return Err(e);
            },
            Ok(next) => {
                st = next;
            },
        }
        i = i + 1;
    }
    assert(views.take(i as int) =~= views);
    Ok(st)
}

/// Arguments of the `stress` command; `None` keeps the default.
#[derive(Debug)]
pub struct StressArgs {
    pub robot_sets: Option<Vec<usize>>,
    pub task_sets: Option<Vec<usize>>,
    pub zone_sets: Option<Vec<u64>>,
    pub work_ms: Option<u64>,
    pub validate: bool,
    pub simulate_offline: bool,
    /// How many zero entries were dropped from the zone sets.
    pub dropped_zone_sets: usize,
}

/// Abstract state of the `stress` argument reader.
pub ghost struct StressState {
    pub robot_sets: Option<Seq<nat>>,
    pub robots_skipped: bool,
    pub task_sets: Option<Seq<nat>>,
    pub tasks_skipped: bool,
    pub zone_sets: Option<Seq<nat>>,
    pub zones_skipped: bool,
    pub work_ms: Option<nat>,
    pub validate: bool,
    pub simulate_offline: bool,
}

/// Abstract `stress` arguments.
pub ghost struct StressView {
    pub robot_sets: Option<Seq<nat>>,
    pub task_sets: Option<Seq<nat>>,
    pub zone_sets: Option<Seq<nat>>,
    pub work_ms: Option<nat>,
    pub validate: bool,
    pub simulate_offline: bool,
    pub dropped_zone_sets: nat,
}

/// The values of a list of `usize`.
pub open spec fn usize_values(v: Seq<usize>) -> Seq<nat> {
    v.map_values(|x: usize| x as nat)
}

/// The values of a list of `u64`.
pub open spec fn u64_values(v: Seq<u64>) -> Seq<nat> {
    v.map_values(|x: u64| x as nat)
}

impl View for StressArgs {
    type V = StressView;

    open spec fn view(&self) -> StressView {
        StressView {
            robot_sets: match self.robot_sets {
                Some(v) => Some(usize_values(v@)),
                None => None,
            },
            task_sets: match self.task_sets {
                Some(v) => Some(usize_values(v@)),
                None => None,
            },
            zone_sets: match self.zone_sets {
                Some(v) => Some(u64_values(v@)),
                None => None,
            },
            work_ms: match self.work_ms {
                Some(n) => Some(n as nat),
                None => None,
            },
            validate: self.validate,
            simulate_offline: self.simulate_offline,
            dropped_zone_sets: self.dropped_zone_sets as nat,
        }
    }
}

/// Whether a list holds a zero.
pub open spec fn has_zero(v: Seq<nat>) -> bool {
    exists|i: int| 0 <= i < v.len() && v[i] == 0
}

/// The reader of `stress` arguments before any is read.
pub open spec fn stress_start() -> StressState {
    StressState {
        robot_sets: None,
        robots_skipped: false,
        task_sets: None,
        tasks_skipped: false,
        zone_sets: None,
        zones_skipped: false,
        work_ms: None,
        validate: false,
        simulate_offline: false,
    }
}

/// Reading the argument `arg`, at position `index`, of the `stress` command.
pub open spec fn stress_step(st: StressState, arg: Seq<char>, index: usize) -> Result<StressState, CliError> {
    match flag_of(arg) {
        Some(CommonFlag::Validate) => Ok(StressState { validate: true, ..st }),
        Some(CommonFlag::SimulateOffline) => Ok(StressState { simulate_offline: true, ..st }),
        None => {
            if st.robot_sets is None && !st.robots_skipped {
                if arg == seq!['-'] {
                    Ok(StressState { robots_skipped: true, ..st })
                } else {
                    match parse_list_spec(arg, usize::MAX as nat) {
                        Some(vs) => if has_zero(vs) {
                            Err(CliError::NotPositive { field: ArgField::RobotSets })
                        } else {
                            Ok(StressState { robot_sets: Some(vs), ..st })
                        },
                        None => Err(CliError::Invalid { field: ArgField::RobotSets, index }),
                    }
                }
            } else if st.task_sets is None && !st.tasks_skipped {
                if arg == seq!['-'] {
                    Ok(StressState { tasks_skipped: true, ..st })
                } else {
                    match parse_list_spec(arg, usize::MAX as nat) {
                        Some(vs) => if has_zero(vs) {
                            Err(CliError::NotPositive { field: ArgField::TaskSets })
                        } else {
                            Ok(StressState { task_sets: Some(vs), ..st })
                        },
                        None => Err(CliError::Invalid { field: ArgField::TaskSets, index }),
                    }
                }
            } else if st.zone_sets is None && !st.zones_skipped {
                if arg == seq!['-'] {
                    Ok(StressState { zones_skipped: true, ..st })
                } else {
                    match parse_list_spec(arg, u64::MAX as nat) {
                        Some(vs) => Ok(StressState { zone_sets: Some(vs), ..st }),
                        None => Err(CliError::Invalid { field: ArgField::ZoneSets, index }),
                    }
                }
            } else if st.work_ms is None {
                match parse_unsigned_spec(arg, u64::MAX as nat) {
                    Some(n) => Ok(StressState { work_ms: Some(n), ..st }),
                    None => Err(CliError::Invalid { field: ArgField::WorkMs, index }),
                }
            } else {
                Err(CliError::Unexpected { index })
            }
        },
    }
}

/// Reading all of `args` for the `stress` command, stopping at the first error.
pub open spec fn stress_fold(args: Seq<Seq<char>>) -> Result<StressState, CliError>
    decreases args.len(),
{
    if args.len() == 0 {
        Ok(stress_start())
    } else {
        match stress_fold(args.drop_last()) {
            Err(e) => Err(e),
            Ok(st) => stress_step(st, args.last(), (args.len() - 1) as usize),
        }
    }
}

/// The positive entries of a list of zone counts.
pub open spec fn positive_entries(v: Seq<nat>) -> Seq<nat> {
    v.filter(|z: nat| z > 0)
}

/// The `stress` arguments once all are read: zero zone counts are dropped,
/// and a zone list left empty is refused with the number dropped.
pub open spec fn stress_finish(st: StressState) -> Result<StressView, CliError> {
    let base = StressView {
        robot_sets: st.robot_sets,
        task_sets: st.task_sets,
        zone_sets: st.zone_sets,
        work_ms: st.work_ms,
        validate: st.validate,
        simulate_offline: st.simulate_offline,
        dropped_zone_sets: 0,
    };
    match st.zone_sets {
        None => Ok(base),
        Some(zs) => {
            let kept = positive_entries(zs);
            if kept.len() == 0 {
                Err(CliError::NoZoneSetsLeft { dropped: zs.len() as usize })
            } else {
                Ok(StressView { zone_sets: Some(kept), dropped_zone_sets: (zs.len() - kept.len()) as nat, ..base })
            }
        },
    }
}

/// What `parse_stress_args` decides for `args`.
pub open spec fn parse_stress_spec(args: Seq<Seq<char>>) -> Result<StressView, CliError> {
    match stress_fold(args) {
        Err(e) => Err(e),
        Ok(st) => stress_finish(st),
    }
}

/// Once a prefix of the arguments is refused, so are all of them.
proof fn lemma_stress_fold_err(args: Seq<Seq<char>>, k: int)
    requires
        0 <= k <= args.len(),
        stress_fold(args.take(k)) is Err,
    ensures
        stress_fold(args) == stress_fold(args.take(k)),
    decreases args.len() - k,
{
    if k < args.len() {
        assert(args.take(k + 1).drop_last() =~= args.take(k));
        lemma_stress_fold_err(args, k + 1 as int);
    } else {
        assert(args.take(k) =~= args);
    }
}

/// Executable state of the `stress` argument reader.
struct StressReader {
    robot_sets: Option<Vec<usize>>,
    robots_skipped: bool,
    task_sets: Option<Vec<usize>>,
    tasks_skipped: bool,
    zone_sets: Option<Vec<u64>>,
    zones_skipped: bool,
    work_ms: Option<u64>,
    validate: bool,
    simulate_offline: bool,
}

impl View for StressReader {
    type V = StressState;

    closed spec fn view(&self) -> StressState {
        StressState {
            robot_sets: match self.robot_sets {
                Some(v) => Some(usize_values(v@)),
                None => None,
            },
            robots_skipped: self.robots_skipped,
            task_sets: match self.task_sets {
                Some(v) => Some(usize_values(v@)),
                None => None,
            },
            tasks_skipped: self.tasks_skipped,
            zone_sets: match self.zone_sets {
                Some(v) => Some(u64_values(v@)),
                None => None,
            },
            zones_skipped: self.zones_skipped,
            work_ms: match self.work_ms {
                Some(n) => Some(n as nat),
                None => None,
            },
            validate: self.validate,
            simulate_offline: self.simulate_offline,
        }
    }
}

/// Whether a list of `usize` holds a zero.
fn any_zero(v: &Vec<usize>) -> (b: bool)
    ensures
        b == has_zero(usize_values(v@)),
{
    let mut i: usize = 0;
    while i < v.len()
        invariant
            i <= v@.len(),
            forall|k: int| 0 <= k < i ==> v@[k] != 0,
        decreases v@.len() - i,
    {
        if v[i] == 0 {
            assert(usize_values(v@)[i as int] == 0);
            return true;
        }
        i = i + 1;
    }
    assert forall|k: int| 0 <= k < usize_values(v@).len() implies usize_values(v@)[k] != 0 by {
        assert(v@[k] != 0);
    }
    false
}

/// Whether `arg` is exactly `-`.
fn is_skip(arg: &str) -> (b: bool)
    ensures
        b == (arg@ == seq!['-']),
{
    let v = to_chars(arg);
    if v.len() == 1 && v[0] == '-' {
        assert(v@ =~= seq!['-']);
        true
    } else {
        assert(v@ != seq!['-']);
        false
    }
}

/// A parsed `usize` list as its spec values.
proof fn lemma_usize_list(r: Option<Vec<usize>>, s: Option<Seq<nat>>)
    requires
        usize_list_matches(r, s),
    ensures
        r matches Some(v) ==> s == Some(usize_values(v@)),
        r is None <==> s is None,
{
    if let Some(v) = r {
        assert(usize_values(v@) =~= s->0);
    }
}

/// A parsed `u64` list as its spec values.
proof fn lemma_u64_list(r: Option<Vec<u64>>, s: Option<Seq<nat>>)
    requires
        list_matches(r, s),
    ensures
        r matches Some(v) ==> s == Some(u64_values(v@)),
        r is None <==> s is None,
{
    if let Some(v) = r {
        assert(u64_values(v@) =~= s->0);
    }
}

/// One argument of the `stress` command.
fn stress_step_exec(st: &mut StressReader, arg: &str, index: usize) -> (r: Result<(), CliError>)
    ensures
        match stress_step(old(st)@, arg@, index) {
            Ok(next) => r is Ok && final(st)@ == next,
            Err(e) => r == Err::<(), CliError>(e),
        },
{
    if parse_common_flag(arg, &mut st.validate, &mut st.simulate_offline) {
        return Ok(());
    }
    if st.robot_sets.is_none() && !st.robots_skipped {
        if is_skip(arg) {
            st.robots_skipped = true;
            return Ok(());
        }
        let parsed = parse_usize_list(arg);
        proof {
            lemma_usize_list(parsed, parse_list_spec(arg@, usize::MAX as nat));
        }
        match parsed {
            Some(values) => {
                if any_zero(&values) {
                    return Err(CliError::NotPositive { field: ArgField::RobotSets });
                }
                st.robot_sets = Some(values);
                Ok(())
            },
            None => Err(CliError::Invalid { field: ArgField::RobotSets, index }),
        }
    } else if st.task_sets.is_none() && !st.tasks_skipped {
        if is_skip(arg) {
            st.tasks_skipped = true;
            return Ok(());
        }
        let parsed = parse_usize_list(arg);
        proof {
            lemma_usize_list(parsed, parse_list_spec(arg@, usize::MAX as nat));
        }
        match parsed {
            Some(values) => {
                if any_zero(&values) {
                    return Err(CliError::NotPositive { field: ArgField::TaskSets });
                }
                st.task_sets = Some(values);
                Ok(())
            },
            None => Err(CliError::Invalid { field: ArgField::TaskSets, index }),
        }
    } else if st.zone_sets.is_none() && !st.zones_skipped {
        if is_skip(arg) {
            st.zones_skipped = true;
            return Ok(());
        }
        let parsed = parse_u64_list(arg);
        proof {
            lemma_u64_list(parsed, parse_list_spec(arg@, u64::MAX as nat));
        }
        match parsed {
            Some(values) => {
                st.zone_sets = Some(values);
                Ok(())
            },
            None => Err(CliError::Invalid { field: ArgField::ZoneSets, index }),
        }
    } else if st.work_ms.is_none() {
        match parse_value(arg, 0xffff_ffff_ffff_ffffu64) {
            Some(n) => {
                st.work_ms = Some(n);
                Ok(())
            },
            None => Err(CliError::Invalid { field: ArgField::WorkMs, index }),
        }
    } else {
        Err(CliError::Unexpected { index })
    }
}

/// The positive entries of `zones`, in order.
fn keep_positive(zones: &Vec<u64>) -> (kept: Vec<u64>)
    ensures
        u64_values(kept@) == positive_entries(u64_values(zones@)),
        kept@.len() <= zones@.len(),
{
    let mut kept: Vec<u64> = Vec::new();
    let mut i: usize = 0;
    while i < zones.len()
        invariant
            i <= zones@.len(),
            u64_values(kept@) == positive_entries(u64_values(zones@.take(i as int))),
            kept@.len() <= i,
        decreases zones@.len() - i,
    {
        let z = zones[i];
        proof {
            assert(u64_values(zones@.take(i + 1)) =~= u64_values(zones@.take(i as int)).push(z as nat));
            u64_values(zones@.take(i as int)).lemma_filter_push(z as nat, |x: nat| x > 0);
        }
        if z > 0 {
            kept.push(z);
            assert(u64_values(kept@) =~= positive_entries(u64_values(zones@.take(i as int))).push(z as nat));
        }
        i = i + 1;
    }
    assert(zones@.take(i as int) =~= zones@);
    kept
}

/// Parse the arguments that follow `stress`: `[robot_sets] [task_sets]
/// [zone_sets] [work_ms]` in that order, each list skippable with `-`, and
/// the shared flags anywhere. Zero zone counts are dropped and counted.
pub fn parse_stress_args(args: &Vec<String>) -> (r: Result<StressArgs, CliError>)
    ensures
        match parse_stress_spec(arg_views(args@)) {
            Ok(v) => r matches Ok(a) && a@ == v,
            Err(e) => r matches Err(f) && f == e,
        },
{
    let ghost views = arg_views(args@);
    let mut st = StressReader {
        robot_sets: None,
        robots_skipped: false,
        task_sets: None,
        tasks_skipped: false,
        zone_sets: None,
        zones_skipped: false,
        work_ms: None,
        validate: false,
        simulate_offline: false,
    };
    assert(views.take(0) =~= Seq::<Seq<char>>::empty());
    let mut i: usize = 0;
    while i < args.len()
        invariant
            views == arg_views(args@),
            i <= args@.len(),
            stress_fold(views.take(i as int)) == Ok::<StressState, CliError>(st@),
        decreases args@.len() - i,
    {
        assert(views.take(i + 1).drop_last() =~= views.take(i as int));
        assert(views[i as int] == args@[i as int]@);
        match stress_step_exec(&mut st, args[i].as_str(), i) {
            Err(e) => {
                proof {
                    lemma_stress_fold_err(views, i + 1);
                }
                return Err(e);
            },
            Ok(()) => {},
        }
        i = i + 1;
    }
    assert(views.take(i as int) =~= views);
    let mut dropped: usize = 0;
    let zone_sets = match st.zone_sets {
        None => None,
        Some(zones) => {
            let kept = keep_positive(&zones);
            if kept.len() == 0 {
                return Err(CliError::NoZoneSetsLeft { dropped: zones.len() });
            }
            dropped = zones.len() - kept.len();
            Some(kept)
        },
    };
    Ok(StressArgs {
        robot_sets: st.robot_sets,
        task_sets: st.task_sets,
        zone_sets,
        work_ms: st.work_ms,
        validate: st.validate,
        simulate_offline: st.simulate_offline,
        dropped_zone_sets: dropped,
    })
}

/// `offline`, `offline-demo` and `--offline-demo` are the same flag, and
/// `validate` is another.
pub proof fn law_flag_aliases()
    ensures
        flag_of("validate"@) == Some(CommonFlag::Validate),
        flag_of("offline"@) == Some(CommonFlag::SimulateOffline),
        flag_of("offline-demo"@) == Some(CommonFlag::SimulateOffline),
        flag_of("--offline-demo"@) == Some(CommonFlag::SimulateOffline),
{
    reveal_strlit("validate");
    reveal_strlit("offline");
    reveal_strlit("offline-demo");
    reveal_strlit("--offline-demo");
    assert("offline"@.len() != "validate"@.len());
    assert("offline-demo"@.len() != "validate"@.len());
    assert("--offline-demo"@.len() != "validate"@.len());
}

/// A flag takes no position: wherever it stands, reading it only sets the
/// flag, for both commands.
pub proof fn law_flags_take_no_position(bench: BenchArgs, stress: StressState, arg: Seq<char>, index: usize)
    requires
        flag_of(arg) is Some,
    ensures
        bench_step(bench, arg, index) matches Ok(next) && next.robots == bench.robots
            && next.tasks_per_robot == bench.tasks_per_robot && next.zones == bench.zones
            && next.work_ms == bench.work_ms,
        stress_step(stress, arg, index) matches Ok(next) && next.robot_sets == stress.robot_sets
            && next.robots_skipped == stress.robots_skipped && next.task_sets == stress.task_sets
            && next.tasks_skipped == stress.tasks_skipped && next.zone_sets == stress.zone_sets
            && next.zones_skipped == stress.zones_skipped && next.work_ms == stress.work_ms,
{
}

/// Whether `s` is one of the spellings of the offline flag.
pub open spec fn is_offline_flag(s: Seq<char>) -> bool {
    s == "offline"@ || s == "offline-demo"@ || s == "--offline-demo"@
}

/// Which flag an argument is, told by its text alone.
proof fn lemma_flag_text(s: Seq<char>)
    ensures
        flag_of(s) == Some(CommonFlag::Validate) <==> s == "validate"@,
        flag_of(s) == Some(CommonFlag::SimulateOffline) <==> is_offline_flag(s),
{
    law_flag_aliases();
    reveal_strlit("validate");
    reveal_strlit("offline");
    reveal_strlit("offline-demo");
    reveal_strlit("--offline-demo");
    assert("offline"@.len() != "validate"@.len());
    assert("offline-demo"@.len() != "validate"@.len());
    assert("--offline-demo"@.len() != "validate"@.len());
}

/// Reading the `bench` arguments, validation is on exactly when `validate`
/// is among them, and the offline simulation exactly when one of its
/// spellings is: each flag sets only itself.
pub proof fn law_bench_flags(args: Seq<Seq<char>>)
    requires
        bench_fold(args) is Ok,
    ensures
        bench_fold(args)->Ok_0.validate <==> (exists|i: int| 0 <= i < args.len() && #[trigger] args[i] == "validate"@),
        bench_fold(args)->Ok_0.simulate_offline <==> (exists|i: int| 0 <= i < args.len() && is_offline_flag(#[trigger] args[i])),
    decreases args.len(),
{
    if args.len() > 0 {
        let init = args.drop_last();
        let last = args.last();
        assert(bench_fold(init) is Ok);
        law_bench_flags(init);
        lemma_flag_text(last);
        let b0 = bench_fold(init)->Ok_0;
        let b = bench_fold(args)->Ok_0;
        assert(b.validate == (b0.validate || last == "validate"@));
        assert(b.simulate_offline == (b0.simulate_offline || is_offline_flag(last)));
        if b0.validate {
            let i = choose|i: int| 0 <= i < init.len() && #[trigger] init[i] == "validate"@;
            assert(args[i] == init[i]);
        }
        if b0.simulate_offline {
            let i = choose|i: int| 0 <= i < init.len() && is_offline_flag(#[trigger] init[i]);
            assert(args[i] == init[i]);
        }
        if last == "validate"@ {
            assert(args[args.len() - 1] == "validate"@);
        }
        if is_offline_flag(last) {
            assert(is_offline_flag(args[args.len() - 1]));
        }
        if exists|i: int| 0 <= i < args.len() && #[trigger] args[i] == "validate"@ {
            let i = choose|i: int| 0 <= i < args.len() && #[trigger] args[i] == "validate"@;
            if i < init.len() {
                assert(init[i] == args[i]);
            }
        }
        if exists|i: int| 0 <= i < args.len() && is_offline_flag(#[trigger] args[i]) {
            let i = choose|i: int| 0 <= i < args.len() && is_offline_flag(#[trigger] args[i]);
            if i < init.len() {
                assert(init[i] == args[i]);
            }
        }
    }
}

/// Reading the `stress` arguments, validation is on exactly when `validate`
/// is among them, and the offline simulation exactly when one of its
/// spellings is: each flag sets only itself.
pub proof fn law_stress_flags(args: Seq<Seq<char>>)
    requires
        stress_fold(args) is Ok,
    ensures
        stress_fold(args)->Ok_0.validate <==> (exists|i: int| 0 <= i < args.len() && #[trigger] args[i] == "validate"@),
        stress_fold(args)->Ok_0.simulate_offline <==> (exists|i: int| 0 <= i < args.len() && is_offline_flag(#[trigger] args[i])),
    decreases args.len(),
{
    if args.len() > 0 {
        let init = args.drop_last();
        let last = args.last();
        assert(stress_fold(init) is Ok);
        law_stress_flags(init);
        lemma_flag_text(last);
        let b0 = stress_fold(init)->Ok_0;
        let b = stress_fold(args)->Ok_0;
        assert(b.validate == (b0.validate || last == "validate"@));
        assert(b.simulate_offline == (b0.simulate_offline || is_offline_flag(last)));
        if b0.validate {
            let i = choose|i: int| 0 <= i < init.len() && #[trigger] init[i] == "validate"@;
            assert(args[i] == init[i]);
        }
        if b0.simulate_offline {
            let i = choose|i: int| 0 <= i < init.len() && is_offline_flag(#[trigger] init[i]);
            assert(args[i] == init[i]);
        }
        if last == "validate"@ {
            assert(args[args.len() - 1] == "validate"@);
        }
        if is_offline_flag(last) {
            assert(is_offline_flag(args[args.len() - 1]));
        }
        if exists|i: int| 0 <= i < args.len() && #[trigger] args[i] == "validate"@ {
            let i = choose|i: int| 0 <= i < args.len() && #[trigger] args[i] == "validate"@;
            if i < init.len() {
                assert(init[i] == args[i]);
            }
        }
        if exists|i: int| 0 <= i < args.len() && is_offline_flag(#[trigger] args[i]) {
            let i = choose|i: int| 0 <= i < args.len() && is_offline_flag(#[trigger] args[i]);
            if i < init.len() {
                assert(init[i] == args[i]);
            }
        }
    }
}

/// `-` keeps the default of the next list of `stress`: it is no list itself,
/// and reading it only marks that list as skipped.
pub proof fn law_dash_keeps_default()
    ensures
        parse_list_spec(seq!['-'], u64::MAX as nat) is None,
        stress_step(stress_start(), seq!['-'], 0) == Ok::<StressState, CliError>(
            StressState { robots_skipped: true, ..stress_start() },
        ),
{
    reveal_strlit("validate");
    reveal_strlit("offline");
    reveal_strlit("offline-demo");
    reveal_strlit("--offline-demo");
    assert(seq!['-'].len() != "validate"@.len());
    assert(seq!['-'].len() != "offline"@.len());
    assert(seq!['-'].len() != "offline-demo"@.len());
    assert(seq!['-'].len() != "--offline-demo"@.len());
}

/// What the first argument asks the program to do.
#[derive(PartialEq, Eq, Structural, Debug, Clone, Copy)]
pub enum Command {
    /// No argument: run the demo.
    Demo,
    /// `bench`: one benchmark run.
    Bench,
    /// `stress`: a sweep of benchmark runs.
    Stress,
    /// `--help`, `-h` or `help`: print the usage text.
    Help,
    /// Anything else.
    Unknown,
}

/// The command that `first` names.
pub open spec fn command_of(first: Option<Seq<char>>) -> Command {
    match first {
        None => Command::Demo,
        Some(s) => if s == "bench"@ {
            Command::Bench
        } else if s == "stress"@ {
            Command::Stress
        } else if s == "--help"@ || s == "-h"@ || s == "help"@ {
            Command::Help
        } else {
            Command::Unknown
        },
    }
}

/// Decide the command from the first argument after the program name.
pub fn parse_command(first: Option<&str>) -> (c: Command)
    ensures
        c == command_of(match first {
            Some(s) => Some(s@),
            None => None,
        }),
{
    match first {
        None => Command::Demo,
        Some(s) => {
            let v = to_chars(s);
            if str_eq(&v, "bench") {
                Command::Bench
            } else if str_eq(&v, "stress") {
                Command::Stress
            } else if str_eq(&v, "--help") || str_eq(&v, "-h") || str_eq(&v, "help") {
                Command::Help
            } else {
                Command::Unknown
            }
        },
    }
}

/// The usage text for a program called `program`.
pub open spec fn usage_spec(program: Seq<char>) -> Seq<char> {
    "Project Blaze CLI\nUsage:\n  "@ + program + " (run demo)\n  "@ + program
        + " bench [robots] [tasks_per_robot] [zones] [work_ms] [validate] [offline-demo]\n  "@
        + program + " stress [robot_sets] [task_sets] [zone_sets] [work_ms] [validate] [offline-demo]\n  "@
        + program + " --help\n\n"@
        + "Sets are comma-separated lists (e.g., 1,2,4). Use \"-\" to keep defaults for robot/task/zone sets.\n"@
        + "Omit work_ms to keep its default.\nDefaults:\n"@
        + "  bench  robots=4 tasks_per_robot=25 zones=2 work_ms=5\n"@
        + "  stress robots=1,2,4,8,12 tasks_per_robot=10,25,50 zones=1,2,4 work_ms=5\n"@
        + "Flags:\n  validate       enable extra safety checks\n"@
        + "  offline-demo   simulate a robot going offline (alias: offline)\n"@
}

/// The usage text for a program called `program`, one line per form of
/// the command, then the defaults and the flags.
pub fn usage_text(program: &str) -> (text: String)
    ensures
        text@ == usage_spec(program@),
{
    let mut text = String::from_str("Project Blaze CLI\nUsage:\n  ");
    text.append(program);
    text.append(" (run demo)\n  ");
    text.append(program);
    text.append(" bench [robots] [tasks_per_robot] [zones] [work_ms] [validate] [offline-demo]\n  ");
    text.append(program);
    text.append(" stress [robot_sets] [task_sets] [zone_sets] [work_ms] [validate] [offline-demo]\n  ");
    text.append(program);
    text.append(" --help\n\n");
    text.append("Sets are comma-separated lists (e.g., 1,2,4). Use \"-\" to keep defaults for robot/task/zone sets.\n");
    text.append("Omit work_ms to keep its default.\nDefaults:\n");
    text.append("  bench  robots=4 tasks_per_robot=25 zones=2 work_ms=5\n");
    text.append("  stress robots=1,2,4,8,12 tasks_per_robot=10,25,50 zones=1,2,4 work_ms=5\n");
    text.append("Flags:\n  validate       enable extra safety checks\n");
    text.append("  offline-demo   simulate a robot going offline (alias: offline)\n");
    text
}

} // verus!
