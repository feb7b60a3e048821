//! Layout of debug log lines: the leading `[TAG]` padded to a fixed column,
//! and the colour chosen from what the line reports.
use vstd::prelude::*;
use vstd::string::{StrSliceExecFns, StringExecFns};
use crate::text::to_chars;

verus! {

/// Width of the tag column.
pub const TAG_WIDTH: usize = 8;

/// Whether `pat` occurs in `s`.
pub open spec fn contains_text(s: Seq<char>, pat: Seq<char>) -> bool {
    exists|i: int| 0 <= i && i + pat.len() <= s.len() && #[trigger] s.subrange(i, i + pat.len()) == pat
}

/// Position of the first `]` in `s`, if any.
pub open spec fn first_bracket(s: Seq<char>) -> Option<int> {
    if exists|i: int| 0 <= i < s.len() && s[i] == ']' {
        Some(choose|i: int| 0 <= i < s.len() && s[i] == ']' && forall|j: int| 0 <= j < i ==> s[j] != ']')
    } else {
        None
    }
}

/// `n` spaces.
pub open spec fn spaces(n: nat) -> Seq<char> {
    Seq::new(n, |i: int| ' ')
}

/// The line with everything up to its first `]` padded with spaces to the
/// tag width; unchanged without a `]`.
pub open spec fn padded_line(s: Seq<char>) -> Seq<char> {
    match first_bracket(s) {
        None => s,
        Some(e) => {
            let tag = s.take(e + 1);
            let pad = if tag.len() < TAG_WIDTH { (TAG_WIDTH - tag.len()) as nat } else { 0 };
            tag + spaces(pad) + s.skip(e + 1)
        },
    }
}

/// The colour of a log line.
#[derive(PartialEq, Eq, Structural, Debug, Clone, Copy)]
pub enum LogColor {
    Cyan,
    Yellow,
    Red,
    Green,
    Gray,
}

/// Queue lines are cyan, zone lines yellow, offline news red, other health
/// lines green, and the rest gray.
pub open spec fn color_of(s: Seq<char>) -> LogColor {
    if contains_text(s, "[QUEUE]"@) {
        LogColor::Cyan
    } else if contains_text(s, "[ZONE]"@) {
        LogColor::Yellow
    } else if contains_text(s, "offline"@) || contains_text(s, "stops heartbeats"@) {
        LogColor::Red
    } else if contains_text(s, "[HEALTH]"@) {
        LogColor::Green
    } else {
        LogColor::Gray
    }
}

/// Whether `pat` occurs in `s`.
fn contains_chars(s: &Vec<char>, pat: &str) -> (b: bool)
    ensures
        b == contains_text(s@, pat@),
{
    let p = to_chars(pat);
    if p.len() > s.len() {
        return false;
    }
    let last = s.len() - p.len();
    let mut i: usize = 0;
    while i <= last
        invariant
            last == s@.len() - p@.len(),
            s@.len() <= usize::MAX,
            p@ == pat@,
            p@.len() <= s@.len(),
            i <= s@.len() - p@.len() + 1,
            forall|k: int| 0 <= k < i ==> #[trigger] s@.subrange(k, k + p@.len()) != p@,
        decreases last + 1 - i,
    {
        let mut j: usize = 0;
        let mut same = true;
        while j < p.len()
            invariant
                i + p@.len() <= s@.len(),
                s@.len() <= usize::MAX,
                j <= p@.len(),
                same == (forall|k: int| 0 <= k < j ==> s@[i + k] == p@[k]),
            decreases p@.len() - j,
        {
            if s[i + j] != p[j] {
                same = false;
            }
            j = j + 1;
        }
        if same {
            assert(s@.subrange(i as int, i + p@.len()) =~= p@);
            return true;
        }
        proof {
            let k = choose|k: int| 0 <= k < p@.len() && s@[i + k] != p@[k];
            assert(s@.subrange(i as int, i + p@.len())[k] != p@[k]);
        }
        i = i + 1;
    }
    false
}

/// The colour of the log line `msg`.
pub fn log_color(msg: &str) -> (c: LogColor)
    ensures
        c == color_of(msg@),
{
    let v = to_chars(msg);
    if contains_chars(&v, "[QUEUE]") {
        LogColor::Cyan
    } else if contains_chars(&v, "[ZONE]") {
        LogColor::Yellow
    } else if contains_chars(&v, "offline") || contains_chars(&v, "stops heartbeats") {
        LogColor::Red
    } else if contains_chars(&v, "[HEALTH]") {
        LogColor::Green
    } else {
        LogColor::Gray
    }
}

/// `msg` with its leading tag, up to the first `]`, padded to the tag width.
pub fn pad_tag(msg: &str) -> (line: String)
    ensures
        line@ == padded_line(msg@),
{
    let v = to_chars(msg);
    let mut e: usize = 0;
    while e < v.len() && v[e] != ']'
        invariant
            e <= v@.len(),
            v@ == msg@,
            forall|j: int| 0 <= j < e ==> v@[j] != ']',
        decreases v@.len() - e,
    {
        e = e + 1;
    }
    if e == v.len() {
        assert(!(exists|i: int| 0 <= i < v@.len() && v@[i] == ']'));
        return String::from_str(msg);
    }
    proof {
        let w = choose|i: int| 0 <= i < v@.len() && v@[i] == ']' && forall|j: int| 0 <= j < i ==> v@[j] != ']';
        assert(v@[e as int] == ']');
        if w < e {
            assert(v@[w] != ']');
        } else if w > e {
            assert(v@[e as int] != ']');
        }
        assert(first_bracket(msg@) == Some(e as int));
    }
    let mut line = String::from_str(msg.substring_char(0, e + 1));
    let mut width = e + 1;
    let ghost tag = msg@.take(e + 1);
    assert(msg@.subrange(0, e + 1) =~= tag);
    while width < TAG_WIDTH
        invariant
            e + 1 <= width,
            e + 1 < TAG_WIDTH ==> width <= TAG_WIDTH,
            e + 1 >= TAG_WIDTH ==> width == e + 1,
            tag.len() == e + 1,
            line@ == tag + spaces((width - (e + 1)) as nat),
        decreases TAG_WIDTH - width,
    {
        line.append(" ");
        proof {
            reveal_strlit(" ");
            assert(tag + spaces((width + 1 - (e + 1)) as nat) =~= tag + spaces((width - (e + 1)) as nat) + " "@);
        }
        width = width + 1;
    }
    let ghost pad: nat = if tag.len() < TAG_WIDTH { (TAG_WIDTH - tag.len()) as nat } else { 0 };
    assert(spaces((width - (e + 1)) as nat) =~= spaces(pad));
    line.append(msg.substring_char(e + 1, v.len()));
    assert(msg@.subrange(e + 1, msg@.len() as int) =~= msg@.skip(e + 1));
    line
}

} // verus!
