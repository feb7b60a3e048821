use project_blaze::cli::{
    parse_bench_args, parse_command, parse_common_flag, parse_list, parse_stress_args,
    parse_u64_list, parse_usize_list, usage_text, ArgField, BenchArgs, CliError, Command,
};

fn args(list: &[&str]) -> Vec<String> {
    list.iter().map(|s| s.to_string()).collect()
}

#[test]
fn lists_parse_trimmed_numbers() {
    assert_eq!(parse_u64_list("1,2,4"), Some(vec![1, 2, 4]));
    assert_eq!(parse_u64_list(" 8 , +12\t"), Some(vec![8, 12]));
    assert_eq!(parse_usize_list("10,25,50"), Some(vec![10, 25, 50]));
    assert_eq!(parse_u64_list("18446744073709551615"), Some(vec![u64::MAX]));
    assert_eq!(parse_list("300", 255), None);
    assert_eq!(parse_list("255", 255), Some(vec![255]));
}

#[test]
fn lists_round_trip_through_decimal_text() {
    let v: Vec<u64> = vec![0, 7, 42, 1000, u64::MAX];
    let text = v.iter().map(|x| x.to_string()).collect::<Vec<_>>().join(",");
    assert_eq!(parse_u64_list(&text), Some(v));
    let w: Vec<usize> = vec![12];
    let text = w.iter().map(|x| x.to_string()).collect::<Vec<_>>().join(",");
    assert_eq!(parse_usize_list(&text), Some(w));
}

#[test]
fn lists_refuse_bad_pieces() {
    assert_eq!(parse_u64_list("-"), None);
    assert_eq!(parse_u64_list(""), None);
    assert_eq!(parse_u64_list("1,,2"), None);
    assert_eq!(parse_u64_list("1,"), None);
    assert_eq!(parse_u64_list(" , 1"), None);
    assert_eq!(parse_u64_list("1,x"), None);
    assert_eq!(parse_u64_list("-1"), None);
    assert_eq!(parse_u64_list("+"), None);
    assert_eq!(parse_u64_list("18446744073709551616"), None);
    assert_eq!(parse_u64_list("1 2"), None);
}

#[test]
fn common_flags() {
    let mut validate = false;
    let mut offline = false;
    assert!(parse_common_flag("validate", &mut validate, &mut offline));
    assert!(validate && !offline);
    for flag in ["offline", "offline-demo", "--offline-demo"] {
        let mut validate = false;
        let mut offline = false;
        assert!(parse_common_flag(flag, &mut validate, &mut offline));
        assert!(!validate && offline);
    }
    let mut validate = false;
    let mut offline = false;
    assert!(!parse_common_flag("--validate", &mut validate, &mut offline));
    assert!(!parse_common_flag("4", &mut validate, &mut offline));
    assert!(!validate && !offline);
}

#[test]
fn bench_args_positional_and_flags() {
    assert_eq!(
        parse_bench_args(&args(&["8", "validate", "10", "3", "offline", "0"])),
        Ok(BenchArgs {
            robots: Some(8),
            tasks_per_robot: Some(10),
            zones: Some(3),
            work_ms: Some(0),
            validate: true,
            simulate_offline: true,
        })
    );
    assert_eq!(
        parse_bench_args(&args(&[])),
        Ok(BenchArgs {
            robots: None,
            tasks_per_robot: None,
            zones: None,
            work_ms: None,
            validate: false,
            simulate_offline: false,
        })
    );
}

#[test]
fn bench_args_errors() {
    assert_eq!(
        parse_bench_args(&args(&["x"])),
        Err(CliError::Invalid { field: ArgField::Robots, index: 0 })
    );
    assert_eq!(
        parse_bench_args(&args(&["0"])),
        Err(CliError::NotPositive { field: ArgField::Robots })
    );
    assert_eq!(
        parse_bench_args(&args(&["2", "0"])),
        Err(CliError::NotPositive { field: ArgField::TasksPerRobot })
    );
    assert_eq!(
        parse_bench_args(&args(&["2", "3", "validate", "0"])),
        Err(CliError::NotPositive { field: ArgField::Zones })
    );
    assert_eq!(
        parse_bench_args(&args(&["2", "3", "4", "5ms"])),
        Err(CliError::Invalid { field: ArgField::WorkMs, index: 3 })
    );
    assert_eq!(
        parse_bench_args(&args(&["2", "3", "4", "5", "6"])),
        Err(CliError::Unexpected { index: 4 })
    );
    // The first error wins.
    assert_eq!(
        parse_bench_args(&args(&["2", "y", "0"])),
        Err(CliError::Invalid { field: ArgField::TasksPerRobot, index: 1 })
    );
}

#[test]
fn stress_args_lists_and_skips() {
    let parsed = parse_stress_args(&args(&["-", "10,20", "0,2", "7", "validate"])).ok().unwrap();
    assert_eq!(parsed.robot_sets, None);
    assert_eq!(parsed.task_sets, Some(vec![10, 20]));
    assert_eq!(parsed.zone_sets, Some(vec![2]));
    assert_eq!(parsed.dropped_zone_sets, 1);
    assert_eq!(parsed.work_ms, Some(7));
    assert!(parsed.validate);
    assert!(!parsed.simulate_offline);

    let parsed = parse_stress_args(&args(&["offline-demo"])).ok().unwrap();
    assert_eq!(parsed.robot_sets, None);
    assert_eq!(parsed.zone_sets, None);
    assert!(parsed.simulate_offline);
}

#[test]
fn stress_args_errors() {
    assert_eq!(
        parse_stress_args(&args(&["1,0"])).err(),
        Some(CliError::NotPositive { field: ArgField::RobotSets })
    );
    assert_eq!(
        parse_stress_args(&args(&["1", "a"])).err(),
        Some(CliError::Invalid { field: ArgField::TaskSets, index: 1 })
    );
    assert_eq!(
        parse_stress_args(&args(&["1", "-", "x"])).err(),
        Some(CliError::Invalid { field: ArgField::ZoneSets, index: 2 })
    );
    assert_eq!(
        parse_stress_args(&args(&["1", "-", "0,0"])).err(),
        Some(CliError::NoZoneSetsLeft { dropped: 2 })
    );
    assert_eq!(
        parse_stress_args(&args(&["-", "-", "-", "5", "6"])).err(),
        Some(CliError::Unexpected { index: 4 })
    );
    assert_eq!(
        parse_stress_args(&args(&["-", "-", "-", "-"])).err(),
        Some(CliError::Invalid { field: ArgField::WorkMs, index: 3 })
    );
}

#[test]
fn commands() {
    assert_eq!(parse_command(None), Command::Demo);
    assert_eq!(parse_command(Some("bench")), Command::Bench);
    assert_eq!(parse_command(Some("stress")), Command::Stress);
    assert_eq!(parse_command(Some("--help")), Command::Help);
    assert_eq!(parse_command(Some("-h")), Command::Help);
    assert_eq!(parse_command(Some("help")), Command::Help);
    assert_eq!(parse_command(Some("run")), Command::Unknown);
}

#[test]
fn usage_mentions_program_and_defaults() {
    let text = usage_text("blaze");
    assert!(text.starts_with("Project Blaze CLI\nUsage:\n  blaze (run demo)\n"));
    assert!(text.contains("  blaze bench [robots] [tasks_per_robot] [zones] [work_ms] [validate] [offline-demo]\n"));
    assert!(text.contains("  bench  robots=4 tasks_per_robot=25 zones=2 work_ms=5\n"));
    assert!(text.ends_with("  offline-demo   simulate a robot going offline (alias: offline)\n"));
    assert_eq!(text.lines().count(), 15);
}
