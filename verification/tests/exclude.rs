use talpid_firewall::exclude::{advance, cgroup_entry, error_report, parse_args, start, usage};
use talpid_firewall::exclude::{Error, Event, Stage, CGROUP_PROCS_PATH};

fn argv(args: &[&str]) -> Vec<Vec<u8>> {
    args.iter().map(|arg| arg.as_bytes().to_vec()).collect()
}

#[test]
fn program_and_arguments_are_split() {
    let launch = parse_args::<i32>(&argv(&["mullvad-exclude", "curl", "-s", "host"])).unwrap();
    assert_eq!(launch.program, b"curl".to_vec());
    assert_eq!(launch.args, argv(&["curl", "-s", "host"]));
}

#[test]
fn program_is_required() {
    assert!(matches!(
        parse_args::<i32>(&argv(&["mullvad-exclude"])),
        Err(Error::InvalidArguments)
    ));
    assert!(matches!(parse_args::<i32>(&argv(&[])), Err(Error::InvalidArguments)));
}

#[test]
fn cgroup_entry_is_the_pid_in_decimal() {
    for pid in [0, 1, 9, 10, 99, 100, 32768, 4194304, i32::MAX, -1, -10, i32::MIN] {
        assert_eq!(cgroup_entry(pid), pid.to_string().into_bytes());
    }
    assert_eq!(cgroup_entry(1234), b"1234".to_vec());
}

#[test]
fn cgroup_path() {
    assert_eq!(CGROUP_PROCS_PATH, "/sys/fs/cgroup/net_cls/mullvad-exclusions/cgroup.procs");
}

#[test]
fn exec_comes_after_privileges_are_dropped() {
    let mut stage = start();
    let mut seen = vec![stage];
    let events: Vec<Event<i32>> = vec![
        Event::Added(Ok(())),
        Event::Uid(1000),
        Event::UidSet(Ok(())),
        Event::Gid(100),
        Event::GidSet(Ok(())),
    ];
    for event in events {
        stage = advance(stage, event).unwrap();
        seen.push(stage);
    }
    assert_eq!(
        seen,
        vec![
            Stage::AddProcToCGroup,
            Stage::GetUid,
            Stage::SetUid(1000),
            Stage::GetGid,
            Stage::SetGid(100),
            Stage::Exec,
        ]
    );
}

#[test]
fn failures_end_the_launch() {
    let cause = std::io::Error::from_raw_os_error(2);
    match advance::<i32>(Stage::AddProcToCGroup, Event::Added(Err(cause))) {
        Err(Error::AddProcToCGroup(cause)) => assert_eq!(cause.raw_os_error(), Some(2)),
        other => panic!("unexpected: {:?}", other),
    }
    assert!(matches!(advance(Stage::SetUid(1), Event::UidSet(Err(3))), Err(Error::SetUid(3))));
    assert!(matches!(advance(Stage::SetGid(1), Event::GidSet(Err(4))), Err(Error::SetGid(4))));
    assert!(matches!(advance(Stage::Exec, Event::ExecFailed(5)), Err(Error::Exec(5))));
}

#[test]
fn messages() {
    assert_eq!(Error::<i32>::InvalidArguments.message(), "Invalid arguments");
    let cause = std::io::Error::from_raw_os_error(2);
    assert_eq!(Error::<i32>::AddProcToCGroup(cause).message(), "Cannot set the cgroup");
    assert_eq!(Error::SetUid(1).message(), "Cannot set the uid");
    assert_eq!(Error::SetGid(1).message(), "Cannot set the gid");
    assert_eq!(Error::Exec(1).message(), "Failed to launch the process");
}

#[test]
fn usage_names_the_program() {
    assert_eq!(usage("mullvad-exclude"), "Usage: mullvad-exclude <command>");
}

#[test]
fn report_lists_all_causes() {
    assert_eq!(error_report("Top", &vec![]), "Top");
    assert_eq!(
        error_report("Top", &vec!["first".to_string(), "second".to_string()]),
        "Top\nCaused by: first\nCaused by: second"
    );
}
