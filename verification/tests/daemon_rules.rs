use sync_client::daemon::{choose_rclone_binary, rclone_install_locations, BinarySource};
use sync_client::daemon::{daemon_args, readiness, start_decision, ProcessProbe, Readiness, StartDecision};

#[test]
fn daemon_arguments() {
    assert_eq!(
        daemon_args(),
        vec!["rcd", "--rc-addr=127.0.0.1:5572", "--rc-no-auth", "--rc-allow-origin=*", "--use-json-log"]
    );
}

#[test]
fn start_decisions() {
    assert_eq!(start_decision(ProcessProbe::NoProcess), StartDecision::Spawn);
    assert_eq!(start_decision(ProcessProbe::Exited), StartDecision::Spawn);
    assert_eq!(start_decision(ProcessProbe::Running), StartDecision::AlreadyRunning);
    assert_eq!(start_decision(ProcessProbe::Unknown), StartDecision::Fail);
}

#[test]
fn readiness_waits_fifteen_seconds() {
    assert_eq!(readiness(0, true), Readiness::Ready(500));
    assert_eq!(readiness(29, true), Readiness::Ready(15000));
    assert_eq!(readiness(0, false), Readiness::Retry);
    assert_eq!(readiness(28, false), Readiness::Retry);
    assert_eq!(readiness(29, false), Readiness::GiveUp);
}

#[test]
fn rclone_program_is_chosen_in_order_of_preference() {
    assert_eq!(rclone_install_locations(false), vec!["/usr/local/bin/rclone", "/usr/bin/rclone", "/opt/homebrew/bin/rclone"]);
    assert_eq!(rclone_install_locations(true), vec!["C:\\Program Files\\rclone\\rclone.exe", "C:\\rclone\\rclone.exe"]);
    assert!(matches!(choose_rclone_binary(true, Some("/x/rclone".to_string()), &vec![true]), BinarySource::Bundled));
    match choose_rclone_binary(false, Some("/x/rclone".to_string()), &vec![true]) {
        BinarySource::OnPath(p) => assert_eq!(p, "/x/rclone"),
        other => panic!("expected the search path's rclone, got {:?}", other),
    }
    assert!(matches!(choose_rclone_binary(false, Some(String::new()), &vec![false, true, true]), BinarySource::Installed(1)));
    assert!(matches!(choose_rclone_binary(false, None, &vec![true, true, false]), BinarySource::Installed(0)));
    assert!(matches!(choose_rclone_binary(false, None, &vec![false, false, false]), BinarySource::BareName));
    assert!(matches!(choose_rclone_binary(false, None, &vec![]), BinarySource::BareName));
}
