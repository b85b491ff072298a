use check_azkaban::classify::classify;
use check_azkaban::classify::description;
use check_azkaban::classify::error_message;
use check_azkaban::duration::format_duration;
use check_azkaban::finder::find_latest_completed;
use check_azkaban::finder::is_non_terminal;
use check_azkaban::finder::step;
use check_azkaban::finder::Execution;
use check_azkaban::finder::ExecutionPage;
use check_azkaban::finder::FindError;
use check_azkaban::finder::PageDecision;
use check_azkaban::nagios::NagiosService;
use check_azkaban::nagios::NagiosStatus;

fn execution(status: &str, start_time: u64, end_time: u64) -> Execution {
    Execution {
        status: status.to_string(),
        start_time,
        end_time,
    }
}

fn one_page(status: &str) -> ExecutionPage {
    ExecutionPage {
        executions: vec![execution(status, 0, 1)],
    }
}

fn empty_page() -> ExecutionPage {
    ExecutionPage { executions: vec![] }
}

#[test]
fn test_format_duration() {
    assert_eq!("00:00:00.000", format_duration(0));
    assert_eq!("12:34:56.789", format_duration(45296789));
    assert_eq!("123:45:43.210", format_duration(445543210));
}

#[test]
fn format_duration_pads_each_field() {
    assert_eq!("00:00:00.007", format_duration(7));
    assert_eq!("00:00:01.000", format_duration(1000));
    assert_eq!("00:01:00.020", format_duration(60020));
    assert_eq!("01:00:00.000", format_duration(3600000));
    assert_eq!("100:00:00.000", format_duration(360000000));
}

fn reparse(formatted: &str) -> u64 {
    let n = formatted.len();
    let hours: u64 = formatted[..n - 10].parse().unwrap();
    let minutes: u64 = formatted[n - 9..n - 7].parse().unwrap();
    let seconds: u64 = formatted[n - 6..n - 4].parse().unwrap();
    let millis: u64 = formatted[n - 3..].parse().unwrap();
    ((hours * 60 + minutes) * 60 + seconds) * 1000 + millis
}

#[test]
fn format_duration_round_trips() {
    for &t in &[
        0u64,
        1,
        999,
        1000,
        59999,
        60000,
        3599999,
        3600000,
        45296789,
        445543210,
        987654321012,
    ] {
        assert_eq!(t, reparse(&format_duration(t)));
    }
}

#[test]
fn finder_returns_first_terminal() {
    let history = vec![
        one_page("RUNNING"),
        one_page("PAUSED"),
        one_page("SUCCEEDED"),
        one_page("FAILED"),
    ];
    match find_latest_completed(history) {
        Ok(found) => assert_eq!(found.status, "SUCCEEDED"),
        Err(_) => panic!("expected an execution"),
    }
}

#[test]
fn finder_exhausts_non_terminal_history() {
    let history = vec![
        one_page("RUNNING"),
        one_page("READY"),
        one_page("PREPARING"),
        one_page("PAUSED"),
        empty_page(),
    ];
    match find_latest_completed(history) {
        Ok(_) => panic!("expected no execution"),
        Err(error) => assert!(matches!(error, FindError::NotFound)),
    }
}

#[test]
fn finder_reports_not_found_on_empty_history() {
    match find_latest_completed(vec![]) {
        Ok(_) => panic!("expected no execution"),
        Err(error) => assert!(matches!(error, FindError::NotFound)),
    }
    match find_latest_completed(vec![empty_page()]) {
        Ok(_) => panic!("expected no execution"),
        Err(error) => assert!(matches!(error, FindError::NotFound)),
    }
}

#[test]
fn finder_stops_at_empty_page() {
    let history = vec![one_page("RUNNING"), empty_page(), one_page("SUCCEEDED")];
    match find_latest_completed(history) {
        Ok(_) => panic!("expected no execution"),
        Err(error) => assert!(matches!(error, FindError::NotFound)),
    }
}

#[test]
fn step_decides_per_page() {
    assert!(matches!(step(empty_page()), PageDecision::Exhausted));
    assert!(matches!(step(one_page("RUNNING")), PageDecision::KeepLooking));
    match step(one_page("KILLED")) {
        PageDecision::Found(found) => assert_eq!(found.status, "KILLED"),
        _ => panic!("expected a terminal execution"),
    }
}

#[test]
fn non_terminal_statuses() {
    assert!(is_non_terminal("READY"));
    assert!(is_non_terminal("PREPARING"));
    assert!(is_non_terminal("RUNNING"));
    assert!(is_non_terminal("PAUSED"));
    assert!(!is_non_terminal("SUCCEEDED"));
    assert!(!is_non_terminal("FAILED"));
    assert!(!is_non_terminal("KILLED"));
    assert!(!is_non_terminal(""));
}

#[test]
fn classify_succeeded_is_okay() {
    let status = classify(Ok(execution("SUCCEEDED", 1000, 45297789)));
    match status {
        NagiosStatus::Okay(text) => assert_eq!(text, "SUCCEEDED, took 12:34:56.789"),
        _ => panic!("expected Okay"),
    }
}

#[test]
fn classify_failed_is_critical() {
    let status = classify(Ok(execution("FAILED", 1000, 45297789)));
    match status {
        NagiosStatus::Critical(text) => assert_eq!(text, "FAILED, took 12:34:56.789"),
        _ => panic!("expected Critical"),
    }
}

#[test]
fn classify_transport_error_is_unknown() {
    let status = classify(Err(FindError::Transport("connection refused".to_string())));
    match status {
        NagiosStatus::Unknown(text) => assert_eq!(text, "connection refused"),
        _ => panic!("expected Unknown"),
    }
}

#[test]
fn classify_not_found_is_unknown() {
    let status = classify(Err(FindError::NotFound));
    match status {
        NagiosStatus::Unknown(text) => assert_eq!(text, "No completed execution found"),
        _ => panic!("expected Unknown"),
    }
}

#[test]
fn description_saturates_reversed_timestamps() {
    let text = description(&execution("KILLED", 5000, 4000));
    assert_eq!(text, "KILLED, took 00:00:00.000");
}

#[test]
fn error_messages() {
    assert_eq!(
        error_message(&FindError::Transport("no route".to_string())),
        "no route"
    );
    assert_eq!(
        error_message(&FindError::NotFound),
        "No completed execution found"
    );
}

#[test]
fn render_okay_report() {
    let service = NagiosService::new("Azkaban");
    let (code, line) = service.render(&NagiosStatus::Okay("all good".to_string()));
    assert_eq!(code, 0);
    assert_eq!(line, "Azkaban OK: all good");
}

#[test]
fn render_warning_report() {
    let service = NagiosService::new("Azkaban");
    let (code, line) = service.render(&NagiosStatus::Warning("degraded".to_string()));
    assert_eq!(code, 1);
    assert_eq!(line, "Azkaban WARNING: degraded");
}

#[test]
fn render_critical_report() {
    let service = NagiosService::new("Azkaban");
    let (code, line) = service.render(&NagiosStatus::Critical("flow failed".to_string()));
    assert_eq!(code, 2);
    assert_eq!(line, "Azkaban CRITICAL: flow failed");
}

#[test]
fn render_unknown_report() {
    let service = NagiosService::new("Azkaban");
    let (code, line) = service.render(&NagiosStatus::Unknown("cannot reach service".to_string()));
    assert_eq!(code, 3);
    assert_eq!(line, "Azkaban UNKNOWN: cannot reach service");
}

#[test]
fn end_to_end_report_for_failed_flow() {
    let history = vec![one_page("RUNNING"), ExecutionPage {
        executions: vec![execution("FAILED", 0, 754)],
    }];
    let status = classify(find_latest_completed(history));
    let service = NagiosService::new("Azkaban");
    let (code, line) = service.render(&status);
    assert_eq!(code, 2);
    assert_eq!(line, "Azkaban CRITICAL: FAILED, took 00:00:00.754");
}
