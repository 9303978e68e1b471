use report_crawler::crawl::{Action, Crawler, Event, Outcome, Phase};
use report_crawler::failure_log::{entry_text, FailureLog};
use report_crawler::fetch::{check_status, cookie_lines, cookie_lines_for_domain, request_headers, FetchError};
use report_crawler::period::{periods_between, Period};
use report_crawler::text::{append_decimal, append_zero_padded, decimal_len};

fn p(year: i32, month: u32) -> Period {
    Period::new(year, month).unwrap()
}

fn names(files: &[&str]) -> Vec<String> {
    files.iter().map(|f| f.to_string()).collect()
}

fn crawler(files: &[&str], start: Period, last: Period) -> Crawler {
    Crawler::new(
        "https://data.example.org/CF/".to_string(),
        "reports".to_string(),
        names(files),
        start,
        last,
    )
}

#[test]
fn window_includes_both_endpoints() {
    let w = periods_between(p(2012, 3), p(2012, 5));
    assert_eq!(w, vec![p(2012, 3), p(2012, 4), p(2012, 5)]);
}

#[test]
fn window_across_year_end_is_gapless() {
    let w = periods_between(p(2012, 11), p(2013, 2));
    assert_eq!(w, vec![p(2012, 11), p(2012, 12), p(2013, 1), p(2013, 2)]);
}

#[test]
fn window_of_one_month() {
    assert_eq!(periods_between(p(2020, 7), p(2020, 7)), vec![p(2020, 7)]);
}

#[test]
fn window_reversed_is_empty() {
    assert!(periods_between(p(2012, 5), p(2012, 3)).is_empty());
}

#[test]
fn month_rollover() {
    assert_eq!(p(2012, 12).next(), p(2013, 1));
    assert_eq!(p(2012, 3).next(), p(2012, 4));
}

#[test]
fn invalid_month_is_rejected() {
    assert!(Period::new(2012, 0).is_none());
    assert!(Period::new(2012, 13).is_none());
}

#[test]
fn order_is_lexicographic() {
    assert!(p(2012, 12).is_not_after(&p(2013, 1)));
    assert!(p(2013, 1).is_not_after(&p(2013, 1)));
    assert!(!p(2013, 2).is_not_after(&p(2013, 1)));
}

#[test]
fn directory_names_are_zero_padded() {
    assert_eq!(p(2012, 3).dir_name(), "2012_03");
    assert_eq!(p(2024, 11).dir_name(), "2024_11");
    assert_eq!(p(7, 1).dir_name(), "0007_01");
    assert_eq!(p(12345, 6).dir_name(), "12345_06");
    assert_eq!(p(-5, 2).dir_name(), format!("{:04}_{:02}", -5, 2));
}

#[test]
fn decimal_rendering() {
    let mut s = String::from("n=");
    append_decimal(&mut s, 0);
    assert_eq!(s, "n=0");
    let mut s = String::new();
    append_decimal(&mut s, u64::MAX);
    assert_eq!(s, u64::MAX.to_string());
    let mut s = String::new();
    append_zero_padded(&mut s, 42, 5);
    assert_eq!(s, "00042");
    assert_eq!(decimal_len(1000), 4);
}

#[test]
fn bootstrap_failure_records_one_line_and_skips_files() {
    let mut c = crawler(&["A", "B"], p(2012, 3), p(2012, 4));
    match c.pending() {
        Action::Bootstrap(u) => assert_eq!(u, "https://data.example.org/CF/2012_03/"),
        _ => panic!("expected a bootstrap"),
    }
    let records = c.handle(Event::BootstrapFailed);
    assert_eq!(records, vec!["Failed to load https://data.example.org/CF/2012_03/".to_string()]);
    assert_eq!(c.state.phase, Phase::Bootstrapping);
    assert_eq!(c.state.current, p(2012, 4));
    match c.pending() {
        Action::Bootstrap(u) => assert_eq!(u, "https://data.example.org/CF/2012_04/"),
        _ => panic!("expected a bootstrap"),
    }
}

#[test]
fn one_failed_file_records_only_its_url() {
    let mut c = crawler(&["A", "B", "C"], p(2012, 3), p(2012, 3));
    assert!(c.handle(Event::BootstrapSucceeded).is_empty());
    let jobs = match c.pending() {
        Action::Fetch(jobs) => jobs,
        _ => panic!("expected fetches"),
    };
    assert_eq!(jobs.len(), 3);
    let outcomes = vec![
        Outcome::Saved(jobs[0].path.clone()),
        Outcome::Failed(jobs[1].url.clone(), "HTTP 500".to_string()),
        Outcome::Saved(jobs[2].path.clone()),
    ];
    let records = c.handle(Event::FetchesFinished(outcomes));
    assert_eq!(records, vec!["https://data.example.org/CF/2012_03/B".to_string()]);
    assert!(c.is_finished());
    assert!(matches!(c.pending(), Action::Finished));
}

#[test]
fn end_to_end_scenario() {
    let mut c = crawler(&["A", "B"], p(2012, 3), p(2012, 3));
    assert!(c.handle(Event::BootstrapSucceeded).is_empty());
    let jobs = match c.pending() {
        Action::Fetch(jobs) => jobs,
        _ => panic!("expected fetches"),
    };
    assert_eq!(jobs[0].url, "https://data.example.org/CF/2012_03/A");
    assert_eq!(jobs[0].path, "reports/2012_03/A");
    assert_eq!(jobs[1].url, "https://data.example.org/CF/2012_03/B");
    assert_eq!(jobs[1].path, "reports/2012_03/B");
    let cookies = vec![("sid".to_string(), "abc".to_string())];
    assert_eq!(
        cookie_lines(&cookies, &jobs[0].url).unwrap(),
        vec!["sid=abc; Domain=data.example.org".to_string()]
    );
    assert!(check_status(200).is_ok());
    assert_eq!(check_status(404), Err(FetchError::HttpStatus(404)));
    let outcomes = vec![
        Outcome::Saved(jobs[0].path.clone()),
        Outcome::Failed(jobs[1].url.clone(), "HTTP 404".to_string()),
    ];
    let records = c.handle(Event::FetchesFinished(outcomes));
    assert_eq!(records, vec!["https://data.example.org/CF/2012_03/B".to_string()]);
    let mut log = FailureLog::new();
    for r in &records {
        log.record(r);
    }
    assert_eq!(log.contents(), "https://data.example.org/CF/2012_03/B\n");
}

#[test]
fn crawl_visits_each_period_once_then_finishes() {
    let mut c = crawler(&["A"], p(2012, 11), p(2013, 1));
    let mut seen = Vec::new();
    while !c.is_finished() {
        seen.push(c.state.current);
        c.handle(Event::BootstrapSucceeded);
        c.handle(Event::FetchesFinished(vec![]));
    }
    assert_eq!(seen, vec![p(2012, 11), p(2012, 12), p(2013, 1)]);
}

#[test]
fn empty_window_is_finished_at_once() {
    let c = crawler(&["A"], p(2013, 1), p(2012, 12));
    assert!(c.is_finished());
    assert!(matches!(c.pending(), Action::Finished));
}

#[test]
fn events_out_of_turn_change_nothing() {
    let mut c = crawler(&["A"], p(2012, 3), p(2012, 3));
    let records = c.handle(Event::FetchesFinished(vec![Outcome::Failed("x".to_string(), "y".to_string())]));
    assert!(records.is_empty());
    assert_eq!(c.state.phase, Phase::Bootstrapping);
    c.handle(Event::BootstrapSucceeded);
    assert!(c.handle(Event::BootstrapFailed).is_empty());
    assert_eq!(c.state.phase, Phase::Fetching);
}

#[test]
fn starting_now_covers_through_this_month() {
    let c = Crawler::starting_now("b/".to_string(), "r".to_string(), names(&["A"]), p(2012, 3));
    assert_eq!(c.state.current, p(2012, 3));
    assert!(c.state.last.month >= 1 && c.state.last.month <= 12);
    assert!(c.state.last.year >= 2024);
    assert_eq!(c.state.phase, Phase::Bootstrapping);
}

#[test]
fn cookies_bound_to_domain() {
    let cookies = vec![("sid".to_string(), "abc".to_string()), ("k".to_string(), "v=1".to_string())];
    assert_eq!(
        cookie_lines_for_domain(&cookies, "example.com"),
        vec!["sid=abc; Domain=example.com".to_string(), "k=v=1; Domain=example.com".to_string()]
    );
    assert!(cookie_lines_for_domain(&vec![], "example.com").is_empty());
}

#[test]
fn cookies_need_a_domain() {
    let cookies = vec![("sid".to_string(), "abc".to_string())];
    assert_eq!(cookie_lines(&cookies, "not a url"), Err(FetchError::NoDomain));
    assert_eq!(cookie_lines(&cookies, "http://127.0.0.1/file"), Err(FetchError::NoDomain));
    assert_eq!(
        cookie_lines(&cookies, "https://Apps.Example.org/CF/2012_03/A").unwrap(),
        vec!["sid=abc; Domain=apps.example.org".to_string()]
    );
}

#[test]
fn headers_resemble_a_browser() {
    let h = request_headers("https://x.org/f");
    assert_eq!(h.len(), 6);
    assert_eq!(h[4], ("referer".to_string(), "https://x.org/f".to_string()));
    assert_eq!(h[3], ("connection".to_string(), "keep-alive".to_string()));
    assert!(h[0].1.starts_with("Mozilla/5.0"));
}

#[test]
fn status_classes() {
    assert!(check_status(200).is_ok());
    assert!(check_status(299).is_ok());
    assert_eq!(check_status(199), Err(FetchError::HttpStatus(199)));
    assert_eq!(check_status(300), Err(FetchError::HttpStatus(300)));
    assert_eq!(check_status(404), Err(FetchError::HttpStatus(404)));
}

#[test]
fn log_keeps_each_record_whole() {
    let mut log = FailureLog::new();
    log.record("Failed to load u/2012_03/");
    log.record("u/2012_04/A");
    log.record("u/2012_04/B");
    let text = log.contents();
    assert_eq!(text, "Failed to load u/2012_03/\nu/2012_04/A\nu/2012_04/B\n");
    assert_eq!(text.matches('\n').count(), 3);
    assert_eq!(entry_text("abc"), "abc\n");
}
