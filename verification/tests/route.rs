use tally::format::Format;
use tally::model::NewRun;
use tally::route::{is_acceptable, queued_reply, record_step, report_reply, run_step, RecordStep, RunStep};

fn run(kind: &str, host: &str) -> NewRun {
    NewRun {
        kind: kind.to_string(),
        host: host.to_string(),
        duration_ms: 91500,
        detail: "null".to_string(),
    }
}

#[test]
fn kind_and_host_are_required() {
    assert!(is_acceptable(&run("behave", "runner01")));
    assert!(!is_acceptable(&run("", "runner01")));
    assert!(!is_acceptable(&run("behave", "")));
    match record_step(&run("", "")) {
        RecordStep::Reject(r) => {
            assert_eq!(r.status, 400);
            assert_eq!(r.body, "kind and host are required");
            assert_eq!(r.content_type, Some("text/plain; charset=utf-8"));
        }
        RecordStep::Enqueue => panic!("an empty kind must be refused"),
    }
    assert!(matches!(record_step(&run("lint", "crow")), RecordStep::Enqueue));
}

#[test]
fn limits_are_in_bytes() {
    assert!(is_acceptable(&run(&"k".repeat(64), "h")));
    assert!(!is_acceptable(&run(&"k".repeat(65), "h")));
    assert!(is_acceptable(&run("k", &"h".repeat(128))));
    assert!(!is_acceptable(&run("k", &"h".repeat(129))));
    // 33 two-byte characters: 33 chars, 66 bytes.
    assert!(!is_acceptable(&run(&"é".repeat(33), "h")));
    assert!(is_acceptable(&run(&"é".repeat(32), "h")));
}

#[test]
fn queued_is_accepted_gone_mapper_is_error() {
    let ok = queued_reply(true);
    assert_eq!(ok.status, 202);
    assert!(ok.body.is_empty() && ok.content_type.is_none());
    assert_eq!(queued_reply(false).status, 500);
}

#[test]
fn report_reply_serves_negotiated_type() {
    let r = report_reply(Format::Json, Some("{}".to_string()));
    assert_eq!(r.status, 200);
    assert_eq!(r.content_type, Some("application/json"));
    assert_eq!(r.body, "{}");
    let h = report_reply(Format::Html, Some("<p/>".to_string()));
    assert_eq!(h.content_type, Some("text/html; charset=utf-8"));
    let e = report_reply(Format::Json, None);
    assert_eq!(e.status, 500);
    assert!(e.content_type.is_none() && e.body.is_empty());
}

#[test]
fn report_not_fetched_is_an_error() {
    match run_step(false, "/run.json", None) {
        RunStep::Answer(r) => {
            assert_eq!(r.status, 500);
            assert!(r.content_type.is_none() && r.body.is_empty());
        }
        RunStep::Serve(_) => panic!("nothing to serve"),
    }
    assert!(matches!(run_step(true, "/run.json", None), RunStep::Serve(Format::Json)));
    assert!(matches!(run_step(true, "/run", Some("text/html")), RunStep::Serve(Format::Html)));
}
