use tally::config::Config;
use tally::model::NewRun;
use tally::store::{detail_or_null, detail_or_null_from, insert_row, run_row, StoreError};

#[test]
fn detail_is_compacted_json_or_null() {
    assert_eq!(detail_or_null("{\"scenarios\": 142, \"failed\": 3}"), "{\"failed\":3,\"scenarios\":142}");
    assert_eq!(detail_or_null("null"), "null");
    assert_eq!(detail_or_null("{not json"), "null");
    assert_eq!(detail_or_null(""), "null");
    assert_eq!(detail_or_null_from(None), "null");
    assert_eq!(detail_or_null_from(Some("[1]".to_string())), "[1]");
}

#[test]
fn stored_row_becomes_report_row() {
    let r = run_row(
        "2024-05-01 10:00:00".to_string(),
        "behave".to_string(),
        "crow".to_string(),
        91500,
        "{\"failed\":3}",
    );
    assert_eq!(r.host, "crow");
    assert_eq!(r.kind, "behave");
    assert_eq!(r.duration_ms, 91500);
    assert_eq!(r.detail, "{\"failed\":3}");
    let corrupt = run_row(String::new(), "k".into(), "h".into(), 1, "\u{1}garbage");
    assert_eq!(corrupt.detail, "null");
}

#[test]
fn insert_row_binds_the_run() {
    let run = NewRun {
        kind: "lint".into(),
        host: "crow".into(),
        duration_ms: 1200,
        detail: "null".into(),
    };
    let row = insert_row(&run).unwrap();
    assert_eq!(row.kind, "lint");
    assert_eq!(row.host, "crow");
    assert_eq!(row.duration_ms, 1200);
    assert_eq!(row.detail, "null");
    let huge = NewRun { duration_ms: u64::MAX, ..run.clone() };
    assert_eq!(insert_row(&huge), Err(StoreError::DurationOutOfRange));
    let edge = NewRun { duration_ms: i64::MAX as u64, ..run };
    assert_eq!(insert_row(&edge).unwrap().duration_ms, i64::MAX);
}

#[test]
fn config_defaults() {
    let c = Config::from_vars(None, None);
    assert_eq!(c.bind_addr, "0.0.0.0:8080");
    assert_eq!(c.db_path, "tally.sqlite");
    let d = Config::from_vars(Some("127.0.0.1:9".into()), Some(":memory:".into()));
    assert_eq!(d.bind_addr, "127.0.0.1:9");
    assert_eq!(d.db_path, ":memory:");
}
