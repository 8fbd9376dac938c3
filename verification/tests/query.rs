use kevin_orchestrator::money::Amount;
use kevin_orchestrator::projections::query::{
    clamp_limit, cost_report, decode_cursor, log_page, CostGroupBy, CostRow, Cursor, Page,
    TaskLogQuery, TaskLogRow, DEFAULT_LIMIT_I64, MAX_LIMIT,
};
use kevin_orchestrator::projections::ProjectionError;

#[test]
fn cursor_round_trips() {
    let cursor = Cursor::new(1_767_225_600_123_456, 0);
    assert_eq!(Cursor::decode(&cursor.encode()).unwrap(), cursor);
}

#[test]
fn invalid_cursors_are_rejected() {
    assert!(matches!(
        Cursor::decode("nonsense"),
        Err(ProjectionError::InvalidCursor { .. })
    ));
    assert!(matches!(
        Cursor::decode("12.not-a-uuid"),
        Err(ProjectionError::InvalidCursor { .. })
    ));
}

#[test]
fn limits_are_clamped() {
    assert_eq!(clamp_limit(None), DEFAULT_LIMIT_I64);
    assert_eq!(clamp_limit(Some(0)), 1);
    assert_eq!(clamp_limit(Some(10_000)), i64::try_from(MAX_LIMIT).unwrap());
}

#[test]
fn group_by_names_match_the_cli_flag() {
    assert_eq!(CostGroupBy::Run.as_str(), "run");
    assert_eq!(CostGroupBy::Model.as_str(), "model");
    assert_eq!(CostGroupBy::Kind.as_str(), "kind");
}

#[test]
fn a_cursor_reads_as_micros_and_a_hyphenated_id() {
    let cursor = Cursor::new(-5, 0x0123_4567_89ab_cdef_0123_4567_89ab_cdef);
    assert_eq!(cursor.encode(), "-5.01234567-89ab-cdef-0123-456789abcdef");
    assert_eq!(Cursor::decode(&cursor.encode()).unwrap(), cursor);
    assert_eq!(decode_cursor(&None).unwrap(), None);
    assert_eq!(
        decode_cursor(&Some("7.00000000-0000-0000-0000-000000000001".to_owned())).unwrap(),
        Some(Cursor::new(7, 1))
    );
}

#[test]
fn cursors_beyond_the_calendar_are_rejected() {
    let id = "00000000-0000-0000-0000-000000000000";
    for good in ["8210266876799999999", "-8334601228800000000"] {
        assert!(Cursor::decode(&format!("{good}.{id}")).is_ok());
    }
    for bad in ["8210266876800000000", "-8334601228800000001", "9223372036854775808", ""] {
        assert_eq!(
            Cursor::decode(&format!("{bad}.{id}")),
            Err(ProjectionError::InvalidCursor { cursor: format!("{bad}.{id}") })
        );
    }
}

fn line(seq: i64) -> TaskLogRow {
    TaskLogRow {
        task_id: 1,
        attempt: 1,
        seq,
        at: 0,
        kind: "system".to_owned(),
        payload: "null".to_owned(),
        run_id: None,
        attempt_id: None,
        source_event_id: None,
    }
}

#[test]
fn a_full_log_page_goes_on_after_its_last_number() {
    let full = log_page(vec![line(4), line(9)], 2);
    assert_eq!(full.next_cursor, Some("9".to_owned()));
    let short = log_page(vec![line(4)], 2);
    assert_eq!(short.next_cursor, None);
    let empty: Page<TaskLogRow> = Page::empty();
    assert!(empty.is_empty());
    assert_eq!(TaskLogQuery::new(1).after(), 0);
}

fn cost(usd: Option<i128>, tokens: i64) -> CostRow {
    CostRow {
        key: "k".to_owned(),
        usd: usd.map(|m| Amount { mantissa: m, scale: 2 }),
        input_tokens: tokens,
        output_tokens: 1,
        attempts: 1,
    }
}

#[test]
fn a_cost_report_adds_up_known_spend() {
    let report = cost_report(vec![cost(Some(150), 10), cost(None, 5), cost(Some(25), 1)]).unwrap();
    assert_eq!(report.total_usd.unwrap().text(), "1.75");
    assert_eq!(report.total_tokens, 19);
    assert_eq!(report.rows.len(), 3);
    let unknown = cost_report(vec![cost(None, 5)]).unwrap();
    assert_eq!(unknown.total_usd, None);
}
