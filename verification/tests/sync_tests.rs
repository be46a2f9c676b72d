use replay_sync::backoff::{Backoff, StatusOutcome, BACKOFF_DELAY_SECS};
use replay_sync::errors::SyncError;
use replay_sync::plan::{desired_filenames, filter_replay_files, is_replay_name, select_missing, select_stale};
use replay_sync::records::{dedup, records_or_missing, replays_from_records};
use replay_sync::replay::{stream_url, timestamp_from_rfc3339, RawRecord, Replay, Timestamp};

fn ts(year: u16, month: u8, day: u8, hour: u8, minute: u8, second: u8) -> Timestamp {
    Timestamp { year, month, day, hour, minute, second }
}

fn replay(id: &str, is_multi: bool, t: Timestamp) -> Replay {
    Replay { id: id.to_string(), is_multi, timestamp: t }
}

fn record(id: &str, is_multi: Option<bool>, recorded_at: &str) -> RawRecord {
    RawRecord {
        replay_id: id.to_string(),
        is_multi,
        recorded_at: recorded_at.to_string(),
    }
}

#[test]
fn filename_single_player() {
    let r = replay("abc123", false, ts(2023, 5, 1, 12, 30, 0));
    assert_eq!(r.filename(), "20230501T123000Z-abc123.ttr");
}

#[test]
fn filename_multiplayer() {
    let r = replay("abc123", true, ts(2023, 5, 1, 12, 30, 0));
    assert_eq!(r.filename(), "20230501T123000Z-abc123.ttrm");
}

#[test]
fn filename_pads_every_field() {
    let r = replay("x", false, ts(987, 1, 2, 3, 4, 5));
    assert_eq!(r.filename(), "09870102T030405Z-x.ttr");
}

#[test]
fn replay_url() {
    let r = replay("abc123", false, ts(2023, 5, 1, 12, 30, 0));
    assert_eq!(r.url(), "https://inoue.szy.lol/api/replay/abc123");
}

#[test]
fn stream_url_is_derived_from_name() {
    assert_eq!(stream_url("40l_userbest_someone"), "https://ch.tetr.io/api/streams/40l_userbest_someone");
}

#[test]
fn timestamp_parse_utc() {
    let t = timestamp_from_rfc3339("2023-05-01T12:30:00Z").unwrap();
    assert_eq!(t, ts(2023, 5, 1, 12, 30, 0));
}

#[test]
fn timestamp_parse_normalizes_offset_to_utc() {
    let t = timestamp_from_rfc3339("2023-05-01T14:30:00+02:00").unwrap();
    assert_eq!(t, ts(2023, 5, 1, 12, 30, 0));
}

#[test]
fn timestamp_parse_fractional_seconds() {
    let t = timestamp_from_rfc3339("2023-05-01T12:30:00.500Z").unwrap();
    assert_eq!(t, ts(2023, 5, 1, 12, 30, 0));
}

#[test]
fn timestamp_parse_leap_second() {
    // chrono represents a leap second within second 59
    let t = timestamp_from_rfc3339("2016-12-31T23:59:60Z").unwrap();
    assert_eq!(t, ts(2016, 12, 31, 23, 59, 59));
}

#[test]
fn record_conversion_keeps_explicit_multi_flag() {
    let out = replays_from_records(&vec![record("m", Some(true), "2023-05-01T12:30:00Z")]).unwrap();
    assert!(out[0].is_multi);
}

#[test]
fn timestamp_parse_rejects_garbage() {
    assert!(timestamp_from_rfc3339("yesterday at noon").is_none());
    assert!(timestamp_from_rfc3339("").is_none());
    assert!(timestamp_from_rfc3339("2023-05-01").is_none());
}

#[test]
fn timestamp_parse_rejects_year_shifted_out_of_range() {
    // valid RFC 3339, but the UTC year falls before year 0
    assert!(timestamp_from_rfc3339("0000-01-01T00:00:00+01:00").is_none());
}

#[test]
fn record_conversion_defaults_multi_to_false() {
    let out = replays_from_records(&vec![record("a", None, "2023-05-01T12:30:00Z")]).unwrap();
    assert_eq!(out.len(), 1);
    assert!(!out[0].is_multi);
    assert_eq!(out[0].id, "a");
    assert_eq!(out[0].timestamp, ts(2023, 5, 1, 12, 30, 0));
}

#[test]
fn record_conversion_fails_on_bad_timestamp() {
    let recs = vec![
        record("a", Some(false), "2023-05-01T12:30:00Z"),
        record("b", Some(true), "not a timestamp"),
    ];
    match replays_from_records(&recs) {
        Err(SyncError::TimestampParse { input }) => assert_eq!(input, "not a timestamp"),
        other => panic!("expected a timestamp-parse error, got {:?}", other.is_ok()),
    }
}

#[test]
fn missing_data_is_an_error() {
    // a well-formed response with no data payload fails that stream
    match records_or_missing("somestream", None) {
        Err(SyncError::StreamDataMissing { stream }) => assert_eq!(stream, "somestream"),
        _ => panic!("expected a data-missing error"),
    }
}

#[test]
fn empty_record_list_is_not_an_error() {
    let out = records_or_missing("somestream", Some(Vec::new())).unwrap();
    assert_eq!(out.len(), 0);
}

#[test]
fn dedup_keeps_one_copy_of_identical_records() {
    // the same record reported by two streams
    let a1 = replay("abc", false, ts(2023, 5, 1, 12, 30, 0));
    let a2 = replay("abc", false, ts(2023, 5, 1, 12, 30, 0));
    let b = replay("def", true, ts(2023, 6, 2, 8, 0, 59));
    let merged = vec![a1, b, a2];
    let unique = dedup(&merged);
    assert_eq!(unique.len(), 2);
    assert_eq!(unique[0].id, "abc");
    assert_eq!(unique[1].id, "def");
}

#[test]
fn dedup_keeps_both_when_any_field_differs() {
    // same id, different multiplayer flag: distinct entities
    let a = replay("abc", false, ts(2023, 5, 1, 12, 30, 0));
    let b = replay("abc", true, ts(2023, 5, 1, 12, 30, 0));
    let unique = dedup(&vec![a, b]);
    assert_eq!(unique.len(), 2);
}

#[test]
fn dedup_preserves_first_seen_order() {
    let a = replay("a", false, ts(2023, 1, 1, 0, 0, 0));
    let b = replay("b", false, ts(2023, 1, 2, 0, 0, 0));
    let c = replay("c", false, ts(2023, 1, 3, 0, 0, 0));
    let merged = vec![
        replay("b", false, ts(2023, 1, 2, 0, 0, 0)),
        a,
        replay("c", false, ts(2023, 1, 3, 0, 0, 0)),
        b,
        c,
        replay("a", false, ts(2023, 1, 1, 0, 0, 0)),
    ];
    let unique = dedup(&merged);
    let ids: Vec<&str> = unique.iter().map(|r| r.id.as_str()).collect();
    assert_eq!(ids, vec!["b", "a", "c"]);
}

#[test]
fn extension_check_is_exact() {
    assert!(is_replay_name("x.ttr"));
    assert!(is_replay_name("x.ttrm"));
    assert!(is_replay_name("a.b.ttr"));
    assert!(!is_replay_name("x.txt"));
    assert!(!is_replay_name("x.TTR"));
    assert!(!is_replay_name("x.ttrmm"));
    assert!(!is_replay_name("ttr"));
    assert!(!is_replay_name(".ttr"));
    assert!(!is_replay_name("x."));
    assert!(!is_replay_name(""));
}

#[test]
fn reconciliation_scenario() {
    // desired {A, B}; directory holds {A, C, D.txt}; pruning enabled:
    // B is downloaded, C is removed, D.txt is ignored, A is left alone.
    let ra = replay("aaa", false, ts(2023, 5, 1, 12, 30, 0));
    let rb = replay("bbb", true, ts(2023, 6, 2, 9, 15, 30));
    let replays = vec![ra, rb];
    let desired = desired_filenames(&replays);
    let a = "20230501T123000Z-aaa.ttr".to_string();
    let b = "20230602T091530Z-bbb.ttrm".to_string();
    assert_eq!(desired, vec![a.clone(), b.clone()]);

    let dir_entries = vec![a.clone(), "20220101T000000Z-ccc.ttr".to_string(), "D.txt".to_string()];
    let existing = filter_replay_files(&dir_entries);
    assert_eq!(existing, vec![a.clone(), "20220101T000000Z-ccc.ttr".to_string()]);

    // existence checks: A present, B absent
    let to_download = select_missing(&replays, &vec![true, false]);
    assert_eq!(to_download.len(), 1);
    assert_eq!(to_download[0].id, "bbb");

    let stale = select_stale(&existing, &desired);
    assert_eq!(stale, vec!["20220101T000000Z-ccc.ttr".to_string()]);
}

#[test]
fn second_run_changes_nothing() {
    // after a successful run with pruning, every desired file exists and
    // every existing replay file is desired: the next run selects nothing
    let ra = replay("aaa", false, ts(2023, 5, 1, 12, 30, 0));
    let rb = replay("bbb", true, ts(2023, 6, 2, 9, 15, 30));
    let replays = vec![ra, rb];
    let desired = desired_filenames(&replays);
    let existing = filter_replay_files(&desired);
    assert_eq!(existing, desired);

    let to_download = select_missing(&replays, &vec![true, true]);
    assert_eq!(to_download.len(), 0);
    let stale = select_stale(&existing, &desired);
    assert_eq!(stale.len(), 0);
}

#[test]
fn backoff_two_rate_limits_then_success() {
    // 429 twice, then 200: exactly two delays, one engagement warning and
    // one repeat warning
    let mut backoff = Backoff::new();
    let mut delays = 0;
    let mut engaged_warnings = 0;
    let mut repeat_warnings = 0;
    let script = [429u16, 429, 200];
    let mut downloaded = false;
    for status in script {
        if backoff.delay_before_attempt() {
            delays += 1;
        }
        match backoff.on_status(status) {
            StatusOutcome::RetryEngaged => engaged_warnings += 1,
            StatusOutcome::RetryRepeat => repeat_warnings += 1,
            StatusOutcome::Success => {
                downloaded = true;
            }
            StatusOutcome::Fatal => panic!("no fatal status in this script"),
        }
    }
    assert!(downloaded);
    assert_eq!(delays, 2);
    assert_eq!(engaged_warnings, 1);
    assert_eq!(repeat_warnings, 1);
    assert_eq!(BACKOFF_DELAY_SECS, 5);
}

#[test]
fn backoff_stays_engaged_for_rest_of_run() {
    let mut backoff = Backoff::new();
    assert!(!backoff.delay_before_attempt());
    assert_eq!(backoff.on_status(429), StatusOutcome::RetryEngaged);
    assert_eq!(backoff.on_status(200), StatusOutcome::Success);
    // the next download still pays the delay up front
    assert!(backoff.delay_before_attempt());
    assert_eq!(backoff.on_status(429), StatusOutcome::RetryRepeat);
}

#[test]
fn non_success_status_is_fatal() {
    // a 404 for one replay aborts the run: the driver stops at Fatal and
    // attempts no further download
    let mut backoff = Backoff::new();
    assert_eq!(backoff.on_status(404), StatusOutcome::Fatal);
    assert!(!backoff.delay_before_attempt());
    assert_eq!(backoff.on_status(500), StatusOutcome::Fatal);
    assert_eq!(backoff.on_status(301), StatusOutcome::Fatal);
    assert_eq!(backoff.on_status(204), StatusOutcome::Success);
}
