use pbinspect::error::failed_scan;
use pbinspect::error::ScanError;
use pbinspect::scan::run_scan;
use pbinspect::scan::ScanResult;
use pbinspect::scan::ScannedItem;
use pbinspect::scan::TypedPayload;
use pbinspect::text::decode_text;

fn pair(mime: &str, runtime_type: &str, payload: Option<&[u8]>) -> TypedPayload {
    TypedPayload {
        mime: mime.to_string(),
        runtime_type: runtime_type.to_string(),
        payload: payload.map(|b| b.to_vec()),
    }
}

#[test]
fn new_scan_is_empty_at_reset() {
    let s = ScanResult::new();
    assert_eq!(s.len(), 0);
    assert!(s.into_records().is_empty());
}

#[test]
fn reset_clears_before_new_records_arrive() {
    let mut s = ScanResult::new();
    s.process(
        "text/plain".to_string(),
        "string".to_string(),
        Some(&b"stale".to_vec()),
    );
    assert_eq!(s.len(), 1);
    s.reset();
    assert_eq!(s.len(), 0);
}

#[test]
fn process_appends_one_record_per_fetched_payload() {
    let mut s = ScanResult::new();
    s.process(
        "text/plain".to_string(),
        "string".to_string(),
        Some(&b"hi".to_vec()),
    );
    assert_eq!(s.len(), 1);
    let rec = s.get(0);
    assert_eq!(rec.mime, "text/plain");
    assert_eq!(rec.runtime_type, "string");
    assert_eq!(rec.text, "hi");
}

#[test]
fn process_skips_failed_payload_without_recording() {
    let mut s = ScanResult::new();
    s.process("text/plain".to_string(), "string".to_string(), None);
    assert_eq!(s.len(), 0);
}

#[test]
fn decode_valid_utf8_round_trips_exactly() {
    let text = "hello, clipboard \u{00e9}\u{6f22}";
    let bytes: Vec<u8> = text.as_bytes().to_vec();
    assert_eq!(decode_text(&bytes), text);
}

#[test]
fn decode_empty_payload_is_empty_text() {
    assert_eq!(decode_text(&Vec::new()), "");
}

#[test]
fn decode_invalid_utf8_is_binary_marker() {
    let bytes: Vec<u8> = vec![0xFF, 0xFE];
    assert_eq!(decode_text(&bytes), "Binary Data");
}

#[test]
fn scenario_one_item_two_types() {
    let items = vec![ScannedItem {
        payloads: vec![
            pair("text/plain", "object", Some(b"hello")),
            pair("text/html", "object", Some(b"<b>hi</b>")),
        ],
    }];
    let records = run_scan(&items).into_records();
    assert_eq!(records.len(), 2);
    assert_eq!(records[0].mime, "text/plain");
    assert_eq!(records[0].text, "hello");
    assert_eq!(records[1].mime, "text/html");
    assert_eq!(records[1].text, "<b>hi</b>");
}

#[test]
fn successful_scan_yields_one_record_per_pair_in_order() {
    let items = vec![
        ScannedItem {
            payloads: vec![
                pair("text/plain", "string", Some(b"a")),
                pair("text/html", "object", Some(b"<p>a</p>")),
            ],
        },
        ScannedItem {
            payloads: vec![pair("image/png", "object", Some(&[0xFF, 0xFE]))],
        },
    ];
    let records = run_scan(&items).into_records();
    assert_eq!(records.len(), 3);
    assert_eq!(records[0].mime, "text/plain");
    assert_eq!(records[1].mime, "text/html");
    assert_eq!(records[2].mime, "image/png");
    assert_eq!(records[2].text, "Binary Data");
}

#[test]
fn one_failed_pair_drops_only_that_record() {
    let items = vec![
        ScannedItem {
            payloads: vec![
                pair("text/plain", "string", Some(b"a")),
                pair("text/html", "object", None),
            ],
        },
        ScannedItem {
            payloads: vec![pair("text/rtf", "object", Some(b"b"))],
        },
    ];
    let records = run_scan(&items).into_records();
    assert_eq!(records.len(), 2);
    assert_eq!(records[0].mime, "text/plain");
    assert_eq!(records[0].text, "a");
    assert_eq!(records[1].mime, "text/rtf");
    assert_eq!(records[1].text, "b");
}

#[test]
fn empty_clipboard_yields_empty_result() {
    let records = run_scan(&Vec::new()).into_records();
    assert!(records.is_empty());
}

#[test]
fn item_offering_no_types_contributes_nothing() {
    let items = vec![
        ScannedItem { payloads: Vec::new() },
        ScannedItem {
            payloads: vec![pair("text/plain", "string", Some(b"x"))],
        },
    ];
    let records = run_scan(&items).into_records();
    assert_eq!(records.len(), 1);
    assert_eq!(records[0].text, "x");
}

#[test]
fn duplicate_types_are_preserved_not_deduplicated() {
    let items = vec![ScannedItem {
        payloads: vec![
            pair("text/plain", "string", Some(b"one")),
            pair("text/plain", "string", Some(b"two")),
        ],
    }];
    let records = run_scan(&items).into_records();
    assert_eq!(records.len(), 2);
    assert_eq!(records[0].text, "one");
    assert_eq!(records[1].text, "two");
}

#[test]
fn failed_top_level_read_leaves_collection_empty_with_visible_error() {
    let (result, message) = failed_scan(&ScanError::PermissionDenied);
    assert_eq!(result.len(), 0);
    assert!(!message.is_empty());
    assert_eq!(message, "clipboard scan failed: permission denied");
}

#[test]
fn each_error_variant_has_its_own_message() {
    let unavailable = ScanError::PlatformUnavailable.message();
    let denied = ScanError::PermissionDenied.message();
    let platform = ScanError::PlatformError.message();
    assert_eq!(unavailable, "clipboard scan failed: no clipboard available");
    assert_eq!(denied, "clipboard scan failed: permission denied");
    assert_eq!(platform, "clipboard scan failed: platform error");
    assert_ne!(unavailable, denied);
    assert_ne!(denied, platform);
    assert_ne!(unavailable, platform);
}
