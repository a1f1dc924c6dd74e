use acytel::range::{
    format_content_range, format_range_header, parse_content_range, resolve_range, RangePlan,
};

#[test]
fn whole_object_when_no_header() {
    assert_eq!(resolve_range(None, 1_048_576), RangePlan::Whole);
}

#[test]
fn head_range_resolves() {
    assert_eq!(
        resolve_range(Some(b"bytes=0-1023"), 1_048_576),
        RangePlan::Slice { start: 0, end: 1023 }
    );
}

#[test]
fn mid_range_resolves() {
    assert_eq!(
        resolve_range(Some(b"bytes=500000-500999"), 1_048_576),
        RangePlan::Slice { start: 500_000, end: 500_999 }
    );
}

#[test]
fn out_of_bounds_rejected() {
    assert_eq!(
        resolve_range(Some(b"bytes=0-9999999"), 1_048_576),
        RangePlan::Unsatisfiable
    );
}

#[test]
fn first_byte_range() {
    assert_eq!(
        resolve_range(Some(b"bytes=0-0"), 10),
        RangePlan::Slice { start: 0, end: 0 }
    );
}

#[test]
fn full_width_range_is_slice_not_whole() {
    assert_eq!(
        resolve_range(Some(b"bytes=0-1048575"), 1_048_576),
        RangePlan::Slice { start: 0, end: 1_048_575 }
    );
}

#[test]
fn last_byte_range() {
    assert_eq!(
        resolve_range(Some(b"bytes=9-9"), 10),
        RangePlan::Slice { start: 9, end: 9 }
    );
}

#[test]
fn past_end_range_rejected() {
    assert_eq!(resolve_range(Some(b"bytes=10-10"), 10), RangePlan::Unsatisfiable);
}

#[test]
fn open_range_defaults_to_last_byte() {
    assert_eq!(
        resolve_range(Some(b"bytes=500-"), 1000),
        RangePlan::Slice { start: 500, end: 999 }
    );
}

#[test]
fn suffix_form_rejected() {
    assert_eq!(resolve_range(Some(b"bytes=-500"), 1000), RangePlan::Unsatisfiable);
}

#[test]
fn multi_range_rejected() {
    assert_eq!(
        resolve_range(Some(b"bytes=0-1,5-9"), 1000),
        RangePlan::Unsatisfiable
    );
}

#[test]
fn wrong_prefix_rejected() {
    assert_eq!(resolve_range(Some(b"bits=0-1"), 1000), RangePlan::Unsatisfiable);
}

#[test]
fn non_numeric_rejected() {
    assert_eq!(resolve_range(Some(b"bytes=a-b"), 1000), RangePlan::Unsatisfiable);
}

#[test]
fn start_after_end_rejected() {
    assert_eq!(resolve_range(Some(b"bytes=5-2"), 1000), RangePlan::Unsatisfiable);
}

#[test]
fn empty_object_rejects_every_range() {
    assert_eq!(resolve_range(Some(b"bytes=0-0"), 0), RangePlan::Unsatisfiable);
    assert_eq!(resolve_range(Some(b"bytes=0-"), 0), RangePlan::Unsatisfiable);
}

#[test]
fn oversized_number_rejected() {
    assert_eq!(
        resolve_range(Some(b"bytes=0-99999999999999999999999999"), 100),
        RangePlan::Unsatisfiable
    );
    assert_eq!(
        resolve_range(Some(b"bytes=99999999999999999999999999-"), 100),
        RangePlan::Unsatisfiable
    );
}

#[test]
fn leading_zeros_accepted() {
    assert_eq!(
        resolve_range(Some(b"bytes=007-009"), 100),
        RangePlan::Slice { start: 7, end: 9 }
    );
}

#[test]
fn content_range_formats() {
    assert_eq!(
        format_content_range(0, 1023, 1_048_576),
        b"bytes 0-1023/1048576".to_vec()
    );
}

#[test]
fn content_range_parses() {
    assert_eq!(
        parse_content_range(b"bytes 0-1023/1048576"),
        Some((0, 1023, 1_048_576))
    );
}

#[test]
fn content_range_rejects_malformed() {
    assert_eq!(parse_content_range(b"bytes 0-1023"), None);
    assert_eq!(parse_content_range(b"bytes -1023/4096"), None);
    assert_eq!(parse_content_range(b"0-1023/4096"), None);
}

#[test]
fn content_range_parse_then_format_is_idempotent() {
    let worn = b"bytes 007-0010/0100".to_vec();
    let t = parse_content_range(&worn).unwrap();
    assert_eq!(t, (7, 10, 100));
    let once = format_content_range(t.0, t.1, t.2);
    let t2 = parse_content_range(&once).unwrap();
    assert_eq!(t2, t);
    let twice = format_content_range(t2.0, t2.1, t2.2);
    assert_eq!(once, twice);
}

#[test]
fn range_header_formats() {
    assert_eq!(format_range_header(500_000, 500_999), b"bytes=500000-500999".to_vec());
}

#[test]
fn formatted_range_header_resolves_back() {
    let h = format_range_header(12, 34);
    assert_eq!(
        resolve_range(Some(&h), 100),
        RangePlan::Slice { start: 12, end: 34 }
    );
}
