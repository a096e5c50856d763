use phasetida_core::chart::{FormatVersion, NoteType};
use phasetida_core::loader::{check_format_version, make_note, read_format_version, ChartError};
use phasetida_core::scalar::Real;

#[test]
fn the_first_format_is_read() {
    let r = read_format_version("{\"formatVersion\": 1, \"offset\": 0, \"judgeLineList\": []}");
    assert!(matches!(r, Ok(FormatVersion::V1)));
}

#[test]
fn the_current_format_is_read() {
    let r = read_format_version("{\"offset\": 0.5, \"judgeLineList\": [], \"formatVersion\": 3}");
    assert!(matches!(r, Ok(FormatVersion::V3)));
}

#[test]
fn another_format_is_unknown() {
    assert!(matches!(
        read_format_version("{\"formatVersion\": 2}"),
        Err(ChartError::UnknownVersion(2))
    ));
    assert!(matches!(
        read_format_version("{\"formatVersion\": -7}"),
        Err(ChartError::UnknownVersion(-7))
    ));
    assert!(matches!(
        read_format_version("{\"formatVersion\": 9223372036854775807}"),
        Err(ChartError::UnknownVersion(i64::MAX))
    ));
}

#[test]
fn a_chart_without_a_format_misses_it() {
    assert!(matches!(
        read_format_version("{\"offset\": 0}"),
        Err(ChartError::MissingFormatVersion)
    ));
    assert!(matches!(read_format_version("[1, 3]"), Err(ChartError::MissingFormatVersion)));
    assert!(matches!(read_format_version("3"), Err(ChartError::MissingFormatVersion)));
}

#[test]
fn a_format_that_is_no_integer_is_missing() {
    assert!(matches!(
        read_format_version("{\"formatVersion\": \"3\"}"),
        Err(ChartError::MissingFormatVersion)
    ));
    assert!(matches!(
        read_format_version("{\"formatVersion\": 3.0}"),
        Err(ChartError::MissingFormatVersion)
    ));
    assert!(matches!(
        read_format_version("{\"formatVersion\": null}"),
        Err(ChartError::MissingFormatVersion)
    ));
    assert!(matches!(
        read_format_version("{\"formatVersion\": 18446744073709551615}"),
        Err(ChartError::MissingFormatVersion)
    ));
}

#[test]
fn text_that_is_not_json_is_an_error_with_a_message() {
    match read_format_version("{\"formatVersion\": 3") {
        Err(ChartError::JsonError(message)) => assert!(!message.is_empty()),
        _ => panic!("expected a parser error"),
    }
    assert!(matches!(read_format_version(""), Err(ChartError::JsonError(_))));
    assert!(matches!(
        read_format_version("{\"formatVersion\": 3} trailing"),
        Err(ChartError::JsonError(_))
    ));
}

#[test]
fn a_found_format_is_checked() {
    assert!(matches!(check_format_version(Some(1)), Ok(FormatVersion::V1)));
    assert!(matches!(check_format_version(Some(3)), Ok(FormatVersion::V3)));
    assert!(matches!(check_format_version(Some(0)), Err(ChartError::UnknownVersion(0))));
    assert!(matches!(check_format_version(None), Err(ChartError::MissingFormatVersion)));
}

#[test]
fn a_note_of_no_kind_is_refused() {
    let z = Real::zero();
    let good = make_note(3, 12, z, Real::one(), z, z, z, z, 5).unwrap();
    assert!(good.note_type == NoteType::Hold);
    assert_eq!(good.time, 12);
    assert_eq!(good.hold_time.to_bits(), 1.0f64.to_bits());
    assert_eq!(good.end_rank, 5);
    assert!(matches!(
        make_note(0, 12, z, z, z, z, z, z, 5),
        Err(ChartError::InvalidNoteType(0))
    ));
    assert!(matches!(
        make_note(5, 12, z, z, z, z, z, z, 5),
        Err(ChartError::InvalidNoteType(5))
    ));
}
