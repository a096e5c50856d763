//! Reading the format of a chart from its JSON text.

use vstd::prelude::*;
use crate::chart::{note_type_of, FormatVersion, Note, NoteType};
use crate::scalar::Real;

verus! {

/// Why a chart could not be loaded.
#[derive(Debug)]
pub enum ChartError {
    /// The text is not JSON. Holds what the parser said.
    JsonError(String),
    /// The chart does not name its format by an integer.
    MissingFormatVersion,
    /// The chart names a format that is neither the first nor the current.
    UnknownVersion(i64),
    /// A note is of a kind that there is not.
    InvalidNoteType(i32),
}

/// The error of the JSON parser.
#[verifier::external_type_specification]
#[verifier::external_body]
pub struct ExJsonError(serde_json::Error);

/// What the parser finds in a field of the outermost value of a JSON text:
/// `Err` where it rejects the text, `Ok(None)` where the value holds no such
/// field or not a signed 64-bit integer in it.
pub uninterp spec fn json_integer_field(text: Seq<char>, field: Seq<char>) -> Result<Option<i64>, ()>;

/// Parses the text with `serde_json::from_str` into a `serde_json::Value`
/// and reads the field with `Value::get` and `Value::as_i64`. The contract
/// claims no more than that the outcome depends on the text and the name of
/// the field alone: the same text is rejected or accepted, with the same
/// number found, every time.
#[verifier::external_body]
fn parse_integer_field(json: &str, field: &str) -> (r: Result<Option<i64>, serde_json::Error>)
    ensures
        match r {
            Ok(found) => json_integer_field(json@, field@) == Ok::<Option<i64>, ()>(found),
            Err(_) => json_integer_field(json@, field@).is_err(),
        },
{
    let value = serde_json::from_str::<serde_json::Value>(json)?;
    Ok(value.get(field).and_then(|it| it.as_i64()))
}

/// Writes out the parser's error with its `Display` implementation. Nothing
/// is claimed of the text.
#[verifier::external_body]
fn error_message(error: &serde_json::Error) -> String {
    format!("{}", error)
}

/// The format that a `formatVersion` names, or why it names none.
pub open spec fn version_of(found: Option<i64>) -> Result<FormatVersion, ChartError> {
    match found {
        None => Err(ChartError::MissingFormatVersion),
        Some(number) => if number == 1 {
            Ok(FormatVersion::V1)
        } else if number == 3 {
            Ok(FormatVersion::V3)
        } else {
            Err(ChartError::UnknownVersion(number))
        },
    }
}

/// Tells the format that a `formatVersion` names.
pub fn check_format_version(found: Option<i64>) -> (r: Result<FormatVersion, ChartError>)
    ensures
        r == version_of(found),
{
    match found {
        None => Err(ChartError::MissingFormatVersion),
        Some(number) => if number == 1 {
            Ok(FormatVersion::V1)
        } else if number == 3 {
            Ok(FormatVersion::V3)
        } else {
            Err(ChartError::UnknownVersion(number))
        },
    }
}

/// Reads the format of a chart from its JSON text: the integer in the field
/// `formatVersion`. The first and the current format are accepted.
pub fn read_format_version(json: &str) -> (r: Result<FormatVersion, ChartError>)
    ensures
        match json_integer_field(json@, "formatVersion"@) {
            Ok(found) => r == version_of(found),
            Err(_) => r matches Err(ChartError::JsonError(_)),
        },
{
    match parse_integer_field(json, "formatVersion") {
        Ok(found) => check_format_version(found),
        Err(error) => Err(ChartError::JsonError(error_message(&error))),
    }
}

/// The note that a chart's numbers make, or why they make none: the kind
/// must be one of the four that there are.
pub open spec fn note_of(
    kind: i32,
    time: i32,
    position_x: Real,
    hold_time: Real,
    speed: Real,
    floor_position: Real,
    start_second: Real,
    end_second: Real,
    end_rank: i32,
) -> Result<Note, ChartError> {
    match note_type_of(kind) {
        Ok(note_type) => Ok(
            Note {
                note_type,
                time,
                position_x,
                hold_time,
                speed,
                floor_position,
                start_second,
                end_second,
                end_rank,
            },
        ),
        Err(_) => Err(ChartError::InvalidNoteType(kind)),
    }
}

/// Makes a note from a chart's numbers.
pub fn make_note(
    kind: i32,
    time: i32,
    position_x: Real,
    hold_time: Real,
    speed: Real,
    floor_position: Real,
    start_second: Real,
    end_second: Real,
    end_rank: i32,
) -> (r: Result<Note, ChartError>)
    ensures
        r == note_of(
            kind,
            time,
            position_x,
            hold_time,
            speed,
            floor_position,
            start_second,
            end_second,
            end_rank,
        ),
{
    match NoteType::try_from(kind) {
        Ok(note_type) => Ok(
            Note {
                note_type,
                time,
                position_x,
                hold_time,
                speed,
                floor_position,
                start_second,
                end_second,
                end_rank,
            },
        ),
        Err(_) => Err(ChartError::InvalidNoteType(kind)),
    }
}

} // verus!
