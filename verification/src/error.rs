//! The failures of a parse: their kinds, and the message that each one carries
//! to the operator.

use vstd::prelude::*;
use crate::text::{before_first, before_first_in, replace_all, replace_all_in};

verus! {

/// Why a parse ended without a record.
#[derive(Clone, Copy, Debug, PartialEq, Eq, Structural)]
pub enum Kind {
    /// An argument names no field of the record and no reserved option.
    InvalidOption,
    /// Three or more options begin with one character, so that the lower-case
    /// and the upper-case letter do not suffice to tell them apart.
    OptionsTooSimilar,
    /// The default record is not written as one flat object.
    SchemaExtractionFailure,
    /// The document made from the arguments cannot be read back as the record.
    DecodeFailure,
}

/// A failure of a parse, with the message for the operator and the status that
/// the process is to end with.
#[derive(Debug, PartialEq, Eq)]
pub struct Failure {
    pub kind: Kind,
    pub message: String,
    pub exit_code: i32,
}

/// A `Failure` as a mathematical value.
pub struct FailureView {
    pub kind: Kind,
    pub message: Seq<char>,
    pub exit_code: int,
}

impl View for Failure {
    type V = FailureView;

    open spec fn view(&self) -> FailureView {
        FailureView { kind: self.kind, message: self.message@, exit_code: self.exit_code as int }
    }
}

/// The message of a failure of kind `kind` about `subject`. The subject is set
/// between format marks, so that it stands out when the message is shown.
pub open spec fn message_of(kind: Kind, subject: Seq<char>) -> Seq<char> {
    match kind {
        Kind::InvalidOption => "Option `'"@ + subject
            + "'` was not recognized, try `'--help'` to see all options"@,
        Kind::OptionsTooSimilar => "There are too many options begining with `'"@ + subject
            + "'`, can't assign a short name"@,
        Kind::SchemaExtractionFailure => "The record `'"@ + subject
            + "'` is not a flat object, can't derive its options"@,
        Kind::DecodeFailure => subject,
    }
}

/// The failure of kind `kind` about `subject`: it carries `message_of` and ends
/// the process with status 1.
pub open spec fn raised(kind: Kind, subject: Seq<char>) -> FailureView {
    FailureView { kind, message: message_of(kind, subject), exit_code: 1 }
}

/// What the decoder's complaint `raw` becomes for the operator: it speaks of
/// required options where the decoder spoke of fields, and the position in the
/// document, which the operator never saw, is cut off.
pub open spec fn decode_complaint(raw: Seq<char>) -> Seq<char> {
    before_first(replace_all(raw, "field"@, "required option"@), "at line"@)
}

/// Builds the failure of kind `kind` about `subject`.
pub fn raise(kind: Kind, subject: &str) -> (e: Failure)
    ensures
        e@ == raised(kind, subject@),
{
    let message = match kind {
        Kind::InvalidOption => {
            let mut text = String::from_str("Option `'");
            text.append(subject);
            text.append("'` was not recognized, try `'--help'` to see all options");
            text
        },
        Kind::OptionsTooSimilar => {
            let mut text = String::from_str("There are too many options begining with `'");
            text.append(subject);
            text.append("'`, can't assign a short name");
            text
        },
        Kind::SchemaExtractionFailure => {
            let mut text = String::from_str("The record `'");
            text.append(subject);
            text.append("'` is not a flat object, can't derive its options");
            text
        },
        Kind::DecodeFailure => String::from_str(subject),
    };
    Failure { kind, message, exit_code: 1 }
}

/// Builds the failure that reports the decoder's complaint `raw`.
pub fn decode_failure(raw: &str) -> (e: Failure)
    ensures
        e@ == raised(Kind::DecodeFailure, decode_complaint(raw@)),
{
    let renamed = replace_all_in(raw, "field", "required option");
    let shown = before_first_in(renamed.as_str(), "at line");
    raise(Kind::DecodeFailure, shown.as_str())
}

/// The decoder's own error type; nothing of its inside is read here.
#[verifier::external_type_specification]
#[verifier::external_body]
pub struct ExDecoderError(serde_json::Error);

/// `serde_json::Error`'s `to_string`, which writes the decoder's complaint out.
/// Nothing is claimed of the text.
#[verifier::external_body]
fn complaint_of(e: &serde_json::Error) -> (r: String) {
    e.to_string()
}

/// Results whose error can be turned into a failure of this library.
pub trait Handler<T>: Sized {
    /// The value, where the result holds one.
    spec fn value(self) -> Option<T>;

    /// Keeps the value and turns the error into a `Failure`.
    fn handle(self) -> (r: Result<T, Failure>)
        ensures
            self.value() matches Some(v) ==> r == Ok::<T, Failure>(v),
            self.value() is None ==> r is Err,
    ;
}

impl<T> Handler<T> for Result<T, Failure> {
    open spec fn value(self) -> Option<T> {
        match self {
            Ok(v) => Some(v),
            Err(_) => None,
        }
    }

    fn handle(self) -> (r: Result<T, Failure>)
        ensures
            r == self,
    {
        self
    }
}

impl<T> Handler<T> for Result<T, serde_json::Error> {
    open spec fn value(self) -> Option<T> {
        match self {
            Ok(v) => Some(v),
            Err(_) => None,
        }
    }

    /// The decoder's error becomes a `DecodeFailure` whose message is the
    /// complaint as `decode_complaint` words it.
    fn handle(self) -> (r: Result<T, Failure>)
        ensures
            self is Err ==> exists|raw: Seq<char>|
                r->Err_0@ == #[trigger] raised(Kind::DecodeFailure, decode_complaint(raw)),
    {
        match self {
            Ok(v) => Ok(v),
            Err(e) => {
                let raw = complaint_of(&e);
                Err(decode_failure(raw.as_str()))
            },
        }
    }
}

} // verus!
