//! What is known of a filing while its lines are parsed.

use vstd::prelude::*;
use vstd::std_specs::cmp::PartialEqSpecImpl;
use vstd::string::StringExecFns;
use crate::errors::FecError;

verus! {

/// The error type of the `regex` crate. The library only carries such a
/// value; it never looks inside.
#[verifier::external_type_specification]
#[verifier::external_body]
pub struct ExRegexError(regex::Error);

/// Whether the regular expression `pattern` matches somewhere in `text`,
/// as the `regex` crate decides it; nothing when `pattern` is no regular
/// expression.
pub uninterp spec fn regex_match(pattern: Seq<char>, text: Seq<char>) -> Option<bool>;

/// `regex::Regex::new` and then `regex::Regex::is_match`: whether the
/// pattern matches somewhere in the text; a failure when the pattern is
/// refused.
#[verifier::external_body]
fn regex_is_match(pattern: &str, text: &str) -> (found: Result<bool, regex::Error>)
    ensures
        match found {
            Ok(matched) => regex_match(pattern@, text@) == Some(matched),
            Err(_) => regex_match(pattern@, text@) is None,
        },
{
    Ok(regex::Regex::new(pattern)?.is_match(text))
}

/// `Display` of `regex::Error`: the error as a text.
#[verifier::external_body]
fn regex_error_text(error: &regex::Error) -> (text: String) {
    format!("{}", error)
}

/// Whether `pattern` matches somewhere in `text`; a parsing error when
/// `pattern` is no regular expression.
pub fn pattern_matches(pattern: &str, text: &str) -> (found: Result<bool, FecError>)
    ensures
        match regex_match(pattern@, text@) {
            Some(matched) => found is Ok && found.unwrap() == matched,
            None => found is Err && found.unwrap_err().is_parse_error_about("Invalid pattern: "@),
        },
{
    match regex_is_match(pattern, text) {
        Ok(matched) => Ok(matched),
        Err(error) => {
            let reason = String::from_str("Invalid pattern: ").concat(
                regex_error_text(&error).as_str(),
            );
            Err(FecError::ParseError(reason))
        },
    }
}

/// The pattern of the line that begins a block of free text.
pub const F99_TEXT_START: &'static str = "(?i)^\\s*\\[BEGIN ?TEXT\\]\\s*$";

/// The pattern of the line that ends a block of free text.
pub const F99_TEXT_END: &'static str = "(?i)^\\s*\\[END ?TEXT\\]\\s*$";

/// The state of a parse.
#[derive(Debug)]
pub struct FecContext {
    /// The pattern of the line that begins a block of free text.
    pub f99_text_start: String,
    /// The pattern of the line that ends a block of free text.
    pub f99_text_end: String,
    /// The version that the filing states, once a line stated it.
    pub version: Option<String>,
    /// The length in bytes of the version.
    pub version_length: usize,
    /// Whether messages are suppressed.
    pub silent: bool,
    /// Whether warnings are wanted.
    pub warn: bool,
    /// Whether the separator character stands between fields.
    pub use_ascii28: bool,
    /// Whether only a summary is wanted.
    pub summary: bool,
    /// The type of the form that is being read.
    pub form_type: Option<String>,
    /// The number of fields of the form.
    pub num_fields: usize,
    /// Whether records begin with the filing's identifier.
    pub include_filing_id: bool,
    /// The filing's identifier, or the name of its file.
    pub fec_id: String,
    /// Whether the parse is inside a block of free text.
    pub in_f99_text: bool,
    /// The lines of the block of free text that was read last, or is
    /// being read.
    pub f99_text: String,
}

/// A [`FecContext`] as plain values.
pub struct FecContextView {
    pub f99_text_start: Seq<char>,
    pub f99_text_end: Seq<char>,
    pub version: Option<Seq<char>>,
    pub version_length: usize,
    pub silent: bool,
    pub warn: bool,
    pub use_ascii28: bool,
    pub summary: bool,
    pub form_type: Option<Seq<char>>,
    pub num_fields: usize,
    pub include_filing_id: bool,
    pub fec_id: Seq<char>,
    pub in_f99_text: bool,
    pub f99_text: Seq<char>,
}

/// An optional text as plain values.
pub open spec fn option_text(text: Option<String>) -> Option<Seq<char>> {
    match text {
        Some(s) => Some(s@),
        None => None,
    }
}

impl View for FecContext {
    type V = FecContextView;

    open spec fn view(&self) -> FecContextView {
        FecContextView {
            f99_text_start: self.f99_text_start@,
            f99_text_end: self.f99_text_end@,
            version: option_text(self.version),
            version_length: self.version_length,
            silent: self.silent,
            warn: self.warn,
            use_ascii28: self.use_ascii28,
            summary: self.summary,
            form_type: option_text(self.form_type),
            num_fields: self.num_fields,
            include_filing_id: self.include_filing_id,
            fec_id: self.fec_id@,
            in_f99_text: self.in_f99_text,
            f99_text: self.f99_text@,
        }
    }
}

/// Whether two optional texts are the same.
fn option_text_eq(a: &Option<String>, b: &Option<String>) -> (same: bool)
    ensures
        same == (option_text(*a) == option_text(*b)),
{
    match (a, b) {
        (Some(x), Some(y)) => *x == *y,
        (None, None) => true,
        _ => false,
    }
}

impl FecContext {
    /// The state at the beginning of a parse: no version and no form type
    /// yet, commas between fields, outside any block of free text.
    pub fn new(fec_id: String, include_filing_id: bool, silent: bool, warn: bool) -> (context: Self)
        ensures
            context@ == (FecContextView {
                f99_text_start: F99_TEXT_START@,
                f99_text_end: F99_TEXT_END@,
                version: None,
                version_length: 0,
                silent,
                warn,
                use_ascii28: false,
                summary: false,
                form_type: None,
                num_fields: 0,
                include_filing_id,
                fec_id: fec_id@,
                in_f99_text: false,
                f99_text: Seq::<char>::empty(),
            }),
    {
        FecContext {
            f99_text_start: String::from_str(F99_TEXT_START),
            f99_text_end: String::from_str(F99_TEXT_END),
            version: None,
            version_length: 0,
            silent,
            warn,
            use_ascii28: false,
            summary: false,
            form_type: None,
            num_fields: 0,
            include_filing_id,
            fec_id,
            in_f99_text: false,
            f99_text: String::new(),
        }
    }
}

impl PartialEq for FecContext {
    /// Whether two states are the same, field by field.
    fn eq(&self, other: &Self) -> (same: bool) {
        self.f99_text_start == other.f99_text_start && self.f99_text_end == other.f99_text_end
            && option_text_eq(&self.version, &other.version) && self.version_length
            == other.version_length && self.silent == other.silent && self.warn == other.warn
            && self.use_ascii28 == other.use_ascii28 && self.summary == other.summary
            && option_text_eq(&self.form_type, &other.form_type) && self.num_fields
            == other.num_fields && self.include_filing_id == other.include_filing_id && self.fec_id
            == other.fec_id && self.in_f99_text == other.in_f99_text && self.f99_text
            == other.f99_text
    }
}

impl PartialEqSpecImpl for FecContext {
    open spec fn obeys_eq_spec() -> bool {
        true
    }

    open spec fn eq_spec(&self, other: &Self) -> bool {
        self@ == other@
    }
}

} // verus!
