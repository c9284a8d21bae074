//! Validation of the answers given during setup.
use vstd::prelude::*;
use regex::Regex;

verus! {

#[verifier::external_type_specification]
#[verifier::external_body]
pub struct ExRegex(regex::Regex);

#[verifier::external_type_specification]
#[verifier::external_body]
pub struct ExRegexError(regex::Error);

/// Whether `regex::Regex::new` accepts `pattern`: a valid pattern whose compiled form stays within
/// the default size limit.
pub uninterp spec fn regex_compiles(pattern: Seq<char>) -> bool;

/// Whether the regex compiled from `pattern` matches somewhere in `haystack`, as
/// `regex::Regex::is_match` answers.
pub uninterp spec fn regex_is_match(pattern: Seq<char>, haystack: Seq<char>) -> bool;

/// A compiled regular expression beside the pattern it was compiled from. Only
/// `compile_pattern` builds one, so the regex is always the one its pattern gives.
pub struct CompiledPattern {
    pattern: String,
    regex: Regex,
}

impl CompiledPattern {
    /// The pattern the regex was compiled from.
    pub closed spec fn spec_pattern(self) -> Seq<char> {
        self.pattern@
    }
}

/// Calls `regex::Regex::new(pattern)`. Trusted: it succeeds exactly when `regex_compiles(pattern)`,
/// and the regex it builds is kept beside a copy of `pattern`.
#[verifier::external_body]
fn compile_pattern(pattern: &str) -> (compiled: Result<CompiledPattern, regex::Error>)
    ensures
        compiled is Ok <==> regex_compiles(pattern@),
        compiled matches Ok(c) ==> c.spec_pattern() == pattern@,
{
    match Regex::new(pattern) {
        Ok(regex) => Ok(CompiledPattern { pattern: pattern.to_string(), regex }),
        Err(e) => Err(e),
    }
}

/// Calls `regex::Regex::is_match(haystack)` on the compiled regex. Trusted: its answer is
/// `regex_is_match` of the pattern the regex was compiled from and of `haystack`.
#[verifier::external_body]
fn pattern_is_match(compiled: &CompiledPattern, haystack: &str) -> (found: bool)
    ensures
        found == regex_is_match(compiled.spec_pattern(), haystack@),
{
    compiled.regex.is_match(haystack)
}

/// The answer of a validator.
#[derive(Debug, Clone, PartialEq, Eq)]
pub enum Validation {
    Valid,
    /// Not valid, with the reason shown to the user.
    Invalid(String),
}

/// A validator that could not decide.
#[derive(Debug, Clone, PartialEq, Eq)]
pub enum ValidatorError {
    /// The pattern that plugin names are checked against does not compile.
    InvalidPattern,
}

/// The pattern that a plugin name must match as a whole: one or more letters, digits or '_'.
pub const PLUGIN_NAME_PATTERN: &'static str = "^[0-9_A-Za-z]+$";

/// The reason shown for an invalid plugin name.
pub open spec fn invalid_plugin_name_message() -> Seq<char> {
    "Plugin names can only contain letters, numbers or '_'"@
}

/// A plugin name is valid when the plugin name pattern matches it; the pattern is anchored at
/// both ends, so the whole name must be letters, digits or '_'.
pub fn plugin_name_validator(input: &str) -> (validation: Result<Validation, ValidatorError>)
    ensures
        !regex_compiles(PLUGIN_NAME_PATTERN@) ==> validation == Err::<Validation, ValidatorError>(
            ValidatorError::InvalidPattern,
        ),
        regex_compiles(PLUGIN_NAME_PATTERN@) && regex_is_match(PLUGIN_NAME_PATTERN@, input@) ==> validation
            == Ok::<Validation, ValidatorError>(Validation::Valid),
        regex_compiles(PLUGIN_NAME_PATTERN@) && !regex_is_match(PLUGIN_NAME_PATTERN@, input@) ==> (
        validation matches Ok(Validation::Invalid(message)) && message@ == invalid_plugin_name_message()),
{
    let compiled = match compile_pattern(PLUGIN_NAME_PATTERN) {
        Ok(c) => c,
        Err(_) => return Err(ValidatorError::InvalidPattern),
    };
    if pattern_is_match(&compiled, input) {
        Ok(Validation::Valid)
    } else {
        Ok(Validation::Invalid(String::from_str("Plugin names can only contain letters, numbers or '_'")))
    }
}

/// The reason shown for a plugin location that does not exist.
pub open spec fn missing_plugin_file_message(input: Seq<char>) -> Seq<char> {
    "Plugin file does not exist: "@ + input
}

/// A plugin location is valid when the file exists.
pub fn plugin_location_validator(input: &str, file_exists: bool) -> (validation: Validation)
    ensures
        file_exists ==> validation == Validation::Valid,
        !file_exists ==> (validation matches Validation::Invalid(message) && message@
            == missing_plugin_file_message(input@)),
{
    if file_exists {
        Validation::Valid
    } else {
        let mut message = String::from_str("Plugin file does not exist: ");
        message.append(input);
        Validation::Invalid(message)
    }
}

} // verus!
