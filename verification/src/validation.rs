//! Validation of the address the server is asked to listen on.
use vstd::prelude::*;
use vstd::string::*;
use crate::text::{trim_string, trim_unicode};

verus! {

#[verifier::external_type_specification]
#[verifier::external_body]
pub struct ExRegex(regex::Regex);

#[verifier::external_type_specification]
#[verifier::external_body]
pub struct ExRegexError(regex::Error);

/// Whether the regular expression `pattern` matches somewhere in `haystack`.
pub uninterp spec fn regex_finds_match(pattern: Seq<char>, haystack: Seq<char>) -> bool;

/// Whether `regex::Regex::new` accepts `pattern`: the pattern is valid and
/// its compiled form stays within the default size limit.
pub uninterp spec fn regex_compiles(pattern: Seq<char>) -> bool;

/// Compiles `pattern` with `regex::Regex::new`, which fails for an invalid
/// pattern and for one whose compiled form exceeds the default size limit;
/// the claim is only that success is that named function of the pattern.
#[verifier::external_body]
fn regex_new(pattern: &str) -> (res: Result<regex::Regex, regex::Error>)
    ensures
        res is Ok <==> regex_compiles(pattern@),
{
    regex::Regex::new(pattern)
}

/// A compiled regular expression together with the text it was compiled
/// from.
pub struct Pattern {
    re: regex::Regex,
    source: Ghost<Seq<char>>,
}

/// The pattern could not be compiled.
#[derive(Debug)]
pub struct InvalidPattern;

/// Four groups of one to three decimal digits separated by dots, and
/// nothing else.
pub const IP_PATTERN: &'static str = r"^(?:[0-9]{1,3}\.){3}[0-9]{1,3}$";

impl Pattern {
    /// The text the pattern was compiled from.
    pub closed spec fn source(&self) -> Seq<char> {
        self.source@
    }

    pub fn compile(pattern: &str) -> (res: Result<Pattern, InvalidPattern>)
        ensures
            res is Ok <==> regex_compiles(pattern@),
            res matches Ok(p) ==> p.source() == pattern@,
    {
        match regex_new(pattern) {
            Ok(re) => Ok(Pattern { re, source: Ghost(pattern@) }),
            Err(_) => Err(InvalidPattern),
        }
    }

    /// Calls `regex::Regex::is_match` on the compiled expression, which
    /// returns true exactly when the expression matches somewhere in
    /// `haystack`; the claim is that the result is that of the pattern text
    /// this value was compiled from (`compile` is the only constructor).
    #[verifier::external_body]
    fn is_match(&self, haystack: &str) -> (res: bool)
        ensures
            res == regex_finds_match(self.source(), haystack@),
    {
        self.re.is_match(haystack)
    }
}

/// The pattern for listening addresses, compiled.
pub fn ip_pattern() -> (res: Result<Pattern, InvalidPattern>)
    ensures
        res is Ok <==> regex_compiles(IP_PATTERN@),
        res matches Ok(p) ==> p.source() == IP_PATTERN@,
{
    Pattern::compile(IP_PATTERN)
}

/// Accepts `input` when, trimmed of whitespace, it matches `pattern`;
/// otherwise answers "Invalid IP".
pub fn validate_listen_ip(pattern: &Pattern, input: &String) -> (res: Result<(), String>)
    ensures
        res is Ok <==> regex_finds_match(pattern.source(), trim_unicode(input@)),
        res matches Err(e) ==> e@ == "Invalid IP"@,
{
    let trimmed = trim_string(input.as_str());
    if pattern.is_match(trimmed.as_str()) {
        Ok(())
    } else {
        Err(String::from_str("Invalid IP"))
    }
}

} // verus!
