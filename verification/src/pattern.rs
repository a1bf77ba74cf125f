//! Compiled search patterns.
//!
//! A `CompiledPattern` pairs a compiled regular expression with the raw
//! pattern text and the case flag it was built from.  Contracts speak of the
//! two uninterpreted functions `pattern_ok` (does this pattern compile?) and
//! `regex_match` (does this pattern match this line?), which name what the
//! regex engine decides from its inputs alone.
use vstd::prelude::*;

use crate::strutil::concat_str;

verus! {

#[verifier::external_type_specification]
#[verifier::external_body]
pub struct ExRegex(regex::Regex);

/// Whether the regex engine accepts `raw` (with the given case flag) as a
/// syntactically valid pattern within its size limits.
pub uninterp spec fn pattern_ok(raw: Seq<char>, ignore_case: bool) -> bool;

/// Whether the pattern `raw`, compiled with the given case flag, matches
/// anywhere in the haystack `hay`.
pub uninterp spec fn regex_match(raw: Seq<char>, ignore_case: bool, hay: Seq<char>) -> bool;

/// An immutable compiled pattern: the compiled regex together with the raw
/// pattern string and case flag it was built from.  The fields are private
/// and `compile` is the only constructor, so `re` is always the regex built
/// from `raw` with `ignore_case`.
pub struct CompiledPattern {
    re: regex::Regex,
    raw: String,
    ignore_case: bool,
}

impl CompiledPattern {
    /// The raw pattern text this value was compiled from.
    pub closed spec fn spec_raw(&self) -> Seq<char> {
        self.raw@
    }

    /// The case flag this value was compiled with.
    pub closed spec fn spec_ignore_case(&self) -> bool {
        self.ignore_case
    }

    /// Relies on regex::RegexBuilder::new / case_insensitive / build:
    /// building succeeds if and only if the pattern is valid under the
    /// engine's grammar and size limits, which depend on the pattern text
    /// and the case flag alone.
    #[verifier::external_body]
    fn build(raw: &str, ignore_case: bool) -> (r: Option<CompiledPattern>)
        ensures
            r is Some <==> pattern_ok(raw@, ignore_case),
            r matches Some(p) ==> p.spec_raw() == raw@ && p.spec_ignore_case() == ignore_case,
    {
        match regex::RegexBuilder::new(raw).case_insensitive(ignore_case).build() {
            Ok(re) => Some(CompiledPattern { re, raw: raw.to_string(), ignore_case }),
            Err(_) => None,
        }
    }

    /// Compile `raw` once, with case-insensitivity fixed at compile time.
    /// Fails exactly on invalid patterns, with the single descriptive
    /// message `Invalid pattern "{raw}"`.
    pub fn compile(raw: &str, ignore_case: bool) -> (r: Result<CompiledPattern, String>)
        ensures
            r is Ok <==> pattern_ok(raw@, ignore_case),
            r matches Ok(p) ==> p.spec_raw() == raw@ && p.spec_ignore_case() == ignore_case,
            r matches Err(e) ==> e@ == "Invalid pattern \""@ + raw@ + "\""@,
    {
        match Self::build(raw, ignore_case) {
            Some(p) => Ok(p),
            None => {
                let mut msg = concat_str("Invalid pattern \"", raw);
                msg.append("\"");
                Err(msg)
            },
        }
    }

    /// Relies on regex::Regex::is_match: returns true if and only if the
    /// compiled pattern matches anywhere in `line`; the answer is a function
    /// of the pattern text, the case flag and the haystack alone.
    #[verifier::external_body]
    pub fn is_match(&self, line: &str) -> (r: bool)
        ensures
            r == regex_match(self.spec_raw(), self.spec_ignore_case(), line@),
    {
        self.re.is_match(line)
    }
}

} // verus!
