//! Regular expressions, compiled once by the `regex` crate and kept with their source.
use vstd::prelude::*;
use regex::Regex;

verus! {

#[verifier::external_type_specification]
#[verifier::external_body]
pub struct ExRegex(Regex);

/// What `Regex::new` says of a pattern: nothing when it compiles, else the
/// message of its error.
pub uninterp spec fn regex_rejection(pattern: Seq<char>) -> Option<Seq<char>>;

/// What `Regex::replace_all` makes of `text` for the regex of `pattern` and a
/// replacement template, where `$1` and `${name}` refer to groups.
pub uninterp spec fn regex_replace_all(pattern: Seq<char>, text: Seq<char>, template: Seq<char>) -> Seq<char>;

/// A compiled regular expression together with the text it was compiled from.
/// The only way to make one is `Pattern::compile`, so the two always agree.
#[derive(Debug)]
pub struct Pattern {
    regex: Regex,
    source: String,
}

impl Pattern {
    /// The text the regular expression was compiled from.
    pub closed spec fn source(&self) -> Seq<char> {
        self.source@
    }

    /// Relies on `Regex::new` and the `Display` of its error.
    #[verifier::external_body]
    pub(crate) fn compile(source: &String) -> (r: Result<Pattern, String>)
        ensures
            r is Ok <==> regex_rejection(source@) is None,
            r matches Ok(p) ==> p.source() == source@,
            r matches Err(m) ==> regex_rejection(source@) == Some(m@),
    {
        Regex::new(source.as_str())
            .map(|regex| Pattern { regex, source: source.clone() })
            .map_err(|e| e.to_string())
    }

    /// Relies on `Regex::replace_all`: every match replaced through the template.
    #[verifier::external_body]
    pub(crate) fn replace_all(&self, text: &str, template: &str) -> (r: String)
        ensures
            r@ == regex_replace_all(self.source(), text@, template@),
    {
        self.regex.replace_all(text, template).into_owned()
    }

    /// The text the regular expression was compiled from.
    pub fn as_str(&self) -> (r: &str)
        ensures
            r@ == self.source(),
    {
        self.source.as_str()
    }
}

} // verus!
