use vstd::prelude::*;

verus! {

/// Whether the regex engine accepts `pattern` as a regular expression.
/// Compilation succeeds or fails on the pattern text alone.
pub uninterp spec fn regex_valid(pattern: Seq<char>) -> bool;

/// What the regex engine decides for a compiled `pattern` searched,
/// unanchored, anywhere in `text`. The outcome is a function of the pattern
/// and the haystack alone.
pub uninterp spec fn regex_is_match(pattern: Seq<char>, text: Seq<char>) -> bool;

/// Relies on regex::Regex::new: it returns Ok exactly when the pattern is a
/// well-formed regular expression (within the default size limit), a
/// property of the pattern text alone.
#[verifier::external_body]
fn compile_check(pattern: &str) -> (r: bool)
    ensures
        r == regex_valid(pattern@),
{
    regex::Regex::new(pattern).is_ok()
}

/// Relies on regex::Regex::new and regex::Regex::is_match: the pattern,
/// already known to compile, is searched unanchored in the haystack, and the
/// answer depends on the pattern and the haystack alone.
#[verifier::external_body]
fn regex_search(pattern: &str, text: &str) -> (r: bool)
    requires
        regex_valid(pattern@),
    ensures
        r == regex_is_match(pattern@, text@),
{
    match regex::Regex::new(pattern) {
        Ok(re) => re.is_match(text),
        Err(_) => false,
    }
}

/// A text-search pattern whose source is guaranteed to compile: the shape in
/// which class and title patterns reach the matching engine.
#[derive(Debug)]
pub struct TextPattern {
    source: String,
}

impl View for TextPattern {
    type V = Seq<char>;

    closed spec fn view(&self) -> Seq<char> {
        self.source@
    }
}

impl TextPattern {
    #[verifier::type_invariant]
    pub closed spec fn inv(self) -> bool {
        regex_valid(self.source@)
    }

    /// Accepts a pattern exactly when the regex engine can compile it; this
    /// is where malformed patterns are rejected, so that matching never sees
    /// one.
    pub fn new(source: String) -> (r: Option<TextPattern>)
        ensures
            r is Some <==> regex_valid(source@),
            r matches Some(p) ==> p@ == source@,
    {
        if compile_check(source.as_str()) {
            Some(TextPattern { source })
        } else {
            None
        }
    }

    /// The pattern text.
    pub fn source(&self) -> (r: &String)
        ensures
            r@ == self@,
    {
        &self.source
    }

    /// Unanchored search: true when the pattern matches anywhere in `text`.
    pub fn matches(&self, text: &str) -> (r: bool)
        ensures
            r == regex_is_match(self@, text@),
    {
        proof {
            use_type_invariant(self);
        }
        regex_search(self.source.as_str(), text)
    }
}

} // verus!
