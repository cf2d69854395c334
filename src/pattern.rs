//! Compiled glob patterns, matched by the `glob` crate.
use vstd::prelude::*;

verus! {

#[verifier::external_type_specification]
#[verifier::external_body]
pub struct ExPattern(glob::Pattern);

/// Whether `glob::Pattern::new` accepts the pattern text.
pub uninterp spec fn glob_valid(text: Seq<char>) -> bool;

/// Whether the pattern compiled from `text` matches `candidate` under the
/// match options `case_sensitive`, `require_literal_separator` and
/// `require_literal_leading_dot`.
pub uninterp spec fn glob_matches(text: Seq<char>, case_sensitive: bool, literal_separator: bool, literal_leading_dot: bool, candidate: Seq<char>) -> bool;

/// A glob pattern together with the text it was compiled from.
///
/// Values are made by `Glob::compile` or by cloning one, so `pattern` is
/// always what `glob::Pattern::new` returned for `text`.
pub struct Glob {
    pattern: glob::Pattern,
    text: String,
}

impl View for Glob {
    type V = Seq<char>;

    closed spec fn view(&self) -> Seq<char> {
        self.text@
    }
}

impl Clone for Glob {
    fn clone(&self) -> (r: Glob)
        ensures
            r@ == self@,
    {
        Glob { pattern: clone_pattern(&self.pattern), text: self.text.clone() }
    }
}

/// Relies on `Clone for glob::Pattern`, the derived field-by-field copy.
#[verifier::external_body]
fn clone_pattern(p: &glob::Pattern) -> (r: glob::Pattern) {
    p.clone()
}

impl Glob {
    /// Relies on `glob::Pattern::new`: it succeeds on exactly the texts that
    /// the glob grammar accepts, and the pattern keeps its source text.
    #[verifier::external_body]
    pub fn compile(text: &str) -> (r: Option<Glob>)
        ensures
            r is Some <==> glob_valid(text@),
            r matches Some(g) ==> g@ == text@,
    {
        glob::Pattern::new(text).ok().map(|pattern| Glob { pattern, text: text.to_string() })
    }

    /// Relies on `glob::Pattern::matches_with` with the given match options.
    #[verifier::external_body]
    pub fn matches(&self, candidate: &str, case_sensitive: bool, literal_separator: bool, literal_leading_dot: bool) -> (r: bool)
        ensures
            r == glob_matches(self@, case_sensitive, literal_separator, literal_leading_dot, candidate@),
    {
        let options = glob::MatchOptions {
            case_sensitive,
            require_literal_separator: literal_separator,
            require_literal_leading_dot: literal_leading_dot,
        };
        self.pattern.matches_with(candidate, options)
    }

    /// The text the pattern was compiled from.
    pub fn as_str(&self) -> (r: &str)
        ensures
            r@ == self@,
    {
        self.text.as_str()
    }
}

} // verus!
