use vstd::prelude::*;

verus! {

/// A pattern the user asked to see highlighted.
#[derive(Debug, Default)]
pub struct Highlight {
    pattern: String,
}

impl Highlight {
    pub closed spec fn pattern_view(&self) -> Seq<char> {
        self.pattern@
    }

    /// A highlight of the given pattern.
    pub fn from(pattern: &str) -> (h: Self)
        ensures
            h.pattern_view() == pattern@,
    {
        Highlight { pattern: pattern.to_owned() }
    }

    /// The pattern, as text.
    pub fn as_ref(&self) -> (s: &str)
        ensures
            s@ == self.pattern_view(),
    {
        self.pattern.as_str()
    }

    /// The pattern.
    pub fn pattern(&self) -> (s: &str)
        ensures
            s@ == self.pattern_view(),
    {
        self.pattern.as_str()
    }
}

} // verus!
