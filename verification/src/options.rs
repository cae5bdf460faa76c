use vstd::prelude::*;

verus! {

/// The editor's settings.
#[derive(Debug, Clone, Copy, PartialEq, Eq, Structural)]
pub struct Options {
    /// Whether loaded text is kept compressed.
    pub compression: bool,
}

impl Default for Options {
    fn default() -> (o: Self)
        ensures
            !o.compression,
    {
        Options { compression: false }
    }
}

/// The settings window.
#[derive(Debug)]
pub struct OptionsDialog;

impl OptionsDialog {
    #[inline]
    pub fn new() -> (d: Self)
        ensures
            d == OptionsDialog,
    {
        OptionsDialog
    }
}

/// The fields of the search bar.
#[derive(Debug)]
pub struct SearchWidget {
    pub query: String,
    pub case_sensitive: bool,
    pub whole_words: bool,
    pub is_regex: bool,
    pub should_focus: bool,
}

impl SearchWidget {
    /// An empty query with every toggle off.
    pub fn new() -> (w: Self)
        ensures
            w.query@ == Seq::<char>::empty(),
            !w.case_sensitive && !w.whole_words && !w.is_regex && !w.should_focus,
    {
        SearchWidget {
            query: String::new(),
            case_sensitive: false,
            whole_words: false,
            is_regex: false,
            should_focus: false,
        }
    }
}

} // verus!
