//! File paths as plain values.
use vstd::prelude::*;

verus! {

/// A file path, and whether it is absolute on the system that it is for.
#[derive(Debug, PartialEq, Eq)]
pub struct FilePath {
    /// The path.
    pub text: String,
    /// Whether the path is absolute.
    pub absolute: bool,
}

impl Clone for FilePath {
    fn clone(&self) -> (copy: Self)
        ensures
            copy == *self,
    {
        FilePath { text: self.text.clone(), absolute: self.absolute }
    }
}

/// Whether a path is absolute on Unix: it starts at the root.
pub open spec fn rooted(text: Seq<char>) -> bool {
    text.len() > 0 && text[0] == '/'
}

impl FilePath {
    /// A path of a Unix system.
    pub fn unix(text: String) -> (path: Self)
        ensures
            path.text == text,
            path.absolute == rooted(text@),
    {
        let length: usize = text.as_str().unicode_len();
        let absolute: bool = length > 0 && text.as_str().get_char(0) == '/';
        FilePath { text, absolute }
    }
}

}
