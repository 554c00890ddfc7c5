//! Location of a step function in its source file.

use vstd::prelude::*;
use vstd::string::*;

use crate::text::{
    chars_of, count_and_last, decimal, last_index_of, lemma_last_index_in_range,
    lemma_none_after_last, push_char, push_decimal, push_str,
};

verus! {

/// Location of a step function, as a proc macro records it.
#[derive(Clone, Copy, Debug, PartialEq, Eq, Hash, PartialOrd, Ord)]
pub struct Location {
    /// Path to the file where the step function is located.
    pub path: &'static str,
    /// Line of the file where the step function is located.
    pub line: u32,
    /// Column of the file where the step function is located.
    pub column: u32,
}

/// Index of the last path separator (`/` or `\`) in `path`, if any.
pub open spec fn last_separator(path: Seq<char>) -> Option<int> {
    match (last_index_of(path, '/'), last_index_of(path, '\\')) {
        (Some(i), Some(j)) => Some(if i < j { j } else { i }),
        (Some(i), None) => Some(i),
        (None, Some(j)) => Some(j),
        (None, None) => None,
    }
}

/// Last component of `path`: what follows its last `/` or `\`, or all of
/// `path` when it has neither.
pub open spec fn filename_of(path: Seq<char>) -> Seq<char> {
    match last_separator(path) {
        Some(i) => path.skip(i + 1),
        None => path,
    }
}

/// The file name holds no path separator.
pub proof fn lemma_filename_has_no_separator(path: Seq<char>)
    ensures
        !filename_of(path).contains('/'),
        !filename_of(path).contains('\\'),
{
    lemma_last_index_in_range(path, '/');
    lemma_last_index_in_range(path, '\\');
    lemma_none_after_last(path, '/');
    lemma_none_after_last(path, '\\');
    let f = filename_of(path);
    assert forall|k: int| 0 <= k < f.len() implies f[k] != '/' && f[k] != '\\' by {
        match last_separator(path) {
            Some(i) => {
                assert(f[k] == path[i + 1 + k]);
            },
            None => {},
        }
    }
}

/// `file:line:column` notation.
pub open spec fn location_text(file: Seq<char>, line: u32, column: u32) -> Seq<char> {
    file + seq![':'] + decimal(line as nat) + seq![':'] + decimal(column as nat)
}

impl Location {
    /// Creates a new [`Location`] with the given path, line, and column.
    pub fn new(path: &'static str, line: u32, column: u32) -> (l: Self)
        ensures
            l.path == path,
            l.line == line,
            l.column == column,
    {
        Self { path, line, column }
    }

    /// Returns the file path.
    pub fn path(&self) -> (p: &'static str)
        ensures
            p == self.path,
    {
        self.path
    }

    /// Returns the line number.
    pub fn line(&self) -> (l: u32)
        ensures
            l == self.line,
    {
        self.line
    }

    /// Returns the column number.
    pub fn column(&self) -> (c: u32)
        ensures
            c == self.column,
    {
        self.column
    }

    /// Returns the file name: the last component of the path.
    pub fn filename(&self) -> (f: &str)
        ensures
            f@ == filename_of(self.path@),
    {
        let v = chars_of(self.path);
        let n = v.len();
        let (_, unix_last) = count_and_last(&v, '/');
        let (_, windows_last) = count_and_last(&v, '\\');
        proof {
            lemma_last_index_in_range(v@, '/');
            lemma_last_index_in_range(v@, '\\');
        }
        let last = match (unix_last, windows_last) {
            (Some(i), Some(j)) => Some(if i < j { j } else { i }),
            (Some(i), None) => Some(i),
            (None, Some(j)) => Some(j),
            (None, None) => None,
        };
        assert(last matches Some(i) ==> i < v@.len() && last_separator(v@) == Some(i as int));
        assert(last is None ==> last_separator(v@) is None);
        match last {
            Some(i) => self.path.substring_char(i + 1, n),
            None => self.path,
        }
    }

    /// Returns the short notation `filename:line:column`.
    pub fn short(&self) -> (s: String)
        ensures
            s@ == location_text(filename_of(self.path@), self.line, self.column),
    {
        let file = self.filename();
        let mut s = String::new();
        push_str(&mut s, file);
        push_char(&mut s, ':');
        push_decimal(&mut s, self.line as u64);
        push_char(&mut s, ':');
        push_decimal(&mut s, self.column as u64);
        s
    }

    /// Returns the full notation `path:line:column`.
    pub fn to_string(&self) -> (s: String)
        ensures
            s@ == location_text(self.path@, self.line, self.column),
    {
        let mut s = String::new();
        push_str(&mut s, self.path);
        push_char(&mut s, ':');
        push_decimal(&mut s, self.line as u64);
        push_char(&mut s, ':');
        push_decimal(&mut s, self.column as u64);
        s
    }
}

} // verus!
