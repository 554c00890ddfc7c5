//! Settings of the default `.feature` file parser: the language of the
//! Gherkin keywords and the glob pattern that selects the files. Reading
//! and parsing the files is left to the program around this library.

use vstd::prelude::*;

use crate::text::push_str;

verus! {

#[verifier::external_type_specification]
#[verifier::external_body]
pub struct ExGlobError(globwalk::GlobError);

/// Whether Gherkin has keywords for the language `name`
/// (`gherkin::is_language_supported`).
pub uninterp spec fn gherkin_language_supported(name: Seq<char>) -> bool;

/// Whether `pattern` compiles as a glob (`globwalk::glob` succeeds).
pub uninterp spec fn glob_pattern_valid(pattern: Seq<char>) -> bool;

/// `gherkin::is_language_supported`: whether the keyword tables know the
/// language `name`.
#[verifier::external_body]
fn is_language_supported(name: &str) -> (r: bool)
    ensures
        r == gherkin_language_supported(name@),
{
    gherkin::is_language_supported(name)
}

/// `globwalk::glob`: compiles `pattern`, reporting the error when it is not
/// a valid glob; the walker itself is dropped.
#[verifier::external_body]
fn check_glob(pattern: &str) -> (r: Result<(), globwalk::GlobError>)
    ensures
        r is Ok <==> glob_pattern_valid(pattern@),
{
    match globwalk::glob(pattern) {
        Ok(_) => Ok(()),
        Err(e) => Err(e),
    }
}

/// Error of Gherkin not supporting keywords in some language.
#[derive(Clone, Debug)]
pub struct UnsupportedLanguageError(pub String);

impl UnsupportedLanguageError {
    /// Display form: `Language <name> isn't supported`.
    pub fn to_string(&self) -> (s: String)
        ensures
            s@ == "Language "@ + self.0@ + " isn't supported"@,
    {
        let mut s = String::new();
        push_str(&mut s, "Language ");
        push_str(&mut s, self.0.as_str());
        push_str(&mut s, " isn't supported");
        s
    }
}

/// A glob pattern selecting `.feature` files.
#[derive(Clone, Debug)]
pub struct Walker(pub String);

impl Walker {
    /// The pattern, if it compiles as a glob.
    pub fn parse(s: &str) -> (r: Result<Walker, globwalk::GlobError>)
        ensures
            r is Ok <==> glob_pattern_valid(s@),
            r matches Ok(w) ==> w.0@ == s@,
    {
        match check_glob(s) {
            Ok(()) => {
                let mut p = String::new();
                push_str(&mut p, s);
                Ok(Walker(p))
            },
            Err(e) => Err(e),
        }
    }
}

impl core::str::FromStr for Walker {
    type Err = globwalk::GlobError;

    fn from_str(s: &str) -> (r: Result<Self, Self::Err>)
        ensures
            r is Ok <==> glob_pattern_valid(s@),
            r matches Ok(w) ==> w.0@ == s@,
    {
        Walker::parse(s)
    }
}

/// Settings of the default parser.
#[derive(Clone, Debug)]
pub struct Basic {
    language: Option<String>,
}

impl Basic {
    /// The language of the Gherkin keywords, if not the default (English).
    pub closed spec fn language_view(&self) -> Option<Seq<char>> {
        match self.language {
            Some(l) => Some(l@),
            None => None,
        }
    }

    /// A parser for English keywords.
    pub fn new() -> (b: Self)
        ensures
            b.language_view() is None,
    {
        Basic { language: None }
    }

    /// The language set, if any.
    pub fn get_language(&self) -> (l: Option<&String>)
        ensures
            match l {
                Some(s) => self.language_view() == Some(s@),
                None => self.language_view() is None,
            },
    {
        self.language.as_ref()
    }

    /// Sets the language of the Gherkin keywords; fails when Gherkin does
    /// not know it.
    pub fn language(self, name: String) -> (r: Result<Self, UnsupportedLanguageError>)
        ensures
            r is Ok <==> gherkin_language_supported(name@),
            r matches Ok(b) ==> b.language_view() == Some(name@),
            r matches Err(e) ==> e.0@ == name@,
    {
        if !is_language_supported(name.as_str()) {
            return Err(UnsupportedLanguageError(name));
        }
        Ok(Basic { language: Some(name) })
    }
}

} // verus!
