//! What a caught panic is reported as: its message and where it happened.

use vstd::prelude::*;

use crate::text::{decimal, push_char, push_decimal, push_str};

verus! {

/// Message and location of a panic.
#[derive(Clone, Debug)]
pub struct PanicDetails {
    /// What the panic carried, as text.
    pub payload: String,
    /// Where the panic happened, as `file:line:column`.
    pub location: String,
}

impl PanicDetails {
    /// Details of a panic: its message, if it carried text, and its
    /// location (file, line, column), if known.
    pub fn new(payload: Option<String>, location: Option<(String, u32, u32)>) -> (d: Self)
        ensures
            d.payload@ == match payload {
                Some(p) => p@,
                None => "Opaque panic payload"@,
            },
            d.location@ == match location {
                Some((f, l, c)) => f@ + seq![':'] + decimal(l as nat) + seq![':'] + decimal(c as nat),
                None => "Unknown panic location"@,
            },
    {
        let payload = match payload {
            Some(p) => p,
            None => {
                let mut s = String::new();
                push_str(&mut s, "Opaque panic payload");
                s
            },
        };
        let location = match location {
            Some((f, l, c)) => {
                let mut s = String::new();
                push_str(&mut s, f.as_str());
                push_char(&mut s, ':');
                push_decimal(&mut s, l as u64);
                push_char(&mut s, ':');
                push_decimal(&mut s, c as u64);
                s
            },
            None => {
                let mut s = String::new();
                push_str(&mut s, "Unknown panic location");
                s
            },
        };
        PanicDetails { payload, location }
    }
}

/// Text of a panic payload: the text it carried (a `String` or a `&str`),
/// or `(Could not resolve panic payload)` when it carried something else.
pub fn coerce_error(payload: Option<&str>) -> (s: String)
    ensures
        s@ == match payload {
            Some(p) => p@,
            None => "(Could not resolve panic payload)"@,
        },
{
    let mut s = String::new();
    match payload {
        Some(p) => push_str(&mut s, p),
        None => push_str(&mut s, "(Could not resolve panic payload)"),
    }
    s
}

/// Outcome of running code that may panic, with its captured output.
#[derive(Debug)]
pub struct PanicTrap<T> {
    /// The value returned, or the details of the panic.
    pub result: Result<T, PanicDetails>,
    /// Captured standard output.
    pub stdout: Vec<u8>,
    /// Captured standard error.
    pub stderr: Vec<u8>,
}

impl<T> PanicTrap<T> {
    /// The outcome of a run: a recorded panic wins over the value; without
    /// a recorded panic the run returned `value`.
    pub fn from_outcome(value: Option<T>, last_panic: Option<PanicDetails>) -> (t: Self)
        requires
            value is None ==> last_panic is Some,
        ensures
            last_panic matches Some(p) ==> t.result matches Err(q) && q == p,
            last_panic is None ==> t.result == Ok::<T, PanicDetails>(value.unwrap()),
            t.stdout@.len() == 0,
            t.stderr@.len() == 0,
    {
        let result = match last_panic {
            Some(p) => Err(p),
            None => match value {
                Some(v) => Ok(v),
                None => {
                    return PanicTrap { result: Err(PanicDetails { payload: String::new(), location: String::new() }), stdout: Vec::new(), stderr: Vec::new() };
                },
            },
        };
        PanicTrap { result, stdout: Vec::new(), stderr: Vec::new() }
    }
}

} // verus!
