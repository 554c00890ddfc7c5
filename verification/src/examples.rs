//! Values of one example row of a scenario outline, substituted into step
//! text in place of `<name>` placeholders.

use vstd::prelude::*;

use crate::gherkin::Examples;
use crate::text::{chars_of, has_prefix, has_prefix_at, push_char, push_str};

verus! {

/// Replaces, from left to right, every non-overlapping occurrence of `pat`
/// in `s` with `to` (as `str::replace` does for a non-empty pattern).
pub open spec fn replace_all(s: Seq<char>, pat: Seq<char>, to: Seq<char>) -> Seq<char>
    decreases s.len(),
{
    if s.len() == 0 || pat.len() == 0 {
        s
    } else if has_prefix(s, pat) {
        to + replace_all(s.skip(pat.len() as int), pat, to)
    } else {
        seq![s[0]] + replace_all(s.skip(1), pat, to)
    }
}

/// Replaces every occurrence of the non-empty pattern `pat` in `s` with `to`.
pub fn replace_str(s: &str, pat: &str, to: &str) -> (r: String)
    requires
        pat@.len() > 0,
    ensures
        r@ == replace_all(s@, pat@, to@),
{
    let v = chars_of(s);
    let plen = chars_of(pat).len();
    let mut out = String::new();
    let mut i: usize = 0;
    assert(v@.skip(0) == v@);
    while i < v.len()
        invariant
            v@ == s@,
            plen == pat@.len(),
            plen > 0,
            i <= v@.len(),
            out@ + replace_all(v@.skip(i as int), pat@, to@) == replace_all(s@, pat@, to@),
        decreases v.len() - i,
    {
        let ghost rest = v@.skip(i as int);
        let ghost before = out@;
        if has_prefix_at(&v, i, pat) {
            push_str(&mut out, to);
            proof {
                assert(rest.skip(plen as int) =~= v@.skip(i + plen));
                assert(before + (to@ + replace_all(rest.skip(plen as int), pat@, to@))
                    =~= out@ + replace_all(v@.skip(i + plen), pat@, to@));
            }
            i += plen;
        } else {
            push_char(&mut out, v[i]);
            proof {
                assert(rest.skip(1) =~= v@.skip(i + 1));
                assert(before + (seq![rest[0]] + replace_all(rest.skip(1), pat@, to@))
                    =~= out@ + replace_all(v@.skip(i + 1), pat@, to@));
            }
            i += 1;
        }
    }
    assert(v@.skip(i as int) =~= Seq::<char>::empty());
    out
}

/// The placeholder naming parameter `name`: `<name>`.
pub open spec fn placeholder(name: Seq<char>) -> Seq<char> {
    seq!['<'] + name + seq!['>']
}

/// The value at `i`, or nothing when there is none.
pub open spec fn value_at(values: Seq<Seq<char>>, i: int) -> Seq<char> {
    if 0 <= i < values.len() { values[i] } else { Seq::empty() }
}

/// `s` with the first `n` keys replaced in turn by their values.
pub open spec fn substitute(s: Seq<char>, keys: Seq<Seq<char>>, values: Seq<Seq<char>>, n: nat) -> Seq<char>
    decreases n,
{
    if n == 0 {
        s
    } else {
        replace_all(substitute(s, keys, values, (n - 1) as nat), keys[n - 1], value_at(values, n - 1))
    }
}

/// `key = value` pairs of the first `n` keys, separated by `, `.
pub open spec fn pairs_text(keys: Seq<Seq<char>>, values: Seq<Seq<char>>, n: nat) -> Seq<char>
    decreases n,
{
    if n == 0 {
        Seq::empty()
    } else if n == 1 {
        keys[0] + " = "@ + value_at(values, 0)
    } else {
        pairs_text(keys, values, (n - 1) as nat) + ", "@ + keys[n - 1] + " = "@ + value_at(values, n - 1)
    }
}

/// The characters of each string.
pub open spec fn strings_view(v: Seq<String>) -> Seq<Seq<char>> {
    v.map_values(|s: String| s@)
}

/// Copies a vector of strings.
pub fn copy_strings(src: &Vec<String>) -> (r: Vec<String>)
    ensures
        strings_view(r@) == strings_view(src@),
{
    let mut vs: Vec<String> = Vec::new();
    let mut j: usize = 0;
    while j < src.len()
        invariant
            j <= src@.len(),
            strings_view(vs@) == strings_view(src@.take(j as int)),
        decreases src.len() - j,
    {
        let mut v = String::new();
        push_str(&mut v, src[j].as_str());
        assert(v@ =~= src@[j as int]@);
        let ghost old_vs = vs@;
        vs.push(v);
        proof {
            assert(strings_view(vs@) =~= strings_view(old_vs).push(v@));
            assert(src@.take(j + 1) == src@.take(j as int).push(src@[j as int]));
            assert(strings_view(vs@) =~= strings_view(src@.take(j + 1)));
        }
        j += 1;
    }
    assert(src@.take(src@.len() as int) == src@);
    vs
}

/// Parameter placeholders of one example row with their values.
#[derive(Debug, PartialEq, Eq)]
pub struct ExampleValues {
    keys: Vec<String>,
    values: Vec<String>,
}

impl ExampleValues {
    /// Placeholders, each `<name>`.
    pub closed spec fn keys(&self) -> Seq<Seq<char>> {
        strings_view(self.keys@)
    }

    /// Values, in the order of their placeholders.
    pub closed spec fn values(&self) -> Seq<Seq<char>> {
        strings_view(self.values@)
    }

    /// Every placeholder is non-empty.
    #[verifier::type_invariant]
    closed spec fn keys_nonempty(&self) -> bool {
        forall|i: int| 0 <= i < self.keys@.len() ==> (#[trigger] self.keys@[i])@.len() > 0
    }

    /// A copy with the same placeholders and values.
    pub fn clone(&self) -> (c: Self)
        ensures
            c.keys() == self.keys(),
            c.values() == self.values(),
    {
        proof { use_type_invariant(self); }
        let keys = copy_strings(&self.keys);
        let values = copy_strings(&self.values);
        proof {
            assert(strings_view(keys@).len() == keys@.len());
            assert(strings_view(self.keys@).len() == self.keys@.len());
            assert forall|i: int| 0 <= i < keys@.len() implies (#[trigger] keys@[i])@.len() > 0 by {
                assert(strings_view(keys@)[i] == keys@[i]@);
                assert(strings_view(self.keys@)[i] == self.keys@[i]@);
                assert(strings_view(keys@)[i] == strings_view(self.keys@)[i]);
            }
        }
        ExampleValues { keys, values }
    }

    /// Pairs each parameter name with its value; names become `<name>`.
    pub fn new(keys: &Vec<String>, values: &Vec<String>) -> (e: Self)
        ensures
            e.keys() == strings_view(keys@).map_values(|k: Seq<char>| placeholder(k)),
            e.values() == strings_view(values@),
    {
        let mut ks: Vec<String> = Vec::new();
        let mut i: usize = 0;
        while i < keys.len()
            invariant
                i <= keys@.len(),
                strings_view(ks@) == strings_view(keys@.take(i as int)).map_values(|k: Seq<char>| placeholder(k)),
                forall|j: int| 0 <= j < ks@.len() ==> (#[trigger] ks@[j])@.len() > 0,
            decreases keys.len() - i,
        {
            let mut k = String::new();
            push_char(&mut k, '<');
            push_str(&mut k, keys[i].as_str());
            push_char(&mut k, '>');
            assert(k@ =~= placeholder(keys@[i as int]@));
            let ghost old_ks = ks@;
            ks.push(k);
            proof {
                assert(keys@.take(i + 1) == keys@.take(i as int).push(keys@[i as int]));
                assert(strings_view(ks@) =~= strings_view(old_ks).push(k@));
                assert(strings_view(ks@) =~= strings_view(keys@.take(i + 1)).map_values(|k: Seq<char>| placeholder(k)));
            }
            i += 1;
        }
        assert(keys@.take(keys@.len() as int) == keys@);
        let vs = copy_strings(values);
        ExampleValues { keys: ks, values: vs }
    }

    /// No placeholders and no values.
    pub fn empty() -> (e: Self)
        ensures
            e.keys().len() == 0,
            e.values().len() == 0,
    {
        ExampleValues { keys: Vec::new(), values: Vec::new() }
    }

    /// Whether there are no placeholders.
    pub fn is_empty(&self) -> (r: bool)
        ensures
            r == (self.keys().len() == 0),
    {
        self.keys.len() == 0
    }

    /// Replaces, in turn, each placeholder in `step` with its value (a
    /// missing value counts as empty).
    pub fn insert_values(&self, step: &String) -> (r: String)
        ensures
            r@ == substitute(step@, self.keys(), self.values(), self.keys().len()),
    {
        proof { use_type_invariant(self); }
        let mut modified = String::new();
        push_str(&mut modified, step.as_str());
        let mut i: usize = 0;
        while i < self.keys.len()
            invariant
                i <= self.keys@.len(),
                forall|j: int| 0 <= j < self.keys@.len() ==> (#[trigger] self.keys@[j])@.len() > 0,
                modified@ == substitute(step@, self.keys(), self.values(), i as nat),
            decreases self.keys.len() - i,
        {
            let next = if i < self.values.len() {
                replace_str(modified.as_str(), self.keys[i].as_str(), self.values[i].as_str())
            } else {
                replace_str(modified.as_str(), self.keys[i].as_str(), "")
            };
            proof {
                reveal_strlit("");
                assert(self.keys()[i as int] == self.keys@[i as int]@);
                if i < self.values@.len() {
                    assert(value_at(self.values(), i as int) == self.values@[i as int]@);
                } else {
                    assert(value_at(self.values(), i as int) =~= ""@);
                }
            }
            modified = next;
            i += 1;
        }
        modified
    }

    /// `<name> = value` pairs, separated by `, `.
    pub fn as_string(&self) -> (r: String)
        ensures
            r@ == pairs_text(self.keys(), self.values(), self.keys().len()),
    {
        let mut out = String::new();
        let mut i: usize = 0;
        while i < self.keys.len()
            invariant
                i <= self.keys@.len(),
                out@ == pairs_text(self.keys(), self.values(), i as nat),
            decreases self.keys.len() - i,
        {
            if i > 0 {
                push_str(&mut out, ", ");
            }
            push_str(&mut out, self.keys[i].as_str());
            push_str(&mut out, " = ");
            if i < self.values.len() {
                push_str(&mut out, self.values[i].as_str());
            }
            proof {
                reveal_strlit("");
                assert(self.keys()[i as int] == self.keys@[i as int]@);
                if i < self.values@.len() {
                    assert(value_at(self.values(), i as int) == self.values@[i as int]@);
                } else {
                    assert(value_at(self.values(), i as int) =~= Seq::<char>::empty());
                }
                assert(out@ =~= pairs_text(self.keys(), self.values(), (i + 1) as nat));
            }
            i += 1;
        }
        out
    }

    /// One [`ExampleValues`] per example row (the first row names the
    /// parameters); without examples, a single empty one.
    pub fn from_examples(examples: &Option<Examples>) -> (r: Vec<ExampleValues>)
        ensures
            examples is None ==> r@.len() == 1 && r@[0].keys().len() == 0 && r@[0].values().len() == 0,
            examples matches Some(ex) ==> {
                let rows = ex.table.rows@;
                &&& r@.len() == if rows.len() == 0 { 0 } else { rows.len() - 1 }
                &&& forall|i: int| 0 <= i < r@.len() ==> {
                    &&& (#[trigger] r@[i]).keys() == strings_view(rows[0]@).map_values(|k: Seq<char>| placeholder(k))
                    &&& r@[i].values() == strings_view(rows[i + 1]@)
                }
            },
    {
        if examples.is_none() {
            let e = ExampleValues::empty();
            let mut r = Vec::new();
            r.push(e);
            assert(r@[0] == e);
            return r;
        }
        match examples {
            None => Vec::new(),
            Some(ex) => {
                let rows = &ex.table.rows;
                let mut r: Vec<ExampleValues> = Vec::new();
                let mut i: usize = 1;
                while i < rows.len()
                    invariant
                        1 <= i,
                        i <= rows@.len() || i == 1,
                        r@.len() == i - 1,
                        forall|k: int| 0 <= k < r@.len() ==> {
                            &&& (#[trigger] r@[k]).keys() == strings_view(rows@[0]@).map_values(|k: Seq<char>| placeholder(k))
                            &&& r@[k].values() == strings_view(rows@[k + 1]@)
                        },
                    decreases rows.len() - i,
                {
                    let e = ExampleValues::new(&rows[0], &rows[i]);
                    r.push(e);
                    i += 1;
                }
                r
            },
        }
    }
}

} // verus!
