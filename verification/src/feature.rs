//! Expansion of Scenario Outlines: each example row turns the outline into
//! a scenario whose `<name>` templates are replaced by the row's values.

use vstd::prelude::*;

use crate::examples::{copy_strings, strings_view};
use crate::gherkin::{Background, Examples, Feature, LineCol, Rule, Scenario, Step, Table};
use crate::text::{chars_of, push_char, push_str};

verus! {

/// Whether `c` is white space in the Unicode sense (`char::is_whitespace`).
pub open spec fn is_ws(c: char) -> bool {
    let u = c as u32;
    (0x09 <= u && u <= 0x0D) || u == 0x20 || u == 0x85 || u == 0xA0 || u == 0x1680
        || (0x2000 <= u && u <= 0x200A) || u == 0x2028 || u == 0x2029 || u == 0x202F
        || u == 0x205F || u == 0x3000
}

/// Whether `c` is white space (`char::is_whitespace`).
pub fn is_whitespace_char(c: char) -> (r: bool)
    ensures
        r == is_ws(c),
{
    let u = c as u32;
    (0x09 <= u && u <= 0x0D) || u == 0x20 || u == 0x85 || u == 0xA0 || u == 0x1680
        || (0x2000 <= u && u <= 0x200A) || u == 0x2028 || u == 0x2029 || u == 0x202F
        || u == 0x205F || u == 0x3000
}

/// First index at or after `i` holding white space, or the length of `s`.
pub open spec fn run_end(s: Seq<char>, i: int) -> int
    decreases s.len() - i,
{
    if i >= s.len() {
        s.len() as int
    } else if is_ws(s[i]) {
        i
    } else {
        run_end(s, i + 1)
    }
}

/// Largest index `k` with `lo <= k < hi` and `s[k] == '>'`, if any.
pub open spec fn last_gt(s: Seq<char>, lo: int, hi: int) -> Option<int>
    decreases hi - lo,
{
    if hi <= lo {
        None
    } else if s[hi - 1] == '>' {
        Some(hi - 1)
    } else {
        last_gt(s, lo, hi - 1)
    }
}

/// Where a template starting at `i` ends: the template is `<`, a name of
/// at least one non-space character, and `>`; the name is as long as
/// possible (the pattern `<(\S+)>`). `None` when no template starts at `i`.
pub open spec fn template_end(s: Seq<char>, i: int) -> Option<int> {
    if 0 <= i < s.len() && s[i] == '<' {
        last_gt(s, i + 2, run_end(s, i + 1))
    } else {
        None
    }
}

/// Value of the column named `name` in a row (the first such column).
pub open spec fn lookup(header: Seq<Seq<char>>, values: Seq<Seq<char>>, name: Seq<char>) -> Option<Seq<char>>
    decreases header.len(),
{
    if header.len() == 0 || values.len() == 0 {
        None
    } else if header[0] == name {
        Some(values[0])
    } else {
        lookup(header.skip(1), values.skip(1), name)
    }
}

/// Replaces the templates of `s` from index `i` on, left to right and
/// without rescanning replacements, by their values in the row; an unknown
/// template is dropped. Returns the text and the name of the last unknown
/// template, if any.
pub open spec fn substitute_from(s: Seq<char>, i: int, header: Seq<Seq<char>>, values: Seq<Seq<char>>) -> (Seq<char>, Option<Seq<char>>)
    decreases s.len() - i,
{
    if i < 0 || i >= s.len() {
        (Seq::empty(), None)
    } else {
        match template_end(s, i) {
            Some(k) => {
                let name = s.subrange(i + 1, k);
                let (rest, err) = if k < i || k >= s.len() { (Seq::empty(), None) } else { substitute_from(s, k + 1, header, values) };
                match lookup(header, values, name) {
                    Some(v) => (v + rest, err),
                    None => (rest, if err is Some { err } else { Some(name) }),
                }
            },
            None => {
                let (rest, err) = substitute_from(s, i + 1, header, values);
                (seq![s[i]] + rest, err)
            },
        }
    }
}

/// [`substitute_from`] on the whole text.
pub open spec fn substitute_templates(s: Seq<char>, header: Seq<Seq<char>>, values: Seq<Seq<char>>) -> (Seq<char>, Option<Seq<char>>) {
    substitute_from(s, 0, header, values)
}

proof fn lemma_last_gt_range(s: Seq<char>, lo: int, hi: int)
    ensures
        last_gt(s, lo, hi) matches Some(k) ==> lo <= k < hi && s[k] == '>',
    decreases hi - lo,
{
    if hi > lo && s[hi - 1] != '>' {
        lemma_last_gt_range(s, lo, hi - 1);
    }
}

proof fn lemma_run_end_range(s: Seq<char>, i: int)
    requires
        0 <= i,
    ensures
        i <= run_end(s, i) || i > s.len(),
        run_end(s, i) <= s.len(),
    decreases s.len() - i,
{
    if i < s.len() && !is_ws(s[i]) {
        lemma_run_end_range(s, i + 1);
    }
}

/// Index of the first white space at or after `i` in `v`, or its length.
fn find_run_end(v: &Vec<char>, i: usize) -> (r: usize)
    requires
        i <= v@.len(),
    ensures
        r == run_end(v@, i as int),
        i <= r <= v@.len(),
{
    let mut j = i;
    while j < v.len()
        invariant
            i <= j <= v@.len(),
            run_end(v@, i as int) == run_end(v@, j as int),
        decreases v.len() - j,
    {
        if is_whitespace_char(v[j]) {
            return j;
        }
        j += 1;
    }
    j
}

/// Largest `k` with `lo <= k < hi` and `v[k] == '>'`.
fn find_last_gt(v: &Vec<char>, lo: usize, hi: usize) -> (r: Option<usize>)
    requires
        hi <= v@.len(),
    ensures
        r matches Some(k) ==> last_gt(v@, lo as int, hi as int) == Some(k as int),
        r is None ==> last_gt(v@, lo as int, hi as int) is None,
{
    let mut h = hi;
    while h > lo
        invariant
            h <= hi,
            hi <= v@.len(),
            last_gt(v@, lo as int, hi as int) == last_gt(v@, lo as int, h as int),
        decreases h,
    {
        if v[h - 1] == '>' {
            return Some(h - 1);
        }
        h -= 1;
    }
    None
}

/// Position of the end of the template starting at `i`, if one does.
fn find_template_end(v: &Vec<char>, i: usize) -> (r: Option<usize>)
    requires
        i < v@.len(),
    ensures
        r matches Some(k) ==> template_end(v@, i as int) == Some(k as int) && i + 2 <= k < v@.len(),
        r is None ==> template_end(v@, i as int) is None,
{
    let n = v.len();
    if v[i] != '<' {
        return None;
    }
    let e = find_run_end(v, i + 1);
    proof {
        lemma_last_gt_range(v@, i + 2, e as int);
    }
    if e <= i + 1 {
        return None;
    }
    find_last_gt(v, i + 2, e)
}

/// Looks up the column named `name` in a row.
fn lookup_value(header: &Vec<String>, values: &Vec<String>, name: &Vec<char>) -> (r: Option<usize>)
    ensures
        r matches Some(j) ==> j < header@.len() && j < values@.len()
            && lookup(strings_view(header@), strings_view(values@), name@) == Some(values@[j as int]@),
        r is None ==> lookup(strings_view(header@), strings_view(values@), name@) is None,
{
    let mut j: usize = 0;
    let n = if header.len() < values.len() { header.len() } else { values.len() };
    assert(strings_view(header@).skip(0) == strings_view(header@));
    assert(strings_view(values@).skip(0) == strings_view(values@));
    while j < n
        invariant
            j <= n,
            n <= header@.len(),
            n <= values@.len(),
            n == header@.len() || n == values@.len(),
            lookup(strings_view(header@), strings_view(values@), name@)
                == lookup(strings_view(header@).skip(j as int), strings_view(values@).skip(j as int), name@),
        decreases n - j,
    {
        let h = chars_of(header[j].as_str());
        let same = vec_eq(&h, name);
        proof {
            let hs = strings_view(header@).skip(j as int);
            let vs = strings_view(values@).skip(j as int);
            assert(hs[0] == header@[j as int]@);
            assert(vs[0] == values@[j as int]@);
            assert(hs.skip(1) =~= strings_view(header@).skip(j + 1));
            assert(vs.skip(1) =~= strings_view(values@).skip(j + 1));
        }
        if same {
            return Some(j);
        }
        j += 1;
    }
    proof {
        if n == header@.len() {
            assert(strings_view(header@).skip(j as int).len() == 0);
        } else {
            assert(strings_view(values@).skip(j as int).len() == 0);
        }
    }
    None
}

/// Whether two character vectors are equal.
fn vec_eq(a: &Vec<char>, b: &Vec<char>) -> (r: bool)
    ensures
        r == (a@ == b@),
{
    if a.len() != b.len() {
        return false;
    }
    let mut i: usize = 0;
    while i < a.len()
        invariant
            a@.len() == b@.len(),
            i <= a@.len(),
            forall|j: int| 0 <= j < i ==> a@[j] == b@[j],
        decreases a.len() - i,
    {
        if a[i] != b[i] {
            return false;
        }
        i += 1;
    }
    assert(a@ =~= b@);
    true
}

/// The later of two reported unknown templates: `b` when there is one.
pub open spec fn later_error(a: Option<Seq<char>>, b: Option<Seq<char>>) -> Option<Seq<char>> {
    if b is Some { b } else { a }
}

/// Characters of an optional string.
pub open spec fn opt_view(o: Option<String>) -> Option<Seq<char>> {
    match o {
        Some(s) => Some(s@),
        None => None,
    }
}

/// Replaces the `<name>` templates of `text` by their values in the row
/// (`header` names the columns), as [`substitute_templates`] describes;
/// returns the new text and the last unknown template's name, if any.
pub fn substitute_text(text: &str, header: &Vec<String>, values: &Vec<String>) -> (r: (String, Option<String>))
    ensures
        (r.0@, opt_view(r.1)) == substitute_templates(text@, strings_view(header@), strings_view(values@)),
{
    let ghost hv = strings_view(header@);
    let ghost vv = strings_view(values@);
    let v = chars_of(text);
    let n = v.len();
    let mut out = String::new();
    let mut err: Option<String> = None;
    let mut i: usize = 0;
    while i < n
        invariant
            n == v@.len(),
            v@ == text@,
            hv == strings_view(header@),
            vv == strings_view(values@),
            i <= n,
            out@ + substitute_from(v@, i as int, hv, vv).0 == substitute_from(v@, 0, hv, vv).0,
            later_error(opt_view(err), substitute_from(v@, i as int, hv, vv).1) == substitute_from(v@, 0, hv, vv).1,
        decreases n - i,
    {
        let ghost before = out@;
        match find_template_end(&v, i) {
            Some(k) => {
                let mut name_chars: Vec<char> = Vec::new();
                let mut j = i + 1;
                while j < k
                    invariant
                        i + 1 <= j <= k,
                        k < v@.len(),
                        name_chars@ == v@.subrange(i + 1, j as int),
                    decreases k - j,
                {
                    name_chars.push(v[j]);
                    proof { assert(v@.subrange(i + 1, j + 1) == v@.subrange(i + 1, j as int).push(v@[j as int])); }
                    j += 1;
                }
                match lookup_value(header, values, &name_chars) {
                    Some(c) => {
                        push_str(&mut out, values[c].as_str());
                    },
                    None => {
                        let mut name = String::new();
                        push_chars_vec(&mut name, &name_chars);
                        err = Some(name);
                    },
                }
                proof {
                    let r = substitute_from(v@, k + 1, hv, vv);
                    assert(out@ + r.0 =~= before + substitute_from(v@, i as int, hv, vv).0);
                }
                i = k + 1;
            },
            None => {
                push_char(&mut out, v[i]);
                proof {
                    let r = substitute_from(v@, i + 1, hv, vv);
                    assert(out@ + r.0 =~= before + substitute_from(v@, i as int, hv, vv).0);
                }
                i += 1;
            },
        }
    }
    proof {
        assert(substitute_from(v@, i as int, hv, vv).0 == Seq::<char>::empty());
        assert(out@ + Seq::<char>::empty() =~= out@);
    }
    (out, err)
}

/// Appends the characters of `v` to `out`.
fn push_chars_vec(out: &mut String, v: &Vec<char>)
    ensures
        final(out)@ == old(out)@ + v@,
{
    crate::text::push_chars(out, v, 0, v.len());
    assert(v@.subrange(0, v@.len() as int) == v@);
}

/// Characters of every cell of a table, row by row.
pub open spec fn rows_view(rows: Seq<Vec<String>>) -> Seq<Seq<Seq<char>>> {
    rows.map_values(|r: Vec<String>| strings_view(r@))
}

/// Substitutes the templates of each cell in turn; returns the cells and
/// the last unknown template met.
pub open spec fn cells_substituted(cells: Seq<Seq<char>>, h: Seq<Seq<char>>, v: Seq<Seq<char>>) -> (Seq<Seq<char>>, Option<Seq<char>>)
    decreases cells.len(),
{
    if cells.len() == 0 {
        (Seq::empty(), None)
    } else {
        let (init, e) = cells_substituted(cells.drop_last(), h, v);
        let (c, ce) = substitute_templates(cells.last(), h, v);
        (init.push(c), later_error(e, ce))
    }
}

/// Substitutes the templates of each row in turn; returns the rows and the
/// last unknown template met.
pub open spec fn rows_substituted(rows: Seq<Seq<Seq<char>>>, h: Seq<Seq<char>>, v: Seq<Seq<char>>) -> (Seq<Seq<Seq<char>>>, Option<Seq<char>>)
    decreases rows.len(),
{
    if rows.len() == 0 {
        (Seq::empty(), None)
    } else {
        let (init, e) = rows_substituted(rows.drop_last(), h, v);
        let (r, re) = cells_substituted(rows.last(), h, v);
        (init.push(r), later_error(e, re))
    }
}

/// The last unknown template of a step: in its text, then in its table.
pub open spec fn step_error(s: Step, h: Seq<Seq<char>>, v: Seq<Seq<char>>) -> Option<Seq<char>> {
    let ve = substitute_templates(s.value@, h, v).1;
    match s.table {
        Some(t) => later_error(ve, rows_substituted(rows_view(t.rows@), h, v).1),
        None => ve,
    }
}

/// `new` is `orig` with the templates of its text and table substituted.
pub open spec fn step_substituted(orig: Step, new: Step, h: Seq<Seq<char>>, v: Seq<Seq<char>>) -> bool {
    &&& new.keyword@ == orig.keyword@
    &&& new.ty == orig.ty
    &&& new.value@ == substitute_templates(orig.value@, h, v).0
    &&& opt_view(new.docstring) == opt_view(orig.docstring)
    &&& new.position == orig.position
    &&& new.table is Some <==> orig.table is Some
    &&& (orig.table matches Some(t) ==> rows_view(new.table.unwrap().rows@) == rows_substituted(rows_view(t.rows@), h, v).0
        && new.table.unwrap().position == t.position)
}

/// Copies an optional string.
pub fn copy_opt_string(o: &Option<String>) -> (r: Option<String>)
    ensures
        opt_view(r) == opt_view(*o),
{
    match o {
        Some(s) => Some(s.clone()),
        None => None,
    }
}

/// Copies the rows of a table.
pub fn copy_rows(rows: &Vec<Vec<String>>) -> (r: Vec<Vec<String>>)
    ensures
        rows_view(r@) == rows_view(rows@),
{
    let mut out: Vec<Vec<String>> = Vec::new();
    let mut i: usize = 0;
    while i < rows.len()
        invariant
            i <= rows@.len(),
            rows_view(out@) == rows_view(rows@.take(i as int)),
        decreases rows.len() - i,
    {
        let row = copy_strings(&rows[i]);
        let ghost before = out@;
        out.push(row);
        proof {
            assert(rows@.take(i + 1) == rows@.take(i as int).push(rows@[i as int]));
            assert(rows_view(out@) =~= rows_view(before).push(strings_view(row@)));
            assert(rows_view(out@) =~= rows_view(rows@.take(i + 1)));
        }
        i += 1;
    }
    assert(rows@.take(rows@.len() as int) == rows@);
    out
}

/// Copies the examples of an outline.
pub fn copy_examples(e: &Option<Examples>) -> (r: Option<Examples>)
    ensures
        r is Some <==> e is Some,
        e matches Some(x) ==> rows_view(r.unwrap().table.rows@) == rows_view(x.table.rows@)
            && r.unwrap().table.position == x.table.position && r.unwrap().position == x.position,
{
    match e {
        Some(x) => Some(Examples {
            table: Table { rows: copy_rows(&x.table.rows), position: x.table.position },
            position: x.position,
        }),
        None => None,
    }
}

/// Substitutes the templates of each cell of a row.
fn substitute_cells(cells: &Vec<String>, header: &Vec<String>, values: &Vec<String>) -> (r: (Vec<String>, Option<String>))
    ensures
        (strings_view(r.0@), opt_view(r.1)) == cells_substituted(strings_view(cells@), strings_view(header@), strings_view(values@)),
{
    let ghost h = strings_view(header@);
    let ghost v = strings_view(values@);
    let mut out: Vec<String> = Vec::new();
    let mut err: Option<String> = None;
    let mut i: usize = 0;
    while i < cells.len()
        invariant
            i <= cells@.len(),
            h == strings_view(header@),
            v == strings_view(values@),
            (strings_view(out@), opt_view(err)) == cells_substituted(strings_view(cells@.take(i as int)), h, v),
        decreases cells.len() - i,
    {
        let (c, e) = substitute_text(cells[i].as_str(), header, values);
        let ghost before = out@;
        out.push(c);
        match e {
            Some(name) => { err = Some(name); },
            None => {},
        }
        proof {
            let pre = strings_view(cells@.take(i as int));
            let post = strings_view(cells@.take(i + 1));
            assert(post =~= pre.push(cells@[i as int]@));
            assert(post.drop_last() =~= pre);
            assert(strings_view(out@) =~= strings_view(before).push(c@));
        }
        i += 1;
    }
    assert(cells@.take(cells@.len() as int) == cells@);
    (out, err)
}

/// Substitutes the templates of each cell of each row.
fn substitute_rows(rows: &Vec<Vec<String>>, header: &Vec<String>, values: &Vec<String>) -> (r: (Vec<Vec<String>>, Option<String>))
    ensures
        (rows_view(r.0@), opt_view(r.1)) == rows_substituted(rows_view(rows@), strings_view(header@), strings_view(values@)),
{
    let ghost h = strings_view(header@);
    let ghost v = strings_view(values@);
    let mut out: Vec<Vec<String>> = Vec::new();
    let mut err: Option<String> = None;
    let mut i: usize = 0;
    while i < rows.len()
        invariant
            i <= rows@.len(),
            h == strings_view(header@),
            v == strings_view(values@),
            (rows_view(out@), opt_view(err)) == rows_substituted(rows_view(rows@.take(i as int)), h, v),
        decreases rows.len() - i,
    {
        let (r, e) = substitute_cells(&rows[i], header, values);
        let ghost before = out@;
        out.push(r);
        match e {
            Some(name) => { err = Some(name); },
            None => {},
        }
        proof {
            let pre = rows_view(rows@.take(i as int));
            let post = rows_view(rows@.take(i + 1));
            assert(post =~= pre.push(strings_view(rows@[i as int]@)));
            assert(post.drop_last() =~= pre);
            assert(rows_view(out@) =~= rows_view(before).push(strings_view(r@)));
        }
        i += 1;
    }
    assert(rows@.take(rows@.len() as int) == rows@);
    (out, err)
}

/// A copy of `step` with the templates of its text and table substituted,
/// and the last unknown template met.
pub fn substitute_step(step: &Step, header: &Vec<String>, values: &Vec<String>) -> (r: (Step, Option<String>))
    ensures
        step_substituted(*step, r.0, strings_view(header@), strings_view(values@)),
        opt_view(r.1) == step_error(*step, strings_view(header@), strings_view(values@)),
{
    let (value, value_err) = substitute_text(step.value.as_str(), header, values);
    let (table, err) = match &step.table {
        Some(t) => {
            let (rows, table_err) = substitute_rows(&t.rows, header, values);
            let err = match table_err {
                Some(e) => Some(e),
                None => value_err,
            };
            (Some(Table { rows, position: t.position }), err)
        },
        None => (None, value_err),
    };
    let new = Step {
        keyword: step.keyword.clone(),
        ty: step.ty,
        value,
        docstring: copy_opt_string(&step.docstring),
        table,
        position: step.position,
    };
    (new, err)
}

/// The first step with an unknown template, if any.
pub open spec fn first_error_step(steps: Seq<Step>, h: Seq<Seq<char>>, v: Seq<Seq<char>>) -> Option<int>
    decreases steps.len(),
{
    if steps.len() == 0 {
        None
    } else {
        match first_error_step(steps.drop_last(), h, v) {
            Some(t) => Some(t),
            None => if step_error(steps.last(), h, v) is Some { Some(steps.len() - 1) } else { None },
        }
    }
}

/// A first erroneous step of a prefix is the first of the whole.
proof fn lemma_first_error_prefix(steps: Seq<Step>, k: int, h: Seq<Seq<char>>, v: Seq<Seq<char>>)
    requires
        0 <= k <= steps.len(),
        first_error_step(steps.take(k), h, v) is Some,
    ensures
        first_error_step(steps, h, v) == first_error_step(steps.take(k), h, v),
    decreases steps.len() - k,
{
    if k < steps.len() {
        assert(steps.drop_last().take(k) == steps.take(k));
        lemma_first_error_prefix(steps.drop_last(), k, h, v);
    } else {
        assert(steps.take(k) == steps);
    }
}

/// Error of expanding a Scenario Outline: a template names no column.
#[derive(Clone, Debug)]
pub struct ExpandExamplesError {
    /// Position of the step with the unknown template.
    pub pos: LineCol,
    /// Name of the unknown template.
    pub name: String,
    /// Path to the `.feature` file, if known.
    pub path: Option<String>,
}

impl ExpandExamplesError {
    /// Display form: `Failed to resolve <name> at path:line:col`.
    pub fn to_string(&self) -> (s: String)
        ensures
            s@ == "Failed to resolve <"@ + self.name@ + "> at "@ + match self.path {
                Some(p) => p@,
                None => Seq::empty(),
            } + seq![':'] + crate::text::decimal(self.pos.line as nat) + seq![':']
                + crate::text::decimal(self.pos.col as nat),
    {
        let mut s = String::new();
        push_str(&mut s, "Failed to resolve <");
        push_str(&mut s, self.name.as_str());
        push_str(&mut s, "> at ");
        match &self.path {
            Some(p) => push_str(&mut s, p.as_str()),
            None => {},
        }
        push_char(&mut s, ':');
        crate::text::push_decimal(&mut s, self.pos.line as u64);
        push_char(&mut s, ':');
        crate::text::push_decimal(&mut s, self.pos.col as u64);
        proof {
            reveal_strlit("");
        }
        assert(s@ =~= "Failed to resolve <"@ + self.name@ + "> at "@ + match self.path {
            Some(p) => p@,
            None => Seq::empty(),
        } + seq![':'] + crate::text::decimal(self.pos.line as nat) + seq![':']
            + crate::text::decimal(self.pos.col as nat));
        s
    }
}

/// `r` is the expansion of `sc` for example row `id`: the outline with each
/// step's templates replaced by the row's values, placed `id + 1` lines
/// after the examples; or, when a step names an unknown template, the error
/// of the first such step.
pub open spec fn row_expanded(sc: Scenario, id: int, path: Option<Seq<char>>, r: Result<Scenario, ExpandExamplesError>) -> bool {
    let ex = sc.examples.unwrap();
    let rows = rows_view(ex.table.rows@);
    let h = rows[0];
    let v = rows[id + 1];
    match first_error_step(sc.steps@, h, v) {
        Some(t) => r matches Err(e) && e.pos == sc.steps@[t].position
            && Some(e.name@) == step_error(sc.steps@[t], h, v) && opt_view(e.path) == path,
        None => r matches Ok(m) && {
            &&& m.keyword@ == sc.keyword@
            &&& m.name@ == sc.name@
            &&& strings_view(m.tags@) == strings_view(sc.tags@)
            &&& m.position == (LineCol { line: (ex.position.line + id + 1) as usize, col: ex.position.col })
            &&& m.examples is Some
            &&& rows_view(m.examples.unwrap().table.rows@) == rows
            &&& m.examples.unwrap().position == ex.position
            &&& m.steps@.len() == sc.steps@.len()
            &&& forall|j: int| 0 <= j < sc.steps@.len() ==> step_substituted(sc.steps@[j], #[trigger] m.steps@[j], h, v)
        },
    }
}

/// Whether an outline has examples with at least a header row.
pub open spec fn has_example_rows(sc: Scenario) -> bool {
    sc.examples matches Some(ex) && ex.table.rows@.len() > 0
}

/// Lines of the expanded scenarios fit in `usize`.
pub open spec fn example_lines_fit(sc: Scenario) -> bool {
    sc.examples matches Some(ex) ==> ex.position.line + ex.table.rows@.len() <= usize::MAX
}

/// Expands one example row of an outline.
fn expand_row(scenario: &Scenario, id: usize, path: Option<&String>) -> (r: Result<Scenario, ExpandExamplesError>)
    requires
        has_example_rows(*scenario),
        example_lines_fit(*scenario),
        id + 1 < scenario.examples.unwrap().table.rows@.len(),
    ensures
        row_expanded(*scenario, id as int, match path { Some(p) => Some(p@), None => None }, r),
{
    let ex = match &scenario.examples {
        Some(ex) => ex,
        None => { return Err(ExpandExamplesError { pos: scenario.position, name: String::new(), path: None }); },
    };
    let header = &ex.table.rows[0];
    let values = &ex.table.rows[id + 1];
    let ghost h = strings_view(header@);
    let ghost v = strings_view(values@);
    proof {
        assert(rows_view(ex.table.rows@)[0] == h);
        assert(rows_view(ex.table.rows@)[id + 1] == v);
    }
    let mut steps: Vec<Step> = Vec::new();
    let mut j: usize = 0;
    while j < scenario.steps.len()
        invariant
            j <= scenario.steps@.len(),
            steps@.len() == j,
            h == strings_view(header@),
            v == strings_view(values@),
            forall|k: int| 0 <= k < j ==> step_substituted(scenario.steps@[k], #[trigger] steps@[k], h, v),
            first_error_step(scenario.steps@.take(j as int), h, v) is None,
            scenario.examples == Some(*ex),
            rows_view(ex.table.rows@)[0] == h,
            rows_view(ex.table.rows@)[id + 1] == v,
        decreases scenario.steps.len() - j,
    {
        let (step, err) = substitute_step(&scenario.steps[j], header, values);
        proof {
            let pre = scenario.steps@.take(j as int);
            let post = scenario.steps@.take(j + 1);
            assert(post.drop_last() == pre);
            assert(post.last() == scenario.steps@[j as int]);
        }
        match err {
            Some(name) => {
                proof {
                    assert(first_error_step(scenario.steps@.take(j + 1), h, v) == Some(j as int));
                    lemma_first_error_prefix(scenario.steps@, j + 1, h, v);
                }
                let copied_path = match path {
                    Some(p) => Some(p.clone()),
                    None => None,
                };
                let e = ExpandExamplesError { pos: scenario.steps[j].position, name, path: copied_path };
                assert(opt_view(e.path) == match path { Some(p) => Some(p@), None => None::<Seq<char>> });
                assert(Some(e.name@) == step_error(scenario.steps@[j as int], h, v));
                assert(first_error_step(scenario.steps@, h, v) == Some(j as int));
                return Err(e);
            },
            None => {},
        }
        steps.push(step);
        j += 1;
    }
    assert(scenario.steps@.take(scenario.steps@.len() as int) == scenario.steps@);
    let examples = copy_examples(&scenario.examples);
    let line = ex.position.line + id + 1;
    Ok(Scenario {
        keyword: scenario.keyword.clone(),
        name: scenario.name.clone(),
        steps,
        examples,
        tags: copy_strings(&scenario.tags),
        position: LineCol { line, col: ex.position.col },
    })
}

/// Expands the examples of an outline: one scenario (or error) per example
/// row; a scenario without example rows stays as it is.
pub fn expand_scenario(scenario: Scenario, path: Option<&String>) -> (r: Vec<Result<Scenario, ExpandExamplesError>>)
    requires
        example_lines_fit(scenario),
    ensures
        !has_example_rows(scenario) ==> r@.len() == 1 && r@[0] == Ok::<Scenario, ExpandExamplesError>(scenario),
        has_example_rows(scenario) ==> {
            &&& r@.len() == scenario.examples.unwrap().table.rows@.len() - 1
            &&& forall|id: int| 0 <= id < r@.len() ==> row_expanded(scenario, id,
                match path { Some(p) => Some(p@), None => None }, #[trigger] r@[id])
        },
{
    let n = match &scenario.examples {
        Some(ex) => ex.table.rows.len(),
        None => 0,
    };
    if n == 0 {
        let mut r = Vec::new();
        r.push(Ok(scenario));
        return r;
    }
    let mut r: Vec<Result<Scenario, ExpandExamplesError>> = Vec::new();
    let mut id: usize = 0;
    while id + 1 < n
        invariant
            has_example_rows(scenario),
            example_lines_fit(scenario),
            n == scenario.examples.unwrap().table.rows@.len(),
            id < n,
            r@.len() == id,
            forall|k: int| 0 <= k < id ==> row_expanded(scenario, k,
                match path { Some(p) => Some(p@), None => None }, #[trigger] r@[k]),
        decreases n - id,
    {
        let e = expand_row(&scenario, id, path);
        r.push(e);
        id += 1;
    }
    r
}

/// `rs` is what [`expand_scenario`] makes of `sc`.
pub open spec fn expansion_of(sc: Scenario, path: Option<Seq<char>>, rs: Seq<Result<Scenario, ExpandExamplesError>>) -> bool {
    &&& !has_example_rows(sc) ==> rs.len() == 1 && rs[0] == Ok::<Scenario, ExpandExamplesError>(sc)
    &&& has_example_rows(sc) ==> {
        &&& rs.len() == sc.examples.unwrap().table.rows@.len() - 1
        &&& forall|id: int| 0 <= id < rs.len() ==> row_expanded(sc, id, path, #[trigger] rs[id])
    }
}

/// Whether every result is a scenario.
pub open spec fn all_ok(rs: Seq<Result<Scenario, ExpandExamplesError>>) -> bool {
    forall|i: int| 0 <= i < rs.len() ==> (#[trigger] rs[i]) is Ok
}

/// The scenarios of a list of results that are all scenarios.
pub open spec fn oks(rs: Seq<Result<Scenario, ExpandExamplesError>>) -> Seq<Scenario> {
    rs.map_values(|r: Result<Scenario, ExpandExamplesError>| r->Ok_0)
}

/// The scenarios of each group of results, one group after another.
pub open spec fn flatten_oks(groups: Seq<Seq<Result<Scenario, ExpandExamplesError>>>) -> Seq<Scenario>
    decreases groups.len(),
{
    if groups.len() == 0 {
        Seq::empty()
    } else {
        flatten_oks(groups.drop_last()) + oks(groups.last())
    }
}

/// The first error among results, if any.
pub open spec fn first_err(rs: Seq<Result<Scenario, ExpandExamplesError>>) -> Option<ExpandExamplesError>
    decreases rs.len(),
{
    if rs.len() == 0 {
        None
    } else {
        match rs[0] {
            Err(e) => Some(e),
            Ok(_) => first_err(rs.skip(1)),
        }
    }
}

/// Expanding `scs` gives the scenarios `out`: every outline expands without
/// error, and `out` holds their expansions in order.
pub open spec fn expanded_ok(scs: Seq<Scenario>, path: Option<Seq<char>>, out: Seq<Scenario>) -> bool {
    exists|groups: Seq<Seq<Result<Scenario, ExpandExamplesError>>>| {
        &&& groups.len() == scs.len()
        &&& forall|i: int| 0 <= i < scs.len() ==> expansion_of(scs[i], path, #[trigger] groups[i])
        &&& forall|i: int| 0 <= i < scs.len() ==> all_ok(#[trigger] groups[i])
        &&& out == flatten_oks(groups)
    }
}

/// Expanding `scs` fails with `e`: the first outline whose expansion has an
/// error, and its first error.
pub open spec fn expansion_fails(scs: Seq<Scenario>, path: Option<Seq<char>>, e: ExpandExamplesError) -> bool {
    exists|k: int, groups: Seq<Seq<Result<Scenario, ExpandExamplesError>>>| {
        &&& 0 <= k < scs.len()
        &&& groups.len() == k + 1
        &&& forall|i: int| 0 <= i <= k ==> expansion_of(scs[i], path, #[trigger] groups[i])
        &&& forall|i: int| 0 <= i < k ==> all_ok(#[trigger] groups[i])
        &&& first_err(groups[k]) == Some(e)
    }
}

/// Moves the scenarios out of a list of results, or returns its first error.
#[verifier::loop_isolation(false)]
fn take_oks(rs: Vec<Result<Scenario, ExpandExamplesError>>) -> (r: Result<Vec<Scenario>, ExpandExamplesError>)
    ensures
        r matches Ok(v) ==> all_ok(rs@) && v@ == oks(rs@),
        r matches Err(e) ==> first_err(rs@) == Some(e),
        r is Ok <==> all_ok(rs@),
{
    let ghost orig = rs@;
    let n0 = rs.len();
    let mut rest = rs;
    let mut out: Vec<Scenario> = Vec::new();
    let mut i: usize = 0;
    assert(orig.skip(0) == orig);
    assert(orig.take(0) =~= Seq::<Result<Scenario, ExpandExamplesError>>::empty());
    while rest.len() > 0
        invariant
            n0 == orig.len(),
            i <= orig.len(),
            rest@ == orig.skip(i as int),
            all_ok(orig.take(i as int)),
            out@ == oks(orig.take(i as int)),
            first_err(orig) == first_err(orig.skip(i as int)),
        decreases rest.len(),
    {
        let ghost tail = orig.skip(i as int);
        let x = rest.remove(0);
        assert(x == tail[0]);
        assert(tail.skip(1) =~= orig.skip(i + 1));
        assert(tail[0] == orig[i as int]);
        match x {
            Ok(sc) => {
                assert(first_err(tail) == first_err(tail.skip(1)));
                let ghost before = out@;
                out.push(sc);
                proof {
                    assert(orig.take(i + 1) == orig.take(i as int).push(orig[i as int]));
                    assert(out@ =~= oks(orig.take(i + 1)));
                }
                i += 1;
            },
            Err(e) => {
                proof {
                    assert(!(orig[i as int] is Ok));
                    assert(first_err(tail) == Some(e));
                }
                return Err(e);
            },
        }
    }
    assert(orig.take(i as int) =~= orig);
    Ok(out)
}

/// Expands the outlines of `scenarios` in order, stopping at the first
/// error.
#[verifier::loop_isolation(false)]
pub fn expand_scenarios(scenarios: Vec<Scenario>, path: Option<&String>) -> (r: Result<Vec<Scenario>, ExpandExamplesError>)
    requires
        forall|i: int| 0 <= i < scenarios@.len() ==> example_lines_fit(#[trigger] scenarios@[i]),
    ensures
        r matches Ok(v) ==> expanded_ok(scenarios@, match path { Some(p) => Some(p@), None => None }, v@),
        r matches Err(e) ==> expansion_fails(scenarios@, match path { Some(p) => Some(p@), None => None }, e),
{
    let ghost pv = match path { Some(p) => Some(p@), None => None::<Seq<char>> };
    let ghost orig = scenarios@;
    let n0 = scenarios.len();
    let mut rest = scenarios;
    let mut out: Vec<Scenario> = Vec::new();
    let ghost mut groups: Seq<Seq<Result<Scenario, ExpandExamplesError>>> = Seq::empty();
    let mut i: usize = 0;
    assert(orig.skip(0) == orig);
    while rest.len() > 0
        invariant
            n0 == orig.len(),
            i <= orig.len(),
            rest@ == orig.skip(i as int),
            forall|j: int| 0 <= j < orig.len() ==> example_lines_fit(#[trigger] orig[j]),
            groups.len() == i,
            forall|j: int| 0 <= j < i ==> expansion_of(orig[j], pv, #[trigger] groups[j]),
            forall|j: int| 0 <= j < i ==> all_ok(#[trigger] groups[j]),
            out@ == flatten_oks(groups),
            pv == match path { Some(p) => Some(p@), None => None::<Seq<char>> },
        decreases rest.len(),
    {
        let ghost tail = orig.skip(i as int);
        let sc = rest.remove(0);
        assert(sc == orig[i as int]);
        assert(tail.skip(1) =~= orig.skip(i + 1));
        let results = expand_scenario(sc, path);
        let ghost rs = results@;
        match take_oks(results) {
            Ok(mut v) => {
                proof {
                    let ng = groups.push(rs);
                    assert(ng.drop_last() == groups);
                    assert forall|j: int| 0 <= j < i + 1 implies expansion_of(orig[j], pv, #[trigger] ng[j]) by {
                        if j < i { assert(ng[j] == groups[j]); }
                    }
                    assert forall|j: int| 0 <= j < i + 1 implies all_ok(#[trigger] ng[j]) by {
                        if j < i { assert(ng[j] == groups[j]); }
                    }
                    groups = ng;
                }
                out.append(&mut v);
                i += 1;
            },
            Err(e) => {
                proof {
                    let ng = groups.push(rs);
                    assert forall|j: int| 0 <= j <= i implies expansion_of(orig[j], pv, #[trigger] ng[j]) by {
                        if j < i { assert(ng[j] == groups[j]); }
                    }
                    assert forall|j: int| 0 <= j < i implies all_ok(#[trigger] ng[j]) by {
                        assert(ng[j] == groups[j]);
                    }
                    assert(ng[i as int] == rs);
                    assert(first_err(ng[i as int]) == Some(e));
                    assert(ng.len() == i + 1);
                    assert(expansion_fails(orig, pv, e));
                }
                return Err(e);
            },
        }
    }
    assert(i == orig.len());
    Ok(out)
}

/// Number of scenarios of a feature, those of its rules included.
pub open spec fn scenario_count(feature: Feature) -> int {
    feature.scenarios@.len() + rule_scenario_count(feature.rules@.len() as int, feature)
}

/// Number of scenarios of the first `n` rules of a feature.
pub open spec fn rule_scenario_count(n: int, feature: Feature) -> int
    decreases n,
{
    if n <= 0 {
        0
    } else {
        rule_scenario_count(n - 1, feature) + feature.rules@[n - 1].scenarios@.len()
    }
}

/// Counts the scenarios of a feature, those of its rules included.
pub fn count_scenarios(feature: &Feature) -> (n: usize)
    requires
        scenario_count(*feature) <= usize::MAX,
    ensures
        n == scenario_count(*feature),
{
    let mut total: usize = 0;
    let mut i: usize = 0;
    proof { lemma_rule_count_monotone(*feature, 0, feature.rules@.len() as int); }
    while i < feature.rules.len()
        invariant
            i <= feature.rules@.len(),
            total == rule_scenario_count(i as int, *feature),
            scenario_count(*feature) <= usize::MAX,
        decreases feature.rules.len() - i,
    {
        proof {
            lemma_rule_count_monotone(*feature, i + 1, feature.rules@.len() as int);
        }
        total = total + feature.rules[i].scenarios.len();
        i += 1;
    }
    feature.scenarios.len() + total
}

/// A feature has no fewer than zero scenarios.
pub proof fn lemma_scenario_count_nonnegative(feature: Feature)
    ensures
        scenario_count(feature) >= 0,
{
    lemma_rule_count_monotone(feature, 0, feature.rules@.len() as int);
}

/// A feature has no fewer than zero steps.
pub proof fn lemma_step_count_nonnegative(feature: Feature)
    ensures
        step_count(feature) >= 0,
{
    lemma_scenarios_steps_prefix(feature.scenarios@, 0);
    lemma_rules_steps_prefix(feature.rules@, 0);
}

/// Counting more rules never counts fewer scenarios.
proof fn lemma_rule_count_monotone(feature: Feature, a: int, b: int)
    requires
        0 <= a <= b,
    ensures
        rule_scenario_count(a, feature) <= rule_scenario_count(b, feature),
    decreases b - a,
{
    if a < b {
        lemma_rule_count_monotone(feature, a, b - 1);
    }
}

/// Steps of a background, if there is one.
pub open spec fn background_steps(b: Option<Background>) -> int {
    match b {
        Some(b) => b.steps@.len() as int,
        None => 0,
    }
}

/// Steps of the scenarios `s`.
pub open spec fn scenarios_steps(s: Seq<Scenario>) -> int
    decreases s.len(),
{
    if s.len() == 0 {
        0
    } else {
        scenarios_steps(s.drop_last()) + s.last().steps@.len()
    }
}

/// Steps of the rules `r`: those of their backgrounds and scenarios.
pub open spec fn rules_steps(r: Seq<Rule>) -> int
    decreases r.len(),
{
    if r.len() == 0 {
        0
    } else {
        rules_steps(r.drop_last()) + background_steps(r.last().background) + scenarios_steps(r.last().scenarios@)
    }
}

/// Number of steps of a feature: those of its background and scenarios,
/// and of the backgrounds and scenarios of its rules.
pub open spec fn step_count(feature: Feature) -> int {
    background_steps(feature.background) + scenarios_steps(feature.scenarios@) + rules_steps(feature.rules@)
}

proof fn lemma_scenarios_steps_prefix(s: Seq<Scenario>, k: int)
    requires
        0 <= k <= s.len(),
    ensures
        0 <= scenarios_steps(s.take(k)) <= scenarios_steps(s),
    decreases s.len(),
{
    if k < s.len() {
        assert(s.drop_last().take(k) =~= s.take(k));
        lemma_scenarios_steps_prefix(s.drop_last(), k);
    } else {
        assert(s.take(k) =~= s);
        if s.len() > 0 {
            lemma_scenarios_steps_prefix(s.drop_last(), k - 1);
            assert(s.drop_last().take(k - 1) =~= s.drop_last());
        }
    }
}

proof fn lemma_rules_steps_prefix(r: Seq<Rule>, k: int)
    requires
        0 <= k <= r.len(),
    ensures
        0 <= rules_steps(r.take(k)) <= rules_steps(r),
    decreases r.len(),
{
    if r.len() > 0 {
        lemma_scenarios_steps_prefix(r.last().scenarios@, r.last().scenarios@.len() as int);
    }
    if k < r.len() {
        assert(r.drop_last().take(k) =~= r.take(k));
        lemma_rules_steps_prefix(r.drop_last(), k);
    } else {
        assert(r.take(k) =~= r);
        if r.len() > 0 {
            lemma_rules_steps_prefix(r.drop_last(), k - 1);
            assert(r.drop_last().take(k - 1) =~= r.drop_last());
        }
    }
}

/// Counts the steps of `scenarios`.
fn count_scenarios_steps(scenarios: &Vec<Scenario>) -> (n: usize)
    requires
        scenarios_steps(scenarios@) <= usize::MAX,
    ensures
        n == scenarios_steps(scenarios@),
{
    let mut total: usize = 0;
    let mut i: usize = 0;
    while i < scenarios.len()
        invariant
            i <= scenarios@.len(),
            total == scenarios_steps(scenarios@.take(i as int)),
            scenarios_steps(scenarios@) <= usize::MAX,
        decreases scenarios.len() - i,
    {
        proof {
            assert(scenarios@.take(i + 1).drop_last() =~= scenarios@.take(i as int));
            lemma_scenarios_steps_prefix(scenarios@, i + 1);
        }
        total = total + scenarios[i].steps.len();
        i += 1;
    }
    assert(scenarios@.take(scenarios@.len() as int) =~= scenarios@);
    total
}

/// Counts the steps of a background, if there is one.
fn count_background_steps(b: &Option<Background>) -> (n: usize)
    ensures
        n == background_steps(*b),
{
    match b {
        Some(b) => b.steps.len(),
        None => 0,
    }
}

/// Counts the steps of a feature: those of its background and scenarios,
/// and of the backgrounds and scenarios of its rules.
pub fn count_steps(feature: &Feature) -> (n: usize)
    requires
        step_count(*feature) <= usize::MAX,
    ensures
        n == step_count(*feature),
{
    let rs = &feature.rules;
    proof {
        lemma_scenarios_steps_prefix(feature.scenarios@, feature.scenarios@.len() as int);
        lemma_rules_steps_prefix(rs@, rs@.len() as int);
    }
    let mut total: usize = count_background_steps(&feature.background) + count_scenarios_steps(&feature.scenarios);
    let ghost base = total as int;
    let mut i: usize = 0;
    while i < rs.len()
        invariant
            i <= rs@.len(),
            *rs == feature.rules,
            base == background_steps(feature.background) + scenarios_steps(feature.scenarios@),
            total == base + rules_steps(rs@.take(i as int)),
            step_count(*feature) <= usize::MAX,
        decreases rs.len() - i,
    {
        proof {
            assert(rs@.take(i + 1).drop_last() =~= rs@.take(i as int));
            lemma_rules_steps_prefix(rs@, i + 1);
            lemma_scenarios_steps_prefix(rs@[i as int].scenarios@, rs@[i as int].scenarios@.len() as int);
        }
        let b = count_background_steps(&rs[i].background);
        let c = count_scenarios_steps(&rs[i].scenarios);
        total = total + b + c;
        i += 1;
    }
    assert(rs@.take(rs@.len() as int) =~= rs@);
    total
}

/// Lines of every expanded scenario of the feature fit in `usize`.
pub open spec fn feature_lines_fit(feature: Feature) -> bool {
    &&& forall|i: int| 0 <= i < feature.scenarios@.len() ==> example_lines_fit(#[trigger] feature.scenarios@[i])
    &&& forall|k: int, i: int| 0 <= k < feature.rules@.len() && 0 <= i < feature.rules@[k].scenarios@.len()
        ==> example_lines_fit(#[trigger] feature.rules@[k].scenarios@[i])
}

/// `new` is `old` with its outlines expanded into `new.scenarios`.
pub open spec fn rule_expanded(old: Rule, new: Rule, path: Option<Seq<char>>) -> bool {
    &&& new.keyword == old.keyword
    &&& new.name == old.name
    &&& new.background == old.background
    &&& new.tags == old.tags
    &&& new.position == old.position
    &&& expanded_ok(old.scenarios@, path, new.scenarios@)
}

/// Expands the Scenario Outlines of a feature: those of its rules, in
/// order, then its own; fails with the first error met.
#[verifier::loop_isolation(false)]
#[verifier::rlimit(30)]
pub fn expand_examples(feature: Feature) -> (r: Result<Feature, ExpandExamplesError>)
    requires
        feature_lines_fit(feature),
    ensures
        r matches Ok(f) ==> {
            &&& f.keyword == feature.keyword
            &&& f.name == feature.name
            &&& f.background == feature.background
            &&& f.tags == feature.tags
            &&& f.position == feature.position
            &&& f.path == feature.path
            &&& f.rules@.len() == feature.rules@.len()
            &&& forall|k: int| 0 <= k < feature.rules@.len() ==> rule_expanded(feature.rules@[k], #[trigger] f.rules@[k], opt_view(feature.path))
            &&& expanded_ok(feature.scenarios@, opt_view(feature.path), f.scenarios@)
        },
        r matches Err(e) ==> {
            ||| exists|k: int| 0 <= k < feature.rules@.len()
                && (forall|j: int| 0 <= j < k ==> exists|out: Seq<Scenario>| expanded_ok(#[trigger] feature.rules@[j].scenarios@, opt_view(feature.path), out))
                && expansion_fails(feature.rules@[k].scenarios@, opt_view(feature.path), e)
            ||| (forall|j: int| 0 <= j < feature.rules@.len() ==> exists|out: Seq<Scenario>| expanded_ok(#[trigger] feature.rules@[j].scenarios@, opt_view(feature.path), out))
                && expansion_fails(feature.scenarios@, opt_view(feature.path), e)
        },
{
    let ghost pv = opt_view(feature.path);
    let ghost orig = feature;
    let Feature { keyword, name, background, scenarios, rules, tags, position, path } = feature;
    let n0 = rules.len();
    let mut rest = rules;
    let mut done: Vec<Rule> = Vec::new();
    let mut i: usize = 0;
    assert(orig.rules@.skip(0) == orig.rules@);
    while rest.len() > 0
        invariant
            n0 == orig.rules@.len(),
            i <= n0,
            rest@ == orig.rules@.skip(i as int),
            done@.len() == i,
            forall|k: int| 0 <= k < i ==> rule_expanded(orig.rules@[k], #[trigger] done@[k], pv),
        decreases rest.len(),
    {
        let ghost tail = orig.rules@.skip(i as int);
        let rule = rest.remove(0);
        assert(rule == orig.rules@[i as int]);
        assert(tail.skip(1) =~= orig.rules@.skip(i + 1));
        let Rule { keyword: rk, name: rn, background: rb, scenarios: rs, tags: rt, position: rp } = rule;
        assert forall|s: int| 0 <= s < rs@.len() implies example_lines_fit(#[trigger] rs@[s]) by {
            assert(rs@[s] == orig.rules@[i as int].scenarios@[s]);
        }
        match expand_scenarios(rs, path.as_ref()) {
            Ok(expanded) => {
                let new_rule = Rule { keyword: rk, name: rn, background: rb, scenarios: expanded, tags: rt, position: rp };
                done.push(new_rule);
                i += 1;
            },
            Err(e) => {
                proof {
                    assert forall|j: int| 0 <= j < i implies exists|out: Seq<Scenario>| expanded_ok(#[trigger] orig.rules@[j].scenarios@, pv, out) by {
                        assert(rule_expanded(orig.rules@[j], done@[j], pv));
                    }
                }
                return Err(e);
            },
        }
    }
    proof {
        assert forall|j: int| 0 <= j < n0 implies exists|out: Seq<Scenario>| expanded_ok(#[trigger] orig.rules@[j].scenarios@, pv, out) by {
            assert(rule_expanded(orig.rules@[j], done@[j], pv));
        }
    }
    match expand_scenarios(scenarios, path.as_ref()) {
        Ok(expanded) => Ok(Feature { keyword, name, background, scenarios: expanded, rules: done, tags, position, path }),
        Err(e) => Err(e),
    }
}

/// From an index on, a run of non-space characters lasts to the end.
proof fn lemma_run_end_no_ws(s: Seq<char>, i: int)
    requires
        0 <= i <= s.len(),
        forall|j: int| i <= j < s.len() ==> !is_ws(#[trigger] s[j]),
    ensures
        run_end(s, i) == s.len(),
    decreases s.len() - i,
{
    if i < s.len() {
        lemma_run_end_no_ws(s, i + 1);
    }
}

/// Substituting a row changes each of its cells on its own: the row keeps
/// its length, and each cell becomes that cell with its templates replaced.
pub proof fn lemma_every_cell_substituted(cells: Seq<Seq<char>>, h: Seq<Seq<char>>, v: Seq<Seq<char>>)
    ensures
        cells_substituted(cells, h, v).0.len() == cells.len(),
        forall|c: int| 0 <= c < cells.len() ==> (#[trigger] cells_substituted(cells, h, v).0[c]) == substitute_templates(cells[c], h, v).0,
    decreases cells.len(),
{
    if cells.len() > 0 {
        let init = cells.drop_last();
        lemma_every_cell_substituted(init, h, v);
        assert forall|c: int| 0 <= c < cells.len() implies (#[trigger] cells_substituted(cells, h, v).0[c]) == substitute_templates(cells[c], h, v).0 by {
            if c < cells.len() - 1 {
                assert(cells_substituted(init, h, v).0[c] == substitute_templates(init[c], h, v).0);
                assert(init[c] == cells[c]);
            }
        }
    }
}

/// Substituting a table changes every cell of every row on its own: the
/// table keeps its rows and their lengths, and the cell in row `r`, column
/// `c` becomes that cell with its templates replaced.
pub proof fn lemma_every_row_substituted(rows: Seq<Seq<Seq<char>>>, h: Seq<Seq<char>>, v: Seq<Seq<char>>)
    ensures
        rows_substituted(rows, h, v).0.len() == rows.len(),
        forall|r: int| 0 <= r < rows.len() ==> (#[trigger] rows_substituted(rows, h, v).0[r]).len() == rows[r].len(),
        forall|r: int, c: int| 0 <= r < rows.len() && 0 <= c < rows[r].len()
            ==> (#[trigger] rows_substituted(rows, h, v).0[r][c]) == substitute_templates(rows[r][c], h, v).0,
    decreases rows.len(),
{
    if rows.len() > 0 {
        let init = rows.drop_last();
        lemma_every_row_substituted(init, h, v);
        lemma_every_cell_substituted(rows.last(), h, v);
        let out = rows_substituted(rows, h, v).0;
        assert forall|r: int| 0 <= r < rows.len() implies (#[trigger] out[r]).len() == rows[r].len() by {
            if r < rows.len() - 1 {
                assert(init[r] == rows[r]);
                assert(out[r] == rows_substituted(init, h, v).0[r]);
            }
        }
        assert forall|r: int, c: int| 0 <= r < rows.len() && 0 <= c < rows[r].len()
            implies (#[trigger] out[r][c]) == substitute_templates(rows[r][c], h, v).0 by {
            if r < rows.len() - 1 {
                assert(init[r] == rows[r]);
                assert(out[r] == rows_substituted(init, h, v).0[r]);
                assert(rows_substituted(init, h, v).0[r][c] == substitute_templates(init[r][c], h, v).0);
            } else {
                assert(out[r] == cells_substituted(rows.last(), h, v).0);
                assert(cells_substituted(rows.last(), h, v).0[c] == substitute_templates(rows.last()[c], h, v).0);
            }
        }
    }
}

/// In a step expanded from an outline, every cell of every row of its data
/// table is the original cell with its templates replaced by the example
/// row's values, and the table keeps its shape.
pub proof fn lemma_step_table_cells_substituted(orig: Step, new: Step, h: Seq<Seq<char>>, v: Seq<Seq<char>>)
    requires
        step_substituted(orig, new, h, v),
        orig.table is Some,
    ensures
        new.table is Some,
        new.table.unwrap().rows@.len() == orig.table.unwrap().rows@.len(),
        forall|r: int| 0 <= r < orig.table.unwrap().rows@.len()
            ==> (#[trigger] new.table.unwrap().rows@[r])@.len() == orig.table.unwrap().rows@[r]@.len(),
        forall|r: int, c: int| 0 <= r < orig.table.unwrap().rows@.len() && 0 <= c < orig.table.unwrap().rows@[r]@.len()
            ==> (#[trigger] new.table.unwrap().rows@[r]@[c])@ == substitute_templates(orig.table.unwrap().rows@[r]@[c]@, h, v).0,
{
    let o = rows_view(orig.table.unwrap().rows@);
    let n = new.table.unwrap().rows@;
    lemma_every_row_substituted(o, h, v);
    assert(rows_view(n) == rows_substituted(o, h, v).0);
    assert forall|r: int| 0 <= r < orig.table.unwrap().rows@.len()
        implies (#[trigger] n[r])@.len() == orig.table.unwrap().rows@[r]@.len() by {
        assert(rows_view(n)[r] == strings_view(n[r]@));
        assert(o[r] == strings_view(orig.table.unwrap().rows@[r]@));
    }
    assert forall|r: int, c: int| 0 <= r < orig.table.unwrap().rows@.len() && 0 <= c < orig.table.unwrap().rows@[r]@.len()
        implies (#[trigger] n[r]@[c])@ == substitute_templates(orig.table.unwrap().rows@[r]@[c]@, h, v).0 by {
        assert(rows_view(n)[r] == strings_view(n[r]@));
        assert(o[r] == strings_view(orig.table.unwrap().rows@[r]@));
        assert(o[r][c] == orig.table.unwrap().rows@[r]@[c]@);
        assert(rows_view(n)[r][c] == n[r]@[c]@);
        assert(rows_substituted(o, h, v).0[r][c] == substitute_templates(o[r][c], h, v).0);
    }
}

/// A template naming a column of the example row is replaced by the
/// row's value: `<name>` becomes the value of column `name` (a name holds at
/// least one character and no white space).
pub proof fn lemma_template_replaced(name: Seq<char>, h: Seq<Seq<char>>, v: Seq<Seq<char>>, value: Seq<char>)
    requires
        name.len() > 0,
        forall|j: int| 0 <= j < name.len() ==> !is_ws(#[trigger] name[j]),
        lookup(h, v, name) == Some(value),
    ensures
        substitute_templates(seq!['<'] + name + seq!['>'], h, v) == (value, None::<Seq<char>>),
{
    let s = seq!['<'] + name + seq!['>'];
    let n = s.len() as int;
    assert forall|j: int| 1 <= j < n implies !is_ws(#[trigger] s[j]) by {
        if j < n - 1 {
            assert(s[j] == name[j - 1]);
        } else {
            assert(s[j] == '>');
        }
    }
    lemma_run_end_no_ws(s, 1);
    assert(s[n - 1] == '>');
    assert(last_gt(s, 2, n) == Some(n - 1));
    assert(template_end(s, 0) == Some(n - 1));
    assert(s.subrange(1, n - 1) =~= name);
    assert(substitute_from(s, n, h, v) == (Seq::<char>::empty(), None::<Seq<char>>));
    assert(value + Seq::<char>::empty() =~= value);
}

/// Text without `<` is left as it is, and names no unknown template.
pub proof fn lemma_plain_text_unchanged(s: Seq<char>, h: Seq<Seq<char>>, v: Seq<Seq<char>>)
    requires
        forall|j: int| 0 <= j < s.len() ==> #[trigger] s[j] != '<',
    ensures
        substitute_templates(s, h, v) == (s, None::<Seq<char>>),
{
    lemma_plain_from(s, 0, h, v);
    assert(s.skip(0) =~= s);
}

proof fn lemma_plain_from(s: Seq<char>, i: int, h: Seq<Seq<char>>, v: Seq<Seq<char>>)
    requires
        0 <= i <= s.len(),
        forall|j: int| 0 <= j < s.len() ==> #[trigger] s[j] != '<',
    ensures
        substitute_from(s, i, h, v) == (s.skip(i), None::<Seq<char>>),
    decreases s.len() - i,
{
    if i < s.len() {
        lemma_plain_from(s, i + 1, h, v);
        assert(seq![s[i]] + s.skip(i + 1) =~= s.skip(i));
    } else {
        assert(s.skip(i) =~= Seq::<char>::empty());
    }
}

} // verus!
