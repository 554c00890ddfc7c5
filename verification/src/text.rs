//! Character-level helpers shared by the parsers and formatters of this crate.

use vstd::prelude::*;

verus! {

/// `s` begins with `p`.
pub open spec fn has_prefix(s: Seq<char>, p: Seq<char>) -> bool {
    p.len() <= s.len() && s.subrange(0, p.len() as int) == p
}

/// Index of the first occurrence of `c` in `s`, if any.
pub open spec fn first_index_of(s: Seq<char>, c: char) -> Option<int>
    decreases s.len(),
{
    if s.len() == 0 {
        None
    } else if s[0] == c {
        Some(0)
    } else {
        match first_index_of(s.skip(1), c) {
            Some(i) => Some(i + 1),
            None => None,
        }
    }
}

/// Splits `s` around the first occurrence of `c` (which is dropped).
pub open spec fn split_once_spec(s: Seq<char>, c: char) -> Option<(Seq<char>, Seq<char>)> {
    match first_index_of(s, c) {
        Some(i) => Some((s.take(i), s.skip(i + 1))),
        None => None,
    }
}

/// The decimal digit `c` denotes, if it is an ASCII digit.
pub open spec fn digit_value(c: char) -> Option<nat> {
    if '0' <= c && c <= '9' {
        Some((c as nat - '0' as nat) as nat)
    } else {
        None
    }
}

/// Value of a non-empty run of ASCII digits, read most significant first.
pub open spec fn digits_value(s: Seq<char>) -> Option<nat>
    decreases s.len(),
{
    if s.len() == 0 {
        None
    } else if s.len() == 1 {
        digit_value(s[0])
    } else {
        match (digits_value(s.drop_last()), digit_value(s.last())) {
            (Some(hi), Some(lo)) => Some(hi * 10 + lo),
            _ => None,
        }
    }
}

/// What parsing `s` as a decimal `usize` yields: an optional leading `+`
/// followed by at least one ASCII digit, with a value that fits in `usize`.
pub open spec fn parse_usize_spec(s: Seq<char>) -> Option<usize> {
    let digits = if s.len() > 0 && s[0] == '+' { s.skip(1) } else { s };
    match digits_value(digits) {
        Some(v) => if v <= usize::MAX { Some(v as usize) } else { None },
        None => None,
    }
}

/// Copies the characters of `s` into a vector.
pub fn chars_of(s: &str) -> (v: Vec<char>)
    ensures
        v@ == s@,
{
    let mut v: Vec<char> = Vec::new();
    for c in it: s.chars()
        invariant
            v@ == it.seq().take(it.index() as int),
            it.seq() == s@,
    {
        v.push(c);
    }
    v
}

/// Appends one character to a `String` (`String::push`).
#[verifier::external_body]
pub fn push_char(s: &mut String, c: char)
    ensures
        final(s)@ == old(s)@.push(c),
{
    s.push(c)
}

/// Appends the characters of `v[from..to]` to `out`.
pub fn push_chars(out: &mut String, v: &Vec<char>, from: usize, to: usize)
    requires
        from <= to <= v@.len(),
    ensures
        final(out)@ == old(out)@ + v@.subrange(from as int, to as int),
{
    let mut i = from;
    while i < to
        invariant
            from <= i <= to <= v@.len(),
            out@ == old(out)@ + v@.subrange(from as int, i as int),
        decreases to - i,
    {
        push_char(out, v[i]);
        proof {
            assert(v@.subrange(from as int, i + 1) == v@.subrange(from as int, i as int).push(v@[i as int]));
        }
        i += 1;
    }
}

/// Builds a `String` holding exactly the characters of `v`.
pub fn string_of(v: &Vec<char>) -> (s: String)
    ensures
        s@ == v@,
{
    let mut s = String::new();
    push_chars(&mut s, v, 0, v.len());
    assert(v@.subrange(0, v@.len() as int) == v@);
    s
}

/// Whether `v[from..]` begins with `p`.
pub fn has_prefix_at(v: &Vec<char>, from: usize, p: &str) -> (r: bool)
    requires
        from <= v@.len(),
    ensures
        r == has_prefix(v@.skip(from as int), p@),
{
    let pv = chars_of(p);
    if pv.len() > v.len() - from {
        return false;
    }
    let mut i: usize = 0;
    let vl = v.len();
    while i < pv.len()
        invariant
            vl == v@.len(),
            from <= v@.len(),
            pv@ == p@,
            pv@.len() <= v@.len() - from,
            i <= pv@.len(),
            forall|j: int| 0 <= j < i ==> v@[from + j] == pv@[j],
        decreases pv.len() - i,
    {
        let k = from + i;
        if v[k] != pv[i] {
            proof {
                assert(v@.skip(from as int).subrange(0, pv@.len() as int)[i as int] != pv@[i as int]);
            }
            return false;
        }
        i += 1;
    }
    assert(v@.skip(from as int).subrange(0, pv@.len() as int) =~= pv@);
    true
}

/// Position of the first `c` in `v[from..]`, relative to `from`.
pub fn find_char_from(v: &Vec<char>, from: usize, c: char) -> (r: Option<usize>)
    requires
        from <= v@.len(),
    ensures
        r matches Some(i) ==> first_index_of(v@.skip(from as int), c) == Some(i as int),
        r is None ==> first_index_of(v@.skip(from as int), c) is None,
{
    let mut i = from;
    while i < v.len()
        invariant
            from <= i <= v@.len(),
            forall|j: int| from <= j < i ==> v@[j] != c,
        decreases v.len() - i,
    {
        if v[i] == c {
            proof { lemma_first_index_found(v@.skip(from as int), c, (i - from) as int); }
            return Some(i - from);
        }
        i += 1;
    }
    proof { lemma_first_index_absent(v@.skip(from as int), c); }
    None
}

/// If `s[k] == c` and no earlier character is `c`, the first index of `c` is `k`.
pub proof fn lemma_first_index_found(s: Seq<char>, c: char, k: int)
    requires
        0 <= k < s.len(),
        s[k] == c,
        forall|j: int| 0 <= j < k ==> s[j] != c,
    ensures
        first_index_of(s, c) == Some(k),
    decreases s.len(),
{
    if k > 0 {
        assert forall|j: int| 0 <= j < k - 1 implies s.skip(1)[j] != c by {
            assert(s.skip(1)[j] == s[j + 1]);
        }
        lemma_first_index_found(s.skip(1), c, k - 1);
    }
}

/// If no character is `c`, there is no first index of `c`.
pub proof fn lemma_first_index_absent(s: Seq<char>, c: char)
    requires
        forall|j: int| 0 <= j < s.len() ==> s[j] != c,
    ensures
        first_index_of(s, c) is None,
    decreases s.len(),
{
    if s.len() > 0 {
        assert forall|j: int| 0 <= j < s.len() - 1 implies s.skip(1)[j] != c by {
            assert(s.skip(1)[j] == s[j + 1]);
        }
        lemma_first_index_absent(s.skip(1), c);
    }
}

/// The first index of `c`, when there is one, points at a `c` with none before it.
pub proof fn lemma_first_index_props(s: Seq<char>, c: char)
    ensures
        first_index_of(s, c) matches Some(k) ==> (0 <= k < s.len() && s[k] == c
            && forall|j: int| 0 <= j < k ==> s[j] != c),
        first_index_of(s, c) is None ==> forall|j: int| 0 <= j < s.len() ==> s[j] != c,
    decreases s.len(),
{
    if s.len() > 0 {
        lemma_first_index_props(s.skip(1), c);
        assert forall|j: int| 1 <= j < s.len() implies s[j] == s.skip(1)[j - 1] by {}
    }
}

/// A prefix of a run of digits has a value no greater than the whole run.
pub proof fn lemma_digits_prefix_le(s: Seq<char>, k: int)
    requires
        1 <= k <= s.len(),
        digits_value(s) is Some,
    ensures
        digits_value(s.take(k)) is Some,
        digits_value(s.take(k)).unwrap() <= digits_value(s).unwrap(),
    decreases s.len(),
{
    if k == s.len() {
        assert(s.take(k) == s);
    } else {
        assert(s.len() > 1);
        lemma_digits_prefix_le(s.drop_last(), k);
        assert(s.drop_last().take(k) == s.take(k));
    }
}

/// Parses `v[from..to]` as a decimal `usize` (as `str::parse::<usize>` does).
pub fn parse_usize_range(v: &Vec<char>, from: usize, to: usize) -> (r: Option<usize>)
    requires
        from <= to <= v@.len(),
    ensures
        r == parse_usize_spec(v@.subrange(from as int, to as int)),
{
    let ghost s = v@.subrange(from as int, to as int);
    let mut start = from;
    if start < to && v[start] == '+' {
        start += 1;
    }
    let ghost digits = v@.subrange(start as int, to as int);
    assert(digits == (if s.len() > 0 && s[0] == '+' { s.skip(1) } else { s }));
    if start == to {
        return None;
    }
    let mut acc: usize = 0;
    let mut i = start;
    while i < to
        invariant
            from <= start < to <= v@.len(),
            start <= i <= to,
            digits == v@.subrange(start as int, to as int),
            s == v@.subrange(from as int, to as int),
            digits == (if s.len() > 0 && s[0] == '+' { s.skip(1) } else { s }),
            i > start ==> digits_value(digits.take(i - start)) == Some(acc as nat),
            forall|j: int| start <= j < i ==> '0' <= v@[j] && v@[j] <= '9',
        decreases to - i,
    {
        let c = v[i];
        if !('0' <= c && c <= '9') {
            proof { lemma_digits_none_at(digits, (i - start) as int); }
            return None;
        }
        let d = (c as u32 - '0' as u32) as usize;
        proof {
            let k = (i - start) as int;
            assert(digits.take(k + 1).drop_last() == digits.take(k));
            assert(digits.take(k + 1).last() == c);
        }
        if i == start {
            acc = d;
            proof { assert(digits.take(1) == seq![c]); }
        } else {
            if acc > (usize::MAX - d) / 10 {
                proof {
                    let k = (i - start) as int;
                    assert(acc * 10 + d > usize::MAX) by (nonlinear_arith)
                        requires acc > (usize::MAX - d) / 10, d <= 9;
                    lemma_digits_overflow(digits, k + 1);
                }
                return None;
            }
            acc = acc * 10 + d;
        }
        i += 1;
    }
    assert(digits.take(to - start) == digits);
    Some(acc)
}

/// A non-digit anywhere makes a run unreadable as a number.
pub proof fn lemma_digits_none_at(s: Seq<char>, k: int)
    requires
        0 <= k < s.len(),
        digit_value(s[k]) is None,
    ensures
        digits_value(s) is None,
    decreases s.len(),
{
    if k == s.len() - 1 {
    } else {
        lemma_digits_none_at(s.drop_last(), k);
    }
}

/// A prefix whose value exceeds `usize::MAX` makes the whole run exceed it.
pub proof fn lemma_digits_overflow(s: Seq<char>, k: int)
    requires
        1 <= k <= s.len(),
        digits_value(s.take(k)) matches Some(v) && v > usize::MAX,
    ensures
        digits_value(s) matches Some(w) ==> w > usize::MAX,
{
    if digits_value(s) is Some {
        lemma_digits_prefix_le(s, k);
    }
}

/// The character of the decimal digit `d`.
pub open spec fn digit_char(d: nat) -> char {
    if d == 0 { '0' } else if d == 1 { '1' } else if d == 2 { '2' } else if d == 3 { '3' }
    else if d == 4 { '4' } else if d == 5 { '5' } else if d == 6 { '6' } else if d == 7 { '7' }
    else if d == 8 { '8' } else { '9' }
}

/// Decimal notation of `n`, without sign or leading zeros (`0` is `"0"`).
pub open spec fn decimal(n: nat) -> Seq<char>
    decreases n,
{
    if n < 10 {
        seq![digit_char(n)]
    } else {
        decimal(n / 10).push(digit_char(n % 10))
    }
}

fn digit_char_exec(d: u64) -> (c: char)
    requires
        d < 10,
    ensures
        c == digit_char(d as nat),
{
    if d == 0 { '0' } else if d == 1 { '1' } else if d == 2 { '2' } else if d == 3 { '3' }
    else if d == 4 { '4' } else if d == 5 { '5' } else if d == 6 { '6' } else if d == 7 { '7' }
    else if d == 8 { '8' } else { '9' }
}

/// Appends the decimal notation of `n` to `out` (as `write!(out, "{n}")` does).
pub fn push_decimal(out: &mut String, n: u64)
    ensures
        final(out)@ == old(out)@ + decimal(n as nat),
    decreases n,
{
    if n >= 10 {
        push_decimal(out, n / 10);
    }
    push_char(out, digit_char_exec(n % 10));
    proof {
        if n < 10 {
            assert(decimal(n as nat) == seq![digit_char(n as nat)]);
        }
    }
}

/// Appends the characters of `s` to `out` (`String::push_str`).
pub fn push_str(out: &mut String, s: &str)
    ensures
        final(out)@ == old(out)@ + s@,
{
    let v = chars_of(s);
    push_chars(out, &v, 0, v.len());
    assert(v@.subrange(0, v@.len() as int) == v@);
}

/// Number of occurrences of `c` in `s`.
pub open spec fn count_char(s: Seq<char>, c: char) -> nat
    decreases s.len(),
{
    if s.len() == 0 {
        0
    } else {
        count_char(s.drop_last(), c) + if s.last() == c { 1nat } else { 0nat }
    }
}

/// Index of the last occurrence of `c` in `s`, if any.
pub open spec fn last_index_of(s: Seq<char>, c: char) -> Option<int>
    decreases s.len(),
{
    if s.len() == 0 {
        None
    } else if s.last() == c {
        Some(s.len() - 1)
    } else {
        last_index_of(s.drop_last(), c)
    }
}

/// What follows the last `c` in `s`; all of `s` when there is no `c`.
pub open spec fn after_last(s: Seq<char>, c: char) -> Seq<char> {
    match last_index_of(s, c) {
        Some(i) => s.skip(i + 1),
        None => s,
    }
}

/// The last index of `c`, when there is one, is in range.
pub proof fn lemma_last_index_in_range(s: Seq<char>, c: char)
    ensures
        last_index_of(s, c) matches Some(i) ==> 0 <= i < s.len(),
    decreases s.len(),
{
    if s.len() > 0 && s.last() != c {
        lemma_last_index_in_range(s.drop_last(), c);
    }
}

/// No `c` follows the last `c`, and there is none at all when it has no
/// last index.
pub proof fn lemma_none_after_last(s: Seq<char>, c: char)
    ensures
        last_index_of(s, c) matches Some(i) ==> s[i] == c && forall|k: int| i < k < s.len() ==> s[k] != c,
        last_index_of(s, c) is None ==> forall|k: int| 0 <= k < s.len() ==> s[k] != c,
    decreases s.len(),
{
    lemma_last_index_in_range(s, c);
    if s.len() > 0 && s.last() != c {
        let t = s.drop_last();
        lemma_none_after_last(t, c);
        lemma_last_index_in_range(t, c);
        assert forall|k: int| 0 <= k < s.len() - 1 implies s[k] == t[k] by {}
        match last_index_of(t, c) {
            Some(i) => {
                assert(s[i] == t[i]);
                assert forall|k: int| i < k < s.len() implies s[k] != c by {
                    if k < s.len() - 1 {
                        assert(s[k] == t[k]);
                    }
                }
            },
            None => {
                assert forall|k: int| 0 <= k < s.len() implies s[k] != c by {
                    if k < s.len() - 1 {
                        assert(s[k] == t[k]);
                    }
                }
            },
        }
    }
}

/// Extending a prefix by one character updates the count and the last position of `c`.
proof fn lemma_scan_step(s: Seq<char>, k: int, c: char)
    requires
        0 <= k < s.len(),
    ensures
        count_char(s.take(k + 1), c) == count_char(s.take(k), c) + if s[k] == c { 1nat } else { 0nat },
        last_index_of(s.take(k + 1), c) == if s[k] == c { Some(k) } else { last_index_of(s.take(k), c) },
{
    assert(s.take(k + 1).drop_last() == s.take(k));
}

/// Scans `v` once, returning how often `c` occurs and where it last occurs.
pub fn count_and_last(v: &Vec<char>, c: char) -> (r: (usize, Option<usize>))
    ensures
        r.0 == count_char(v@, c),
        r.1 matches Some(i) ==> last_index_of(v@, c) == Some(i as int),
        r.1 is None ==> last_index_of(v@, c) is None,
{
    let mut count: usize = 0;
    let mut last: Option<usize> = None;
    let mut i: usize = 0;
    while i < v.len()
        invariant
            i <= v@.len(),
            count <= i,
            count == count_char(v@.take(i as int), c),
            last matches Some(j) ==> last_index_of(v@.take(i as int), c) == Some(j as int),
            last is None ==> last_index_of(v@.take(i as int), c) is None,
        decreases v.len() - i,
    {
        proof { lemma_scan_step(v@, i as int, c); }
        if v[i] == c {
            count += 1;
            last = Some(i);
        }
        i += 1;
    }
    assert(v@.take(v@.len() as int) == v@);
    (count, last)
}

/// Lexicographic comparison of `a` and `b` by character code: `-1` when `a`
/// comes first, `0` when they are equal, `1` when `b` comes first.
pub open spec fn lex_order(a: Seq<char>, b: Seq<char>) -> int
    decreases a.len(),
{
    if a.len() == 0 {
        if b.len() == 0 { 0 } else { -1 }
    } else if b.len() == 0 {
        1
    } else if a[0] < b[0] {
        -1
    } else if b[0] < a[0] {
        1
    } else {
        lex_order(a.skip(1), b.skip(1))
    }
}

/// `lex_order` is zero exactly on equal sequences, and swapping its arguments negates it.
pub proof fn lemma_lex_order_props(a: Seq<char>, b: Seq<char>)
    ensures
        lex_order(a, b) == 0 <==> a == b,
        lex_order(b, a) == -lex_order(a, b),
        -1 <= lex_order(a, b) <= 1,
    decreases a.len(),
{
    if a.len() > 0 && b.len() > 0 && a[0] == b[0] {
        lemma_lex_order_props(a.skip(1), b.skip(1));
        if a.skip(1) == b.skip(1) {
            assert(a =~= seq![a[0]] + a.skip(1));
            assert(b =~= seq![b[0]] + b.skip(1));
        }
    } else if a.len() > 0 && b.len() > 0 {
    } else if a.len() == 0 && b.len() == 0 {
        assert(a =~= b);
    }
}

/// Equal leading characters leave the comparison to what follows them.
proof fn lemma_lex_order_skip(a: Seq<char>, b: Seq<char>, i: int)
    requires
        0 <= i < a.len(),
        i < b.len(),
        a[i] == b[i],
    ensures
        lex_order(a.skip(i), b.skip(i)) == lex_order(a.skip(i + 1), b.skip(i + 1)),
{
    assert(a.skip(i).skip(1) =~= a.skip(i + 1));
    assert(b.skip(i).skip(1) =~= b.skip(i + 1));
}

/// Compares two strings lexicographically by character (as `str::cmp` orders them).
pub fn compare_str(a: &str, b: &str) -> (r: i8)
    ensures
        r == lex_order(a@, b@),
{
    let va = chars_of(a);
    let vb = chars_of(b);
    let mut i: usize = 0;
    assert(a@.skip(0) == a@ && b@.skip(0) == b@);
    while i < va.len() && i < vb.len()
        invariant
            va@ == a@,
            vb@ == b@,
            i <= va@.len(),
            i <= vb@.len(),
            lex_order(a@, b@) == lex_order(a@.skip(i as int), b@.skip(i as int)),
        decreases va.len() - i,
    {
        if va[i] < vb[i] {
            return -1;
        }
        if vb[i] < va[i] {
            return 1;
        }
        proof { lemma_lex_order_skip(a@, b@, i as int); }
        i += 1;
    }
    if i < va.len() {
        1
    } else if i < vb.len() {
        -1
    } else {
        0
    }
}

/// Whether two strings hold the same characters.
pub fn str_eq(a: &str, b: &str) -> (r: bool)
    ensures
        r == (a@ == b@),
{
    proof { lemma_lex_order_props(a@, b@); }
    compare_str(a, b) == 0
}

} // verus!
