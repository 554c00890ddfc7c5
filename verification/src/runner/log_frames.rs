//! Framing of log messages written while scenarios run: every message ends
//! with `__<id>__cucumber__scenario` naming the scenario it belongs to, or
//! with `__unknown__cucumber__scenario` when it belongs to none.

use vstd::prelude::*;

use crate::text::{
    chars_of, decimal, digit_char, digit_value, digits_value, has_prefix, has_prefix_at, lemma_digits_none_at,
    lemma_digits_prefix_le, push_chars, push_decimal, push_str,
};

verus! {

/// End of every framed message.
pub open spec fn frame_end() -> Seq<char> {
    "__cucumber__scenario"@
}

/// Marker of a message that belongs to no scenario.
pub open spec fn no_scenario_marker() -> Seq<char> {
    "__unknown"@
}

/// Marker before the scenario's identifier.
pub open spec fn scenario_marker() -> Seq<char> {
    "__"@
}

/// Index of the first occurrence of `pat` in `s` at or after `from`.
pub open spec fn find_from(s: Seq<char>, pat: Seq<char>, from: int) -> Option<int>
    decreases s.len() + 1 - from,
{
    if from < 0 || from + pat.len() > s.len() {
        None
    } else if has_prefix(s.skip(from), pat) {
        Some(from)
    } else {
        find_from(s, pat, from + 1)
    }
}

/// Index of the last occurrence of `pat` in `s` starting before `end`.
pub open spec fn rfind_before(s: Seq<char>, pat: Seq<char>, end: int) -> Option<int>
    decreases end,
{
    if end <= 0 {
        None
    } else if end - 1 + pat.len() <= s.len() && has_prefix(s.skip(end - 1), pat) {
        Some(end - 1)
    } else {
        rfind_before(s, pat, end - 1)
    }
}

/// Pieces of `s` between occurrences of the non-empty `pat`, from `from` on
/// (`str::split`).
pub open spec fn split_from(s: Seq<char>, pat: Seq<char>, from: int) -> Seq<Seq<char>>
    decreases s.len() + 1 - from,
{
    if from < 0 || from > s.len() || pat.len() == 0 {
        seq![s.skip(from)]
    } else {
        match find_from(s, pat, from) {
            Some(i) => if i >= from && i + pat.len() <= s.len() {
                seq![s.subrange(from, i)] + split_from(s, pat, i + pat.len())
            } else {
                seq![s.skip(from)]
            },
            None => seq![s.skip(from)],
        }
    }
}

/// `str::split_terminator`: the pieces of `str::split`, without a trailing
/// empty one.
pub open spec fn split_terminator(s: Seq<char>, pat: Seq<char>) -> Seq<Seq<char>> {
    let p = split_from(s, pat, 0);
    if p.len() > 0 && p.last().len() == 0 { p.drop_last() } else { p }
}

/// What parsing `s` as a `u64` yields (`u64::from_str`): an optional `+`,
/// then at least one digit, with a value that fits.
pub open spec fn parse_u64_spec(s: Seq<char>) -> Option<u64> {
    let digits = if s.len() > 0 && s[0] == '+' { s.skip(1) } else { s };
    match digits_value(digits) {
        Some(v) => if v <= u64::MAX { Some(v as u64) } else { None },
        None => None,
    }
}

/// Why a framed message could not be read.
#[derive(Clone, Copy, Debug, PartialEq, Eq, Structural)]
pub enum FrameError {
    /// Something follows the `__unknown` marker.
    WrongSeparator,
    /// The scenario's identifier is not a number.
    InvalidId,
    /// The message has no marker at all.
    MissingSeparator,
}

/// How one framed message reads: its scenario (if any) and text, or why it
/// cannot be read.
pub open spec fn read_frame(m: Seq<char>) -> Result<(Option<u64>, Seq<char>), FrameError> {
    match rfind_before(m, no_scenario_marker(), m.len() as int) {
        Some(k) => if k + no_scenario_marker().len() == m.len() {
            Ok((None, m.take(k)))
        } else {
            Err(FrameError::WrongSeparator)
        },
        None => match rfind_before(m, scenario_marker(), m.len() as int) {
            Some(k) => match parse_u64_spec(m.skip(k + 2)) {
                Some(id) => Ok((Some(id), m.take(k))),
                None => Err(FrameError::InvalidId),
            },
            None => Err(FrameError::MissingSeparator),
        },
    }
}

/// Reading the frames `ms` in order: the messages read before the first
/// frame that cannot be read, and its error, if any.
pub open spec fn read_frames(ms: Seq<Seq<char>>) -> (Seq<(Option<u64>, Seq<char>)>, Option<FrameError>)
    decreases ms.len(),
{
    if ms.len() == 0 {
        (Seq::empty(), None)
    } else {
        let (init, err) = read_frames(ms.drop_last());
        if err is Some {
            (init, err)
        } else {
            match read_frame(ms.last()) {
                Ok(m) => (init.push(m), None),
                Err(e) => (init, Some(e)),
            }
        }
    }
}

/// Characters of each piece.
pub open spec fn pieces_view(ps: Seq<Vec<char>>) -> Seq<Seq<char>> {
    ps.map_values(|p: Vec<char>| p@)
}

/// First occurrence of `pat` in `v` at or after `from`.
fn find_from_exec(v: &Vec<char>, pat: &str, from: usize) -> (r: Option<usize>)
    requires
        from <= v@.len(),
    ensures
        r matches Some(i) ==> find_from(v@, pat@, from as int) == Some(i as int),
        r is None ==> find_from(v@, pat@, from as int) is None,
{
    let plen = chars_of(pat).len();
    let n = v.len();
    if plen == 0 {
        assert(v@.skip(from as int).subrange(0, 0) =~= pat@);
        return Some(from);
    }
    let mut i = from;
    while i <= n && plen <= n - i
        invariant
            from <= i,
            n == v@.len(),
            plen == pat@.len(),
            plen > 0,
            find_from(v@, pat@, from as int) == find_from(v@, pat@, i as int),
        decreases n + 1 - i,
    {
        if has_prefix_at(v, i, pat) {
            return Some(i);
        }
        i += 1;
    }
    None
}

/// Last occurrence of `pat` in `v` starting before `end`.
fn rfind_exec(v: &Vec<char>, pat: &str, end: usize) -> (r: Option<usize>)
    requires
        end <= v@.len(),
    ensures
        r matches Some(k) ==> rfind_before(v@, pat@, end as int) == Some(k as int) && k + pat@.len() <= v@.len(),
        r is None ==> rfind_before(v@, pat@, end as int) is None,
{
    let plen = chars_of(pat).len();
    let n = v.len();
    let mut e = end;
    while e > 0
        invariant
            e <= end,
            end <= n,
            n == v@.len(),
            plen == pat@.len(),
            rfind_before(v@, pat@, end as int) == rfind_before(v@, pat@, e as int),
        decreases e,
    {
        if plen <= n - (e - 1) && has_prefix_at(v, e - 1, pat) {
            return Some(e - 1);
        }
        e -= 1;
    }
    None
}

/// Copies `v[from..to]`.
fn slice_chars(v: &Vec<char>, from: usize, to: usize) -> (r: Vec<char>)
    requires
        from <= to <= v@.len(),
    ensures
        r@ == v@.subrange(from as int, to as int),
{
    let mut r: Vec<char> = Vec::new();
    let mut i = from;
    while i < to
        invariant
            from <= i <= to,
            to <= v@.len(),
            r@ == v@.subrange(from as int, i as int),
        decreases to - i,
    {
        r.push(v[i]);
        proof { assert(v@.subrange(from as int, i + 1) == v@.subrange(from as int, i as int).push(v@[i as int])); }
        i += 1;
    }
    r
}

/// Pieces of `v` between occurrences of `pat`, without a trailing empty one.
fn split_terminator_exec(v: &Vec<char>, pat: &str) -> (r: Vec<Vec<char>>)
    requires
        pat@.len() > 0,
    ensures
        pieces_view(r@) == split_terminator(v@, pat@),
{
    let plen = chars_of(pat).len();
    let n = v.len();
    let mut pieces: Vec<Vec<char>> = Vec::new();
    let mut from: usize = 0;
    let mut done = false;
    while !done
        invariant
            n == v@.len(),
            plen == pat@.len(),
            plen > 0,
            from <= n,
            !done ==> pieces_view(pieces@) + split_from(v@, pat@, from as int) == split_from(v@, pat@, 0),
            done ==> pieces_view(pieces@) == split_from(v@, pat@, 0),
        decreases n + 1 - from, if done { 0int } else { 1int },
    {
        let ghost before = pieces_view(pieces@);
        match find_from_exec(v, pat, from) {
            Some(i) => {
                proof { lemma_find_from_range(v@, pat@, from as int); }
                let piece = slice_chars(v, from, i);
                pieces.push(piece);
                proof {
                    assert(pieces_view(pieces@) =~= before.push(v@.subrange(from as int, i as int)));
                    assert(pieces_view(pieces@) + split_from(v@, pat@, (i + plen) as int)
                        =~= before + split_from(v@, pat@, from as int));
                }
                from = i + plen;
            },
            None => {
                let piece = slice_chars(v, from, n);
                pieces.push(piece);
                proof {
                    assert(v@.subrange(from as int, n as int) =~= v@.skip(from as int));
                    assert(pieces_view(pieces@) =~= before + split_from(v@, pat@, from as int));
                }
                done = true;
            },
        }
    }
    let ghost all = pieces_view(pieces@);
    let k = pieces.len();
    if k > 0 && pieces[k - 1].len() == 0 {
        pieces.pop();
        proof { assert(pieces_view(pieces@) =~= all.drop_last()); }
    }
    pieces
}

/// An occurrence found from `from` lies within `s`.
proof fn lemma_find_from_range(s: Seq<char>, pat: Seq<char>, from: int)
    ensures
        find_from(s, pat, from) matches Some(i) ==> from <= i && i + pat.len() <= s.len(),
    decreases s.len() + 1 - from,
{
    if !(from < 0 || from + pat.len() > s.len()) && !has_prefix(s.skip(from), pat) {
        lemma_find_from_range(s, pat, from + 1);
    }
}

/// Parses `v[from..to]` as a decimal `u64` (as `str::parse::<u64>` does).
pub fn parse_u64_range(v: &Vec<char>, from: usize, to: usize) -> (r: Option<u64>)
    requires
        from <= to <= v@.len(),
    ensures
        r == parse_u64_spec(v@.subrange(from as int, to as int)),
{
    let ghost s = v@.subrange(from as int, to as int);
    let mut start = from;
    if start < to && v[start] == '+' {
        start += 1;
    }
    let ghost digits = v@.subrange(start as int, to as int);
    assert(digits == (if s.len() > 0 && s[0] == '+' { s.skip(1) } else { s }));
    if start == to {
        return None;
    }
    let mut acc: u64 = 0;
    let mut i = start;
    while i < to
        invariant
            from <= start < to <= v@.len(),
            start <= i <= to,
            digits == v@.subrange(start as int, to as int),
            s == v@.subrange(from as int, to as int),
            digits == (if s.len() > 0 && s[0] == '+' { s.skip(1) } else { s }),
            i > start ==> digits_value(digits.take(i - start)) == Some(acc as nat),
            forall|j: int| start <= j < i ==> '0' <= v@[j] && v@[j] <= '9',
        decreases to - i,
    {
        let c = v[i];
        if !('0' <= c && c <= '9') {
            proof { lemma_digits_none_at(digits, (i - start) as int); }
            return None;
        }
        let d = (c as u32 - '0' as u32) as u64;
        proof {
            let k = (i - start) as int;
            assert(digits.take(k + 1).drop_last() == digits.take(k));
            assert(digits.take(k + 1).last() == c);
        }
        if i == start {
            acc = d;
            proof { assert(digits.take(1) == seq![c]); }
        } else {
            if acc > (u64::MAX - d) / 10 {
                proof {
                    let k = (i - start) as int;
                    assert(acc * 10 + d > u64::MAX) by (nonlinear_arith)
                        requires acc > (u64::MAX - d) / 10, d <= 9;
                    lemma_digits_overflow_u64(digits, k + 1);
                }
                return None;
            }
            acc = acc * 10 + d;
        }
        i += 1;
    }
    assert(digits.take(to - start) == digits);
    Some(acc)
}

/// A prefix whose value exceeds `u64::MAX` makes the whole run exceed it.
proof fn lemma_digits_overflow_u64(s: Seq<char>, k: int)
    requires
        1 <= k <= s.len(),
        digits_value(s.take(k)) matches Some(v) && v > u64::MAX,
    ensures
        digits_value(s) matches Some(w) ==> w > u64::MAX,
{
    if digits_value(s) is Some {
        lemma_digits_prefix_le(s, k);
    }
}

/// Reads one framed message, as [`read_frame`] describes.
fn read_frame_exec(m: &Vec<char>) -> (r: Result<(Option<u64>, Vec<char>), FrameError>)
    ensures
        match r {
            Ok((id, text)) => read_frame(m@) == Ok::<(Option<u64>, Seq<char>), FrameError>((id, text@)),
            Err(e) => read_frame(m@) == Err::<(Option<u64>, Seq<char>), FrameError>(e),
        },
{
    let n = m.len();
    proof {
        reveal_strlit("__unknown");
        reveal_strlit("__");
    }
    match rfind_exec(m, "__unknown", n) {
        Some(k) => {
            if k + 9 == n {
                Ok((None, slice_chars(m, 0, k)))
            } else {
                Err(FrameError::WrongSeparator)
            }
        },
        None => match rfind_exec(m, "__", n) {
            Some(k) => {
                let id = parse_u64_range(m, k + 2, n);
                proof {
                    assert(m@.subrange(k + 2, n as int) =~= m@.skip(k + 2));
                }
                match id {
                    Some(id) => Ok((Some(id), slice_chars(m, 0, k))),
                    None => Err(FrameError::InvalidId),
                }
            },
            None => Err(FrameError::MissingSeparator),
        },
    }
}

/// Messages read from written log text.
pub open spec fn frames_view(v: Seq<(Option<u64>, String)>) -> Seq<(Option<u64>, Seq<char>)> {
    v.map_values(|f: (Option<u64>, String)| (f.0, f.1@))
}

/// Reads the framed messages of a written log text in order: the messages
/// read before the first frame that cannot be read, and why that one
/// cannot, if any.
pub fn read_log_frames(text: &str) -> (r: (Vec<(Option<u64>, String)>, Option<FrameError>))
    ensures
        (frames_view(r.0@), r.1) == read_frames(split_terminator(text@, frame_end())),
{
    let v = chars_of(text);
    proof { reveal_strlit("__cucumber__scenario"); }
    let pieces = split_terminator_exec(&v, "__cucumber__scenario");
    let ghost ms = pieces_view(pieces@);
    let mut out: Vec<(Option<u64>, String)> = Vec::new();
    let mut i: usize = 0;
    while i < pieces.len()
        invariant
            i <= pieces@.len(),
            ms == pieces_view(pieces@),
            ms == split_terminator(text@, frame_end()),
            frames_view(out@) == read_frames(ms.take(i as int)).0,
            read_frames(ms.take(i as int)).1 is None,
        decreases pieces.len() - i,
    {
        let ghost before = frames_view(out@);
        proof {
            assert(ms.take(i + 1).drop_last() =~= ms.take(i as int));
            assert(ms.take(i + 1).last() == pieces@[i as int]@);
        }
        match read_frame_exec(&pieces[i]) {
            Ok((id, t)) => {
                let mut s = String::new();
                push_chars(&mut s, &t, 0, t.len());
                assert(t@.subrange(0, t@.len() as int) == t@);
                out.push((id, s));
                assert(frames_view(out@) =~= before.push((id, t@)));
            },
            Err(e) => {
                proof {
                    assert(read_frames(ms.take(i + 1)) == (before, Some(e)));
                    lemma_read_frames_stops(ms, (i + 1) as int);
                }
                return (out, Some(e));
            },
        }
        i += 1;
    }
    assert(ms.take(pieces@.len() as int) =~= ms);
    (out, None)
}

/// Once reading fails, further frames change nothing.
proof fn lemma_read_frames_stops(ms: Seq<Seq<char>>, k: int)
    requires
        0 <= k <= ms.len(),
        read_frames(ms.take(k)).1 is Some,
    ensures
        read_frames(ms) == read_frames(ms.take(k)),
    decreases ms.len() - k,
{
    if k < ms.len() {
        assert(ms.drop_last().take(k) =~= ms.take(k));
        lemma_read_frames_stops(ms.drop_last(), k);
    } else {
        assert(ms.take(k) =~= ms);
    }
}

/// Marker closing a message of scenario `id` (its identifier after `__`),
/// or of no scenario (`__unknown`).
pub open spec fn frame_marker(id: Option<u64>) -> Seq<char> {
    match id {
        Some(n) => scenario_marker() + decimal(n as nat),
        None => no_scenario_marker(),
    }
}

/// What is written after a message: its marker, then the end of the frame.
pub open spec fn frame_suffix(id: Option<u64>) -> Seq<char> {
    frame_marker(id) + frame_end()
}

/// Appends the end of a frame to a written message of scenario `id`, or of
/// no scenario.
pub fn push_frame_suffix(out: &mut String, id: Option<u64>)
    ensures
        final(out)@ == old(out)@ + frame_suffix(id),
{
    proof {
        reveal_strlit("__");
        reveal_strlit("__unknown");
        reveal_strlit("__cucumber__scenario");
    }
    match id {
        Some(n) => {
            push_str(out, "__");
            push_decimal(out, n);
        },
        None => push_str(out, "__unknown"),
    }
    push_str(out, "__cucumber__scenario");
    proof {
        assert(final(out)@ =~= old(out)@ + frame_suffix(id));
    }
}

proof fn lemma_digit_char(d: nat)
    requires
        d < 10,
    ensures
        digit_value(digit_char(d)) == Some(d),
        '0' <= digit_char(d) <= '9',
{
}

/// Decimal notation is made of digits and reads back as its number.
proof fn lemma_decimal_reads_back(n: nat)
    ensures
        decimal(n).len() >= 1,
        forall|i: int| 0 <= i < decimal(n).len() ==> '0' <= #[trigger] decimal(n)[i] <= '9',
        digits_value(decimal(n)) == Some(n),
    decreases n,
{
    if n < 10 {
        lemma_digit_char(n);
    } else {
        lemma_decimal_reads_back(n / 10);
        lemma_digit_char(n % 10);
        let s = decimal(n);
        assert(s.drop_last() =~= decimal(n / 10));
        assert(s.last() == digit_char(n % 10));
        assert forall|i: int| 0 <= i < s.len() implies '0' <= #[trigger] s[i] <= '9' by {
            if i < s.len() - 1 {
                assert(s[i] == decimal(n / 10)[i]);
            }
        }
    }
}

/// No occurrence of `pat` in `s` starts in `[lo, hi)`.
pub open spec fn absent_between(s: Seq<char>, pat: Seq<char>, lo: int, hi: int) -> bool {
    forall|j: int| lo <= j < hi ==> !(j + pat.len() <= s.len() && #[trigger] has_prefix(s.skip(j), pat))
}

/// `pat` does not occur in `s`.
pub open spec fn occurs_nowhere(s: Seq<char>, pat: Seq<char>) -> bool {
    absent_between(s, pat, 0, s.len() as int + 1)
}

/// The last occurrence before `end` is at `k` when none starts after it.
proof fn lemma_rfind_at(s: Seq<char>, pat: Seq<char>, k: int, end: int)
    requires
        0 <= k < end,
        k + pat.len() <= s.len(),
        has_prefix(s.skip(k), pat),
        absent_between(s, pat, k + 1, end),
    ensures
        rfind_before(s, pat, end) == Some(k),
    decreases end,
{
    if end - 1 > k {
        assert(!(end - 1 + pat.len() <= s.len() && has_prefix(s.skip(end - 1), pat)));
        lemma_rfind_at(s, pat, k, end - 1);
    }
}

/// Nothing is found before `end` when nothing starts before it.
proof fn lemma_rfind_none(s: Seq<char>, pat: Seq<char>, end: int)
    requires
        absent_between(s, pat, 0, end),
    ensures
        rfind_before(s, pat, end) is None,
    decreases end,
{
    if end > 0 {
        assert(!(end - 1 + pat.len() <= s.len() && has_prefix(s.skip(end - 1), pat)));
        lemma_rfind_none(s, pat, end - 1);
    }
}

/// A message followed by its marker reads back as the message and its
/// scenario; a message of a scenario must not hold `__unknown`.
pub proof fn lemma_marked_message_reads_back(msg: Seq<char>, id: Option<u64>)
    requires
        id is Some ==> occurs_nowhere(msg, no_scenario_marker()),
    ensures
        read_frame(msg + frame_marker(id)) == Ok::<(Option<u64>, Seq<char>), FrameError>((id, msg)),
{
    reveal_strlit("__");
    reveal_strlit("__unknown");
    let m = msg + frame_marker(id);
    let u = no_scenario_marker();
    let l = msg.len() as int;
    match id {
        None => {
            assert(m.skip(l) =~= u);
            assert(m.skip(l).subrange(0, u.len() as int) =~= u);
            assert(has_prefix(m.skip(l), u));
            assert(absent_between(m, u, l + 1, m.len() as int));
            lemma_rfind_at(m, u, l, m.len() as int);
            assert(m.take(l) =~= msg);
        },
        Some(n) => {
            lemma_decimal_reads_back(n as nat);
            let d = decimal(n as nat);
            assert(m.len() == l + 2 + d.len());
            assert(m[l] == '_' && m[l + 1] == '_');
            assert forall|k: int| 0 <= k < d.len() implies '0' <= #[trigger] m[l + 2 + k] <= '9' by {
                assert(m[l + 2 + k] == d[k]);
            }
            assert forall|j: int| 0 <= j < m.len() + 1 implies !(j + u.len() <= m.len() && #[trigger] has_prefix(m.skip(j), u)) by {
                if j + u.len() <= m.len() && has_prefix(m.skip(j), u) {
                    assert(m.skip(j)[8] == u[8]);
                    if j + 9 <= l {
                        assert forall|t: int| 0 <= t < 9 implies msg.skip(j)[t] == m.skip(j)[t] by {}
                        assert(msg.skip(j).subrange(0, 9) =~= m.skip(j).subrange(0, 9));
                        assert(has_prefix(msg.skip(j), u));
                    } else if j + 8 < l + 2 {
                        assert(m[j + 8] == '_');
                    } else if j <= l {
                        let t = l + 2 - j;
                        assert(2 <= t <= 8);
                        assert(m.skip(j)[t] == u[t]);
                        assert(m[l + 2] == d[0]);
                    } else if j == l + 1 {
                        assert(m.skip(j)[1] == u[1]);
                        assert(m[l + 2] == d[0]);
                    } else {
                        assert(m.skip(j)[0] == u[0]);
                        assert(m[j] == d[j - l - 2]);
                    }
                }
            }
            lemma_rfind_none(m, u, m.len() as int);
            let p = scenario_marker();
            assert(m.skip(l).subrange(0, 2) =~= p);
            assert forall|j: int| l + 1 <= j < m.len() implies !(j + p.len() <= m.len() && #[trigger] has_prefix(m.skip(j), p)) by {
                if j + p.len() <= m.len() && has_prefix(m.skip(j), p) {
                    assert(m.skip(j)[1] == p[1]);
                    assert(m[j + 1] == d[j + 1 - l - 2]);
                }
            }
            lemma_rfind_at(m, p, l, m.len() as int);
            assert(m.skip(l + 2) =~= d);
            assert(d[0] != '+');
            assert(m.take(l) =~= msg);
        },
    }
}

/// The shape every marker has: `__` and then at least one character that is
/// neither `_`, nor `c`, nor `s` in first place.
spec fn marker_shape(mk: Seq<char>) -> bool {
    &&& mk.len() >= 3
    &&& mk[0] == '_'
    &&& mk[1] == '_'
    &&& mk[2] != 'c'
    &&& mk[2] != 's'
    &&& forall|q: int| 2 <= q < mk.len() ==> #[trigger] mk[q] != '_'
}

proof fn lemma_marker_shape(id: Option<u64>)
    ensures
        marker_shape(frame_marker(id)),
{
    reveal_strlit("__");
    reveal_strlit("__unknown");
    let mk = frame_marker(id);
    match id {
        Some(n) => {
            lemma_decimal_reads_back(n as nat);
            let d = decimal(n as nat);
            assert forall|q: int| 2 <= q < mk.len() implies #[trigger] mk[q] != '_' by {
                assert(mk[q] == d[q - 2]);
            }
        },
        None => {
            assert(mk =~= seq!['_', '_', 'u', 'n', 'k', 'n', 'o', 'w', 'n']);
        },
    }
}

/// Characters of the frame end: `__` occurs in it only at its start and at
/// `10`, which is followed by `s`; it ends with `o`.
proof fn lemma_frame_end_chars()
    ensures
        frame_end().len() == 20,
        frame_end()[0] == '_',
        frame_end()[1] == '_',
        frame_end()[2] == 'c',
        frame_end()[12] == 's',
        frame_end()[19] == 'o',
        forall|d: int| 1 <= d < 19 && #[trigger] frame_end()[d] == '_' && frame_end()[d + 1] == '_' ==> d == 10,
{
    reveal_strlit("__cucumber__scenario");
    let e = frame_end();
    assert(e =~= seq!['_', '_', 'c', 'u', 'c', 'u', 'm', 'b', 'e', 'r', '_', '_', 's', 'c', 'e', 'n', 'a', 'r', 'i', 'o']);
    assert forall|d: int| 1 <= d < 19 && #[trigger] e[d] == '_' && e[d + 1] == '_' implies d == 10 by {
        if d == 1 {} else if d == 2 {} else if d == 3 {} else if d == 4 {} else if d == 5 {}
        else if d == 6 {} else if d == 7 {} else if d == 8 {} else if d == 9 {} else if d == 11 {}
        else if d == 12 {} else if d == 13 {} else if d == 14 {} else if d == 15 {} else if d == 16 {}
        else if d == 17 {}
    }
}

/// In a message followed by its marker, the frame end and anything, the
/// first frame end is the one after the marker.
proof fn lemma_first_frame_end(msg: Seq<char>, mk: Seq<char>, rest: Seq<char>)
    requires
        occurs_nowhere(msg, frame_end()),
        marker_shape(mk),
    ensures
        find_from(msg + mk + frame_end() + rest, frame_end(), 0) == Some((msg.len() + mk.len()) as int),
{
    lemma_frame_end_chars();
    let e = frame_end();
    let s = msg + mk + e + rest;
    let l = msg.len() as int;
    let p = l + mk.len();
    assert forall|j: int| 0 <= j < p implies !(j + e.len() <= s.len() && #[trigger] has_prefix(s.skip(j), e)) by {
        if j + e.len() <= s.len() && has_prefix(s.skip(j), e) {
            if j + 20 <= l {
                assert(msg.skip(j).subrange(0, 20) =~= s.skip(j).subrange(0, 20));
                assert(has_prefix(msg.skip(j), e));
            } else if j < l {
                let d = l - j;
                assert(s.skip(j)[d] == e[d]);
                assert(s.skip(j)[d] == mk[0]);
                if d < 19 {
                    assert(s.skip(j)[d + 1] == e[d + 1]);
                    assert(s.skip(j)[d + 1] == mk[1]);
                    assert(d == 10);
                    assert(s.skip(j)[12] == e[12]);
                    assert(s.skip(j)[12] == mk[2]);
                }
            } else {
                let q = j - l;
                assert(s.skip(j)[0] == e[0]);
                assert(s.skip(j)[0] == mk[q]);
                if q == 0 {
                    assert(s.skip(j)[2] == e[2]);
                    assert(s.skip(j)[2] == mk[2]);
                } else if q == 1 {
                    assert(s.skip(j)[1] == e[1]);
                    assert(s.skip(j)[1] == mk[2]);
                }
            }
        }
    }
    assert(s.skip(p).subrange(0, 20) =~= e);
    lemma_find_at(s, e, 0, p);
}

/// The first occurrence from `from` is at `i` when none starts before it.
proof fn lemma_find_at(s: Seq<char>, pat: Seq<char>, from: int, i: int)
    requires
        0 <= from <= i,
        i + pat.len() <= s.len(),
        has_prefix(s.skip(i), pat),
        absent_between(s, pat, from, i),
    ensures
        find_from(s, pat, from) == Some(i),
    decreases i - from,
{
    if from < i {
        assert(!(from + pat.len() <= s.len() && has_prefix(s.skip(from), pat)));
        lemma_find_at(s, pat, from + 1, i);
    }
}

/// Searching a text made of `a` then `b` from inside `b` is searching `b`.
proof fn lemma_find_shift(a: Seq<char>, b: Seq<char>, pat: Seq<char>, x: int)
    requires
        0 <= x <= b.len(),
        pat.len() > 0,
    ensures
        find_from(a + b, pat, a.len() + x) == match find_from(b, pat, x) {
            Some(i) => Some(a.len() + i),
            None => None::<int>,
        },
    decreases b.len() + 1 - x,
{
    let s = a + b;
    assert(s.skip(a.len() + x) =~= b.skip(x));
    if x + pat.len() <= b.len() && !has_prefix(b.skip(x), pat) {
        lemma_find_shift(a, b, pat, x + 1);
    }
}

/// Splitting a text made of `a` then `b` from inside `b` is splitting `b`.
proof fn lemma_split_shift(a: Seq<char>, b: Seq<char>, pat: Seq<char>, x: int)
    requires
        0 <= x <= b.len(),
        pat.len() > 0,
    ensures
        split_from(a + b, pat, a.len() + x) == split_from(b, pat, x),
    decreases b.len() + 1 - x,
{
    let s = a + b;
    lemma_find_shift(a, b, pat, x);
    assert(s.skip(a.len() + x) =~= b.skip(x));
    match find_from(b, pat, x) {
        Some(i) => {
            lemma_find_from_range(b, pat, x);
            if i >= x && i + pat.len() <= b.len() {
                assert(s.subrange(a.len() + x, a.len() + i) =~= b.subrange(x, i));
                lemma_split_shift(a, b, pat, i + pat.len());
            }
        },
        None => {},
    }
}

/// A message with its scenario is written as a frame: it must not hold the
/// frame end, nor, for a scenario, `__unknown`.
pub open spec fn writable(f: (Option<u64>, Seq<char>)) -> bool {
    &&& occurs_nowhere(f.1, frame_end())
    &&& (f.0 is Some ==> occurs_nowhere(f.1, no_scenario_marker()))
}

/// The frame of a message: the message, then its suffix.
pub open spec fn frame_text(f: (Option<u64>, Seq<char>)) -> Seq<char> {
    f.1 + frame_suffix(f.0)
}

/// The frames of messages, one after another.
pub open spec fn framed(fs: Seq<(Option<u64>, Seq<char>)>) -> Seq<char>
    decreases fs.len(),
{
    if fs.len() == 0 {
        Seq::empty()
    } else {
        frame_text(fs[0]) + framed(fs.drop_first())
    }
}

/// Each message followed by its marker.
pub open spec fn marked(fs: Seq<(Option<u64>, Seq<char>)>) -> Seq<Seq<char>> {
    fs.map_values(|f: (Option<u64>, Seq<char>)| f.1 + frame_marker(f.0))
}

proof fn lemma_split_framed(fs: Seq<(Option<u64>, Seq<char>)>)
    requires
        forall|i: int| 0 <= i < fs.len() ==> writable(#[trigger] fs[i]),
    ensures
        split_from(framed(fs), frame_end(), 0) == marked(fs).push(Seq::<char>::empty()),
    decreases fs.len(),
{
    lemma_frame_end_chars();
    let e = frame_end();
    if fs.len() == 0 {
        assert(framed(fs) =~= Seq::<char>::empty());
        assert(framed(fs).skip(0) =~= Seq::<char>::empty());
        assert(marked(fs).push(Seq::<char>::empty()) =~= seq![Seq::<char>::empty()]);
    } else {
        let f = fs[0];
        let rest = fs.drop_first();
        assert forall|i: int| 0 <= i < rest.len() implies writable(#[trigger] rest[i]) by {
            assert(rest[i] == fs[i + 1]);
        }
        lemma_split_framed(rest);
        assert(writable(fs[0]));
        lemma_marker_shape(f.0);
        let mk = frame_marker(f.0);
        let body = f.1 + mk;
        let s = framed(fs);
        assert(s =~= f.1 + mk + e + framed(rest));
        lemma_first_frame_end(f.1, mk, framed(rest));
        let p = body.len() as int;
        assert(s.subrange(0, p) =~= body);
        let head = f.1 + mk + e;
        assert(s =~= head + framed(rest));
        lemma_split_shift(head, framed(rest), e, 0);
        assert(marked(fs).push(Seq::<char>::empty()) =~= seq![body] + marked(rest).push(Seq::<char>::empty()));
    }
}

/// Messages written as frames, one after another, read back in order, with
/// their scenarios, and no error: provided no message holds the frame end,
/// and no message of a scenario holds `__unknown`.
pub proof fn lemma_framed_messages_read_back(fs: Seq<(Option<u64>, Seq<char>)>)
    requires
        forall|i: int| 0 <= i < fs.len() ==> writable(#[trigger] fs[i]),
    ensures
        read_frames(split_terminator(framed(fs), frame_end())) == (fs, None::<FrameError>),
{
    lemma_split_framed(fs);
    let ms = marked(fs);
    assert(split_terminator(framed(fs), frame_end()) =~= ms);
    lemma_read_marked(fs);
}

proof fn lemma_read_marked(fs: Seq<(Option<u64>, Seq<char>)>)
    requires
        forall|i: int| 0 <= i < fs.len() ==> writable(#[trigger] fs[i]),
    ensures
        read_frames(marked(fs)) == (fs, None::<FrameError>),
    decreases fs.len(),
{
    if fs.len() > 0 {
        let init = fs.drop_last();
        assert forall|i: int| 0 <= i < init.len() implies writable(#[trigger] init[i]) by {
            assert(init[i] == fs[i]);
        }
        lemma_read_marked(init);
        assert(marked(fs).drop_last() =~= marked(init));
        assert(writable(fs.last()));
        lemma_marked_message_reads_back(fs.last().1, fs.last().0);
        assert(init.push(fs.last()) =~= fs);
    } else {
        assert(fs =~= Seq::<(Option<u64>, Seq<char>)>::empty());
    }
}

} // verus!
