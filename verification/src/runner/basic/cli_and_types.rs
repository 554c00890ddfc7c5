//! CLI options of the default runner and the scenario retry policy.

use vstd::prelude::*;

use crate::event::Retries;
use crate::gherkin::{tags_view, Feature, Rule, Scenario};
use crate::tag::{tag_op_holds, TagOperation};
use crate::text::push_chars;
use crate::text::{
    chars_of, find_char_from, has_prefix, has_prefix_at, parse_usize_range, parse_usize_spec,
    split_once_spec,
};
use crate::time::Duration;

verus! {

/// CLI options of the default runner.
#[derive(Clone, Debug)]
pub struct Cli {
    /// Number of scenarios to run concurrently.
    pub concurrency: Option<usize>,
    /// Run tests until the first failure.
    pub fail_fast: bool,
    /// Number of times a scenario will be retried in case of a failure.
    pub retry: Option<usize>,
    /// Delay between each scenario retry attempt.
    pub retry_after: Option<Duration>,
    /// Tag expression to filter retried scenarios.
    pub retry_tag_filter: Option<TagOperation>,
}

impl Default for Cli {
    fn default() -> (r: Self)
        ensures
            r.concurrency is None,
            !r.fail_fast,
            r.retry is None,
            r.retry_after is None,
            r.retry_tag_filter is None,
    {
        Cli { concurrency: None, fail_fast: false, retry: None, retry_after: None, retry_tag_filter: None }
    }
}

/// Whether scenarios run concurrently or one by one.
#[derive(Clone, Copy, Debug, PartialEq, Eq, Structural, Hash)]
pub enum ScenarioType {
    /// Run scenarios sequentially (one-by-one).
    Serial,
    /// Run scenarios concurrently.
    Concurrent,
}

/// Options for retrying scenarios.
#[derive(Clone, Copy, Debug, PartialEq, Eq, Structural)]
pub struct RetryOptions {
    /// Number of retries.
    pub retries: Retries,
    /// Delay before the next retry attempt will be executed.
    pub after: Option<Duration>,
}

/// What `humantime::parse_duration` yields for a text, as whole seconds and
/// sub-second nanoseconds, or `None` where it reports an error.
pub uninterp spec fn humantime_duration(text: Seq<char>) -> Option<(u64, u32)>;

/// Number of ASCII digits in `s`.
pub open spec fn digit_count(s: Seq<char>) -> nat
    decreases s.len(),
{
    if s.len() == 0 {
        0
    } else {
        digit_count(s.drop_last()) + if '0' <= s.last() && s.last() <= '9' { 1nat } else { 0nat }
    }
}

/// Most ASCII digits a duration text may hold. With at most this many
/// digits every amount is below `10^11`, so even in years the total stays
/// far below `u64::MAX` seconds, where `humantime` would overflow when
/// building its result.
pub const MAX_DURATION_DIGITS: usize = 11;

/// The retry delay a duration text stands for: what `humantime` makes of
/// it, for a text with at most [`MAX_DURATION_DIGITS`] digits; a text with
/// more digits is refused.
pub open spec fn duration_of_text(text: Seq<char>) -> Option<Duration> {
    if digit_count(text) <= MAX_DURATION_DIGITS {
        match humantime_duration(text) {
            Some((s, n)) => Some(Duration::spec_new(s, n)),
            None => None,
        }
    } else {
        None
    }
}

/// Parses a human-readable duration such as `3s` or `1min 30s`.
///
/// Calls `humantime::parse_duration`; the contract states only that the
/// result is the one named by `humantime_duration` for this text; which
/// texts parse and to what is left to that name. The call panics when the
/// amounts add up to `u64::MAX` seconds and one second of nanoseconds;
/// the digit bound rules that out.
#[verifier::external_body]
fn parse_human_duration(text: &str) -> (r: Option<Duration>)
    requires
        digit_count(text@) <= MAX_DURATION_DIGITS,
    ensures
        r == (match humantime_duration(text@) {
            Some((s, n)) => Some(Duration::spec_new(s, n)),
            None => None,
        }),
{
    match humantime::parse_duration(text) {
        Ok(d) => Some(Duration::new(d.as_secs(), d.subsec_nanos())),
        Err(_) => None,
    }
}

/// Number of ASCII digits in `text`, capped at `MAX_DURATION_DIGITS + 1`.
fn capped_digit_count(text: &str) -> (n: usize)
    ensures
        n <= MAX_DURATION_DIGITS + 1,
        (n <= MAX_DURATION_DIGITS) == (digit_count(text@) <= MAX_DURATION_DIGITS),
        n <= MAX_DURATION_DIGITS ==> n == digit_count(text@),
{
    let v = chars_of(text);
    let mut n: usize = 0;
    let mut i: usize = 0;
    while i < v.len()
        invariant
            i <= v@.len(),
            v@ == text@,
            n <= MAX_DURATION_DIGITS + 1,
            n <= MAX_DURATION_DIGITS ==> n == digit_count(v@.take(i as int)),
            n > MAX_DURATION_DIGITS ==> digit_count(v@.take(i as int)) > MAX_DURATION_DIGITS,
        decreases v.len() - i,
    {
        proof {
            assert(v@.take(i + 1).drop_last() == v@.take(i as int));
        }
        if '0' <= v[i] && v[i] <= '9' && n <= MAX_DURATION_DIGITS {
            n += 1;
        }
        i += 1;
    }
    assert(v@.take(v@.len() as int) == v@);
    n
}

/// Parses a duration text: refused (`None`) when it holds more than
/// [`MAX_DURATION_DIGITS`] digits, otherwise what `humantime` makes of it.
pub fn parse_duration_text(text: &str) -> (r: Option<Duration>)
    ensures
        r == duration_of_text(text@),
{
    if capped_digit_count(text) > MAX_DURATION_DIGITS {
        return None;
    }
    parse_human_duration(text)
}

/// `@retry`
pub open spec fn at_retry() -> Seq<char> {
    seq!['@', 'r', 'e', 't', 'r', 'y']
}

/// `retry`
pub open spec fn plain_retry() -> Seq<char> {
    seq!['r', 'e', 't', 'r', 'y']
}

/// `.after`
pub open spec fn dot_after() -> Seq<char> {
    seq!['.', 'a', 'f', 't', 'e', 'r']
}

/// The text following the `retry` marker of a retry tag, if `tag` is one.
pub open spec fn retry_suffix(tag: Seq<char>) -> Option<Seq<char>> {
    if has_prefix(tag, at_retry()) {
        Some(tag.skip(6))
    } else if has_prefix(tag, plain_retry()) {
        Some(tag.skip(5))
    } else {
        None
    }
}

/// Reads an optional `(N)` count, returning it with the text after it.
/// A malformed count leaves the text untouched.
pub open spec fn parse_retry_count(rest: Seq<char>) -> (Option<usize>, Seq<char>) {
    if rest.len() > 0 && rest[0] == '(' {
        match split_once_spec(rest.skip(1), ')') {
            Some((num, after)) => match parse_usize_spec(num) {
                Some(n) => (Some(n), after),
                None => (None, rest),
            },
            None => (None, rest),
        }
    } else {
        (None, rest)
    }
}

/// Reads an optional `.after(DURATION)` delay.
pub open spec fn parse_retry_after(rest: Seq<char>) -> Option<Duration> {
    if has_prefix(rest, dot_after()) {
        let a = rest.skip(6);
        if a.len() > 0 && a[0] == '(' {
            match split_once_spec(a.skip(1), ')') {
                Some((dur, _)) => duration_of_text(dur),
                None => None,
            }
        } else {
            None
        }
    } else {
        None
    }
}

/// Retry count and delay written in a single tag, if it is a retry tag.
pub open spec fn tag_retry(tag: Seq<char>) -> Option<(Option<usize>, Option<Duration>)> {
    match retry_suffix(tag) {
        Some(rest) => {
            let (n, after) = parse_retry_count(rest);
            Some((n, parse_retry_after(after)))
        },
        None => None,
    }
}

/// Retry count and delay of the first retry tag among `tags`.
pub open spec fn first_retry_tag(tags: Seq<Seq<char>>) -> Option<(Option<usize>, Option<Duration>)>
    decreases tags.len(),
{
    if tags.len() == 0 {
        None
    } else {
        match tag_retry(tags[0]) {
            Some(x) => Some(x),
            None => first_retry_tag(tags.skip(1)),
        }
    }
}

/// Tags of a scenario, then of its rule, then of its feature.
pub open spec fn all_tags(feature: Feature, rule: Option<Rule>, scenario: Scenario) -> Seq<Seq<char>> {
    tags_view(scenario.tags@) + (match rule {
        Some(r) => tags_view(r.tags@),
        None => Seq::empty(),
    }) + tags_view(feature.tags@)
}

/// Retry options written in tags: a scenario's own tags win over its rule's,
/// which win over its feature's.
pub open spec fn tagged_retry(feature: Feature, rule: Option<Rule>, scenario: Scenario) -> Option<(Option<usize>, Option<Duration>)> {
    match first_retry_tag(tags_view(scenario.tags@)) {
        Some(x) => Some(x),
        None => match rule {
            Some(r) => match first_retry_tag(tags_view(r.tags@)) {
                Some(x) => Some(x),
                None => first_retry_tag(tags_view(feature.tags@)),
            },
            None => first_retry_tag(tags_view(feature.tags@)),
        },
    }
}

/// Whether the CLI options alone ask for the scenario to be retried.
pub open spec fn cli_wants_retry(cli: Cli, feature: Feature, rule: Option<Rule>, scenario: Scenario) -> bool {
    match cli.retry_tag_filter {
        None => cli.retry is Some || cli.retry_after is Some,
        Some(op) => tag_op_holds(op, all_tags(feature, rule, scenario)),
    }
}

/// Retry options of a scenario, from its tags and the CLI options.
pub open spec fn retry_options_spec(feature: Feature, rule: Option<Rule>, scenario: Scenario, cli: Cli) -> Option<RetryOptions> {
    match tagged_retry(feature, rule, scenario) {
        Some((tag_retries, tag_after)) => Some(RetryOptions {
            retries: Retries {
                current: 0,
                left: match tag_retries {
                    Some(n) => n,
                    None => match cli.retry {
                        Some(n) => n,
                        None => 1,
                    },
                },
            },
            after: match tag_after {
                Some(a) => Some(a),
                None => cli.retry_after,
            },
        }),
        None => if cli_wants_retry(cli, feature, rule, scenario) {
            Some(RetryOptions {
                retries: Retries {
                    current: 0,
                    left: match cli.retry {
                        Some(n) => n,
                        None => 1,
                    },
                },
                after: cli.retry_after,
            })
        } else {
            None
        },
    }
}

/// Skipping leading tags that are not retry tags does not change which retry
/// tag comes first.
pub proof fn lemma_first_retry_tag_skip(tags: Seq<Seq<char>>, i: int)
    requires
        0 <= i <= tags.len(),
        forall|j: int| 0 <= j < i ==> tag_retry(#[trigger] tags[j]) is None,
    ensures
        first_retry_tag(tags) == first_retry_tag(tags.skip(i)),
    decreases i,
{
    if i > 0 {
        assert(tags.skip(1).skip(i - 1) == tags.skip(i));
        assert forall|j: int| 0 <= j < i - 1 implies tag_retry(#[trigger] tags.skip(1)[j]) is None by {
            assert(tags.skip(1)[j] == tags[j + 1]);
        }
        lemma_first_retry_tag_skip(tags.skip(1), i - 1);
    } else {
        assert(tags.skip(0) == tags);
    }
}

/// Where the text after the `retry` marker starts, if `v` is a retry tag.
fn retry_suffix_start(v: &Vec<char>) -> (r: Option<usize>)
    ensures
        match retry_suffix(v@) {
            Some(rest) => r matches Some(k) && k <= v@.len() && rest == v@.skip(k as int),
            None => r is None,
        },
{
    proof {
        reveal_strlit("@retry");
        reveal_strlit("retry");
        assert("@retry"@ =~= at_retry());
        assert("retry"@ =~= plain_retry());
        assert(v@.skip(0) == v@);
    }
    if has_prefix_at(v, 0, "@retry") {
        Some(6)
    } else if has_prefix_at(v, 0, "retry") {
        Some(5)
    } else {
        None
    }
}

/// Reads an optional `(N)` count at `v[start..]`, returning it with the
/// index where the rest of the tag starts.
fn parse_count_at(v: &Vec<char>, start: usize) -> (r: (Option<usize>, usize))
    requires
        start <= v@.len(),
    ensures
        r.1 <= v@.len(),
        parse_retry_count(v@.skip(start as int)) == (r.0, v@.skip(r.1 as int)),
{
    let ghost rest = v@.skip(start as int);
    if start < v.len() && v[start] == '(' {
        proof { assert(rest.skip(1) == v@.skip(start + 1)); }
        match find_char_from(v, start + 1, ')') {
            Some(k) => {
                proof {
                    crate::text::lemma_first_index_props(v@.skip(start + 1), ')');
                    assert(v@.skip(start + 1).take(k as int) == v@.subrange(start + 1, start + 1 + k));
                    assert(v@.skip(start + 1).skip(k + 1) == v@.skip(start + 2 + k));
                }
                match parse_usize_range(v, start + 1, start + 1 + k) {
                    Some(n) => (Some(n), start + 2 + k),
                    None => (None, start),
                }
            },
            None => (None, start),
        }
    } else {
        (None, start)
    }
}

/// Reads an optional `.after(DURATION)` delay at `v[at..]`.
fn parse_after_at(v: &Vec<char>, at: usize) -> (r: Option<Duration>)
    requires
        at <= v@.len(),
    ensures
        r == parse_retry_after(v@.skip(at as int)),
{
    proof {
        reveal_strlit(".after");
        assert(".after"@ =~= dot_after());
    }
    if !has_prefix_at(v, at, ".after") {
        return None;
    }
    let n = v.len();
    assert(at + 6 <= n);
    let a = at + 6;
    proof { assert(v@.skip(at as int).skip(6) == v@.skip(a as int)); }
    if a < v.len() && v[a] == '(' {
        proof { assert(v@.skip(a as int).skip(1) == v@.skip(a + 1)); }
        match find_char_from(v, a + 1, ')') {
            Some(k) => {
                proof { crate::text::lemma_first_index_props(v@.skip(a + 1), ')'); }
                let mut dur = String::new();
                push_chars(&mut dur, v, a + 1, a + 1 + k);
                proof {
                    assert(dur@ =~= v@.subrange(a + 1, a + 1 + k));
                    assert(v@.skip(a + 1).take(k as int) == v@.subrange(a + 1, a + 1 + k));
                }
                parse_duration_text(dur.as_str())
            },
            None => None,
        }
    } else {
        None
    }
}

/// Reads the retry count and delay of a single tag, if it is a retry tag.
pub fn parse_retry_tag(tag: &String) -> (r: Option<(Option<usize>, Option<Duration>)>)
    ensures
        r == tag_retry(tag@),
{
    let v = chars_of(tag.as_str());
    match retry_suffix_start(&v) {
        Some(start) => {
            let (count, after_start) = parse_count_at(&v, start);
            let after = parse_after_at(&v, after_start);
            Some((count, after))
        },
        None => None,
    }
}

/// Retry count and delay of the first retry tag among `tags`.
pub fn parse_retry_tags(tags: &Vec<String>) -> (r: Option<(Option<usize>, Option<Duration>)>)
    ensures
        r == first_retry_tag(tags_view(tags@)),
{
    let ghost view = tags_view(tags@);
    let mut i: usize = 0;
    while i < tags.len()
        invariant
            i <= tags@.len(),
            view == tags_view(tags@),
            forall|j: int| 0 <= j < i ==> tag_retry(#[trigger] view[j]) is None,
        decreases tags.len() - i,
    {
        let found = parse_retry_tag(&tags[i]);
        if found.is_some() {
            proof {
                lemma_first_retry_tag_skip(view, i as int);
                assert(view.skip(i as int)[0] == view[i as int]);
            }
            return found;
        }
        i += 1;
    }
    proof {
        lemma_first_retry_tag_skip(view, i as int);
        assert(view.skip(i as int).len() == 0);
    }
    None
}

/// Tags of a scenario, then of its rule, then of its feature, copied.
pub fn collect_all_tags(feature: &Feature, rule: Option<&Rule>, scenario: &Scenario) -> (r: Vec<String>)
    ensures
        tags_view(r@) == all_tags(*feature, match rule { Some(x) => Some(*x), None => None }, *scenario),
{
    let mut out: Vec<String> = Vec::new();
    append_tags(&mut out, &scenario.tags);
    match rule {
        Some(rl) => append_tags(&mut out, &rl.tags),
        None => {},
    }
    append_tags(&mut out, &feature.tags);
    proof {
        let rv = match rule { Some(x) => Some(*x), None => None::<Rule> };
        assert(tags_view(out@) =~= all_tags(*feature, rv, *scenario));
    }
    out
}

/// Appends copies of `tags` to `out`.
fn append_tags(out: &mut Vec<String>, tags: &Vec<String>)
    ensures
        tags_view(final(out)@) == tags_view(old(out)@) + tags_view(tags@),
{
    let mut i: usize = 0;
    while i < tags.len()
        invariant
            i <= tags@.len(),
            tags_view(out@) == tags_view(old(out)@) + tags_view(tags@).take(i as int),
        decreases tags.len() - i,
    {
        let t = tags[i].clone();
        assert(t@ == tags@[i as int]@);
        let ghost before = out@;
        out.push(t);
        proof {
            assert(out@ == before.push(t));
            assert(tags_view(out@) =~= tags_view(before).push(t@));
            assert(tags_view(tags@).take(i + 1) =~= tags_view(tags@).take(i as int).push(t@));
            assert(tags_view(out@) =~= tags_view(old(out)@) + tags_view(tags@).take(i + 1));
        }
        i += 1;
    }
    assert(tags_view(tags@).take(tags@.len() as int) == tags_view(tags@));
}

impl RetryOptions {
    /// The options for the next retry attempt, if any retry is left.
    pub fn next_try(self) -> (r: Option<Self>)
        requires
            self.retries.left > 0 ==> self.retries.current < usize::MAX,
        ensures
            self.retries.left == 0 <==> r is None,
            r matches Some(n) ==> n.retries.left == self.retries.left - 1
                && n.retries.current == self.retries.current + 1 && n.after == self.after,
    {
        match self.retries.next_try() {
            Some(num) => Some(Self { retries: num, after: self.after }),
            None => None,
        }
    }

    /// Retry options of a scenario, read from its tags and the CLI options.
    ///
    /// A `@retry`, `@retry(N)`, `@retry.after(D)` or `@retry(N).after(D)`
    /// tag (with or without the `@`) on the scenario wins over one on its
    /// rule, which wins over one on its feature; missing parts are taken from
    /// the CLI, and a count defaults to 1. Without such a tag, the scenario is
    /// retried only when the CLI asks for retries (and, with a tag filter,
    /// only when its tags match the filter).
    pub fn parse_from_tags(feature: &Feature, rule: Option<&Rule>, scenario: &Scenario, cli: &Cli) -> (r: Option<Self>)
        ensures
            r == retry_options_spec(*feature, match rule { Some(x) => Some(*x), None => None }, *scenario, *cli),
    {
        let ghost rv = match rule { Some(x) => Some(*x), None => None::<Rule> };
        let mut options = parse_retry_tags(&scenario.tags);
        if options.is_none() {
            match rule {
                Some(rl) => {
                    options = parse_retry_tags(&rl.tags);
                },
                None => {},
            }
        }
        if options.is_none() {
            options = parse_retry_tags(&feature.tags);
        }
        assert(options == tagged_retry(*feature, rv, *scenario));
        match options {
            Some((tag_retries, tag_after)) => {
                let left = match tag_retries {
                    Some(n) => n,
                    None => match cli.retry {
                        Some(n) => n,
                        None => 1,
                    },
                };
                let after = match tag_after {
                    Some(a) => Some(a),
                    None => cli.retry_after,
                };
                Some(Self { retries: Retries::initial(left), after })
            },
            None => {
                let wants = match &cli.retry_tag_filter {
                    None => cli.retry.is_some() || cli.retry_after.is_some(),
                    Some(op) => {
                        let tags = collect_all_tags(feature, rule, scenario);
                        op.eval(&tags)
                    },
                };
                if wants {
                    let left = match cli.retry {
                        Some(n) => n,
                        None => 1,
                    };
                    Some(Self { retries: Retries::initial(left), after: cli.retry_after })
                } else {
                    None
                }
            },
        }
    }
}

/// A point in time, as the operating system's monotonic clock gives it.
#[verifier::external_type_specification]
#[verifier::external_body]
pub struct ExInstant(std::time::Instant);

/// The current instant (`Instant::now`); nothing is known of its value.
#[verifier::external_body]
pub fn instant_now() -> (r: std::time::Instant) {
    std::time::Instant::now()
}

/// Time elapsed since `since` (`Instant::elapsed`); it depends on the clock,
/// so nothing is stated of it.
#[verifier::external_body]
pub fn elapsed_since(since: &std::time::Instant) -> (r: Duration) {
    let d = since.elapsed();
    Duration::new(d.as_secs(), d.subsec_nanos())
}

/// [`RetryOptions`] with an optional instant from which the retry delay is
/// counted; without one the scenario is ready to run at once.
#[derive(Clone, Copy, Debug)]
pub struct RetryOptionsWithDeadline {
    /// Number of retries.
    pub retries: Retries,
    /// Delay before the next retry attempt, and when it started counting.
    pub after: Option<(Duration, Option<std::time::Instant>)>,
}

impl RetryOptions {
    /// These options, with the retry delay counted from `now`.
    pub fn with_deadline(self, now: std::time::Instant) -> (r: RetryOptionsWithDeadline)
        ensures
            r.retries == self.retries,
            r.after == (match self.after {
                Some(d) => Some((d, Some(now))),
                None => None,
            }),
    {
        RetryOptionsWithDeadline {
            retries: self.retries,
            after: match self.after {
                Some(d) => Some((d, Some(now))),
                None => None,
            },
        }
    }

    /// These options, ready to run at once (the delay is kept but not
    /// counting); used for a scenario's initial run.
    pub fn without_deadline(self) -> (r: RetryOptionsWithDeadline)
        ensures
            r.retries == self.retries,
            r.after == (match self.after {
                Some(d) => Some((d, None::<std::time::Instant>)),
                None => None,
            }),
    {
        RetryOptionsWithDeadline {
            retries: self.retries,
            after: match self.after {
                Some(d) => Some((d, None::<std::time::Instant>)),
                None => None,
            },
        }
    }
}

/// The plain options a deadline-carrying one stands for.
pub open spec fn options_of(v: RetryOptionsWithDeadline) -> RetryOptions {
    RetryOptions {
        retries: v.retries,
        after: match v.after {
            Some((d, _)) => Some(d),
            None => None,
        },
    }
}

impl From<RetryOptionsWithDeadline> for RetryOptions {
    fn from(v: RetryOptionsWithDeadline) -> (r: Self) {
        RetryOptions {
            retries: v.retries,
            after: match v.after {
                Some((d, _)) => Some(d),
                None => None,
            },
        }
    }
}

impl vstd::std_specs::convert::FromSpecImpl<RetryOptionsWithDeadline> for RetryOptions {
    open spec fn obeys_from_spec() -> bool {
        true
    }

    open spec fn from_spec(v: RetryOptionsWithDeadline) -> Self {
        options_of(v)
    }
}

/// Time left before a retry may start, given how much time has elapsed since
/// the delay started counting; `None` means ready.
pub open spec fn left_until_retry_spec(v: RetryOptionsWithDeadline, elapsed: Duration) -> Option<Duration> {
    match v.after {
        Some((d, Some(_))) => if elapsed.total_nanos() <= d.total_nanos() {
            Some(d.minus(elapsed))
        } else {
            None
        },
        _ => None,
    }
}

/// The longer the time elapsed since a retry delay started counting, the
/// less of it is left: a later reading of the clock never leaves more time
/// until the retry, and once the delay has passed the scenario stays ready.
pub proof fn lemma_time_left_shrinks(w: RetryOptionsWithDeadline, e1: Duration, e2: Duration)
    requires
        w.after matches Some((d, _)) ==> d.spec_subsec_nanos() < crate::time::NANOS_PER_SEC,
        e1.total_nanos() <= e2.total_nanos(),
    ensures
        left_until_retry_spec(w, e2) matches Some(l2) ==> (left_until_retry_spec(w, e1) matches Some(l1)
            && l2.total_nanos() <= l1.total_nanos()),
        left_until_retry_spec(w, e1) is None ==> left_until_retry_spec(w, e2) is None,
{
    match w.after {
        Some((d, Some(_))) => {
            if e2.total_nanos() <= d.total_nanos() {
                crate::time::lemma_minus_total(d, e1);
                crate::time::lemma_minus_total(d, e2);
            }
        },
        _ => {},
    }
}

impl RetryOptionsWithDeadline {
    /// Time left before the retry may start, given the time `elapsed` since
    /// the delay started counting. `None` means the scenario is ready.
    pub fn left_until_retry_after(&self, elapsed: Duration) -> (r: Option<Duration>)
        ensures
            r == left_until_retry_spec(*self, elapsed),
            r matches Some(x) ==> x.total_nanos() + elapsed.total_nanos() == self.after.unwrap().0.total_nanos(),
    {
        match self.after {
            Some((d, Some(_))) => d.checked_sub(elapsed),
            _ => None,
        }
    }

    /// Time left before the retry may start, measured on the clock now.
    /// `None` means the scenario is ready to run. What the clock reads is
    /// not known here, so the result is stated for the time elapsed then,
    /// whatever it was.
    pub fn left_until_retry(&self) -> (r: Option<Duration>)
        ensures
            exists|elapsed: Duration| r == #[trigger] left_until_retry_spec(*self, elapsed),
            match self.after {
                Some((d, Some(_))) => r matches Some(x) ==> x.total_nanos() <= d.total_nanos(),
                _ => r is None,
            },
    {
        match self.after {
            Some((_, Some(since))) => {
                let e = elapsed_since(&since);
                let r = self.left_until_retry_after(e);
                assert(r == left_until_retry_spec(*self, e));
                r
            },
            _ => {
                assert(left_until_retry_spec(*self, Duration::spec_new(0, 0)) is None);
                None
            },
        }
    }
}

/// A retry tag on the scenario decides over any on its rule or
/// feature; a count written in it wins over the CLI's; and a scenario's
/// first run always starts at attempt zero.
pub proof fn lemma_scenario_tag_wins(feature: Feature, rule: Option<Rule>, scenario: Scenario, cli: Cli, n: usize, after: Option<Duration>)
    requires
        first_retry_tag(tags_view(scenario.tags@)) == Some((Some(n), after)),
    ensures
        retry_options_spec(feature, rule, scenario, cli) matches Some(o) && o.retries.left == n
            && o.retries.current == 0
            && o.after == (match after { Some(a) => Some(a), None => cli.retry_after }),
{
}

/// Without a retry tag anywhere and without CLI retry options (and no
/// tag filter), a scenario is not retried.
pub proof fn lemma_no_retry_by_default(feature: Feature, rule: Option<Rule>, scenario: Scenario, cli: Cli)
    requires
        tagged_retry(feature, rule, scenario) is None,
        cli.retry is None,
        cli.retry_after is None,
        cli.retry_tag_filter is None,
    ensures
        retry_options_spec(feature, rule, scenario, cli) is None,
{
}

} // verus!
