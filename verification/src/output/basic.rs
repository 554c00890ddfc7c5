//! The default console writer: one line per feature, rule, scenario and
//! step, with a `file:line:column` comment at the right margin.

use vstd::prelude::*;

use crate::examples::{strings_view, ExampleValues};
use crate::feature::{is_whitespace_char, is_ws};
use crate::gherkin::LineCol;
use crate::runner::stats::{RunResult, Stats};
use crate::runner::log_frames::split_terminator;
use crate::text::{chars_of, decimal, push_char, push_chars, push_decimal, push_str};

verus! {

/// What `textwrap::wrap` makes of a text for a width: its lines.
pub uninterp spec fn textwrap_lines(text: Seq<char>, width: usize) -> Seq<Seq<char>>;

/// `s` without trailing spaces (`str::trim_end_matches(' ')`).
pub open spec fn without_trailing_spaces(s: Seq<char>) -> Seq<char>
    decreases s.len(),
{
    if s.len() > 0 && s.last() == ' ' { without_trailing_spaces(s.drop_last()) } else { s }
}

/// What `textwrap::fill` makes of a text for a width: a text shorter (in
/// bytes) than the width and without a line break loses its trailing
/// spaces; any other is wrapped and its lines joined by line breaks.
pub open spec fn textwrap_filled(text: Seq<char>, width: usize) -> Seq<char> {
    if utf8_len(text) < width && !text.contains('\n') {
        without_trailing_spaces(text)
    } else {
        joined_lines(textwrap_lines(text, width))
    }
}

/// One line as `textwrap::indent` prefixes it: a blank line gets the
/// prefix without its trailing white space.
pub open spec fn indented_line(line: Seq<char>, prefix: Seq<char>) -> Seq<char> {
    (if trimmed(line).len() == 0 { trimmed_end(prefix) } else { prefix }) + line
}

/// What `textwrap::indent` makes of a text for a prefix: each line (as
/// `str::split_terminator` at line breaks gives them) prefixed, the lines
/// joined by line breaks, and a final line break kept.
pub open spec fn textwrap_indented(text: Seq<char>, prefix: Seq<char>) -> Seq<char> {
    joined_lines(split_terminator(text, seq!['\n']).map_values(|l: Seq<char>| indented_line(l, prefix)))
        + if text.len() > 0 && text.last() == '\n' { seq!['\n'] } else { Seq::empty() }
}

/// `textwrap::wrap`: the lines of `text` wrapped at `width` columns.
#[verifier::external_body]
fn wrap_lines(text: &str, width: usize) -> (r: Vec<String>)
    ensures
        strings_view(r@) == textwrap_lines(text@, width),
{
    textwrap::wrap(text, width).into_iter().map(|l| l.into_owned()).collect()
}

/// `textwrap::fill`: `text` wrapped at `width` columns, lines joined; a
/// short one-line text only loses its trailing spaces.
#[verifier::external_body]
fn fill_text(text: &str, width: usize) -> (r: String)
    ensures
        r@ == textwrap_filled(text@, width),
{
    textwrap::fill(text, width)
}

/// `textwrap::indent`: every line of `text` prefixed (a blank one with the
/// prefix's trailing white space removed).
#[verifier::external_body]
fn indent_text(text: &str, prefix: &str) -> (r: String)
    ensures
        r@ == textwrap_indented(text@, prefix@),
{
    textwrap::indent(text, prefix)
}

/// Colors of the console output.
#[derive(Clone, Copy, Debug, PartialEq, Eq, Structural)]
pub enum Color {
    /// White.
    White,
    /// Cyan.
    Cyan,
    /// Yellow.
    Yellow,
    /// Green.
    Green,
    /// Red.
    Red,
    /// Magenta.
    Magenta,
    /// Blue.
    Blue,
}

/// One piece of console output.
#[derive(Debug)]
pub enum Piece {
    /// Text in a color, bold or not, ending the line or not.
    Colored { text: String, color: Color, bold: bool, newline: bool },
    /// Text in the terminal's own color, ending the line or not.
    Plain { text: String, newline: bool },
    /// Text laid out with a comment at the right margin (see
    /// [`wrap_with_comment`]), in a color, followed by the comment in white
    /// after one space, ending the line.
    Commented { text: String, comment: String, indent: String, color: Color, bold: bool },
    /// Moves up one line and erases it.
    DeleteLastLine,
}

/// A piece of output reduced to plain values.
pub enum PieceView {
    /// Text in a color, bold or not, ending the line or not.
    Colored(Seq<char>, Color, bool, bool),
    /// Text in the terminal's own color, ending the line or not.
    Plain(Seq<char>, bool),
    /// Text with a right-margin comment: text, comment, indent, color, bold.
    Commented(Seq<char>, Seq<char>, Seq<char>, Color, bool),
    /// Moves up one line and erases it.
    DeleteLastLine,
}

/// The plain values of a piece.
pub open spec fn piece_view(p: Piece) -> PieceView {
    match p {
        Piece::Colored { text, color, bold, newline } => PieceView::Colored(text@, color, bold, newline),
        Piece::Plain { text, newline } => PieceView::Plain(text@, newline),
        Piece::Commented { text, comment, indent, color, bold } => PieceView::Commented(text@, comment@, indent@, color, bold),
        Piece::DeleteLastLine => PieceView::DeleteLastLine,
    }
}

/// The plain values of pieces.
pub open spec fn pieces_view(ps: Seq<Piece>) -> Seq<PieceView> {
    ps.map_values(|p: Piece| piece_view(p))
}

/// `s` without leading and trailing white space (`str::trim`).
pub open spec fn trimmed(s: Seq<char>) -> Seq<char> {
    trimmed_end(trimmed_start(s))
}

/// `s` without leading white space.
pub open spec fn trimmed_start(s: Seq<char>) -> Seq<char>
    decreases s.len(),
{
    if s.len() > 0 && is_ws(s[0]) { trimmed_start(s.skip(1)) } else { s }
}

/// `s` without trailing white space (`str::trim_end`).
pub open spec fn trimmed_end(s: Seq<char>) -> Seq<char>
    decreases s.len(),
{
    if s.len() > 0 && is_ws(s.last()) { trimmed_end(s.drop_last()) } else { s }
}

/// `n` copies of `c`.
pub open spec fn repeat(c: char, n: nat) -> Seq<char> {
    Seq::new(n, |i: int| c)
}

/// `s` padded on the right with `c` to at least `width` characters
/// (`format!("{:c<width$}", s)`).
pub open spec fn padded(s: Seq<char>, c: char, width: nat) -> Seq<char> {
    if s.len() < width { s + repeat(c, (width - s.len()) as nat) } else { s }
}

/// `a - b`, or zero when `b` is larger.
pub open spec fn sat_sub(a: int, b: int) -> nat {
    if a > b { (a - b) as nat } else { 0 }
}

/// Lines joined by new lines.
pub open spec fn joined_lines(lines: Seq<Seq<char>>) -> Seq<char>
    decreases lines.len(),
{
    if lines.len() == 0 {
        Seq::empty()
    } else if lines.len() == 1 {
        lines[0]
    } else {
        joined_lines(lines.drop_last()) + seq!['\n'] + lines.last()
    }
}

/// Layout of a text with a comment at the right margin: each wrapped line
/// indented and trimmed; the last line padded so that the comment (which
/// follows after one space) ends at `width`, or a padding line added when
/// the last line is too long.
pub open spec fn comment_layout_spec(lines: Seq<Seq<char>>, comment: Seq<char>, indent: Seq<char>, width: usize) -> Seq<char> {
    let cs = lines.map_values(|l: Seq<char>| indent + trimmed(l));
    let space = sat_sub(sat_sub(width as int, comment.len() as int) as int, 1);
    let last = cs.last();
    if last.len() > space {
        joined_lines(cs.push(repeat(' ', space)))
    } else {
        joined_lines(cs.update(cs.len() - 1, last + repeat(' ', (space - last.len()) as nat)))
    }
}

/// Appends `s` without leading and trailing white space.
fn push_trimmed(out: &mut String, s: &str)
    ensures
        final(out)@ == old(out)@ + trimmed(s@),
{
    let v = chars_of(s);
    let n = v.len();
    let mut a: usize = 0;
    assert(v@.skip(0) == v@);
    while a < n && is_whitespace_char(v[a])
        invariant
            n == v@.len(),
            a <= n,
            trimmed_start(v@) == trimmed_start(v@.skip(a as int)),
        decreases n - a,
    {
        proof {
            assert(v@.skip(a as int).skip(1) =~= v@.skip(a + 1));
        }
        a += 1;
    }
    let ghost start = v@.skip(a as int);
    assert(trimmed_start(v@) == start) by {
        if a < n {
            assert(start[0] == v@[a as int]);
        }
    }
    let mut b: usize = n;
    assert(start.take(start.len() as int) == start);
    while b > a && is_whitespace_char(v[b - 1])
        invariant
            a <= b <= n,
            n == v@.len(),
            start == v@.skip(a as int),
            trimmed_end(start) == trimmed_end(v@.subrange(a as int, b as int)),
        decreases b,
    {
        proof {
            assert(v@.subrange(a as int, b as int).drop_last() =~= v@.subrange(a as int, b - 1));
        }
        b -= 1;
    }
    proof {
        if b > a {
            assert(v@.subrange(a as int, b as int).last() == v@[b - 1]);
        }
        assert(v@.subrange(a as int, n as int) =~= start);
    }
    push_chars(out, &v, a, b);
}

/// Appends `n` copies of `c`.
fn push_repeat(out: &mut String, c: char, n: usize)
    ensures
        final(out)@ == old(out)@ + repeat(c, n as nat),
{
    let mut i: usize = 0;
    while i < n
        invariant
            i <= n,
            out@ == old(out)@ + repeat(c, i as nat),
        decreases n - i,
    {
        push_char(out, c);
        proof {
            assert(repeat(c, (i + 1) as nat) =~= repeat(c, i as nat).push(c));
        }
        i += 1;
    }
}

/// Number of characters of `s`.
fn char_count(s: &str) -> (n: usize)
    ensures
        n == s@.len(),
{
    chars_of(s).len()
}

/// Lays out wrapped `lines` with `comment` at the right margin, as
/// [`comment_layout_spec`] describes.
pub fn comment_layout(lines: &Vec<String>, comment: &str, indent: &str, width: usize) -> (r: String)
    requires
        lines@.len() > 0,
    ensures
        r@ == comment_layout_spec(strings_view(lines@), comment@, indent@, width),
{
    let ghost cs = strings_view(lines@).map_values(|l: Seq<char>| indent@ + trimmed(l));
    let cl = char_count(comment);
    let a = if width > cl { width - cl } else { 0 };
    let space = if a > 1 { a - 1 } else { 0 };
    let n = lines.len();
    let mut out = String::new();
    let mut i: usize = 0;
    while i + 1 < n
        invariant
            n == lines@.len(),
            n > 0,
            i < n,
            cs == strings_view(lines@).map_values(|l: Seq<char>| indent@ + trimmed(l)),
            i == 0 ==> out@.len() == 0,
            i > 0 ==> out@ == joined_lines(cs.take(i as int)),
        decreases n - i,
    {
        if i > 0 {
            push_char(&mut out, '\n');
        }
        push_str(&mut out, indent);
        push_trimmed(&mut out, lines[i].as_str());
        proof {
            assert(cs[i as int] == indent@ + trimmed(lines@[i as int]@));
            assert(cs.take(i + 1).drop_last() =~= cs.take(i as int));
            if i == 0 {
                assert(out@ =~= joined_lines(cs.take(1)));
            } else {
                assert(out@ =~= joined_lines(cs.take(i + 1)));
            }
        }
        i += 1;
    }
    let mut last = String::new();
    push_str(&mut last, indent);
    push_trimmed(&mut last, lines[n - 1].as_str());
    assert(last@ == cs.last());
    let last_len = char_count(last.as_str());
    let ghost prefix = out@;
    assert(i == n - 1);
    proof {
        if n > 1 {
            assert(cs.drop_last() =~= cs.take(n - 1));
            assert(joined_lines(cs) == joined_lines(cs.take(n - 1)) + seq!['\n'] + cs.last());
        } else {
            assert(joined_lines(cs) == cs[0]);
        }
    }
    if i > 0 {
        push_char(&mut out, '\n');
    }
    if last_len > space {
        push_str(&mut out, last.as_str());
        push_char(&mut out, '\n');
        push_repeat(&mut out, ' ', space);
        proof {
            let full = cs.push(repeat(' ', space as nat));
            assert(full.drop_last() =~= cs);
            assert(joined_lines(full) == joined_lines(cs) + seq!['\n'] + repeat(' ', space as nat));
            assert(out@ =~= joined_lines(full));
        }
    } else {
        push_str(&mut out, last.as_str());
        push_repeat(&mut out, ' ', space - last_len);
        proof {
            let full = cs.update(cs.len() - 1, cs.last() + repeat(' ', (space - last_len) as nat));
            if n > 1 {
                assert(full.drop_last() =~= cs.take(n - 1));
                assert(joined_lines(full) == joined_lines(cs.take(n - 1)) + seq!['\n'] + full.last());
            } else {
                assert(joined_lines(full) == full[0]);
            }
            assert(out@ =~= joined_lines(full));
        }
    }
    out
}

/// Lays `text` out for a terminal `width` columns wide, with `comment` at
/// the right margin: the text is wrapped to the width left after `indent`.
/// `None` when the wrapping gives no line at all.
pub fn wrap_with_comment(text: &str, comment: &str, indent: &str, width: usize) -> (r: Option<String>)
    requires
        indent@.len() <= width,
    ensures
        ({
            let lines = textwrap_lines(text@, (width - indent@.len()) as usize);
            &&& r is None <==> lines.len() == 0
            &&& r matches Some(s) ==> s@ == comment_layout_spec(lines, comment@, indent@, width)
        }),
{
    let w = width - char_count(indent);
    let lines = wrap_lines(text, w);
    if lines.len() == 0 {
        None
    } else {
        Some(comment_layout(&lines, comment, indent, width))
    }
}

/// Outcome of a step as the console writer shows it.
#[derive(Debug)]
pub enum StepReport {
    /// The step started.
    Starting,
    /// No step function matches the step.
    Unimplemented,
    /// The step was skipped.
    Skipped,
    /// The step passed.
    Passed,
    /// The step panicked.
    Panicked {
        /// Where the panic happened.
        location: String,
        /// What the panic carried.
        payload: String,
        /// Captured standard output.
        out: String,
        /// Captured standard error.
        err: String,
    },
    /// The step ran out of time.
    TimedOut,
}

/// `file:line:column` comment of an element, ending with a no-break space;
/// `<input>` when the file is unknown.
pub open spec fn file_line_col_spec(path: Option<Seq<char>>, position: LineCol) -> Seq<char> {
    let file = match path {
        Some(p) => p,
        None => "<input>"@,
    };
    file + seq![':'] + decimal(position.line as nat) + seq![':'] + decimal(position.col as nat) + seq!['\u{a0}']
}

/// Pushes a piece.
fn push_piece(ps: &mut Vec<Piece>, p: Piece)
    ensures
        final(ps)@ == old(ps)@.push(p),
        pieces_view(final(ps)@) == pieces_view(old(ps)@).push(piece_view(p)),
{
    let ghost before = ps@;
    ps.push(p);
    assert(pieces_view(ps@) =~= pieces_view(before).push(piece_view(p)));
}

/// Appends pieces.
fn append_pieces(ps: &mut Vec<Piece>, other: Vec<Piece>)
    ensures
        pieces_view(final(ps)@) == pieces_view(old(ps)@) + pieces_view(other@),
{
    let mut other = other;
    let ghost before = ps@;
    let ghost o = other@;
    ps.append(&mut other);
    assert(pieces_view(ps@) =~= pieces_view(before) + pieces_view(o));
}

/// A string holding `s`.
fn string_of_str(s: &str) -> (r: String)
    ensures
        r@ == s@,
{
    let mut r = String::new();
    push_str(&mut r, s);
    r
}

/// Color and mark of a step line for each outcome.
pub open spec fn step_style(e: StepReport) -> (Seq<char>, Color) {
    match e {
        StepReport::Starting => (Seq::empty(), Color::White),
        StepReport::Unimplemented | StepReport::Skipped => ("- "@, Color::Cyan),
        StepReport::Passed => ("\u{2714} "@, Color::Green),
        StepReport::Panicked { .. } | StepReport::TimedOut => ("\u{2718} "@, Color::Red),
    }
}

/// The pieces describing a panicked step: a heading with the location at
/// the margin, the message, the captured output and error when not empty,
/// and a closing rule.
pub open spec fn panic_pieces(location: Seq<char>, payload: Seq<char>, out: Seq<char>, err: Seq<char>, width: usize) -> Seq<PieceView> {
    let w4 = sat_sub(width as int, 4) as usize;
    let head = seq![
        PieceView::Commented(padded("[!] Step failed: "@, '\u{2014}', sat_sub(sat_sub(width as int, location.len() as int) as int, 6)),
            location, "\u{2014}\u{2014}\u{2014}\u{2014} "@, Color::Red, true),
        PieceView::Colored(trimmed_end(textwrap_indented(textwrap_filled(payload, w4), "  "@)), Color::Red, false, true),
    ];
    let outs = if out.len() > 0 {
        seq![
            PieceView::Colored(padded("\u{2014}\u{2014}\u{2014}\u{2014} Captured stdout: "@, '\u{2014}', width as nat), Color::Red, true, true),
            PieceView::Colored(trimmed_end(textwrap_indented(textwrap_filled(out, w4), "  "@)), Color::Red, false, true),
        ]
    } else {
        Seq::empty()
    };
    let errs = if err.len() > 0 {
        seq![
            PieceView::Colored(padded("\u{2014}\u{2014}\u{2014}\u{2014} Captured stderr: "@, '\u{2014}', width as nat), Color::Red, true, true),
            PieceView::Colored(trimmed_end(textwrap_indented(textwrap_filled(err, w4), "  "@)), Color::Red, false, true),
        ]
    } else {
        Seq::empty()
    };
    head + outs + errs + seq![PieceView::Colored(padded(""@, '\u{2014}', sat_sub(width as int, 1)), Color::Red, true, true)]
}

/// The pieces following a step's line for its outcome.
pub open spec fn step_extra_pieces(e: StepReport, indent: Seq<char>, width: usize) -> Seq<PieceView> {
    match e {
        StepReport::Unimplemented => seq![
            PieceView::Colored(indent + "  \u{26a1} "@, Color::Yellow, false, false),
            PieceView::Plain("Not yet implemented (skipped)"@, true),
        ],
        StepReport::Panicked { location, payload, out, err } => panic_pieces(location@, payload@, out@, err@, width),
        StepReport::TimedOut => seq![
            PieceView::Commented(padded("[!] Step timed out"@, '\u{2014}', sat_sub(width as int, 6)), Seq::empty(),
                "\u{2014}\u{2014}\u{2014}\u{2014} "@, Color::Red, true),
        ],
        _ => Seq::empty(),
    }
}

/// The console writer's state between events.
#[derive(Debug)]
pub struct BasicOutput {
    step_started: bool,
    pending_feature_print_info: Option<(String, String)>,
    printed_feature_start: bool,
}

impl BasicOutput {
    /// Whether the last line printed is a started step, to be replaced.
    pub closed spec fn is_step_started(&self) -> bool {
        self.step_started
    }

    /// Heading and comment of a feature not printed yet.
    pub closed spec fn pending(&self) -> Option<(Seq<char>, Seq<char>)> {
        match self.pending_feature_print_info {
            Some((m, c)) => Some((m@, c@)),
            None => None,
        }
    }

    /// Whether the current feature's heading has been printed.
    pub closed spec fn is_feature_printed(&self) -> bool {
        self.printed_feature_start
    }

    /// A writer that has printed nothing.
    pub fn new() -> (o: Self)
        ensures
            !o.is_step_started(),
            o.pending() is None,
            !o.is_feature_printed(),
    {
        BasicOutput { step_started: false, pending_feature_print_info: None, printed_feature_start: false }
    }

    /// The `file:line:column` comment of an element; `path` is the file's
    /// path relative to the working directory, if known.
    pub fn file_line_col(&self, path: Option<&str>, position: LineCol) -> (s: String)
        ensures
            s@ == file_line_col_spec(match path { Some(p) => Some(p@), None => None }, position),
    {
        let mut s = String::new();
        match path {
            Some(p) => push_str(&mut s, p),
            None => push_str(&mut s, "<input>"),
        }
        push_char(&mut s, ':');
        push_decimal(&mut s, position.line as u64);
        push_char(&mut s, ':');
        push_decimal(&mut s, position.col as u64);
        push_char(&mut s, '\u{a0}');
        s
    }

    /// Output of a step event: a started step is printed and replaced by
    /// its outcome's line; an unimplemented step adds a note; a failed step
    /// adds its panic details, or a time-out note. `text` is the step as
    /// written, `comment` its position, `width` the terminal width.
    pub fn handle_step(
        &mut self,
        text: &str,
        comment: &str,
        in_rule: bool,
        background: bool,
        event: &StepReport,
        width: usize,
    ) -> (ps: Vec<Piece>)
        ensures
            ({
                let indent = if in_rule { "   "@ } else { "  "@ };
                let msg = if background { "\u{26d3}\u{fe0f} "@ + text@ } else { text@ };
                let (mark, color) = step_style(*event);
                let lead = if old(self).is_step_started() { seq![PieceView::DeleteLastLine] } else { Seq::empty() };
                &&& pieces_view(ps@) == lead + seq![PieceView::Commented(mark + msg, comment@, indent, color, false)]
                    + step_extra_pieces(*event, indent, width)
                &&& final(self).is_step_started() == (*event is Starting)
                &&& final(self).pending() == old(self).pending()
                &&& final(self).is_feature_printed() == old(self).is_feature_printed()
            }),
    {
        let mut ps: Vec<Piece> = Vec::new();
        let indent = if in_rule { "   " } else { "  " };
        let mut msg = String::new();
        if background {
            push_str(&mut msg, "\u{26d3}\u{fe0f} ");
        }
        push_str(&mut msg, text);
        if self.step_started {
            push_piece(&mut ps, Piece::DeleteLastLine);
        }
        let ghost start = ps@.len();
        let (mark, color) = match event {
            StepReport::Starting => ("", Color::White),
            StepReport::Unimplemented | StepReport::Skipped => ("- ", Color::Cyan),
            StepReport::Passed => ("\u{2714} ", Color::Green),
            StepReport::Panicked { .. } | StepReport::TimedOut => ("\u{2718} ", Color::Red),
        };
        let mut line = String::new();
        push_str(&mut line, mark);
        push_str(&mut line, msg.as_str());
        proof {
            reveal_strlit("");
        }
        push_piece(&mut ps, Piece::Commented {
            text: line,
            comment: string_of_str(comment),
            indent: string_of_str(indent),
            color,
            bold: false,
        });
        match event {
            StepReport::Unimplemented => {
                let mut note = String::new();
                push_str(&mut note, indent);
                push_str(&mut note, "  \u{26a1} ");
                push_piece(&mut ps, Piece::Colored { text: note, color: Color::Yellow, bold: false, newline: false });
                push_piece(&mut ps, Piece::Plain { text: string_of_str("Not yet implemented (skipped)"), newline: true });
            },
            StepReport::Panicked { location, payload, out, err } => {
                self.push_panic_details(&mut ps, location, payload, out, err, width);
            },
            StepReport::TimedOut => {
                let l = if width > 6 { width - 6 } else { 0 };
                let heading = padded_exec("[!] Step timed out", '\u{2014}', l);
                push_piece(&mut ps, Piece::Commented {
                    text: heading,
                    comment: String::new(),
                    indent: string_of_str("\u{2014}\u{2014}\u{2014}\u{2014} "),
                    color: Color::Red,
                    bold: true,
                });
            },
            _ => {},
        }
        self.step_started = match event {
            StepReport::Starting => true,
            _ => false,
        };
        ps
    }

    /// Pieces describing a panicked step: a heading with the panic's
    /// location, its message, the captured output and error when not empty,
    /// and a closing rule.
    fn push_panic_details(&self, ps: &mut Vec<Piece>, location: &String, payload: &String, out: &String, err: &String, width: usize)
        ensures
            pieces_view(final(ps)@) == pieces_view(old(ps)@) + panic_pieces(location@, payload@, out@, err@, width),
    {
        let ghost before = pieces_view(ps@);
        let lw = char_count(location.as_str());
        let a = if width > lw { width - lw } else { 0 };
        let l = if a > 6 { a - 6 } else { 0 };
        push_piece(ps, Piece::Commented {
            text: padded_exec("[!] Step failed: ", '\u{2014}', l),
            comment: string_of_str(location.as_str()),
            indent: string_of_str("\u{2014}\u{2014}\u{2014}\u{2014} "),
            color: Color::Red,
            bold: true,
        });
        let w4 = if width > 4 { width - 4 } else { 0 };
        push_piece(ps, Piece::Colored { text: indented_fill(payload.as_str(), w4), color: Color::Red, bold: false, newline: true });
        if !out.as_str().is_empty() {
            push_piece(ps, Piece::Colored { text: padded_exec("\u{2014}\u{2014}\u{2014}\u{2014} Captured stdout: ", '\u{2014}', width), color: Color::Red, bold: true, newline: true });
            push_piece(ps, Piece::Colored { text: indented_fill(out.as_str(), w4), color: Color::Red, bold: false, newline: true });
        }
        if !err.as_str().is_empty() {
            push_piece(ps, Piece::Colored { text: padded_exec("\u{2014}\u{2014}\u{2014}\u{2014} Captured stderr: ", '\u{2014}', width), color: Color::Red, bold: true, newline: true });
            push_piece(ps, Piece::Colored { text: indented_fill(err.as_str(), w4), color: Color::Red, bold: false, newline: true });
        }
        let w1 = if width > 1 { width - 1 } else { 0 };
        push_piece(ps, Piece::Colored { text: padded_exec("", '\u{2014}', w1), color: Color::Red, bold: true, newline: true });
        proof {
            reveal_strlit("");
            assert(pieces_view(ps@) =~= before + panic_pieces(location@, payload@, out@, err@, width));
        }
    }
}

/// `text` padded on the right with `c` to `width` characters.
fn padded_exec(text: &str, c: char, width: usize) -> (r: String)
    ensures
        r@ == padded(text@, c, width as nat),
{
    let mut r = String::new();
    push_str(&mut r, text);
    let n = char_count(text);
    if n < width {
        push_repeat(&mut r, c, width - n);
    }
    r
}

/// `text` filled to `width` columns, each line indented by two spaces, with
/// trailing white space removed.
fn indented_fill(text: &str, width: usize) -> (r: String)
    ensures
        r@ == trimmed_end(textwrap_indented(textwrap_filled(text@, width), "  "@)),
{
    let filled = fill_text(text, width);
    let ind = indent_text(filled.as_str(), "  ");
    let mut r = String::new();
    push_trimmed_end(&mut r, ind.as_str());
    r
}

/// Appends `s` without trailing white space.
fn push_trimmed_end(out: &mut String, s: &str)
    ensures
        final(out)@ == old(out)@ + trimmed_end(s@),
{
    let v = chars_of(s);
    let n = v.len();
    let mut b: usize = n;
    assert(v@.subrange(0, n as int) =~= v@);
    while b > 0 && is_whitespace_char(v[b - 1])
        invariant
            b <= n,
            n == v@.len(),
            trimmed_end(v@) == trimmed_end(v@.subrange(0, b as int)),
        decreases b,
    {
        proof {
            assert(v@.subrange(0, b as int).drop_last() =~= v@.subrange(0, b - 1));
        }
        b -= 1;
    }
    proof {
        if b > 0 {
            assert(v@.subrange(0, b as int).last() == v@[b - 1]);
        }
    }
    push_chars(out, &v, 0, b);
}

/// Heading of a scenario: `keyword: name ` alone, or followed by its
/// example values on a new line after ` => `.
pub open spec fn scenario_heading(keyword: Seq<char>, name: Seq<char>, example: Option<Seq<char>>) -> Seq<char> {
    match example {
        None => keyword + ": "@ + name + seq![' '],
        Some(values) => keyword + ": "@ + name + "\n => "@ + values,
    }
}

/// The pieces of the run summary line for one kind of item:
/// `total name (f failed, s skipped, p passed)`, leaving out zero failures
/// and skips.
pub open spec fn counter_pieces_spec(name: Seq<char>, stats: Stats) -> Seq<PieceView> {
    let head = seq![PieceView::Colored(decimal(stats.total as nat) + seq![' '] + name + " ("@, Color::White, true, false)];
    let failed = if stats.failed > 0 {
        seq![PieceView::Colored(decimal(stats.failed as nat) + " failed"@, Color::Red, true, false)]
    } else {
        Seq::empty()
    };
    let skipped = if stats.skipped > 0 {
        (if stats.failed > 0 { seq![PieceView::Colored(", "@, Color::White, true, false)] } else { Seq::empty() })
            + seq![PieceView::Colored(decimal(stats.skipped as nat) + " skipped"@, Color::Cyan, true, false)]
    } else {
        Seq::empty()
    };
    let sep = if stats.failed > 0 || stats.skipped > 0 {
        seq![PieceView::Colored(", "@, Color::White, true, false)]
    } else {
        Seq::empty()
    };
    head + failed + skipped + sep + seq![
        PieceView::Colored(decimal(stats.passed as nat) + " passed"@, Color::Green, true, false),
        PieceView::Colored(")"@, Color::White, true, true),
    ]
}

/// Whether `p` is text in the color `c`.
pub open spec fn in_color(p: PieceView, c: Color) -> bool {
    p matches PieceView::Colored(_, pc, _, _) && pc == c
}

/// The summary line of a kind of item shows its failures exactly when there
/// are some (as the only red piece, `n failed`), its skips exactly when
/// there are some (as the only cyan piece, `n skipped`), always its passes
/// (`n passed`), in that order, opened by `total name (` and closed by `)`.
pub proof fn lemma_counter_shows_each_outcome(name: Seq<char>, stats: Stats)
    ensures
        ({
            let ps = counter_pieces_spec(name, stats);
            let failed = PieceView::Colored(decimal(stats.failed as nat) + " failed"@, Color::Red, true, false);
            let skipped = PieceView::Colored(decimal(stats.skipped as nat) + " skipped"@, Color::Cyan, true, false);
            let passed = PieceView::Colored(decimal(stats.passed as nat) + " passed"@, Color::Green, true, false);
            &&& ps[0] == PieceView::Colored(decimal(stats.total as nat) + seq![' '] + name + " ("@, Color::White, true, false)
            &&& ps.last() == PieceView::Colored(")"@, Color::White, true, true)
            &&& ps[ps.len() - 2] == passed
            &&& stats.failed > 0 ==> ps[1] == failed
            &&& (exists|i: int| 0 <= i < ps.len() && in_color(#[trigger] ps[i], Color::Red)) <==> stats.failed > 0
            &&& stats.skipped > 0 ==> exists|i: int| 0 <= i < ps.len() - 2 && (#[trigger] ps[i]) == skipped
                && (stats.failed > 0 ==> 1 < i)
            &&& (exists|i: int| 0 <= i < ps.len() && in_color(#[trigger] ps[i], Color::Cyan)) <==> stats.skipped > 0
        }),
{
    let ps = counter_pieces_spec(name, stats);
    let head = PieceView::Colored(decimal(stats.total as nat) + seq![' '] + name + " ("@, Color::White, true, false);
    let failed = PieceView::Colored(decimal(stats.failed as nat) + " failed"@, Color::Red, true, false);
    let skipped = PieceView::Colored(decimal(stats.skipped as nat) + " skipped"@, Color::Cyan, true, false);
    let comma = PieceView::Colored(", "@, Color::White, true, false);
    let passed = PieceView::Colored(decimal(stats.passed as nat) + " passed"@, Color::Green, true, false);
    let close = PieceView::Colored(")"@, Color::White, true, true);
    let f = if stats.failed > 0 { seq![failed] } else { Seq::<PieceView>::empty() };
    let sk = if stats.skipped > 0 {
        (if stats.failed > 0 { seq![comma] } else { Seq::<PieceView>::empty() }) + seq![skipped]
    } else {
        Seq::<PieceView>::empty()
    };
    let sep = if stats.failed > 0 || stats.skipped > 0 { seq![comma] } else { Seq::<PieceView>::empty() };
    assert(ps =~= seq![head] + f + sk + sep + seq![passed, close]);
    if stats.failed > 0 {
        assert(ps[1] == failed);
        assert(in_color(ps[1], Color::Red));
    } else {
        assert forall|i: int| 0 <= i < ps.len() implies !in_color(#[trigger] ps[i], Color::Red) by {}
    }
    if stats.skipped > 0 {
        let i = if stats.failed > 0 { 3int } else { 1int };
        assert(ps[i] == skipped);
        assert(in_color(ps[i], Color::Cyan));
    } else {
        assert forall|i: int| 0 <= i < ps.len() implies !in_color(#[trigger] ps[i], Color::Cyan) by {}
    }
}

/// A string holding `n` in decimal followed by `suffix`.
fn decimal_then(n: u32, suffix: &str) -> (r: String)
    ensures
        r@ == decimal(n as nat) + suffix@,
{
    let mut r = String::new();
    push_decimal(&mut r, n as u64);
    push_str(&mut r, suffix);
    r
}

impl BasicOutput {
    /// The banner printed when the run starts.
    pub fn start_pieces(&self) -> (ps: Vec<Piece>)
        ensures
            pieces_view(ps@) == seq![PieceView::Colored("[Cucumber v0.21.1]"@, Color::Blue, true, true)],
    {
        let mut ps = Vec::new();
        push_piece(&mut ps, Piece::Colored { text: string_of_str("[Cucumber v0.21.1]"), color: Color::Blue, bold: true, newline: true });
        assert(pieces_view(ps@) =~= seq![PieceView::Colored("[Cucumber v0.21.1]"@, Color::Blue, true, true)]);
        ps
    }

    /// Records a started feature: its heading (`keyword: name`) waits until
    /// its first scenario shows.
    pub fn feature_started(&mut self, keyword: &str, name: &str, comment: &str)
        ensures
            final(self).pending() == Some((keyword@ + ": "@ + name@, comment@)),
            !final(self).is_feature_printed(),
            final(self).is_step_started() == old(self).is_step_started(),
    {
        let mut msg = String::new();
        push_str(&mut msg, keyword);
        push_str(&mut msg, ": ");
        push_str(&mut msg, name);
        self.pending_feature_print_info = Some((msg, string_of_str(comment)));
        self.printed_feature_start = false;
    }

    /// Output before a scenario of the feature itself: the feature's heading
    /// and an empty line, if not printed yet.
    pub fn feature_scenario(&mut self) -> (ps: Vec<Piece>)
        ensures
            final(self).pending() is None,
            final(self).is_step_started() == old(self).is_step_started(),
            match old(self).pending() {
                Some((msg, comment)) => pieces_view(ps@) == seq![
                    PieceView::Commented(msg, comment, Seq::empty(), Color::White, true),
                    PieceView::Plain(Seq::empty(), true),
                ] && final(self).is_feature_printed(),
                None => ps@.len() == 0 && final(self).is_feature_printed() == old(self).is_feature_printed(),
            },
    {
        let mut ps = Vec::new();
        match self.pending_feature_print_info.take() {
            Some((msg, comment)) => {
                push_piece(&mut ps, Piece::Commented { text: msg, comment, indent: String::new(), color: Color::White, bold: true });
                push_piece(&mut ps, Piece::Plain { text: String::new(), newline: true });
                self.printed_feature_start = true;
            },
            None => {},
        }
        ps
    }

    /// Output when a feature finishes: an empty line after a printed one.
    pub fn feature_finished(&self) -> (ps: Vec<Piece>)
        ensures
            self.is_feature_printed() ==> pieces_view(ps@) == seq![PieceView::Plain(Seq::empty(), true)],
            !self.is_feature_printed() ==> ps@.len() == 0,
    {
        let mut ps = Vec::new();
        if self.printed_feature_start {
            push_piece(&mut ps, Piece::Plain { text: String::new(), newline: true });
        }
        ps
    }

    /// Output when a rule starts: `keyword: name` in bold white.
    pub fn rule_started(&self, keyword: &str, name: &str, comment: &str) -> (ps: Vec<Piece>)
        ensures
            pieces_view(ps@) == seq![PieceView::Commented(keyword@ + ": "@ + name@, comment@, " "@, Color::White, true)],
    {
        let mut msg = String::new();
        push_str(&mut msg, keyword);
        push_str(&mut msg, ": ");
        push_str(&mut msg, name);
        let mut ps = Vec::new();
        push_piece(&mut ps, Piece::Commented { text: msg, comment: string_of_str(comment), indent: string_of_str(" "), color: Color::White, bold: true });
        ps
    }

    /// Output when a scenario starts: its heading, with its example values
    /// if it comes from an outline.
    pub fn scenario_started(&self, keyword: &str, name: &str, example: &ExampleValues, comment: &str, in_rule: bool) -> (ps: Vec<Piece>)
        ensures
            pieces_view(ps@) == seq![PieceView::Commented(
                scenario_heading(keyword@, name@, if example.keys().len() == 0 { None } else {
                    Some(crate::examples::pairs_text(example.keys(), example.values(), example.keys().len()))
                }),
                comment@,
                if in_rule { "  "@ } else { " "@ },
                Color::White,
                true,
            )],
    {
        let mut text = String::new();
        push_str(&mut text, keyword);
        push_str(&mut text, ": ");
        push_str(&mut text, name);
        if example.is_empty() {
            push_char(&mut text, ' ');
        } else {
            push_str(&mut text, "\n => ");
            let values = example.as_string();
            push_str(&mut text, values.as_str());
        }
        assert(text@ =~= scenario_heading(keyword@, name@, if example.keys().len() == 0 { None } else {
            Some(crate::examples::pairs_text(example.keys(), example.values(), example.keys().len()))
        }));
        let indent = if in_rule { "  " } else { " " };
        let mut ps = Vec::new();
        push_piece(&mut ps, Piece::Commented { text, comment: string_of_str(comment), indent: string_of_str(indent), color: Color::White, bold: true });
        ps
    }

    /// The summary line for one kind of item.
    pub fn counter_pieces(&self, name: &str, stats: &Stats) -> (ps: Vec<Piece>)
        ensures
            pieces_view(ps@) == counter_pieces_spec(name@, *stats),
    {
        let mut ps = Vec::new();
        let mut head = String::new();
        push_decimal(&mut head, stats.total as u64);
        push_char(&mut head, ' ');
        push_str(&mut head, name);
        push_str(&mut head, " (");
        assert(head@ =~= decimal(stats.total as nat) + seq![' '] + name@ + " ("@);
        push_piece(&mut ps, Piece::Colored { text: head, color: Color::White, bold: true, newline: false });
        assert(pieces_view(ps@) =~= seq![PieceView::Colored(decimal(stats.total as nat) + seq![' '] + name@ + " ("@, Color::White, true, false)]);
        let ghost p0 = pieces_view(ps@);
        if stats.failed > 0 {
            push_piece(&mut ps, Piece::Colored { text: decimal_then(stats.failed, " failed"), color: Color::Red, bold: true, newline: false });
        }
        let ghost p1 = pieces_view(ps@);
        assert(p1 == p0 + if stats.failed > 0 {
            seq![PieceView::Colored(decimal(stats.failed as nat) + " failed"@, Color::Red, true, false)]
        } else {
            Seq::empty()
        });
        if stats.skipped > 0 {
            if stats.failed > 0 {
                push_piece(&mut ps, Piece::Colored { text: string_of_str(", "), color: Color::White, bold: true, newline: false });
            }
            push_piece(&mut ps, Piece::Colored { text: decimal_then(stats.skipped, " skipped"), color: Color::Cyan, bold: true, newline: false });
        }
        let ghost p2 = pieces_view(ps@);
        assert(p2 == p1 + if stats.skipped > 0 {
            (if stats.failed > 0 { seq![PieceView::Colored(", "@, Color::White, true, false)] } else { Seq::empty() })
                + seq![PieceView::Colored(decimal(stats.skipped as nat) + " skipped"@, Color::Cyan, true, false)]
        } else {
            Seq::empty()
        });
        if stats.failed > 0 || stats.skipped > 0 {
            push_piece(&mut ps, Piece::Colored { text: string_of_str(", "), color: Color::White, bold: true, newline: false });
        }
        push_piece(&mut ps, Piece::Colored { text: decimal_then(stats.passed, " passed"), color: Color::Green, bold: true, newline: false });
        push_piece(&mut ps, Piece::Colored { text: string_of_str(")"), color: Color::White, bold: true, newline: true });
        assert(pieces_view(ps@) =~= counter_pieces_spec(name@, *stats));
        ps
    }

    /// The summary printed when the run finishes: counts of features,
    /// scenarios, rules (when there are any) and steps, and the time taken
    /// in seconds and milliseconds.
    pub fn finish_pieces(&self, result: &RunResult) -> (ps: Vec<Piece>)
        ensures
            pieces_view(ps@) == seq![
                PieceView::Colored("[Summary]"@, Color::Blue, true, true),
                PieceView::Colored(decimal(result.features.total as nat) + " features"@, Color::White, true, true),
            ] + counter_pieces_spec("scenarios"@, result.scenarios)
                + (if result.rules.total > 0 { counter_pieces_spec("rules"@, result.rules) } else { Seq::empty() })
                + counter_pieces_spec("steps"@, result.steps)
                + seq![PieceView::Plain("\nFinished in "@ + decimal(result.elapsed.spec_secs() as nat) + seq!['.']
                    + decimal((result.elapsed.spec_subsec_nanos() / 1_000_000) as nat) + " seconds."@, true)],
    {
        let mut ps = Vec::new();
        push_piece(&mut ps, Piece::Colored { text: string_of_str("[Summary]"), color: Color::Blue, bold: true, newline: true });
        push_piece(&mut ps, Piece::Colored { text: decimal_then(result.features.total, " features"), color: Color::White, bold: true, newline: true });
        let ghost head = pieces_view(ps@);
        assert(head =~= seq![
            PieceView::Colored("[Summary]"@, Color::Blue, true, true),
            PieceView::Colored(decimal(result.features.total as nat) + " features"@, Color::White, true, true),
        ]);
        append_pieces(&mut ps, self.counter_pieces("scenarios", &result.scenarios));
        let ghost with_scenarios = pieces_view(ps@);
        if result.rules.total > 0 {
            append_pieces(&mut ps, self.counter_pieces("rules", &result.rules));
        }
        let ghost with_rules = pieces_view(ps@);
        assert(with_rules == with_scenarios + (if result.rules.total > 0 { counter_pieces_spec("rules"@, result.rules) } else { Seq::empty() }));
        append_pieces(&mut ps, self.counter_pieces("steps", &result.steps));
        let mut t = String::new();
        push_str(&mut t, "\nFinished in ");
        push_decimal(&mut t, result.elapsed.as_secs());
        push_char(&mut t, '.');
        push_decimal(&mut t, (result.elapsed.subsec_nanos() / 1_000_000) as u64);
        push_str(&mut t, " seconds.");
        assert(t@ =~= "\nFinished in "@ + decimal(result.elapsed.spec_secs() as nat) + seq!['.']
            + decimal((result.elapsed.spec_subsec_nanos() / 1_000_000) as nat) + " seconds."@);
        let ghost before_t = pieces_view(ps@);
        push_piece(&mut ps, Piece::Plain { text: t, newline: true });
        assert(pieces_view(ps@) =~= seq![
            PieceView::Colored("[Summary]"@, Color::Blue, true, true),
            PieceView::Colored(decimal(result.features.total as nat) + " features"@, Color::White, true, true),
        ] + counter_pieces_spec("scenarios"@, result.scenarios)
            + (if result.rules.total > 0 { counter_pieces_spec("rules"@, result.rules) } else { Seq::empty() })
            + counter_pieces_spec("steps"@, result.steps)
            + seq![PieceView::Plain("\nFinished in "@ + decimal(result.elapsed.spec_secs() as nat) + seq!['.']
                + decimal((result.elapsed.spec_subsec_nanos() / 1_000_000) as nat) + " seconds."@, true)]);
        ps
    }
}

/// Number of bytes of the UTF-8 encoding of `s` (`str::len`).
pub open spec fn utf8_len(s: Seq<char>) -> nat
    decreases s.len(),
{
    if s.len() == 0 {
        0
    } else {
        let c = s.last() as u32;
        utf8_len(s.drop_last()) + if c < 0x80 { 1nat } else if c < 0x800 { 2nat } else if c < 0x10000 { 3nat } else { 4nat }
    }
}

/// Byte length of a string, as `str::len` reports it.
fn byte_len(s: &str) -> (n: usize)
    requires
        4 * s@.len() <= usize::MAX,
    ensures
        n == utf8_len(s@),
{
    let v = chars_of(s);
    let mut n: usize = 0;
    let mut i: usize = 0;
    while i < v.len()
        invariant
            i <= v@.len(),
            n == utf8_len(v@.take(i as int)),
            n <= 4 * i,
            v@ == s@,
            4 * v@.len() <= usize::MAX,
        decreases v.len() - i,
    {
        let c = v[i] as u32;
        proof {
            assert(v@.take(i + 1).drop_last() == v@.take(i as int));
            assert(v@.take(i + 1).last() == v@[i as int]);
        }
        n = n + if c < 0x80 { 1 } else if c < 0x800 { 2 } else if c < 0x10000 { 3 } else { 4 };
        i += 1;
    }
    assert(v@.take(v@.len() as int) == v@);
    n
}

/// Width of column `n` of the first `k` rows: the longest cell, in bytes.
pub open spec fn column_width(rows: Seq<Seq<Seq<char>>>, n: int, k: int) -> nat
    decreases k,
{
    if k <= 0 {
        0
    } else {
        let w = column_width(rows, n, k - 1);
        let row = rows[k - 1];
        let cell = if 0 <= n < row.len() { utf8_len(row[n]) } else { 0 };
        if cell > w { cell } else { w }
    }
}

/// A cell as printed: one space, the text padded to `width` characters
/// (on the left when `right`, on the right otherwise), one space.
pub open spec fn cell_text(field: Seq<char>, width: nat, right: bool) -> Seq<char> {
    let pad = if field.len() < width { repeat(' ', (width - field.len()) as nat) } else { Seq::empty() };
    seq![' '] + (if right { pad + field } else { field + pad }) + seq![' ']
}

/// The pieces printing one table row, its cells framed by `|`.
pub open spec fn row_pieces(cells: Seq<Seq<char>>, right: Seq<bool>, widths: Seq<nat>) -> Seq<PieceView>
    decreases cells.len(),
{
    if cells.len() == 0 {
        seq![PieceView::Plain("      "@, false), PieceView::Colored("|"@, Color::Magenta, false, false)]
    } else {
        let n = cells.len() - 1;
        row_pieces(cells.drop_last(), right, widths) + seq![
            PieceView::Plain(cell_text(cells[n], widths[n], right[n]), false),
            PieceView::Colored("|"@, Color::Magenta, false, false),
        ]
    }
}

/// Pieces of a step's data table, one line per row, each column as wide as
/// its longest cell (counted in bytes); numbers (as `numeric` marks them)
/// are aligned to the right.
pub open spec fn table_pieces(rows: Seq<Seq<Seq<char>>>, numeric: Seq<Seq<bool>>, k: int) -> Seq<PieceView>
    decreases k,
{
    if k <= 0 {
        Seq::empty()
    } else {
        let widths = Seq::new(rows[0].len(), |n: int| column_width(rows, n, rows.len() as int));
        table_pieces(rows, numeric, k - 1) + row_pieces(rows[k - 1], numeric[k - 1], widths)
            + seq![PieceView::Plain(Seq::empty(), true)]
    }
}

/// Widths of the columns of a table.
fn column_widths(rows: &Vec<Vec<String>>) -> (w: Vec<usize>)
    requires
        rows@.len() > 0,
        forall|r: int| 0 <= r < rows@.len() ==> (#[trigger] rows@[r])@.len() <= rows@[0]@.len(),
        forall|r: int, c: int| 0 <= r < rows@.len() && 0 <= c < rows@[r]@.len() ==> 4 * (#[trigger] rows@[r]@[c])@.len() <= usize::MAX,
    ensures
        w@.len() == rows@[0]@.len(),
        forall|n: int| 0 <= n < w@.len() ==> w@[n] == column_width(rows_view_of(rows@), n, rows@.len() as int),
{
    let width = rows[0].len();
    let mut w: Vec<usize> = Vec::new();
    let mut n: usize = 0;
    while n < width
        invariant
            n <= width,
            width == rows@[0]@.len(),
            forall|q: int| 0 <= q < rows@.len() ==> (#[trigger] rows@[q])@.len() <= width,
            forall|q: int, c: int| 0 <= q < rows@.len() && 0 <= c < rows@[q]@.len() ==> 4 * (#[trigger] rows@[q]@[c])@.len() <= usize::MAX,
            w@.len() == n,
            forall|m: int| 0 <= m < n ==> w@[m] == column_width(rows_view_of(rows@), m, rows@.len() as int),
        decreases width - n,
    {
        let mut best: usize = 0;
        let mut r: usize = 0;
        while r < rows.len()
            invariant
                r <= rows@.len(),
                n < width,
                width == rows@[0]@.len(),
                forall|q: int| 0 <= q < rows@.len() ==> (#[trigger] rows@[q])@.len() <= width,
                forall|q: int, c: int| 0 <= q < rows@.len() && 0 <= c < rows@[q]@.len() ==> 4 * (#[trigger] rows@[q]@[c])@.len() <= usize::MAX,
                best == column_width(rows_view_of(rows@), n as int, r as int),
            decreases rows.len() - r,
        {
            proof {
                assert(rows_view_of(rows@)[r as int] == strings_view(rows@[r as int]@));
            }
            if n < rows[r].len() {
                assert(4 * rows@[r as int]@[n as int]@.len() <= usize::MAX);
                let b = byte_len(rows[r][n].as_str());
                proof {
                    assert(strings_view(rows@[r as int]@)[n as int] == rows@[r as int]@[n as int]@);
                }
                if b > best {
                    best = b;
                }
            }
            r += 1;
        }
        w.push(best);
        n += 1;
    }
    w
}

/// Characters of every cell of a table, row by row.
pub open spec fn rows_view_of(rows: Seq<Vec<String>>) -> Seq<Seq<Seq<char>>> {
    rows.map_values(|r: Vec<String>| strings_view(r@))
}

/// A cell as printed, as [`cell_text`] describes.
fn cell_string(field: &str, width: usize, right: bool) -> (r: String)
    ensures
        r@ == cell_text(field@, width as nat, right),
{
    let n = char_count(field);
    let pad = if n < width { width - n } else { 0 };
    let mut r = String::new();
    push_char(&mut r, ' ');
    if right {
        push_repeat(&mut r, ' ', pad);
        push_str(&mut r, field);
    } else {
        push_str(&mut r, field);
        push_repeat(&mut r, ' ', pad);
    }
    push_char(&mut r, ' ');
    proof {
        if n >= width {
            assert(repeat(' ', 0) =~= Seq::<char>::empty());
        }
    }
    assert(r@ =~= cell_text(field@, width as nat, right));
    r
}

/// Whether a table's rows fit the layout: none longer than the first,
/// `numeric` shaped like the rows, cell lengths within machine limits.
pub open spec fn table_fits(rows: Seq<Vec<String>>, numeric: Seq<Vec<bool>>) -> bool {
    &&& rows.len() > 0
    &&& numeric.len() == rows.len()
    &&& forall|r: int| 0 <= r < rows.len() ==> (#[trigger] rows[r])@.len() <= rows[0]@.len()
    &&& forall|r: int| 0 <= r < rows.len() ==> (#[trigger] numeric[r])@.len() == rows[r]@.len()
    &&& forall|r: int, c: int| 0 <= r < rows.len() && 0 <= c < rows[r]@.len() ==> 4 * (#[trigger] rows[r]@[c])@.len() <= usize::MAX
}

/// Flags of each row, as sequences.
pub open spec fn flags_view(numeric: Seq<Vec<bool>>) -> Seq<Seq<bool>> {
    numeric.map_values(|v: Vec<bool>| v@)
}

/// Pieces of a step's doc string, between `"""` lines.
pub open spec fn docstring_pieces(doc: Seq<char>) -> Seq<PieceView> {
    seq![
        PieceView::Colored("      \"\"\""@, Color::Magenta, true, true),
        PieceView::Plain(trimmed_end(textwrap_indented(doc, "      "@)), true),
        PieceView::Colored("      \"\"\""@, Color::Magenta, true, true),
    ]
}

impl BasicOutput {
    /// Output after a step's line: its data table (each cell padded to its
    /// column's width, numbers as `numeric` marks them aligned right) and
    /// its doc string.
    pub fn step_extras(&self, table: Option<&Vec<Vec<String>>>, numeric: &Vec<Vec<bool>>, docstring: Option<&String>) -> (ps: Vec<Piece>)
        requires
            table matches Some(rows) ==> table_fits(rows@, numeric@),
        ensures
            pieces_view(ps@) == match table {
                Some(rows) => table_pieces(rows_view_of(rows@), flags_view(numeric@), rows@.len() as int),
                None => Seq::empty(),
            } + match docstring {
                Some(d) => docstring_pieces(d@),
                None => Seq::empty(),
            },
    {
        let mut ps: Vec<Piece> = Vec::new();
        match table {
            Some(rows) => {
                let widths = column_widths(rows);
                let ghost rv = rows_view_of(rows@);
                let ghost fv = flags_view(numeric@);
                let ghost wv = Seq::new(rv[0].len(), |n: int| column_width(rv, n, rv.len() as int));
                assert(wv.len() == widths@.len());
                assert(rv[0] == strings_view(rows@[0]@));
                let mut r: usize = 0;
                while r < rows.len()
                    invariant
                        r <= rows@.len(),
                        table_fits(rows@, numeric@),
                        rv == rows_view_of(rows@),
                        fv == flags_view(numeric@),
                        wv == Seq::new(rv[0].len(), |n: int| column_width(rv, n, rv.len() as int)),
                        widths@.len() == rows@[0]@.len(),
                        forall|n: int| 0 <= n < widths@.len() ==> widths@[n] == column_width(rv, n, rows@.len() as int),
                        pieces_view(ps@) == table_pieces(rv, fv, r as int),
                    decreases rows.len() - r,
                {
                    let ghost before = pieces_view(ps@);
                    let row = &rows[r];
                    let flags = &numeric[r];
                    push_piece(&mut ps, Piece::Plain { text: string_of_str("      "), newline: false });
                    push_piece(&mut ps, Piece::Colored { text: string_of_str("|"), color: Color::Magenta, bold: false, newline: false });
                    let ghost cells = rv[r as int];
                    assert(cells == strings_view(row@));
                    assert(fv[r as int] == flags@);
                    assert(pieces_view(ps@) =~= before + row_pieces(cells.take(0), fv[r as int], wv));
                    let mut c: usize = 0;
                    while c < row.len()
                        invariant
                            c <= row@.len(),
                            row@.len() <= widths@.len(),
                            flags@.len() == row@.len(),
                            cells == strings_view(row@),
                            wv.len() == widths@.len(),
                            forall|n: int| 0 <= n < widths@.len() ==> widths@[n] == wv[n],
                            pieces_view(ps@) == before + row_pieces(cells.take(c as int), flags@, wv),
                        decreases row.len() - c,
                    {
                        let ghost b2 = pieces_view(ps@);
                        let cell = cell_string(row[c].as_str(), widths[c], flags[c]);
                        push_piece(&mut ps, Piece::Plain { text: cell, newline: false });
                        push_piece(&mut ps, Piece::Colored { text: string_of_str("|"), color: Color::Magenta, bold: false, newline: false });
                        proof {
                            let pre = cells.take(c as int);
                            let post = cells.take(c + 1);
                            assert(post.drop_last() =~= pre);
                            assert(post[c as int] == row@[c as int]@);
                            assert(pieces_view(ps@) =~= before + row_pieces(post, flags@, wv));
                        }
                        c += 1;
                    }
                    assert(cells.take(row@.len() as int) =~= cells);
                    push_piece(&mut ps, Piece::Plain { text: String::new(), newline: true });
                    assert(pieces_view(ps@) =~= table_pieces(rv, fv, r + 1));
                    r += 1;
                }
            },
            None => {},
        }
        let ghost mid = pieces_view(ps@);
        match docstring {
            Some(d) => {
                push_piece(&mut ps, Piece::Colored { text: string_of_str("      \"\"\""), color: Color::Magenta, bold: true, newline: true });
                let ind = indent_text(d.as_str(), "      ");
                let mut body = String::new();
                push_trimmed_end(&mut body, ind.as_str());
                push_piece(&mut ps, Piece::Plain { text: body, newline: true });
                push_piece(&mut ps, Piece::Colored { text: string_of_str("      \"\"\""), color: Color::Magenta, bold: true, newline: true });
                assert(pieces_view(ps@) =~= mid + docstring_pieces(d@));
            },
            None => {
                assert(pieces_view(ps@) =~= mid + Seq::<PieceView>::empty());
            },
        }
        ps
    }
}

} // verus!
