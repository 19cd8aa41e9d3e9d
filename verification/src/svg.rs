//! The SVG path-data grammar used by the `svg_path!` macro.
//!
//! A path is read into a flat stream of tokens: each command letter
//! (the effective one: a coordinate pair that repeats an `M`/`m` command is a
//! `L`/`l`) followed by its arguments. A number argument is the half-open
//! range of the input characters that spell it; turning that spelling into a
//! float is the caller's business.
use vstd::prelude::*;
use vstd::string::{StrSliceExecFns, StringExecFns};
use crate::text::{push_char, push_chars};

verus! {

// ---------------------------------------------------------------------------
// Character classes
// ---------------------------------------------------------------------------

/// The Unicode `White_Space` property, which is what `char::is_whitespace` tests.
pub open spec fn spec_is_whitespace(c: char) -> bool {
    ||| ('\u{9}' <= c && c <= '\u{d}')
    ||| c == ' '
    ||| c == '\u{85}'
    ||| c == '\u{a0}'
    ||| c == '\u{1680}'
    ||| ('\u{2000}' <= c && c <= '\u{200a}')
    ||| c == '\u{2028}'
    ||| c == '\u{2029}'
    ||| c == '\u{202f}'
    ||| c == '\u{205f}'
    ||| c == '\u{3000}'
}

/// Whether `c` has the Unicode `White_Space` property.
pub fn is_whitespace(c: char) -> (r: bool)
    ensures
        r == spec_is_whitespace(c),
{
    ('\u{9}' <= c && c <= '\u{d}') || c == ' ' || c == '\u{85}' || c == '\u{a0}' || c
        == '\u{1680}' || ('\u{2000}' <= c && c <= '\u{200a}') || c == '\u{2028}' || c
        == '\u{2029}' || c == '\u{202f}' || c == '\u{205f}' || c == '\u{3000}'
}

/// What `char::is_alphabetic` returns: the Unicode `Alphabetic` property.
pub uninterp spec fn char_is_alphabetic(c: char) -> bool;

/// An ASCII letter: `a` to `z` or `A` to `Z`.
pub open spec fn is_ascii_letter(c: char) -> bool {
    ('a' <= c && c <= 'z') || ('A' <= c && c <= 'Z')
}

/// Calls `char::is_alphabetic`; the result is named `char_is_alphabetic`.
/// Below U+0080 the `Alphabetic` property holds of the ASCII letters and of
/// nothing else, so there the result is stated.
#[verifier::external_body]
fn is_alphabetic(c: char) -> (r: bool)
    ensures
        r == char_is_alphabetic(c),
        c < '\u{80}' ==> r == is_ascii_letter(c),
{
    c.is_alphabetic()
}

pub open spec fn is_ascii_digit(c: char) -> bool {
    '0' <= c && c <= '9'
}

/// Separator between arguments: white space or a comma.
pub open spec fn is_separator(c: char) -> bool {
    spec_is_whitespace(c) || c == ','
}

// ---------------------------------------------------------------------------
// Tokens and errors
// ---------------------------------------------------------------------------

/// One token of a parsed path.
#[derive(Clone, Copy, Debug, PartialEq, Eq, Structural)]
pub enum PathToken {
    /// The effective command letter.
    Command(char),
    /// A number spelled by the input characters `start..end`.
    Number { start: usize, end: usize },
    /// An arc flag (`0` or `1`).
    Flag(bool),
}

/// Why a path could not be read.
#[derive(Clone, Copy, Debug, PartialEq, Eq, Structural)]
pub enum SvgPathError {
    /// Arguments appear before any command letter.
    MissingCommand,
    /// A letter that is not an SVG path command.
    UnknownCommand(char),
    /// The characters `start..end` do not spell a number.
    InvalidNumber { start: usize, end: usize },
    /// A flag argument that is neither `0` nor `1`.
    InvalidFlag(char),
    /// The input ended where a flag was expected.
    MissingFlag,
}

/// The message that reports `e` for the path `cs`.
pub open spec fn error_message(e: SvgPathError, cs: Seq<char>) -> Seq<char> {
    match e {
        SvgPathError::MissingCommand => "Path must start with a command"@,
        SvgPathError::UnknownCommand(c) => "Unknown command: "@.push(c),
        SvgPathError::InvalidNumber { start, end } => "Invalid number: "@ + cs.subrange(
            start as int,
            end as int,
        ),
        SvgPathError::InvalidFlag(c) => "Invalid flag value: "@.push(c),
        SvgPathError::MissingFlag => "Expected flag value (0 or 1)"@,
    }
}

impl SvgPathError {
    /// The message that reports this error for the path `cs`.
    pub fn message(&self, cs: &Vec<char>) -> (m: String)
        requires
            *self matches SvgPathError::InvalidNumber { start, end } ==> start <= end <= cs.len(),
        ensures
            m@ == error_message(*self, cs@),
    {
        match self {
            SvgPathError::MissingCommand => String::from_str("Path must start with a command"),
            SvgPathError::UnknownCommand(c) => {
                let mut m = String::from_str("Unknown command: ");
                push_char(&mut m, *c);
                m
            },
            SvgPathError::InvalidNumber { start, end } => {
                let mut m = String::from_str("Invalid number: ");
                push_chars(&mut m, cs, *start, *end);
                m
            },
            SvgPathError::InvalidFlag(c) => {
                let mut m = String::from_str("Invalid flag value: ");
                push_char(&mut m, *c);
                m
            },
            SvgPathError::MissingFlag => String::from_str("Expected flag value (0 or 1)"),
        }
    }
}

/// The kind of one command argument.
#[derive(Clone, Copy, Debug, PartialEq, Eq, Structural)]
pub enum ArgKind {
    Number,
    Flag,
}

/// The arguments each command takes, or `None` for a letter that is no command.
pub open spec fn command_args(c: char) -> Option<Seq<ArgKind>> {
    if c == 'M' || c == 'm' || c == 'L' || c == 'l' || c == 'T' || c == 't' {
        Some(seq![ArgKind::Number, ArgKind::Number])
    } else if c == 'H' || c == 'h' || c == 'V' || c == 'v' {
        Some(seq![ArgKind::Number])
    } else if c == 'C' || c == 'c' {
        Some(
            seq![
                ArgKind::Number,
                ArgKind::Number,
                ArgKind::Number,
                ArgKind::Number,
                ArgKind::Number,
                ArgKind::Number,
            ],
        )
    } else if c == 'S' || c == 's' || c == 'Q' || c == 'q' {
        Some(seq![ArgKind::Number, ArgKind::Number, ArgKind::Number, ArgKind::Number])
    } else if c == 'A' || c == 'a' {
        Some(
            seq![
                ArgKind::Number,
                ArgKind::Number,
                ArgKind::Number,
                ArgKind::Flag,
                ArgKind::Flag,
                ArgKind::Number,
                ArgKind::Number,
            ],
        )
    } else if c == 'Z' || c == 'z' {
        Some(Seq::empty())
    } else {
        None
    }
}

/// The arguments of command `c`, as `command_args` states.
pub fn command_arg_kinds(c: char) -> (r: Option<Vec<ArgKind>>)
    ensures
        match command_args(c) {
            Some(k) => r is Some && r->0@ == k,
            None => r is None,
        },
{
    let n = ArgKind::Number;
    let f = ArgKind::Flag;
    let r = if c == 'M' || c == 'm' || c == 'L' || c == 'l' || c == 'T' || c == 't' {
        Some(vec![n, n])
    } else if c == 'H' || c == 'h' || c == 'V' || c == 'v' {
        Some(vec![n])
    } else if c == 'C' || c == 'c' {
        Some(vec![n, n, n, n, n, n])
    } else if c == 'S' || c == 's' || c == 'Q' || c == 'q' {
        Some(vec![n, n, n, n])
    } else if c == 'A' || c == 'a' {
        Some(vec![n, n, n, f, f, n, n])
    } else if c == 'Z' || c == 'z' {
        Some(Vec::new())
    } else {
        None
    };
    proof {
        if r is Some {
            assert(r->0@ =~= command_args(c)->0);
        }
    }
    r
}

/// A coordinate that follows a move command continues as a line command.
pub open spec fn implicit_command(last: char) -> char {
    if last == 'M' {
        'L'
    } else if last == 'm' {
        'l'
    } else {
        last
    }
}

// ---------------------------------------------------------------------------
// Lexing (spec)
// ---------------------------------------------------------------------------

/// First position at or after `i` that is not a separator.
pub open spec fn sep_end(cs: Seq<char>, i: int) -> int
    decreases cs.len() - i,
{
    if 0 <= i < cs.len() && is_separator(cs[i]) {
        sep_end(cs, i + 1)
    } else {
        i
    }
}

/// End of the run of digits and (at most one, once `seen_dot` is false) `.` from `i`.
pub open spec fn digits_end(cs: Seq<char>, i: int, seen_dot: bool) -> int
    decreases cs.len() - i,
{
    if 0 <= i < cs.len() && (is_ascii_digit(cs[i]) || (cs[i] == '.' && !seen_dot)) {
        digits_end(cs, i + 1, seen_dot || cs[i] == '.')
    } else {
        i
    }
}

/// Position after an optional leading `-` at `s`.
pub open spec fn after_sign(cs: Seq<char>, s: int) -> int {
    if 0 <= s < cs.len() && cs[s] == '-' {
        s + 1
    } else {
        s
    }
}

/// Whether `cs[a..b]` holds an ASCII digit.
pub open spec fn any_digit(cs: Seq<char>, a: int, b: int) -> bool
    decreases b - a,
{
    if a < b {
        any_digit(cs, a, b - 1) || is_ascii_digit(cs[b - 1])
    } else {
        false
    }
}

/// Reads a number at `i` (after separators): an optional `-`, then digits with
/// at most one `.`. The spelling is a number exactly when it holds a digit.
pub open spec fn number_at(cs: Seq<char>, i: int) -> Result<(PathToken, int), SvgPathError> {
    let s = sep_end(cs, i);
    let e = digits_end(cs, after_sign(cs, s), false);
    if any_digit(cs, s, e) {
        Ok((PathToken::Number { start: s as usize, end: e as usize }, e))
    } else {
        Err(SvgPathError::InvalidNumber { start: s as usize, end: e as usize })
    }
}

/// Reads an arc flag at `i` (after separators).
pub open spec fn flag_at(cs: Seq<char>, i: int) -> Result<(PathToken, int), SvgPathError> {
    let s = sep_end(cs, i);
    if !(0 <= s < cs.len()) {
        Err(SvgPathError::MissingFlag)
    } else if cs[s] == '0' {
        Ok((PathToken::Flag(false), s + 1))
    } else if cs[s] == '1' {
        Ok((PathToken::Flag(true), s + 1))
    } else {
        Err(SvgPathError::InvalidFlag(cs[s]))
    }
}

pub open spec fn arg_at(cs: Seq<char>, kind: ArgKind, i: int) -> Result<(PathToken, int), SvgPathError> {
    match kind {
        ArgKind::Number => number_at(cs, i),
        ArgKind::Flag => flag_at(cs, i),
    }
}

/// Reads the arguments `kinds` in order from `i`.
pub open spec fn args_at(cs: Seq<char>, kinds: Seq<ArgKind>, i: int) -> Result<
    (Seq<PathToken>, int),
    SvgPathError,
>
    decreases kinds.len(),
{
    if kinds.len() == 0 {
        Ok((Seq::empty(), i))
    } else {
        match arg_at(cs, kinds[0], i) {
            Err(e) => Err(e),
            Ok((t, j)) => match args_at(cs, kinds.drop_first(), j) {
                Err(e) => Err(e),
                Ok((ts, k)) => Ok((seq![t] + ts, k)),
            },
        }
    }
}

// ---------------------------------------------------------------------------
// The grammar (spec)
// ---------------------------------------------------------------------------

/// What reading a path from some position comes to.
pub enum ParseOutcome {
    /// The remaining input reads as these tokens.
    Done(Seq<PathToken>),
    /// Reading stops with this error.
    Failed(SvgPathError),
    /// A close command is repeated without consuming input, forever.
    Stalls,
}

pub open spec fn prepend(ts: Seq<PathToken>, o: ParseOutcome) -> ParseOutcome {
    match o {
        ParseOutcome::Done(rest) => ParseOutcome::Done(ts + rest),
        other => other,
    }
}

/// Reads the path `cs` (with `alpha[i]` telling whether `cs[i]` is alphabetic)
/// from position `i`, with `last` the last command letter written out.
pub open spec fn parse_from(cs: Seq<char>, alpha: Seq<bool>, i: int, last: Option<char>) -> ParseOutcome
    decreases cs.len() - i,
{
    if i < 0 || i >= cs.len() {
        ParseOutcome::Done(Seq::empty())
    } else if spec_is_whitespace(cs[i]) {
        parse_from(cs, alpha, i + 1, last)
    } else if !alpha[i] && last is None {
        ParseOutcome::Failed(SvgPathError::MissingCommand)
    } else {
        let cmd = if alpha[i] {
            cs[i]
        } else {
            implicit_command(last->0)
        };
        let pos = if alpha[i] {
            i + 1
        } else {
            i
        };
        let next_last = if alpha[i] {
            Some(cs[i])
        } else {
            last
        };
        match command_args(cmd) {
            None => ParseOutcome::Failed(SvgPathError::UnknownCommand(cmd)),
            Some(kinds) => match args_at(cs, kinds, pos) {
                Err(e) => ParseOutcome::Failed(e),
                Ok((ts, j)) => if i < j && j <= cs.len() {
                    prepend(seq![PathToken::Command(cmd)] + ts, parse_from(cs, alpha, j, next_last))
                } else {
                    ParseOutcome::Stalls
                },
            },
        }
    }
}

/// Coordinates written after a command without a letter of their own repeat
/// that command: after `M` they draw an absolute line `L`, after `m` a
/// relative line `l`, and after any other command `c` (`l` among them) they
/// are `c` again. So the token read for them is `Command` of that letter,
/// whether the reading then goes on or fails further along.
pub proof fn lemma_repeated_coordinates_command(cs: Seq<char>, alpha: Seq<bool>, i: int, c: char)
    requires
        0 <= i < cs.len(),
        !spec_is_whitespace(cs[i]),
        !alpha[i],
    ensures
        parse_from(cs, alpha, i, Some(c)) matches ParseOutcome::Done(ts) ==> ts.len() > 0 && ts[0]
            == PathToken::Command(
            if c == 'M' {
                'L'
            } else if c == 'm' {
                'l'
            } else {
                c
            },
        ),
        c != 'M' && c != 'm' ==> (parse_from(cs, alpha, i, Some(c)) matches ParseOutcome::Done(ts) ==> ts[0]
            == PathToken::Command(c)),
        (parse_from(cs, alpha, i, Some(c)) matches ParseOutcome::Done(ts) ==> (ts[0] matches PathToken::Command(d) && (
            ('a' <= d && d <= 'z') <==> ('a' <= c && c <= 'z')))),
{
    let e = if c == 'M' {
        'L'
    } else if c == 'm' {
        'l'
    } else {
        c
    };
    assert(implicit_command(c) == e);
    match command_args(e) {
        None => {},
        Some(kinds) => match args_at(cs, kinds, i) {
            Err(_) => {},
            Ok((ts, j)) => {
                if i < j && j <= cs.len() {
                    match parse_from(cs, alpha, j, Some(c)) {
                        ParseOutcome::Done(rest) => {
                            assert((seq![PathToken::Command(e)] + ts + rest)[0] == PathToken::Command(e));
                        },
                        _ => {},
                    }
                }
            },
        },
    }
}

/// How many arguments the SVG path command `d` takes: two coordinates for a
/// move, a line or a smooth quadratic; one for a horizontal or vertical
/// line; six for a cubic; four for a smooth cubic or a quadratic; seven for
/// an arc; none for a close. `None` for a letter that is no command.
pub open spec fn path_arity(d: char) -> Option<int> {
    if d == 'M' || d == 'm' || d == 'L' || d == 'l' || d == 'T' || d == 't' {
        Some(2)
    } else if d == 'H' || d == 'h' || d == 'V' || d == 'v' {
        Some(1)
    } else if d == 'C' || d == 'c' {
        Some(6)
    } else if d == 'S' || d == 's' || d == 'Q' || d == 'q' {
        Some(4)
    } else if d == 'A' || d == 'a' {
        Some(7)
    } else if d == 'Z' || d == 'z' {
        Some(0)
    } else {
        None
    }
}

proof fn lemma_args_shape(cs: Seq<char>, kinds: Seq<ArgKind>, i: int)
    ensures
        args_at(cs, kinds, i) matches Ok((ts, j)) ==> ts.len() == kinds.len() && forall|k: int|
            0 <= k < ts.len() ==> ((#[trigger] ts[k]) is Flag <==> kinds[k] == ArgKind::Flag) && (ts[k] is Flag
                || ts[k] is Number),
    decreases kinds.len(),
{
    if kinds.len() > 0 {
        match arg_at(cs, kinds[0], i) {
            Err(_) => {},
            Ok((t, j)) => {
                lemma_args_shape(cs, kinds.drop_first(), j);
                match args_at(cs, kinds.drop_first(), j) {
                    Err(_) => {},
                    Ok((ts, k)) => {
                        let all = seq![t] + ts;
                        assert forall|m: int| 0 <= m < all.len() implies ((#[trigger] all[m]) is Flag
                            <==> kinds[m] == ArgKind::Flag) && (all[m] is Flag || all[m] is Number) by {
                            if m == 0 {
                                assert(all[0] == t);
                            } else {
                                assert(all[m] == ts[m - 1]);
                                assert(kinds.drop_first()[m - 1] == kinds[m]);
                            }
                        }
                    },
                }
            },
        }
    }
}

/// Reading from a command's start: the command read is the letter written
/// there, or, for coordinates without a letter, the repeat of the last
/// letter (`M` and `m` repeat as `L` and `l`). A letter that is no command
/// fails as unknown. Otherwise the command's token is followed by exactly
/// its arguments, in order: all numbers, but for the two arc flags (the
/// fourth and fifth arguments of `A` and `a`).
pub proof fn lemma_command_group(cs: Seq<char>, alpha: Seq<bool>, i: int, last: Option<char>)
    requires
        0 <= i < cs.len(),
        !spec_is_whitespace(cs[i]),
        alpha[i] || last is Some,
    ensures
        ({
            let d = if alpha[i] {
                cs[i]
            } else if last->0 == 'M' {
                'L'
            } else if last->0 == 'm' {
                'l'
            } else {
                last->0
            };
            &&& path_arity(d) is None ==> parse_from(cs, alpha, i, last) == ParseOutcome::Failed(
                SvgPathError::UnknownCommand(d),
            )
            &&& parse_from(cs, alpha, i, last) matches ParseOutcome::Done(ts) ==> {
                &&& path_arity(d) is Some
                &&& ts.len() > path_arity(d)->0
                &&& ts[0] == PathToken::Command(d)
                &&& forall|k: int|
                    1 <= k <= path_arity(d)->0 ==> ((#[trigger] ts[k]) is Flag <==> ((d == 'A' || d == 'a') && (k
                        == 4 || k == 5))) && (ts[k] is Flag || ts[k] is Number)
            }
        }),
{
    let d = if alpha[i] {
        cs[i]
    } else {
        implicit_command(last->0)
    };
    let pos = if alpha[i] {
        i + 1
    } else {
        i
    };
    match command_args(d) {
        None => {},
        Some(kinds) => {
            lemma_args_shape(cs, kinds, pos);
            match args_at(cs, kinds, pos) {
                Err(_) => {},
                Ok((ts, j)) => {
                    if i < j && j <= cs.len() {
                        let next_last = if alpha[i] {
                            Some(cs[i])
                        } else {
                            last
                        };
                        match parse_from(cs, alpha, j, next_last) {
                            ParseOutcome::Done(rest) => {
                                let all = seq![PathToken::Command(d)] + ts + rest;
                                assert(all[0] == PathToken::Command(d));
                                assert forall|k: int| 1 <= k <= kinds.len() implies all[k] == ts[k - 1] by {}
                                if d == 'A' || d == 'a' {
                                    assert(kinds[3] == ArgKind::Flag);
                                    assert(kinds[4] == ArgKind::Flag);
                                }
                            },
                            _ => {},
                        }
                    }
                },
            }
        },
    }
}

/// Which characters of `cs` are alphabetic.
pub open spec fn alpha_of(cs: Seq<char>) -> Seq<bool> {
    Seq::new(cs.len(), |k: int| char_is_alphabetic(cs[k]))
}

/// Of the ASCII characters of `cs`, exactly the letters count as alphabetic.
pub open spec fn ascii_letters_alphabetic(cs: Seq<char>) -> bool {
    forall|k: int| 0 <= k < cs.len() && cs[k] < '\u{80}' ==> (#[trigger] alpha_of(cs)[k]) == is_ascii_letter(cs[k])
}

/// The whole path read from the start.
pub open spec fn parse_path_spec(cs: Seq<char>, alpha: Seq<bool>) -> ParseOutcome {
    parse_from(cs, alpha, 0, None)
}

// ---------------------------------------------------------------------------
// Lemmas
// ---------------------------------------------------------------------------

proof fn lemma_sep_end_bounds(cs: Seq<char>, i: int)
    requires
        0 <= i <= cs.len(),
    ensures
        i <= sep_end(cs, i) <= cs.len(),
    decreases cs.len() - i,
{
    if 0 <= i < cs.len() && is_separator(cs[i]) {
        lemma_sep_end_bounds(cs, i + 1);
    }
}

proof fn lemma_digits_end_bounds(cs: Seq<char>, i: int, seen_dot: bool)
    requires
        0 <= i <= cs.len(),
    ensures
        i <= digits_end(cs, i, seen_dot) <= cs.len(),
    decreases cs.len() - i,
{
    if 0 <= i < cs.len() && (is_ascii_digit(cs[i]) || (cs[i] == '.' && !seen_dot)) {
        lemma_digits_end_bounds(cs, i + 1, seen_dot || cs[i] == '.');
    }
}

proof fn lemma_arg_bounds(cs: Seq<char>, kind: ArgKind, i: int)
    requires
        0 <= i <= cs.len(),
    ensures
        arg_at(cs, kind, i) matches Ok((t, j)) ==> i < j <= cs.len(),
{
    lemma_sep_end_bounds(cs, i);
    let s = sep_end(cs, i);
    lemma_digits_end_bounds(cs, after_sign(cs, s), false);
    if kind == ArgKind::Number && any_digit(cs, s, digits_end(cs, after_sign(cs, s), false)) {
        lemma_any_digit_nonempty(cs, s, digits_end(cs, after_sign(cs, s), false));
    }
}

proof fn lemma_any_digit_nonempty(cs: Seq<char>, a: int, b: int)
    requires
        any_digit(cs, a, b),
    ensures
        a < b,
    decreases b - a,
{
}

proof fn lemma_args_bounds(cs: Seq<char>, kinds: Seq<ArgKind>, i: int)
    requires
        0 <= i <= cs.len(),
    ensures
        args_at(cs, kinds, i) matches Ok((ts, j)) ==> i <= j <= cs.len() && (kinds.len() > 0
            ==> i < j),
    decreases kinds.len(),
{
    if kinds.len() > 0 {
        lemma_arg_bounds(cs, kinds[0], i);
        if let Ok((t, j)) = arg_at(cs, kinds[0], i) {
            lemma_args_bounds(cs, kinds.drop_first(), j);
        }
    }
}

/// Every number token spells a nonempty part of an input of length `n`.
pub open spec fn numbers_in_bounds(ts: Seq<PathToken>, n: int) -> bool {
    forall|k: int|
        0 <= k < ts.len() ==> match #[trigger] ts[k] {
            PathToken::Number { start, end } => start < end <= n,
            _ => true,
        }
}

/// An error that names a part of an input of length `n` names a part inside it.
pub open spec fn error_in_bounds(e: SvgPathError, n: int) -> bool {
    match e {
        SvgPathError::InvalidNumber { start, end } => start <= end <= n,
        _ => true,
    }
}

proof fn lemma_arg_tokens_in_bounds(cs: Seq<char>, kind: ArgKind, i: int)
    requires
        0 <= i <= cs.len(),
        cs.len() <= usize::MAX,
    ensures
        match arg_at(cs, kind, i) {
            Ok((t, j)) => numbers_in_bounds(seq![t], cs.len() as int),
            Err(e) => error_in_bounds(e, cs.len() as int),
        },
{
    lemma_sep_end_bounds(cs, i);
    let s = sep_end(cs, i);
    let a = after_sign(cs, s);
    lemma_digits_end_bounds(cs, a, false);
    let e = digits_end(cs, a, false);
    if kind == ArgKind::Number && any_digit(cs, s, e) {
        lemma_any_digit_nonempty(cs, s, e);
    }
    if let Ok((t, j)) = arg_at(cs, kind, i) {
        assert(seq![t][0] == t);
    }
}

proof fn lemma_args_tokens_in_bounds(cs: Seq<char>, kinds: Seq<ArgKind>, i: int)
    requires
        0 <= i <= cs.len(),
        cs.len() <= usize::MAX,
    ensures
        match args_at(cs, kinds, i) {
            Ok((ts, j)) => numbers_in_bounds(ts, cs.len() as int),
            Err(e) => error_in_bounds(e, cs.len() as int),
        },
    decreases kinds.len(),
{
    if kinds.len() > 0 {
        lemma_arg_tokens_in_bounds(cs, kinds[0], i);
        lemma_arg_bounds(cs, kinds[0], i);
        if let Ok((t, j)) = arg_at(cs, kinds[0], i) {
            lemma_args_tokens_in_bounds(cs, kinds.drop_first(), j);
            if let Ok((ts, k)) = args_at(cs, kinds.drop_first(), j) {
                let all = seq![t] + ts;
                assert forall|m: int| 0 <= m < all.len() implies match #[trigger] all[m] {
                    PathToken::Number { start, end } => start < end <= cs.len(),
                    _ => true,
                } by {
                    if m == 0 {
                        assert(all[0] == seq![t][0]);
                    } else {
                        assert(all[m] == ts[m - 1]);
                    }
                }
            }
        }
    }
}

proof fn lemma_parse_from_in_bounds(cs: Seq<char>, alpha: Seq<bool>, i: int, last: Option<char>)
    requires
        alpha.len() == cs.len(),
        cs.len() <= usize::MAX,
        0 <= i,
    ensures
        match parse_from(cs, alpha, i, last) {
            ParseOutcome::Done(ts) => numbers_in_bounds(ts, cs.len() as int),
            ParseOutcome::Failed(e) => error_in_bounds(e, cs.len() as int),
            ParseOutcome::Stalls => true,
        },
    decreases cs.len() - i,
{
    if i < cs.len() {
        if spec_is_whitespace(cs[i]) {
            lemma_parse_from_in_bounds(cs, alpha, i + 1, last);
        } else if alpha[i] || last is Some {
            let cmd = if alpha[i] {
                cs[i]
            } else {
                implicit_command(last->0)
            };
            let pos = if alpha[i] {
                i + 1
            } else {
                i
            };
            let next_last = if alpha[i] {
                Some(cs[i])
            } else {
                last
            };
            if let Some(kinds) = command_args(cmd) {
                lemma_args_tokens_in_bounds(cs, kinds, pos);
                if let Ok((ts, j)) = args_at(cs, kinds, pos) {
                    if i < j && j <= cs.len() {
                        lemma_parse_from_in_bounds(cs, alpha, j, next_last);
                        if let ParseOutcome::Done(rest) = parse_from(cs, alpha, j, next_last) {
                            let all = seq![PathToken::Command(cmd)] + ts + rest;
                            assert forall|m: int| 0 <= m < all.len() implies match #[trigger] all[m] {
                                PathToken::Number { start, end } => start < end <= cs.len(),
                                _ => true,
                            } by {
                                if m == 0 {
                                } else if m < 1 + ts.len() {
                                    assert(all[m] == ts[m - 1]);
                                } else {
                                    assert(all[m] == rest[m - 1 - ts.len()]);
                                }
                            }
                        }
                    }
                }
            }
        }
    }
}

/// Every number a path reads as spells a nonempty part of the path, and an
/// invalid number names a part of the path.
pub proof fn lemma_parse_path_in_bounds(cs: Seq<char>, alpha: Seq<bool>)
    requires
        alpha.len() == cs.len(),
        cs.len() <= usize::MAX,
    ensures
        parse_path_spec(cs, alpha) matches ParseOutcome::Done(ts) ==> numbers_in_bounds(
            ts,
            cs.len() as int,
        ),
        parse_path_spec(cs, alpha) matches ParseOutcome::Failed(e) ==> error_in_bounds(
            e,
            cs.len() as int,
        ),
{
    lemma_parse_from_in_bounds(cs, alpha, 0, None);
}

/// The tokens `ts` are arguments of the kinds `kinds`, in order.
pub open spec fn args_match(ts: Seq<PathToken>, kinds: Seq<ArgKind>) -> bool {
    &&& ts.len() == kinds.len()
    &&& forall|k: int|
        0 <= k < ts.len() ==> match #[trigger] kinds[k] {
            ArgKind::Number => ts[k] is Number,
            ArgKind::Flag => ts[k] is Flag,
        }
}

/// The tokens are groups of a command letter followed by exactly the
/// arguments that command takes.
pub open spec fn well_grouped(ts: Seq<PathToken>) -> bool
    decreases ts.len(),
{
    if ts.len() == 0 {
        true
    } else {
        match ts[0] {
            PathToken::Command(c) => match command_args(c) {
                Some(kinds) => {
                    &&& 1 + kinds.len() <= ts.len()
                    &&& args_match(ts.subrange(1, 1 + kinds.len() as int), kinds)
                    &&& well_grouped(ts.skip(1 + kinds.len() as int))
                },
                None => false,
            },
            _ => false,
        }
    }
}

proof fn lemma_args_match(cs: Seq<char>, kinds: Seq<ArgKind>, i: int)
    ensures
        args_at(cs, kinds, i) matches Ok((ts, j)) ==> args_match(ts, kinds),
    decreases kinds.len(),
{
    if kinds.len() > 0 {
        lemma_args_match(cs, kinds.drop_first(), match arg_at(cs, kinds[0], i) {
            Ok((t, j)) => j,
            Err(_) => i,
        });
        if let Ok((t, j)) = arg_at(cs, kinds[0], i) {
            if let Ok((rest, k)) = args_at(cs, kinds.drop_first(), j) {
                let ts = seq![t] + rest;
                assert forall|m: int| 0 <= m < ts.len() implies match #[trigger] kinds[m] {
                    ArgKind::Number => ts[m] is Number,
                    ArgKind::Flag => ts[m] is Flag,
                } by {
                    if m > 0 {
                        assert(ts[m] == rest[m - 1]);
                        assert(kinds[m] == kinds.drop_first()[m - 1]);
                    }
                }
            }
        }
    }
}

proof fn lemma_parse_from_grouped(cs: Seq<char>, alpha: Seq<bool>, i: int, last: Option<char>)
    ensures
        parse_from(cs, alpha, i, last) matches ParseOutcome::Done(ts) ==> well_grouped(ts),
    decreases cs.len() - i,
{
    if i < 0 || i >= cs.len() {
    } else if spec_is_whitespace(cs[i]) {
        lemma_parse_from_grouped(cs, alpha, i + 1, last);
    } else if !alpha[i] && last is None {
    } else {
        let cmd = if alpha[i] {
            cs[i]
        } else {
            implicit_command(last->0)
        };
        let pos = if alpha[i] {
            i + 1
        } else {
            i
        };
        let next_last = if alpha[i] {
            Some(cs[i])
        } else {
            last
        };
        if let Some(kinds) = command_args(cmd) {
            if let Ok((ts, j)) = args_at(cs, kinds, pos) {
                if i < j && j <= cs.len() {
                    lemma_parse_from_grouped(cs, alpha, j, next_last);
                    lemma_args_match(cs, kinds, pos);
                    if let ParseOutcome::Done(rest) = parse_from(cs, alpha, j, next_last) {
                        let all = seq![PathToken::Command(cmd)] + ts + rest;
                        assert(all[0] == PathToken::Command(cmd));
                        assert(all.subrange(1, 1 + kinds.len() as int) =~= ts);
                        assert(all.skip(1 + kinds.len() as int) =~= rest);
                    }
                }
            }
        }
    }
}

/// A path that reads successfully reads as groups: each command letter
/// followed by exactly the arguments it takes, numbers and flags in their
/// places.
pub proof fn lemma_parse_path_grouped(cs: Seq<char>, alpha: Seq<bool>)
    ensures
        parse_path_spec(cs, alpha) matches ParseOutcome::Done(ts) ==> well_grouped(ts),
{
    lemma_parse_from_grouped(cs, alpha, 0, None);
}

// ---------------------------------------------------------------------------
// Lexing (exec)
// ---------------------------------------------------------------------------

/// Skips separators (white space and commas) from `i`.
pub fn skip_separators(cs: &Vec<char>, i: usize) -> (r: usize)
    requires
        i <= cs.len(),
    ensures
        r as int == sep_end(cs@, i as int),
{
    let mut j = i;
    while j < cs.len() && (is_whitespace(cs[j]) || cs[j] == ',')
        invariant
            i <= j <= cs.len(),
            sep_end(cs@, j as int) == sep_end(cs@, i as int),
        decreases cs.len() - j,
    {
        j += 1;
    }
    j
}

/// Reads a number at `i`, after separators (see `number_at`).
pub fn parse_number(cs: &Vec<char>, i: usize) -> (r: Result<(PathToken, usize), SvgPathError>)
    requires
        i <= cs.len(),
    ensures
        match number_at(cs@, i as int) {
            Ok((t, j)) => r == Ok::<(PathToken, usize), SvgPathError>((t, j as usize)),
            Err(e) => r == Err::<(PathToken, usize), SvgPathError>(e),
        },
{
    let s = skip_separators(cs, i);
    proof {
        lemma_sep_end_bounds(cs@, i as int);
    }
    let mut k = s;
    if k < cs.len() && cs[k] == '-' {
        k += 1;
    }
    let ghost start = k as int;
    proof {
        assert(!any_digit(cs@, s as int, s as int));
        if k == s + 1 {
            assert(any_digit(cs@, s as int, s as int + 1) == (any_digit(cs@, s as int, s as int)
                || is_ascii_digit(cs@[s as int])));
        }
    }
    let mut seen_dot = false;
    let mut saw_digit = false;
    while k < cs.len() && (('0' <= cs[k] && cs[k] <= '9') || (cs[k] == '.' && !seen_dot))
        invariant
            s <= start <= k <= cs.len(),
            start == after_sign(cs@, s as int),
            digits_end(cs@, k as int, seen_dot) == digits_end(cs@, start, false),
            saw_digit == any_digit(cs@, s as int, k as int),
        decreases cs.len() - k,
    {
        if cs[k] == '.' {
            seen_dot = true;
        } else {
            saw_digit = true;
        }
        k += 1;
    }
    if saw_digit {
        Ok((PathToken::Number { start: s, end: k }, k))
    } else {
        Err(SvgPathError::InvalidNumber { start: s, end: k })
    }
}

/// Reads an arc flag at `i`, after separators (see `flag_at`).
pub fn parse_flag(cs: &Vec<char>, i: usize) -> (r: Result<(PathToken, usize), SvgPathError>)
    requires
        i <= cs.len(),
    ensures
        match flag_at(cs@, i as int) {
            Ok((t, j)) => r == Ok::<(PathToken, usize), SvgPathError>((t, j as usize)),
            Err(e) => r == Err::<(PathToken, usize), SvgPathError>(e),
        },
{
    let s = skip_separators(cs, i);
    proof {
        lemma_sep_end_bounds(cs@, i as int);
    }
    if s >= cs.len() {
        Err(SvgPathError::MissingFlag)
    } else if cs[s] == '0' {
        Ok((PathToken::Flag(false), s + 1))
    } else if cs[s] == '1' {
        Ok((PathToken::Flag(true), s + 1))
    } else {
        Err(SvgPathError::InvalidFlag(cs[s]))
    }
}

/// Reads two numbers at `i` (a coordinate pair).
pub fn parse_coordinates(cs: &Vec<char>, i: usize) -> (r: Result<
    (PathToken, PathToken, usize),
    SvgPathError,
>)
    requires
        i <= cs.len(),
    ensures
        match args_at(cs@, seq![ArgKind::Number, ArgKind::Number], i as int) {
            Ok((ts, j)) => r matches Ok((x, y, k)) && ts == seq![x, y] && k == j,
            Err(e) => r == Err::<(PathToken, PathToken, usize), SvgPathError>(e),
        },
{
    let ghost kinds = seq![ArgKind::Number, ArgKind::Number];
    proof {
        reveal_with_fuel(args_at, 3);
        assert(kinds.drop_first() =~= seq![ArgKind::Number]);
        assert(kinds.drop_first().drop_first() =~= Seq::<ArgKind>::empty());
        lemma_arg_bounds(cs@, ArgKind::Number, i as int);
    }
    match parse_number(cs, i) {
        Err(e) => Err(e),
        Ok((x, j)) => {
            proof {
                lemma_arg_bounds(cs@, ArgKind::Number, j as int);
            }
            match parse_number(cs, j) {
                Err(e) => Err(e),
                Ok((y, k)) => {
                    assert(seq![x] + (seq![y] + Seq::<PathToken>::empty()) =~= seq![x, y]);
                    Ok((x, y, k))
                },
            }
        },
    }
}

/// Reads the arguments `kinds` from `i`, appending their tokens to `out`.
fn parse_args(cs: &Vec<char>, kinds: &Vec<ArgKind>, i: usize, out: &mut Vec<PathToken>) -> (r:
    Result<usize, SvgPathError>)
    requires
        i <= cs.len(),
    ensures
        match args_at(cs@, kinds@, i as int) {
            Ok((ts, j)) => r == Ok::<usize, SvgPathError>(j as usize) && final(out)@ == old(
                out,
            )@ + ts,
            Err(e) => r == Err::<usize, SvgPathError>(e),
        },
{
    let ghost out0 = out@;
    let mut j = i;
    let mut idx: usize = 0;
    proof {
        lemma_args_bounds(cs@, kinds@, i as int);
        assert(kinds@.skip(0) =~= kinds@);
        assert(out@ =~= out0 + Seq::<PathToken>::empty());
    }
    while idx < kinds.len()
        invariant
            idx <= kinds.len(),
            i <= j <= cs.len(),
            ({
                let ghost done = out@.subrange(out0.len() as int, out@.len() as int);
                &&& out@ =~= out0 + done
                &&& args_at(cs@, kinds@, i as int) == match args_at(
                    cs@,
                    kinds@.skip(idx as int),
                    j as int,
                ) {
                    Err(e) => Err(e),
                    Ok((ts, k)) => Ok((done + ts, k)),
                }
            }),
        decreases kinds.len() - idx,
    {
        let ghost done = out@.subrange(out0.len() as int, out@.len() as int);
        let ghost rest = kinds@.skip(idx as int);
        proof {
            assert(rest[0] == kinds@[idx as int]);
            assert(rest.drop_first() =~= kinds@.skip(idx as int + 1));
            lemma_arg_bounds(cs@, kinds@[idx as int], j as int);
        }
        let step = match kinds[idx] {
            ArgKind::Number => parse_number(cs, j),
            ArgKind::Flag => parse_flag(cs, j),
        };
        match step {
            Err(e) => {
                return Err(e);
            },
            Ok((t, k)) => {
                out.push(t);
                proof {
                    let ghost done2 = out@.subrange(out0.len() as int, out@.len() as int);
                    assert(done2 =~= done.push(t));
                    match args_at(cs@, kinds@.skip(idx as int + 1), k as int) {
                        Err(e) => {},
                        Ok((ts, m)) => {
                            assert(done + (seq![t] + ts) =~= done2 + ts);
                        },
                    }
                }
                j = k;
                idx += 1;
            },
        }
    }
    proof {
        let ghost done = out@.subrange(out0.len() as int, out@.len() as int);
        assert(kinds@.skip(idx as int).len() == 0);
        assert(done + Seq::<PathToken>::empty() =~= done);
    }
    Ok(j)
}

/// Copies the characters of `s` into a vector.
pub fn chars_of(s: &str) -> (v: Vec<char>)
    ensures
        v@ == s@,
{
    let n = s.unicode_len();
    let mut v: Vec<char> = Vec::new();
    let mut i: usize = 0;
    while i < n
        invariant
            n == s@.len(),
            i <= n,
            v@ == s@.take(i as int),
        decreases n - i,
    {
        let c = s.get_char(i);
        assert(s@.take(i + 1) =~= s@.take(i as int).push(c));
        v.push(c);
        i += 1;
    }
    assert(s@.take(n as int) =~= s@);
    v
}

/// Reads the path `cs`, where `alpha[i]` tells whether `cs[i]` is alphabetic;
/// `None` where the reading would repeat a close command forever (a
/// coordinate right after `Z`).
pub fn read_path(cs: &Vec<char>, alpha: &Vec<bool>) -> (r: Option<Result<Vec<PathToken>, SvgPathError>>)
    requires
        alpha.len() == cs.len(),
    ensures
        match parse_path_spec(cs@, alpha@) {
            ParseOutcome::Done(ts) => r matches Some(Ok(v)) && v@ == ts,
            ParseOutcome::Failed(e) => r == Some(Err::<Vec<PathToken>, SvgPathError>(e)),
            ParseOutcome::Stalls => r is None,
        },
        r matches Some(Ok(v)) ==> numbers_in_bounds(v@, cs.len() as int) && well_grouped(v@),
        r matches Some(Err(e)) ==> error_in_bounds(e, cs.len() as int),
{
    proof {
        lemma_parse_path_in_bounds(cs@, alpha@);
        lemma_parse_path_grouped(cs@, alpha@);
    }
    let mut out: Vec<PathToken> = Vec::new();
    let mut i: usize = 0;
    let mut last: Option<char> = None;
    proof {
        match parse_from(cs@, alpha@, 0, None) {
            ParseOutcome::Done(ts) => assert(Seq::<PathToken>::empty() + ts =~= ts),
            _ => {},
        }
    }
    while i < cs.len()
        invariant
            alpha.len() == cs.len(),
            i <= cs.len(),
            parse_path_spec(cs@, alpha@) == prepend(out@, parse_from(cs@, alpha@, i as int, last)),
            parse_path_spec(cs@, alpha@) matches ParseOutcome::Failed(e) ==> error_in_bounds(
                e,
                cs.len() as int,
            ),
        decreases cs.len() - i,
    {
        let c = cs[i];
        let ghost old_last = last;
        if is_whitespace(c) {
            assert(parse_from(cs@, alpha@, i as int, last) == parse_from(
                cs@,
                alpha@,
                i as int + 1,
                last,
            ));
            i += 1;
            continue;
        }
        let explicit = alpha[i];
        let cmd: char;
        let pos: usize;
        if explicit {
            cmd = c;
            pos = i + 1;
            last = Some(c);
        } else {
            match last {
                None => {
                    return Some(Err(SvgPathError::MissingCommand));
                },
                Some(l) => {
                    cmd = if l == 'M' {
                        'L'
                    } else if l == 'm' {
                        'l'
                    } else {
                        l
                    };
                    pos = i;
                },
            }
        }
        let kinds = match command_arg_kinds(cmd) {
            None => {
                return Some(Err(SvgPathError::UnknownCommand(cmd)));
            },
            Some(k) => k,
        };
        let ghost before = out@;
        out.push(PathToken::Command(cmd));
        proof {
            lemma_args_bounds(cs@, kinds@, pos as int);
        }
        match parse_args(cs, &kinds, pos, &mut out) {
            Err(e) => {
                proof {
                    assert(command_args(cmd) == Some(kinds@));
                    assert(args_at(cs@, kinds@, pos as int) == Err::<(Seq<PathToken>, int), SvgPathError>(e));
                    assert(parse_from(cs@, alpha@, i as int, old_last) == ParseOutcome::Failed(e));
                }
                return Some(Err(e));
            },
            Ok(j) => {
                let ghost ts = out@.subrange(before.len() as int + 1, out@.len() as int);
                proof {
                    let ghost r0 = args_at(cs@, kinds@, pos as int);
                    assert(r0 is Ok);
                    let ghost pair = r0->Ok_0;
                    let ghost ts0 = pair.0;
                    assert(out@ == before.push(PathToken::Command(cmd)) + ts0);
                    assert(ts =~= ts0);
                    assert(out@ =~= before + (seq![PathToken::Command(cmd)] + ts));
                    assert(out@ =~= before.push(PathToken::Command(cmd)) + ts);
                    assert(args_at(cs@, kinds@, pos as int) == Ok::<
                        (Seq<PathToken>, int),
                        SvgPathError,
                    >((ts, j as int)));
                    assert(command_args(cmd) == Some(kinds@));
                    if !(i < j && j <= cs.len()) {
                        assert(parse_from(cs@, alpha@, i as int, old_last) is Stalls);
                        assert(parse_path_spec(cs@, alpha@) is Stalls);
                    }
                }
                if j <= i {
                    return None;
                }
                proof {
                    assert(parse_from(cs@, alpha@, i as int, old_last) == prepend(
                        seq![PathToken::Command(cmd)] + ts,
                        parse_from(cs@, alpha@, j as int, last),
                    ));
                    match parse_from(cs@, alpha@, j as int, last) {
                        ParseOutcome::Done(rest) => {
                            assert(before + ((seq![PathToken::Command(cmd)] + ts) + rest)
                                =~= out@ + rest);
                        },
                        _ => {},
                    }
                }
                i = j;
            },
        }
    }
    proof {
        assert(out@ + Seq::<PathToken>::empty() =~= out@);
    }
    Some(Ok(out))
}

/// Reads the path `cs`, where `alpha[i]` tells whether `cs[i]` is alphabetic.
///
/// A path on which the reading would repeat a close command forever (a
/// coordinate right after `Z`) is not accepted.
pub fn parse_path(cs: &Vec<char>, alpha: &Vec<bool>) -> (r: Result<Vec<PathToken>, SvgPathError>)
    requires
        alpha.len() == cs.len(),
        !(parse_path_spec(cs@, alpha@) is Stalls),
    ensures
        match parse_path_spec(cs@, alpha@) {
            ParseOutcome::Done(ts) => r matches Ok(v) && v@ == ts,
            ParseOutcome::Failed(e) => r == Err::<Vec<PathToken>, SvgPathError>(e),
            ParseOutcome::Stalls => false,
        },
        r matches Ok(v) ==> numbers_in_bounds(v@, cs.len() as int) && well_grouped(v@),
        r matches Err(e) ==> error_in_bounds(e, cs.len() as int),
{
    match read_path(cs, alpha) {
        Some(r) => r,
        None => Err(SvgPathError::MissingCommand),
    }
}

fn alphabetic_flags(cs: &Vec<char>) -> (alpha: Vec<bool>)
    ensures
        alpha@ == alpha_of(cs@),
        ascii_letters_alphabetic(cs@),
{
    let mut alpha: Vec<bool> = Vec::new();
    let mut k: usize = 0;
    while k < cs.len()
        invariant
            k <= cs.len(),
            alpha.len() == k,
            forall|m: int| 0 <= m < k ==> alpha@[m] == char_is_alphabetic(#[trigger] cs@[m]),
            forall|m: int| 0 <= m < k && cs@[m] < '\u{80}' ==> #[trigger] alpha@[m] == is_ascii_letter(cs@[m]),
        decreases cs.len() - k,
    {
        alpha.push(is_alphabetic(cs[k]));
        k += 1;
    }
    assert(alpha@ =~= alpha_of(cs@));
    alpha
}

/// Reads an SVG path string (see `parse_path`), classifying each character
/// with `char::is_alphabetic`.
pub fn parse_svg_path(path: &str) -> (r: Result<Vec<PathToken>, SvgPathError>)
    requires
        !(parse_path_spec(path@, alpha_of(path@)) is Stalls),
    ensures
        match parse_path_spec(path@, alpha_of(path@)) {
            ParseOutcome::Done(ts) => r matches Ok(v) && v@ == ts,
            ParseOutcome::Failed(e) => r == Err::<Vec<PathToken>, SvgPathError>(e),
            ParseOutcome::Stalls => false,
        },
        r matches Ok(v) ==> numbers_in_bounds(v@, path@.len() as int) && well_grouped(v@),
        r matches Err(e) ==> error_in_bounds(e, path@.len() as int),
        ascii_letters_alphabetic(path@),
{
    let cs = chars_of(path);
    let alpha = alphabetic_flags(&cs);
    parse_path(&cs, &alpha)
}

/// Reads an SVG path string like `parse_svg_path`, for any input: it first
/// tests whether the reading would repeat a close command forever, and gives
/// `None` there; otherwise it hands the path to `parse_svg_path`.
pub fn try_parse_svg_path(path: &str) -> (r: Option<Result<Vec<PathToken>, SvgPathError>>)
    ensures
        match parse_path_spec(path@, alpha_of(path@)) {
            ParseOutcome::Done(ts) => r matches Some(Ok(v)) && v@ == ts,
            ParseOutcome::Failed(e) => r == Some(Err::<Vec<PathToken>, SvgPathError>(e)),
            ParseOutcome::Stalls => r is None,
        },
        r matches Some(Ok(v)) ==> numbers_in_bounds(v@, path@.len() as int) && well_grouped(v@),
        r matches Some(Err(e)) ==> error_in_bounds(e, path@.len() as int),
        ascii_letters_alphabetic(path@),
{
    let cs = chars_of(path);
    let alpha = alphabetic_flags(&cs);
    match read_path(&cs, &alpha) {
        None => None,
        Some(_) => Some(parse_svg_path(path)),
    }
}

} // verus!
