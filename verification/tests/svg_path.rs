use raxis::svg::{parse_number, parse_svg_path, PathToken, SvgPathError};

fn chars(s: &str) -> Vec<char> {
    s.chars().collect()
}

fn lexeme(cs: &[char], start: usize, end: usize) -> String {
    cs[start..end].iter().collect()
}

#[test]
fn test_parse_number() {
    let cs = chars("123.456.123");
    let result = parse_number(&cs, 0).map(|(tok, _)| match tok {
        PathToken::Number { start, end } => lexeme(&cs, start, end).parse::<f32>().unwrap(),
        _ => panic!("expected a number"),
    });
    assert_eq!(result, Ok(123.456));
}

use raxis::geometry::{plan_geometry, PathKind, SinkOp};
use PathKind::{Arc, ClosePath, CubicBezier, LineTo, MoveTo, QuadraticBezier};
use raxis::svg::{parse_flag, skip_separators, try_parse_svg_path};

fn describe(path: &str, tokens: &[PathToken]) -> Vec<String> {
    let cs = chars(path);
    tokens
        .iter()
        .map(|t| match t {
            PathToken::Command(c) => c.to_string(),
            PathToken::Number { start, end } => lexeme(&cs, *start, *end),
            PathToken::Flag(f) => if *f { "1".into() } else { "0".into() },
        })
        .collect()
}

#[test]
fn moves_lines_and_close() {
    let path = "M10 20 L30,40 Z";
    let tokens = parse_svg_path(path).unwrap();
    assert_eq!(describe(path, &tokens), vec!["M", "10", "20", "L", "30", "40", "Z"]);
}

#[test]
fn extra_coordinates_after_a_move_are_lines() {
    let path = "M1 2 3 4 m5 6 7 8";
    let tokens = parse_svg_path(path).unwrap();
    assert_eq!(
        describe(path, &tokens),
        vec!["M", "1", "2", "L", "3", "4", "m", "5", "6", "l", "7", "8"]
    );
}

#[test]
fn numbers_with_signs_and_packed_decimals() {
    let path = "M-1.5-2 .5.5";
    let tokens = parse_svg_path(path).unwrap();
    assert_eq!(describe(path, &tokens), vec!["M", "-1.5", "-2", "L", ".5", ".5"]);
    let path = "M5. -.25";
    let tokens = parse_svg_path(path).unwrap();
    assert_eq!(describe(path, &tokens), vec!["M", "5.", "-.25"]);
}

#[test]
fn an_exponent_letter_is_read_as_a_command() {
    assert_eq!(parse_svg_path("M1 2e3"), Err(SvgPathError::UnknownCommand('e')));
}

#[test]
fn arc_flags_may_be_packed() {
    let path = "A 5 5 0 1 0 10 10 a5,5,30,0,1,1,1";
    let tokens = parse_svg_path(path).unwrap();
    assert_eq!(
        describe(path, &tokens),
        vec!["A", "5", "5", "0", "1", "0", "10", "10", "a", "5", "5", "30", "0", "1", "1", "1"]
    );
    assert_eq!(tokens[4], PathToken::Flag(true));
    assert_eq!(tokens[5], PathToken::Flag(false));
}

#[test]
fn curves_take_their_argument_counts() {
    let path = "C1 2 3 4 5 6 S1 2 3 4 Q1 2 3 4 T5 6 H7 V8";
    let tokens = parse_svg_path(path).unwrap();
    assert_eq!(tokens.len(), 1 + 6 + 1 + 4 + 1 + 4 + 1 + 2 + 1 + 1 + 1 + 1);
}

#[test]
fn empty_and_blank_paths_have_no_tokens() {
    assert_eq!(parse_svg_path("").unwrap(), vec![]);
    assert_eq!(parse_svg_path(" \n\t").unwrap(), vec![]);
}

#[test]
fn errors_are_reported_with_their_messages() {
    let check = |path: &str, expected: SvgPathError, message: &str| {
        let e = parse_svg_path(path).unwrap_err();
        assert_eq!(e, expected);
        assert_eq!(e.message(&chars(path)), message);
    };
    check("10 20", SvgPathError::MissingCommand, "Path must start with a command");
    check("M1 2 X", SvgPathError::UnknownCommand('X'), "Unknown command: X");
    check("M1 x", SvgPathError::InvalidNumber { start: 3, end: 3 }, "Invalid number: ");
    check("M1 -", SvgPathError::InvalidNumber { start: 3, end: 4 }, "Invalid number: -");
    check("A1 1 0 2 0 1 1", SvgPathError::InvalidFlag('2'), "Invalid flag value: 2");
    check("A1 1 0", SvgPathError::MissingFlag, "Expected flag value (0 or 1)");
}

#[test]
fn a_coordinate_after_close_is_refused_by_the_total_reader() {
    assert_eq!(try_parse_svg_path("M0 0 Z 5 5"), None);
    assert_eq!(try_parse_svg_path("M0 0 Z").map(|r| r.map(|t| t.len())), Some(Ok(4)));
    assert_eq!(try_parse_svg_path("Q"), Some(Err(SvgPathError::InvalidNumber { start: 1, end: 1 })));
}

#[test]
fn separators_and_flags() {
    let cs = chars(" ,\t1");
    assert_eq!(skip_separators(&cs, 0), 3);
    let cs = chars(", 1");
    assert_eq!(parse_flag(&cs, 0), Ok((PathToken::Flag(true), 3)));
    let cs = chars("7");
    assert_eq!(parse_flag(&cs, 0), Err(SvgPathError::InvalidFlag('7')));
}

#[test]
fn geometry_batches_lines_and_closes_figures() {
    let plan = plan_geometry(&vec![MoveTo, LineTo, LineTo, Arc, LineTo, ClosePath, MoveTo, LineTo]);
    assert_eq!(
        plan.ops,
        vec![
            SinkOp::BeginFigure(0),
            SinkOp::AddLines { first: 0, count: 2 },
            SinkOp::AddArc(3),
            SinkOp::AddLines { first: 2, count: 1 },
            SinkOp::EndFigure { closed: true },
            SinkOp::BeginFigure(6),
            SinkOp::AddLines { first: 3, count: 1 },
            SinkOp::EndFigure { closed: false },
        ]
    );
    assert_eq!(plan.points, vec![1, 2, 4, 7]);
}

#[test]
fn geometry_of_consecutive_moves_ends_each_figure_open() {
    let plan = plan_geometry(&vec![MoveTo, MoveTo, CubicBezier, QuadraticBezier]);
    assert_eq!(
        plan.ops,
        vec![
            SinkOp::BeginFigure(0),
            SinkOp::EndFigure { closed: false },
            SinkOp::BeginFigure(1),
            SinkOp::AddBezier(2),
            SinkOp::AddQuadraticBezier(3),
            SinkOp::EndFigure { closed: false },
        ]
    );
    assert!(plan_geometry(&vec![]).ops.is_empty());
}

#[test]
fn ascii_letters_start_commands() {
    assert_eq!(try_parse_svg_path("M1 2 l3 4").map(|r| r.map(|t| t.len())), Some(Ok(6)));
}
