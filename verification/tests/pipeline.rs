//! End-to-end tests of the Logo pipeline: tokenizing, parsing, and
//! interpreting scripts against a real canvas.

use rslogo::ast::{Condition, Expression, RuntimeError};
use rslogo::canvas::new_image;
use rslogo::interp::{Interp, StepResult};
use rslogo::parser::{parse_content, SyntaxErrorKind};
use rslogo::tokenizer::{tokenize, Token};
use rslogo::turtle::Turtle;

/// Run a script on a fresh canvas of the given size; on a fault, return
/// the error beside the machine.
fn run(src: &str, w: u32, h: u32) -> (Interp, Option<RuntimeError>) {
    let prog = parse_content(src).expect("script should parse");
    let turtle = Turtle::new(new_image(w, h));
    let mut m = Interp::new(prog, turtle);
    loop {
        match m.step() {
            StepResult::Progress => {}
            StepResult::Done => return (m, None),
            StepResult::Halted(e) => return (m, Some(e)),
        }
    }
}

fn run_ok(src: &str) -> Interp {
    let (m, err) = run(src, 200, 200);
    assert_eq!(err, None);
    m
}

#[test]
fn tokenize_keywords_and_value() {
    let toks = tokenize("PENUP FORWARD \"100");
    let kinds: Vec<Token> = toks.iter().map(|p| p.0.clone()).collect();
    assert_eq!(
        kinds,
        vec![Token::PenUp, Token::Forward, Token::Value(b"100".to_vec())]
    );
    assert_eq!((toks[0].1, toks[0].2), (0, 5));
    assert_eq!((toks[1].1, toks[1].2), (6, 13));
    assert_eq!((toks[2].1, toks[2].2), (14, 18));
}

#[test]
fn tokenize_variable_and_symbols() {
    let toks = tokenize("MAKE \"x + :y \"2 [ ]");
    let kinds: Vec<Token> = toks.into_iter().map(|p| p.0).collect();
    assert_eq!(
        kinds,
        vec![
            Token::Make,
            Token::Value(b"x".to_vec()),
            Token::Add,
            Token::Variable(b"y".to_vec()),
            Token::Value(b"2".to_vec()),
            Token::LParen,
            Token::RParen,
        ]
    );
}

#[test]
fn tokenize_comment_elided() {
    let toks = tokenize("// a comment\nPENDOWN");
    let kinds: Vec<Token> = toks.into_iter().map(|p| p.0).collect();
    assert_eq!(kinds, vec![Token::PenDown]);
}

#[test]
fn tokenize_unknown_byte_is_error_token() {
    let toks = tokenize("PENUP $");
    let kinds: Vec<Token> = toks.into_iter().map(|p| p.0).collect();
    assert_eq!(kinds, vec![Token::PenUp, Token::Error]);
}

#[test]
fn tokenize_comment_at_end_of_input_elided() {
    assert!(tokenize("//").is_empty());
    let toks = tokenize("PENUP // trailing comment");
    let kinds: Vec<Token> = toks.into_iter().map(|p| p.0).collect();
    assert_eq!(kinds, vec![Token::PenUp]);
}

#[test]
fn parse_two_statements() {
    let asts = parse_content("MAKE \"x \"10\nFORWARD :x").unwrap();
    assert_eq!(asts.len(), 2);
}

#[test]
fn parse_rejects_missing_argument() {
    let errs = parse_content("FORWARD").unwrap_err();
    assert_eq!(errs.len(), 1);
    assert_eq!(errs[0].kind, SyntaxErrorKind::UnexpectedEnd);
}

#[test]
fn parse_rejects_empty_source() {
    assert!(parse_content("").is_err());
    assert!(parse_content("// only a comment\n").is_err());
}

#[test]
fn parse_rejects_trailing_argument() {
    let errs = parse_content("PENUP \"5").unwrap_err();
    assert_eq!(errs[0].kind, SyntaxErrorKind::TrailingArgument);
    assert_eq!((errs[0].lo, errs[0].hi), (6, 8));
    let errs = parse_content("FORWARD \"1 \"2").unwrap_err();
    assert_eq!(errs[0].kind, SyntaxErrorKind::TrailingArgument);
}

#[test]
fn parse_rejects_numeric_binding_target() {
    let errs = parse_content("MAKE \"1 \"2").unwrap_err();
    assert_eq!(errs[0].kind, SyntaxErrorKind::BindTargetNotName);
}

#[test]
fn parse_rejects_empty_block() {
    let errs = parse_content("IF EQ \"1 \"1 [ ]").unwrap_err();
    assert_eq!(errs[0].kind, SyntaxErrorKind::ExpectedStatement);
}

#[test]
fn parse_rejects_unclosed_block() {
    let errs = parse_content("WHILE EQ \"1 \"1 [ PENUP").unwrap_err();
    assert_eq!(errs[0].kind, SyntaxErrorKind::UnclosedBlock);
}

#[test]
fn parse_rejects_oversized_number() {
    let errs = parse_content("FORWARD \"99999999999999999999").unwrap_err();
    assert_eq!(errs[0].kind, SyntaxErrorKind::NumberTooLarge);
}

#[test]
fn parse_accepts_prefix_math_and_nested_blocks() {
    let asts = parse_content("MAKE \"x + \"1 * \"2 \"3\nIF EQ :x \"7 [ WHILE LT \"1 \"0 [ PENUP ] ]")
        .unwrap();
    assert_eq!(asts.len(), 2);
}

#[test]
fn pen_moves_from_center_with_pen_down() {
    // source `PENDOWN FORWARD "100`: the pen ends down and the turtle
    // moves 100 units from the canvas center along heading 0; the
    // verified move contract records exactly one drawn segment for it.
    let m = run_ok("PENDOWN FORWARD \"100");
    let t = m.turtle();
    assert!(t.is_pen_down());
    assert_eq!(t.get_x(), 100_000);
    assert_eq!(t.get_y(), 0);
}

#[test]
fn make_addassign_forward() {
    // `x` is bound to 10, rebound to 15, and FORWARD moves 15 units.
    let m = run_ok("MAKE \"x \"10\nADDASSIGN \"x \"5\nFORWARD :x");
    let t = m.turtle();
    match t.get_variable(&b"x".to_vec()) {
        Some(Expression::Float(v)) => assert_eq!(*v, 15_000),
        other => panic!("unexpected binding: {:?}", other),
    }
    assert_eq!(t.get_y(), 100_000 - 15_000);
    assert_eq!(t.get_x(), 100_000);
}

#[test]
fn if_true_guard_runs_block() {
    let m = run_ok("IF EQ \"1 \"1 [ PENDOWN ]");
    assert!(m.turtle().is_pen_down());
}

#[test]
fn while_loop_runs_three_times() {
    let m = run_ok("MAKE \"i \"0\nWHILE LT :i \"3 [ ADDASSIGN \"i \"1 ]");
    match m.turtle().get_variable(&b"i".to_vec()) {
        Some(Expression::Float(v)) => assert_eq!(*v, 3_000),
        other => panic!("unexpected binding: {:?}", other),
    }
}

#[test]
fn while_false_guard_runs_zero_times() {
    let m = run_ok("PENDOWN\nWHILE LT \"5 \"3 [ PENUP ]");
    assert!(m.turtle().is_pen_down());
}

#[test]
fn division_by_zero_halts() {
    let (_, err) = run("MAKE \"r / \"10 \"0", 200, 200);
    assert_eq!(err, Some(RuntimeError::DivisionByZero));
}

#[test]
fn inequality_true_in_a_shared_domain() {
    // NE counts a domain only when both operands coerce in it: the
    // numeric domain admits both and finds 1 and 2 unequal
    let m = run_ok("IF NE \"1 \"2 [ PENDOWN ]");
    assert!(m.turtle().is_pen_down());
    let m = run_ok("IF NE \"1 \"1 [ PENDOWN ]");
    assert!(!m.turtle().is_pen_down());
    let turtle = Turtle::new(new_image(100, 100));
    let ne = Condition::NotEqual(Expression::Float(1_000), Expression::Float(2_000));
    assert_eq!(ne.eval(&turtle), Ok(true));
    let ne = Condition::NotEqual(
        Expression::Str(b"ab".to_vec()),
        Expression::Str(b"cd".to_vec()),
    );
    assert_eq!(ne.eval(&turtle), Ok(true));
}

#[test]
fn equality_across_domains_is_false_both_ways() {
    // a string literal and a numeric literal share no coercion domain, so
    // EQ and NE both come out false
    let m = run_ok("IF EQ \"abc \"1 [ PENDOWN ]");
    assert!(!m.turtle().is_pen_down());
    let m = run_ok("IF NE \"abc \"1 [ PENDOWN ]");
    assert!(!m.turtle().is_pen_down());
}

#[test]
fn undefined_variable_halts_inside_if_block() {
    // a fault other than a drawing failure propagates out of a block
    let (_, err) = run("IF EQ \"1 \"1 [ FORWARD :nope ]", 200, 200);
    assert_eq!(err, Some(RuntimeError::UndefinedVariable));
}

#[test]
fn coercion_failure_halts() {
    let (_, err) = run("FORWARD \"abc", 200, 200);
    assert_eq!(err, Some(RuntimeError::CoercionFailure));
}

#[test]
fn palette_index_out_of_range_halts() {
    let (_, err) = run("SETPENCOLOR \"16", 200, 200);
    assert_eq!(err, Some(RuntimeError::PaletteOutOfRange));
    let (_, err) = run("SETPENCOLOR \"-1", 200, 200);
    assert_eq!(err, Some(RuntimeError::PaletteOutOfRange));
}

#[test]
fn pen_color_truncates_toward_zero() {
    let m = run_ok("SETPENCOLOR \"7.9");
    assert_eq!(m.turtle().get_pen_color(), 7_000);
    let m = run_ok("SETPENCOLOR \"-0.5");
    assert_eq!(m.turtle().get_pen_color(), 0);
}

#[test]
fn fractional_literals_and_queries() {
    let m = run_ok("SETX \"1.5\nSETY \"-0.25\nTURN \"370\nMAKE \"h HEADING\nSETX :h");
    let t = m.turtle();
    assert_eq!(t.get_y(), -250);
    assert_eq!(t.get_heading(), 370_000);
    // MAKE binds the query itself, so :h reads the heading at use time
    assert!(matches!(
        t.get_variable(&b"h".to_vec()),
        Some(Expression::Query(rslogo::ast::Query::HEADING))
    ));
    assert_eq!(t.get_x(), 370_000);
}

#[test]
fn prefix_math_evaluates_with_truncation() {
    // / "10 "3 is 3.333 in thousandths; * "1.5 "2 is exactly 3
    let m = run_ok("MAKE \"a / \"10 \"3\nMAKE \"b * \"1.5 \"2");
    let t = m.turtle();
    match t.get_variable(&b"a".to_vec()) {
        Some(Expression::Float(v)) => assert_eq!(*v, 3_333),
        other => panic!("unexpected binding: {:?}", other),
    }
    match t.get_variable(&b"b".to_vec()) {
        Some(Expression::Float(v)) => assert_eq!(*v, 3_000),
        other => panic!("unexpected binding: {:?}", other),
    }
}

#[test]
fn make_stores_condition_lazily() {
    // MAKE binds a non-arithmetic value unevaluated, so the condition is
    // re-evaluated against the current state at each use
    let m = run_ok("MAKE \"f EQ XCOR \"100\nIF :f [ PENDOWN ]");
    assert!(m.turtle().is_pen_down());
}

#[test]
fn back_and_turn_move_against_heading() {
    let m = run_ok("TURN \"90\nBACK \"50");
    let t = m.turtle();
    // heading 90 is due right, so BACK moves 50 left of center
    assert_eq!(t.get_x(), 50_000);
    assert_eq!(t.get_y(), 100_000);
    assert_eq!(t.get_heading(), 90_000);
}

#[test]
fn left_and_right_do_not_change_heading() {
    let m = run_ok("LEFT \"10\nRIGHT \"30");
    let t = m.turtle();
    assert_eq!(t.get_heading(), 0);
    // heading 0 means left is due west: net 20 units east of center
    assert_eq!(t.get_x(), 100_000 + 20_000);
    assert_eq!(t.get_y(), 100_000);
}

#[test]
fn condition_eval_directly() {
    let turtle = Turtle::new(new_image(100, 100));
    let eq = Condition::Equal(Expression::Float(1_000), Expression::Float(1_000));
    assert_eq!(eq.eval(&turtle), Ok(true));
    let expr = Expression::Bool(Box::new(eq));
    assert_eq!(expr.to_bool(&turtle), Ok(Some(true)));
    let lt = Condition::LessThan(Expression::Float(1_000), Expression::Str(b"a".to_vec()));
    assert_eq!(lt.eval(&turtle), Err(RuntimeError::CoercionFailure));
}
