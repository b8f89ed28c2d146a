use crab::eval::EvalError;
use crab::eval::eval;
use crab::lex::LexError;
use crab::lex::lex;
use crab::token::Token;
use crab::value::Stream;
use crab::value::Value;

const FUEL: u64 = 1_000_000;

fn lex_src(src: &str) -> Vec<Token> {
    let chars: Vec<char> = src.chars().collect();
    lex(&chars, false).unwrap()
}

fn run_raw(src: &str, stack: Vec<Value>) -> (Result<(), EvalError>, Vec<Value>, String) {
    let tokens = lex_src(src);
    let mut stack = stack;
    let mut out: Vec<u8> = Vec::new();
    let r = eval(&tokens, &mut stack, &mut out, FUEL);
    (r, stack, String::from_utf8(out).unwrap())
}

fn run(src: &str, stack: Vec<Value>) -> (Vec<Value>, String) {
    let (r, stack, out) = run_raw(src, stack);
    assert!(r.is_ok());
    (stack, out)
}

fn top_number(stack: &[Value]) -> i64 {
    match stack.last() {
        Some(Value::Number(n)) => *n,
        other => panic!("expected a number on top, got {:?}", other),
    }
}

#[test]
fn minus_binds_right_to_left() {
    let (stack, _) = run("-", vec![Value::Number(5), Value::Number(3)]);
    assert_eq!(stack.len(), 1);
    assert_eq!(top_number(&stack), -2);
}

#[test]
fn plus_on_pushed_pair() {
    let (stack, _) = run("+", vec![Value::Number(5), Value::Number(3)]);
    assert_eq!(top_number(&stack), 8);
}

#[test]
fn times_on_pushed_pair() {
    let (stack, _) = run("*", vec![Value::Number(5), Value::Number(3)]);
    assert_eq!(top_number(&stack), 15);
}

#[test]
fn divide_binds_right_to_left() {
    // stack [5,3]: 3 / 5 truncates to 0
    let (stack, _) = run("/", vec![Value::Number(5), Value::Number(3)]);
    assert_eq!(top_number(&stack), 0);
    let (stack, _) = run("/", vec![Value::Number(3), Value::Number(15)]);
    assert_eq!(top_number(&stack), 5);
}

#[test]
fn modulus_binds_right_to_left() {
    let (stack, _) = run("%", vec![Value::Number(5), Value::Number(3)]);
    assert_eq!(top_number(&stack), 3);
}

#[test]
fn divides_binds_right_to_left() {
    // stack [5,3]: 3 % 5 != 0
    let (stack, _) = run("_", vec![Value::Number(5), Value::Number(3)]);
    assert_eq!(top_number(&stack), 0);
    // stack [3,6]: 6 % 3 == 0
    let (stack, _) = run("_", vec![Value::Number(3), Value::Number(6)]);
    assert_eq!(top_number(&stack), 1);
}

#[test]
fn comparisons_bind_right_to_left() {
    let (stack, _) = run(">", vec![Value::Number(5), Value::Number(3)]);
    assert_eq!(top_number(&stack), 0);
    let (stack, _) = run("<", vec![Value::Number(5), Value::Number(3)]);
    assert_eq!(top_number(&stack), 1);
    let (stack, _) = run("=", vec![Value::Number(5), Value::Number(3)]);
    assert_eq!(top_number(&stack), 0);
    let (stack, _) = run("=", vec![Value::Number(3), Value::Number(3)]);
    assert_eq!(top_number(&stack), 1);
    let (stack, _) = run("!", vec![Value::Number(5), Value::Number(3)]);
    assert_eq!(top_number(&stack), 1);
}

#[test]
fn floor_and_ceil_keep_whole_numbers() {
    let (stack, out) = run("5[p5]p", vec![]);
    assert!(stack.is_empty());
    assert_eq!(out, "5\n5\n");
}

#[test]
fn hex_digits_merge_into_one_literal() {
    let tokens = lex_src("A3");
    assert_eq!(tokens.len(), 1);
    assert!(matches!(tokens[0], Token::Number(163)));
}

#[test]
fn separated_hex_digits_stay_separate() {
    let tokens = lex_src("A 3");
    assert_eq!(tokens.len(), 2);
    assert!(matches!(tokens[0], Token::Number(10)));
    assert!(matches!(tokens[1], Token::Number(3)));
}

#[test]
fn leading_f_is_fold_not_digit() {
    let tokens = lex_src("FA");
    assert_eq!(tokens.len(), 1);
    match &tokens[0] {
        Token::Fold(body, first) => {
            assert!(!*first);
            assert_eq!(body.len(), 1);
            assert!(matches!(body[0], Token::Number(10)));
        },
        other => panic!("expected a fold, got {:?}", other),
    }
}

#[test]
fn f_inside_a_run_extends_the_number() {
    let tokens = lex_src("AF");
    assert_eq!(tokens.len(), 1);
    assert!(matches!(tokens[0], Token::Number(175)));
}

#[test]
fn largest_literal_fits_and_one_more_does_not() {
    let tokens = lex_src("7FFFFFFFFFFFFFFF");
    assert_eq!(tokens.len(), 1);
    assert!(matches!(tokens[0], Token::Number(i64::MAX)));
    let chars: Vec<char> = "8000000000000000".chars().collect();
    assert!(matches!(lex(&chars, false), Err(LexError::NumberTooLarge)));
}

#[test]
fn take_count_pushed_first() {
    let (stack, out) = run("6Ntp", vec![]);
    assert!(stack.is_empty());
    assert_eq!(out, "1 2 3 4 5 6 \n");
}

#[test]
fn take_stream_pushed_first() {
    let (stack, out) = run("N6tp", vec![]);
    assert!(stack.is_empty());
    assert_eq!(out, "1 2 3 4 5 6 \n");
}

#[test]
fn length_drains_a_stream_to_its_count() {
    let (stack, _) = run("4n,", vec![]);
    assert_eq!(stack.len(), 1);
    assert_eq!(top_number(&stack), 4);
}

#[test]
fn length_turns_a_number_into_an_enumeration() {
    let (stack, out) = run("4,p", vec![]);
    assert!(stack.is_empty());
    assert_eq!(out, "0 1 2 3 \n");
}

#[test]
fn sum_of_one_to_four_prints_ten() {
    let (stack, out) = run("4ns p", vec![]);
    assert!(stack.is_empty());
    assert_eq!(out, "10\n");
}

#[test]
fn fold_without_seed_sums_with_the_underflow_default() {
    let (stack, out) = run("4nF+p", vec![]);
    assert!(stack.is_empty());
    assert_eq!(out, "10\n");
}

#[test]
fn filter_keeps_elements_that_divide_two() {
    // body [2, _] tests 2 % e == 0, keeping {1, 2} — not the even numbers
    let (stack, out) = run("6n#2_}p", vec![]);
    assert!(stack.is_empty());
    assert_eq!(out, "1 2 \n");
}

#[test]
fn printing_an_emptied_filter_emits_just_a_line_break() {
    let (stack, out) = run("4n#0}p", vec![]);
    assert!(stack.is_empty());
    assert_eq!(out, "\n");
}

#[test]
fn map_doubles_each_element() {
    let (stack, out) = run("4nM2*}p", vec![]);
    assert!(stack.is_empty());
    assert_eq!(out, "2 4 6 8 \n");
}

#[test]
fn short_form_map_takes_one_token() {
    // body is exactly the one token `$`: duplicate then pop leaves each
    // element unchanged, so the map is the identity
    let (stack, out) = run("3nm$p", vec![]);
    assert!(stack.is_empty());
    assert_eq!(out, "1 2 3 \n");
}

#[test]
fn range_starts_where_told() {
    let (stack, out) = run("5R3tp", vec![]);
    assert!(stack.is_empty());
    assert_eq!(out, "5 6 7 \n");
}

#[test]
fn duplicate_on_empty_stack_is_fatal() {
    let (r, _, _) = run_raw("$", vec![]);
    assert_eq!(r, Err(EvalError::NothingToDuplicate));
}

#[test]
fn pop_on_empty_stack_is_a_no_op() {
    let (stack, _) = run(";", vec![]);
    assert!(stack.is_empty());
}

#[test]
fn duplicated_stream_iterates_independently() {
    let (stack, out) = run("3n$,p,p", vec![]);
    assert!(stack.is_empty());
    assert_eq!(out, "3\n3\n");
}

#[test]
fn duplicating_keeps_the_current_position() {
    let s = Stream::Range { next: 5, last: 7 };
    let d = s.dup();
    assert!(matches!(d, Stream::Range { next: 5, last: 7 }));
}

#[test]
fn initial_stack_comes_from_the_caller() {
    let (stack, out) = run("+p", vec![Value::Number(2), Value::Number(3)]);
    assert!(stack.is_empty());
    assert_eq!(out, "5\n");
}

#[test]
fn print_on_empty_stack_prints_default_zero() {
    let (stack, out) = run("p", vec![]);
    assert!(stack.is_empty());
    assert_eq!(out, "0\n");
}

#[test]
fn print_negative_number() {
    let (_, out) = run("p", vec![Value::Number(-12)]);
    assert_eq!(out, "-12\n");
}

#[test]
fn arithmetic_on_a_stream_is_a_type_error() {
    let (r, _, _) = run_raw("N+", vec![]);
    assert_eq!(r, Err(EvalError::ExpectedNumber));
}

#[test]
fn take_under_a_number_demands_a_stream() {
    let (r, _, _) = run_raw("1 2t", vec![]);
    assert_eq!(r, Err(EvalError::ExpectedIter));
}

#[test]
fn division_by_zero_is_an_error() {
    let (r, _, _) = run_raw("0 5/", vec![]);
    assert_eq!(r, Err(EvalError::DivByZero));
    let (r, _, _) = run_raw("0 5%", vec![]);
    assert_eq!(r, Err(EvalError::DivByZero));
}

#[test]
fn divides_by_zero_is_false_not_an_error() {
    let (stack, _) = run("0 5_", vec![]);
    assert_eq!(top_number(&stack), 0);
}

#[test]
fn length_on_empty_stack_is_fatal() {
    let (r, _, _) = run_raw(",", vec![]);
    assert_eq!(r, Err(EvalError::LengthOfNothing));
}

#[test]
fn draining_an_unbounded_stream_exhausts_the_budget() {
    let tokens = lex_src("Np");
    let mut stack: Vec<Value> = Vec::new();
    let mut out: Vec<u8> = Vec::new();
    let r = eval(&tokens, &mut stack, &mut out, 1000);
    assert_eq!(r, Err(EvalError::OutOfFuel));
}

#[test]
fn unknown_character_is_a_lex_error() {
    let chars: Vec<char> = "q".chars().collect();
    assert!(matches!(lex(&chars, false), Err(LexError::UnknownChar('q'))));
}

#[test]
fn unmatched_block_end_is_a_lex_error() {
    let chars: Vec<char> = "}".chars().collect();
    assert!(matches!(lex(&chars, false), Err(LexError::BlockEndOutsideBlock)));
}

#[test]
fn nested_blocks_parse_recursively() {
    let tokens = lex_src("M3nM2*},}");
    assert_eq!(tokens.len(), 1);
    match &tokens[0] {
        Token::MapOp(body) => {
            assert_eq!(body.len(), 4);
            assert!(matches!(body[0], Token::Number(3)));
            assert!(matches!(body[1], Token::NaturalTo));
            assert!(matches!(body[2], Token::MapOp(_)));
            assert!(matches!(body[3], Token::Length));
        },
        other => panic!("expected a map, got {:?}", other),
    }
}

#[test]
fn whitespace_is_skipped() {
    let tokens = lex_src("  4\tn\n s ");
    assert_eq!(tokens.len(), 3);
}

#[test]
fn sugar_s_is_fold_plus_keep_first() {
    let tokens = lex_src("s");
    assert_eq!(tokens.len(), 1);
    match &tokens[0] {
        Token::Fold(body, first) => {
            assert!(*first);
            assert_eq!(body.len(), 1);
            assert!(matches!(body[0], Token::Plus));
        },
        other => panic!("expected a fold, got {:?}", other),
    }
}

#[test]
fn fold_keeps_first_without_running_the_body() {
    // seed 10, then subtract: 1..=3 with minus: ((1 - 2? ...)) — seeded fold
    // over a single element leaves that element untouched
    let (stack, _) = run("1n|-}", vec![]);
    assert_eq!(top_number(&stack), 1);
}

#[test]
fn block_fold_subtracts_in_stack_order() {
    // |-} over 1..=3: seed 1; then 2 - 1 = 1; then 3 - 1 = 2
    let (stack, _) = run("3n|-}", vec![]);
    assert_eq!(top_number(&stack), 2);
}
