use std::cmp::Ordering;

use loxvm::chunk::Chunk;
use loxvm::number;
use loxvm::ordering::compare_texts;
use loxvm::precedence::Precedence;
use loxvm::rules::get_rule;
use loxvm::rules::ParseFn;
use loxvm::scanner::number_literals;
use loxvm::text::decimal;
use loxvm::token_type::TokenType;
use loxvm::value::is_bool;
use loxvm::value::is_nil;
use loxvm::value::is_number;
use loxvm::value::is_string;
use loxvm::value::Function;
use loxvm::value::Value;

fn number(value: f64) -> Value {
    Value::Number(value.to_bits())
}

fn text(value: &str) -> Value {
    Value::String(value.to_string())
}

#[test]
fn only_nil_and_false_are_falsey() {
    assert!(Value::Nil.is_falsey());
    assert!(Value::Bool(false).is_falsey());
    assert!(!Value::Bool(true).is_falsey());
    assert!(!number(0.0).is_falsey());
    assert!(!text("").is_falsey());
    assert!(!Value::Fun(0).is_falsey());
    assert!(!Value::Native(0).is_falsey());
}

#[test]
fn kind_tests_tell_the_kinds_apart() {
    assert!(is_number(number(1.0)));
    assert!(!is_number(text("1")));
    assert!(is_string(text("a")));
    assert!(!is_string(Value::Nil));
    assert!(is_nil(Value::Nil));
    assert!(!is_nil(Value::Bool(false)));
    assert!(is_bool(Value::Bool(false)));
    assert!(!is_bool(number(0.0)));
}

#[test]
fn equality_is_by_kind_and_content() {
    assert_eq!(number(1.5), number(1.5));
    assert_ne!(number(1.5), number(2.5));
    assert_eq!(number(0.0), number(-0.0));
    assert_ne!(number(f64::NAN), number(f64::NAN));
    assert_eq!(text("a"), text("a"));
    assert_ne!(text("a"), text("b"));
    assert_eq!(Value::Nil, Value::Nil);
    assert_ne!(Value::Nil, Value::Bool(false));
    assert_ne!(number(0.0), Value::Bool(false));
    assert_ne!(number(1.0), text("1"));
    assert_eq!(Value::Fun(3), Value::Fun(3));
    assert_ne!(Value::Fun(3), Value::Fun(4));
    assert_ne!(Value::Fun(3), Value::Native(3));
    assert_eq!(Value::Native(0), Value::Native(0));
}

#[test]
fn equality_is_symmetric_on_samples() {
    let samples = vec![
        Value::Nil,
        Value::Bool(true),
        Value::Bool(false),
        number(0.0),
        number(-0.0),
        number(1.0),
        number(f64::NAN),
        number(f64::INFINITY),
        text(""),
        text("a"),
        Value::Fun(0),
        Value::Fun(1),
        Value::Native(0),
    ];
    for a in &samples {
        for b in &samples {
            assert_eq!(a == b, b == a);
        }
        let nan = matches!(a, Value::Number(bits) if f64::from_bits(*bits).is_nan());
        assert_eq!(a == a, !nan);
        assert_eq!(&a.clone() == a, !nan);
    }
}

#[test]
fn order_is_within_a_kind() {
    assert_eq!(number(1.0).partial_cmp(&number(2.0)), Some(Ordering::Less));
    assert_eq!(number(2.0).partial_cmp(&number(1.0)), Some(Ordering::Greater));
    assert_eq!(number(0.0).partial_cmp(&number(-0.0)), Some(Ordering::Equal));
    assert_eq!(number(f64::NAN).partial_cmp(&number(1.0)), None);
    assert_eq!(Value::Bool(false).partial_cmp(&Value::Bool(true)), Some(Ordering::Less));
    assert_eq!(Value::Bool(true).partial_cmp(&Value::Bool(true)), Some(Ordering::Equal));
    assert_eq!(text("abc").partial_cmp(&text("abd")), Some(Ordering::Less));
    assert_eq!(text("b").partial_cmp(&text("abc")), Some(Ordering::Greater));
    assert_eq!(text("ab").partial_cmp(&text("abc")), Some(Ordering::Less));
    assert_eq!(text("é").partial_cmp(&text("z")), Some(Ordering::Greater));
    assert_eq!(Value::Nil.partial_cmp(&Value::Nil), None);
    assert_eq!(number(1.0).partial_cmp(&text("1")), None);
    assert_eq!(Value::Fun(0).partial_cmp(&Value::Fun(0)), None);
    assert!(number(1.0) < number(2.0));
    assert!(text("a") < text("b"));
}

#[test]
fn texts_compare_as_strings_do() {
    let samples = ["", "a", "ab", "abc", "b", "B", "é", "zz", "a\u{10000}", "a\u{ffff}"];
    for a in samples {
        for b in samples {
            assert_eq!(compare_texts(a, b), a.cmp(b), "{:?} {:?}", a, b);
        }
    }
}

#[test]
fn number_comparisons_agree_with_binary64() {
    let samples = [
        0.0,
        -0.0,
        1.0,
        -1.0,
        0.5,
        -0.5,
        f64::MIN_POSITIVE,
        -f64::MIN_POSITIVE,
        5e-324,
        f64::MAX,
        f64::MIN,
        f64::INFINITY,
        f64::NEG_INFINITY,
        f64::NAN,
        -f64::NAN,
        1e300,
        123456.789,
    ];
    for a in samples {
        assert_eq!(number::nan(a.to_bits()), a.is_nan());
        assert_eq!(f64::from_bits(number::negate(a.to_bits())).to_bits(), (-a).to_bits());
        for b in samples {
            assert_eq!(number::equal(a.to_bits(), b.to_bits()), a == b, "{} == {}", a, b);
            assert_eq!(number::less(a.to_bits(), b.to_bits()), a < b, "{} < {}", a, b);
        }
    }
}

#[test]
fn conversions_wrap_and_unwrap() {
    assert_eq!(Value::from(true), Value::Bool(true));
    assert_eq!(Value::from("a".to_string()), text("a"));
    assert!(Value::Bool(true).as_bool());
    assert_eq!(number(2.0).as_number(), 2f64.to_bits());
    assert_eq!(text("a").as_string(), "a");
    assert_eq!(Value::Fun(5).as_function(), 5);
}

#[test]
fn function_new_keeps_its_parts() {
    let mut chunk = Chunk::new();
    chunk.write_chunk(1, 7);
    let index = chunk.add_constant(Value::Nil);
    assert_eq!(index, 0);
    assert_eq!(chunk.add_constant(text("a")), 1);
    let function = Function::new(2, chunk.clone(), Some("f".to_string()));
    assert_eq!(function.arity, 2);
    assert_eq!(function.name, Some("f".to_string()));
    assert_eq!(function.chunk.code, vec![1]);
    assert_eq!(function.chunk.lines, vec![7]);
    assert_eq!(function.chunk.constants, vec![Value::Nil, text("a")]);
    let copy = function.clone();
    assert_eq!(copy.chunk.constants, function.chunk.constants);
    chunk.free_chunk();
    assert!(chunk.code.is_empty() && chunk.lines.is_empty() && chunk.constants.is_empty());
}

#[test]
fn precedence_levels_are_in_order() {
    let levels = [
        Precedence::PrecNone,
        Precedence::PrecAssignment,
        Precedence::PrecOr,
        Precedence::PrecAnd,
        Precedence::PrecEquality,
        Precedence::PrecComparison,
        Precedence::PrecTerm,
        Precedence::PrecFactor,
        Precedence::PrecUnary,
        Precedence::PrecCall,
        Precedence::PrecPrimary,
    ];
    for (i, level) in levels.iter().enumerate() {
        assert_eq!(level.level() as usize, i);
        assert_eq!(Precedence::from_level(i as u8), Some(*level));
        if i + 1 < levels.len() {
            assert_eq!(level.next(), levels[i + 1]);
            assert_eq!(levels[i + 1].previous(), *level);
            assert!(level.at_most(levels[i + 1]));
            assert!(!levels[i + 1].at_most(*level));
        }
        assert!(level.at_most(*level));
    }
    assert_eq!(Precedence::from_level(11), None);
}

#[test]
fn rule_table_has_the_canonical_entries() {
    let paren = get_rule(TokenType::TokenLeftParen);
    assert_eq!(paren.prefix, Some(ParseFn::Grouping));
    assert_eq!(paren.infix, Some(ParseFn::Call));
    assert_eq!(paren.precedence, Precedence::PrecCall);
    let minus = get_rule(TokenType::TokenMinus);
    assert_eq!(minus.prefix, Some(ParseFn::Unary));
    assert_eq!(minus.infix, Some(ParseFn::Binary));
    assert_eq!(minus.precedence, Precedence::PrecTerm);
    assert_eq!(get_rule(TokenType::TokenPlus).precedence, Precedence::PrecTerm);
    assert_eq!(get_rule(TokenType::TokenStar).precedence, Precedence::PrecFactor);
    assert_eq!(get_rule(TokenType::TokenSlash).precedence, Precedence::PrecFactor);
    assert_eq!(get_rule(TokenType::TokenCarat).precedence, Precedence::PrecFactor);
    assert_eq!(get_rule(TokenType::TokenBang).prefix, Some(ParseFn::Unary));
    assert_eq!(get_rule(TokenType::TokenBang).precedence, Precedence::PrecNone);
    assert_eq!(get_rule(TokenType::TokenBangEqual).precedence, Precedence::PrecEquality);
    assert_eq!(get_rule(TokenType::TokenLessEqual).precedence, Precedence::PrecComparison);
    assert_eq!(get_rule(TokenType::TokenAnd).infix, Some(ParseFn::And));
    assert_eq!(get_rule(TokenType::TokenOr).precedence, Precedence::PrecOr);
    assert_eq!(get_rule(TokenType::TokenIdentifier).prefix, Some(ParseFn::Variable));
    assert_eq!(get_rule(TokenType::TokenNil).prefix, Some(ParseFn::Literal));
    let other = get_rule(TokenType::TokenPlusEqual);
    assert_eq!(other.prefix, None);
    assert_eq!(other.infix, None);
    assert_eq!(other.precedence, Precedence::PrecNone);
}

#[test]
fn decimal_numerals() {
    assert_eq!(decimal(0), "0");
    assert_eq!(decimal(7), "7");
    assert_eq!(decimal(10), "10");
    assert_eq!(decimal(1234567890), "1234567890");
    assert_eq!(decimal(usize::MAX), usize::MAX.to_string());
}

#[test]
fn number_literals_are_listed_in_order() {
    assert_eq!(
        number_literals("var a = 1.5; print a + 20; // 3\n \"4\" 5. x6"),
        vec!["1.5", "20", "5"]
    );
    assert!(number_literals("print a;").is_empty());
}
