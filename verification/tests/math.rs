use ruster::math::{looks_like_a_sum, parse_sum, Constant, Expr, Func, MathProvider, Op, Parser};
use ruster::provider::{Activation, CONFIDENCE_MAX};

/// The tree, fully bracketed.
fn show(e: &Expr) -> String {
    match e {
        Expr::Num(t) => t.clone(),
        Expr::Const(Constant::Pi) => "pi".into(),
        Expr::Const(Constant::E) => "e".into(),
        Expr::Call(f, a) => format!("{f:?}({})", show(a)),
        Expr::Neg(a) => format!("(-{})", show(a)),
        Expr::Bin(op, a, b) => {
            let sym = match op {
                Op::Add => "+",
                Op::Sub => "-",
                Op::Mul => "*",
                Op::Div => "/",
                Op::Rem => "%",
                Op::Pow => "^",
            };
            format!("({}{sym}{})", show(a), show(b))
        }
    }
}

fn tree(text: &str) -> Option<String> {
    parse_sum(text).map(|e| show(&e))
}

/// Evaluate the way the launcher does: floats, with a non-finite function
/// result or final answer refused.
fn eval(text: &str) -> Option<f64> {
    fn go(e: &Expr) -> Option<f64> {
        Some(match e {
            Expr::Num(t) => t.parse().ok()?,
            Expr::Const(Constant::Pi) => std::f64::consts::PI,
            Expr::Const(Constant::E) => std::f64::consts::E,
            Expr::Neg(a) => -go(a)?,
            Expr::Call(f, a) => {
                let x = go(a)?;
                let out = match f {
                    Func::Sqrt => x.sqrt(),
                    Func::Abs => x.abs(),
                    Func::Floor => x.floor(),
                    Func::Ceil => x.ceil(),
                    Func::Round => x.round(),
                    Func::Ln => x.ln(),
                    Func::Log => x.log10(),
                    Func::Log2 => x.log2(),
                    Func::Exp => x.exp(),
                    Func::Sin => x.sin(),
                    Func::Cos => x.cos(),
                    Func::Tan => x.tan(),
                };
                if !out.is_finite() {
                    return None;
                }
                out
            }
            Expr::Bin(op, a, b) => {
                let (x, y) = (go(a)?, go(b)?);
                match op {
                    Op::Add => x + y,
                    Op::Sub => x - y,
                    Op::Mul => x * y,
                    Op::Div => x / y,
                    Op::Rem => x % y,
                    Op::Pow => x.powf(y),
                }
            }
        })
    }
    let v = go(&parse_sum(text)?)?;
    v.is_finite().then_some(v)
}

#[test]
fn precedence_is_not_left_to_right() {
    assert_eq!(eval("2+3*4"), Some(14.0), "not 20");
    assert_eq!(eval("(2+3)*4"), Some(20.0));
    assert_eq!(eval("10-2-3"), Some(5.0), "subtraction stays left-assoc");
    assert_eq!(tree("2+3*4").as_deref(), Some("(2+(3*4))"));
    assert_eq!(tree("10-2-3").as_deref(), Some("((10-2)-3)"));
}

#[test]
fn exponentiation_is_right_associative() {
    assert_eq!(eval("2^3^2"), Some(512.0));
    assert_eq!(eval("2^-1"), Some(0.5), "and a negative exponent parses");
    assert_eq!(tree("2^3^2").as_deref(), Some("(2^(3^2))"));
    assert_eq!(tree("2^-1").as_deref(), Some("(2^(-1))"));
}

#[test]
fn dividing_by_nothing_is_not_an_answer() {
    assert_eq!(eval("1/0"), None, "inf is not a result");
    assert_eq!(eval("5%0"), None);
}

#[test]
fn text_that_is_not_a_sum_is_refused() {
    assert_eq!(eval("firefox"), None);
    assert_eq!(eval("2+2 apples"), None, "trailing junk is not a sum");
    assert_eq!(eval(""), None);
    assert_eq!(eval("()"), None);
    assert!(parse_sum("2+2 apples").is_none());
    assert!(parse_sum("").is_none());
}

#[test]
fn functions_and_constants_evaluate() {
    assert_eq!(eval("sqrt(16)"), Some(4.0));
    assert_eq!(eval("floor(3.7)"), Some(3.0));
    assert_eq!(eval("ln(0)"), None, "-inf is not a result");
    assert!((eval("pi").unwrap() - std::f64::consts::PI).abs() < 1e-12);
}

#[test]
fn whitespace_is_ignored_wherever_it_falls() {
    assert_eq!(tree(" 1 +\t2 ").as_deref(), Some("(1+2)"));
    assert_eq!(tree("s q r t ( 4 )").as_deref(), Some("Sqrt(4)"));
}

#[test]
fn a_number_has_one_point_at_most_and_a_digit_at_least() {
    assert_eq!(tree("1.5").as_deref(), Some("1.5"));
    assert_eq!(tree(".5").as_deref(), Some(".5"));
    assert_eq!(tree("1.").as_deref(), Some("1."));
    assert_eq!(tree("1.2.3"), None);
    assert_eq!(tree("."), None);
}

#[test]
fn an_unknown_name_is_not_a_sum() {
    assert_eq!(tree("foo(1)"), None);
    assert_eq!(tree("tau"), None);
    assert_eq!(tree("log2(8)"), None, "a name is letters only, so this reads as log then 2");
    assert_eq!(tree("sqrt(1"), None, "an unclosed call");
    assert_eq!(tree("(1+2"), None, "an unclosed bracket");
}

#[test]
fn signs_stack_and_bind_tighter_than_operators() {
    assert_eq!(tree("--1").as_deref(), Some("(-(-1))"));
    assert_eq!(tree("+-+1").as_deref(), Some("(-1)"));
    assert_eq!(tree("-2^2").as_deref(), Some("(-(2^2))"));
    assert_eq!(tree("6/3%2").as_deref(), Some("((6/3)%2)"));
    assert_eq!(tree("e*pi").as_deref(), Some("(e*pi)"));
}

#[test]
fn the_parser_reads_one_character_at_a_time() {
    let mut p = Parser::new(" 1 + 2");
    assert_eq!(p.peek(), Some('1'));
    assert!(!p.eat('+'));
    assert!(p.eat('1'));
    assert_eq!(p.peek(), Some('+'));
    assert!(p.eat('+'));
    assert!(p.eat('2'));
    assert_eq!(p.peek(), None);
    assert!(!p.eat('2'));
}

#[test]
fn a_bare_number_offers_nothing() {
    let p = MathProvider;
    assert!(p.sum_in("5").is_none());
    assert!(p.sum_in("firefox").is_none());
    assert!(!looks_like_a_sum("5"));
    assert!(!looks_like_a_sum("firefox"));
    assert!(looks_like_a_sum("5+5"));
    assert!(looks_like_a_sum("(pi"));

    let sum = p.sum_in("5+5").expect("a sum");
    assert_eq!(show(&sum), "(5+5)");
    let hit = p.row("5+5", "10".to_string());
    assert_eq!(hit.label, "10");
    assert_eq!(hit.detail, "= 5+5");
    assert_eq!(hit.score, CONFIDENCE_MAX);
    assert_eq!(hit.activation, Activation::Copy("10".into()));
    assert_eq!(p.name(), "maths");
}
