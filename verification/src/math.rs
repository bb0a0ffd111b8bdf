//! Arithmetic in the launcher: the grammar of a sum.
//!
//! Recursive descent over the query with its whitespace removed:
//!
//! ```text
//! expr  := term (('+' | '-') term)*
//! term  := unary (('*' | '/' | '%') unary)*
//! unary := '-' unary | '+' unary | power
//! power := atom ('^' unary)?
//! atom  := '(' expr ')' | name '(' expr ')' | name | number
//! ```
//!
//! A name is a run of ASCII letters; a number a run of digits and dots with
//! at least one digit and at most one dot. `^` is right-associative, and
//! because its exponent is a `unary`, `2^-1` parses. The result is a syntax
//! tree; what it evaluates to is arithmetic on floats, done by the caller.
use vstd::prelude::*;

use crate::action::is_digit;
use crate::provider::{Activation, Candidate, CONFIDENCE_MAX};
use crate::text::{is_white, is_whitespace, slice_of, string_from, to_chars};

verus! {

/// A binary operator.
#[derive(Debug, Clone, Copy, PartialEq, Eq, Structural)]
pub enum Op {
    Add,
    Sub,
    Mul,
    Div,
    Rem,
    Pow,
}

/// A function a sum may call.
#[derive(Debug, Clone, Copy, PartialEq, Eq, Structural)]
pub enum Func {
    Sqrt,
    Abs,
    Floor,
    Ceil,
    Round,
    Ln,
    Log,
    Log2,
    Exp,
    Sin,
    Cos,
    Tan,
}

/// A named constant.
#[derive(Debug, Clone, Copy, PartialEq, Eq, Structural)]
pub enum Constant {
    Pi,
    E,
}

/// A parsed sum.
#[derive(Debug)]
pub enum Expr {
    /// A decimal number, as written.
    Num(String),
    Const(Constant),
    Call(Func, Box<Expr>),
    Neg(Box<Expr>),
    Bin(Op, Box<Expr>, Box<Expr>),
}

/// A parsed sum, with its numbers as characters.
pub enum ExprView {
    Num(Seq<char>),
    Const(Constant),
    Call(Func, Box<ExprView>),
    Neg(Box<ExprView>),
    Bin(Op, Box<ExprView>, Box<ExprView>),
}

/// The view of a syntax tree.
pub open spec fn expr_view(e: Expr) -> ExprView
    decreases e,
{
    match e {
        Expr::Num(t) => ExprView::Num(t@),
        Expr::Const(c) => ExprView::Const(c),
        Expr::Call(f, a) => ExprView::Call(f, Box::new(expr_view(*a))),
        Expr::Neg(a) => ExprView::Neg(Box::new(expr_view(*a))),
        Expr::Bin(o, a, b) => ExprView::Bin(o, Box::new(expr_view(*a)), Box::new(expr_view(*b))),
    }
}

/// The view of an optional syntax tree.
pub open spec fn opt_expr(e: Option<Expr>) -> Option<ExprView> {
    match e {
        Some(e) => Some(expr_view(e)),
        None => None,
    }
}

/// `char::is_ascii_alphabetic`.
pub open spec fn is_alpha(c: char) -> bool {
    ('a' <= c && c <= 'z') || ('A' <= c && c <= 'Z')
}

/// A character a number is made of: a digit or a dot.
pub open spec fn is_num_char(c: char) -> bool {
    is_digit(c) || c == '.'
}

/// The end of the run of letters starting at `p`.
pub open spec fn alpha_end(s: Seq<char>, p: int) -> int
    decreases s.len() - p,
{
    if 0 <= p < s.len() && is_alpha(s[p]) {
        alpha_end(s, p + 1)
    } else {
        p
    }
}

/// The end of the run of digits and dots starting at `p`.
pub open spec fn num_end(s: Seq<char>, p: int) -> int
    decreases s.len() - p,
{
    if 0 <= p < s.len() && is_num_char(s[p]) {
        num_end(s, p + 1)
    } else {
        p
    }
}

pub proof fn lemma_alpha_end(s: Seq<char>, p: int)
    requires
        0 <= p <= s.len(),
    ensures
        p <= alpha_end(s, p) <= s.len(),
        forall|i: int| p <= i < alpha_end(s, p) ==> is_alpha(#[trigger] s[i]),
    decreases s.len() - p,
{
    if p < s.len() && is_alpha(s[p]) {
        lemma_alpha_end(s, p + 1);
    }
}

pub proof fn lemma_num_end(s: Seq<char>, p: int)
    requires
        0 <= p <= s.len(),
    ensures
        p <= num_end(s, p) <= s.len(),
        forall|i: int| p <= i < num_end(s, p) ==> is_num_char(#[trigger] s[i]),
    decreases s.len() - p,
{
    if p < s.len() && is_num_char(s[p]) {
        lemma_num_end(s, p + 1);
    }
}

/// A number as written: at least one digit and at most one dot.
pub open spec fn decimal(t: Seq<char>) -> bool {
    &&& exists|i: int| 0 <= i < t.len() && is_digit(#[trigger] t[i])
    &&& forall|i: int, j: int| 0 <= i < j < t.len() && #[trigger] t[i] == '.' ==> #[trigger] t[j] != '.'
}

/// The function a name calls.
pub open spec fn func_named(name: Seq<char>) -> Option<Func> {
    if name == "sqrt"@ {
        Some(Func::Sqrt)
    } else if name == "abs"@ {
        Some(Func::Abs)
    } else if name == "floor"@ {
        Some(Func::Floor)
    } else if name == "ceil"@ {
        Some(Func::Ceil)
    } else if name == "round"@ {
        Some(Func::Round)
    } else if name == "ln"@ {
        Some(Func::Ln)
    } else if name == "log"@ {
        Some(Func::Log)
    } else if name == "log2"@ {
        Some(Func::Log2)
    } else if name == "exp"@ {
        Some(Func::Exp)
    } else if name == "sin"@ {
        Some(Func::Sin)
    } else if name == "cos"@ {
        Some(Func::Cos)
    } else if name == "tan"@ {
        Some(Func::Tan)
    } else {
        None
    }
}

/// The constant a name stands for.
pub open spec fn const_named(name: Seq<char>) -> Option<Constant> {
    if name == "pi"@ {
        Some(Constant::Pi)
    } else if name == "e"@ {
        Some(Constant::E)
    } else {
        None
    }
}

/// The name each function is called by.
pub open spec fn func_name(f: Func) -> Seq<char> {
    match f {
        Func::Sqrt => "sqrt"@,
        Func::Abs => "abs"@,
        Func::Floor => "floor"@,
        Func::Ceil => "ceil"@,
        Func::Round => "round"@,
        Func::Ln => "ln"@,
        Func::Log => "log"@,
        Func::Log2 => "log2"@,
        Func::Exp => "exp"@,
        Func::Sin => "sin"@,
        Func::Cos => "cos"@,
        Func::Tan => "tan"@,
    }
}

/// The name each constant is written as.
pub open spec fn const_name(c: Constant) -> Seq<char> {
    match c {
        Constant::Pi => "pi"@,
        Constant::E => "e"@,
    }
}

/// A name calls a function exactly when it is that function's own name:
/// `tan` calls the tangent and nothing else, and no two functions share a
/// name. The same holds of the constants `pi` and `e`.
pub proof fn law_a_name_calls_the_function_of_that_name(name: Seq<char>, f: Func, c: Constant)
    ensures
        func_named(name) == Some(f) <==> name == func_name(f),
        const_named(name) == Some(c) <==> name == const_name(c),
{
    reveal_strlit("sqrt");
    assert("sqrt"@ =~= seq!['s', 'q', 'r', 't']);
    assert(("sqrt"@)[0] == 's' && ("sqrt"@)[1] == 'q' && ("sqrt"@)[2] == 'r'
        && ("sqrt"@)[3] == 't');
    reveal_strlit("abs");
    assert("abs"@ =~= seq!['a', 'b', 's']);
    assert(("abs"@)[0] == 'a' && ("abs"@)[1] == 'b' && ("abs"@)[2] == 's');
    reveal_strlit("floor");
    assert("floor"@ =~= seq!['f', 'l', 'o', 'o', 'r']);
    assert(("floor"@)[0] == 'f' && ("floor"@)[1] == 'l' && ("floor"@)[2] == 'o'
        && ("floor"@)[3] == 'o' && ("floor"@)[4] == 'r');
    reveal_strlit("ceil");
    assert("ceil"@ =~= seq!['c', 'e', 'i', 'l']);
    assert(("ceil"@)[0] == 'c' && ("ceil"@)[1] == 'e' && ("ceil"@)[2] == 'i'
        && ("ceil"@)[3] == 'l');
    reveal_strlit("round");
    assert("round"@ =~= seq!['r', 'o', 'u', 'n', 'd']);
    assert(("round"@)[0] == 'r' && ("round"@)[1] == 'o' && ("round"@)[2] == 'u'
        && ("round"@)[3] == 'n' && ("round"@)[4] == 'd');
    reveal_strlit("ln");
    assert("ln"@ =~= seq!['l', 'n']);
    assert(("ln"@)[0] == 'l' && ("ln"@)[1] == 'n');
    reveal_strlit("log");
    assert("log"@ =~= seq!['l', 'o', 'g']);
    assert(("log"@)[0] == 'l' && ("log"@)[1] == 'o' && ("log"@)[2] == 'g');
    reveal_strlit("log2");
    assert("log2"@ =~= seq!['l', 'o', 'g', '2']);
    assert(("log2"@)[0] == 'l' && ("log2"@)[1] == 'o' && ("log2"@)[2] == 'g'
        && ("log2"@)[3] == '2');
    reveal_strlit("exp");
    assert("exp"@ =~= seq!['e', 'x', 'p']);
    assert(("exp"@)[0] == 'e' && ("exp"@)[1] == 'x' && ("exp"@)[2] == 'p');
    reveal_strlit("sin");
    assert("sin"@ =~= seq!['s', 'i', 'n']);
    assert(("sin"@)[0] == 's' && ("sin"@)[1] == 'i' && ("sin"@)[2] == 'n');
    reveal_strlit("cos");
    assert("cos"@ =~= seq!['c', 'o', 's']);
    assert(("cos"@)[0] == 'c' && ("cos"@)[1] == 'o' && ("cos"@)[2] == 's');
    reveal_strlit("tan");
    assert("tan"@ =~= seq!['t', 'a', 'n']);
    assert(("tan"@)[0] == 't' && ("tan"@)[1] == 'a' && ("tan"@)[2] == 'n');
    reveal_strlit("pi");
    assert("pi"@ =~= seq!['p', 'i']);
    assert(("pi"@)[0] == 'p' && ("pi"@)[1] == 'i');
    reveal_strlit("e");
    assert("e"@ =~= seq!['e']);
    assert(("e"@)[0] == 'e');
}

/// Whether a parse that began at `p` ended somewhere after it, inside `s`.
pub open spec fn advanced(s: Seq<char>, p: int, q: int) -> bool {
    p < q <= s.len()
}

/// The tree joining `l` and `r` with `op`.
pub open spec fn bin(op: Op, l: ExprView, r: ExprView) -> ExprView {
    ExprView::Bin(op, Box::new(l), Box::new(r))
}

/// `expr` at `p`: the tree and where it ended.
pub open spec fn expr_at(s: Seq<char>, p: int) -> Option<(ExprView, int)>
    decreases s.len() - p, 7int,
{
    match term_at(s, p) {
        Some((l, q)) => if advanced(s, p, q) {
            expr_rest(s, l, q)
        } else {
            None
        },
        None => None,
    }
}

/// The `(('+' | '-') term)*` after `l`, which ended at `p`.
pub open spec fn expr_rest(s: Seq<char>, l: ExprView, p: int) -> Option<(ExprView, int)>
    decreases s.len() - p, 6int,
{
    if 0 <= p < s.len() && (s[p] == '+' || s[p] == '-') {
        let op = if s[p] == '+' {
            Op::Add
        } else {
            Op::Sub
        };
        match term_at(s, p + 1) {
            Some((r, q)) => if advanced(s, p + 1, q) {
                expr_rest(s, bin(op, l, r), q)
            } else {
                None
            },
            None => None,
        }
    } else {
        Some((l, p))
    }
}

/// `term` at `p`.
pub open spec fn term_at(s: Seq<char>, p: int) -> Option<(ExprView, int)>
    decreases s.len() - p, 5int,
{
    match unary_at(s, p) {
        Some((l, q)) => if advanced(s, p, q) {
            term_rest(s, l, q)
        } else {
            None
        },
        None => None,
    }
}

/// The `(('*' | '/' | '%') unary)*` after `l`, which ended at `p`.
pub open spec fn term_rest(s: Seq<char>, l: ExprView, p: int) -> Option<(ExprView, int)>
    decreases s.len() - p, 4int,
{
    if 0 <= p < s.len() && (s[p] == '*' || s[p] == '/' || s[p] == '%') {
        let op = if s[p] == '*' {
            Op::Mul
        } else if s[p] == '/' {
            Op::Div
        } else {
            Op::Rem
        };
        match unary_at(s, p + 1) {
            Some((r, q)) => if advanced(s, p + 1, q) {
                term_rest(s, bin(op, l, r), q)
            } else {
                None
            },
            None => None,
        }
    } else {
        Some((l, p))
    }
}

/// `unary` at `p`.
pub open spec fn unary_at(s: Seq<char>, p: int) -> Option<(ExprView, int)>
    decreases s.len() - p, 3int,
{
    if 0 <= p < s.len() && s[p] == '-' {
        match unary_at(s, p + 1) {
            Some((e, q)) => Some((ExprView::Neg(Box::new(e)), q)),
            None => None,
        }
    } else if 0 <= p < s.len() && s[p] == '+' {
        unary_at(s, p + 1)
    } else {
        power_at(s, p)
    }
}

/// `power` at `p`.
pub open spec fn power_at(s: Seq<char>, p: int) -> Option<(ExprView, int)>
    decreases s.len() - p, 2int,
{
    match atom_at(s, p) {
        Some((b, q)) => if advanced(s, p, q) {
            if q < s.len() && s[q] == '^' {
                match unary_at(s, q + 1) {
                    Some((e, q2)) => Some((bin(Op::Pow, b, e), q2)),
                    None => None,
                }
            } else {
                Some((b, q))
            }
        } else {
            None
        },
        None => None,
    }
}

/// `atom` at `p`.
pub open spec fn atom_at(s: Seq<char>, p: int) -> Option<(ExprView, int)>
    decreases s.len() - p, 1int,
{
    if 0 <= p < s.len() && s[p] == '(' {
        match expr_at(s, p + 1) {
            Some((e, q)) => if 0 <= q < s.len() && s[q] == ')' {
                Some((e, q + 1))
            } else {
                None
            },
            None => None,
        }
    } else if 0 <= p < s.len() && is_alpha(s[p]) {
        let q = alpha_end(s, p);
        proof {
            lemma_alpha_end(s, p);
        }
        let name = s.subrange(p, q);
        if q < s.len() && s[q] == '(' {
            match expr_at(s, q + 1) {
                Some((arg, q2)) => if 0 <= q2 < s.len() && s[q2] == ')' {
                    match func_named(name) {
                        Some(f) => Some((ExprView::Call(f, Box::new(arg)), q2 + 1)),
                        None => None,
                    }
                } else {
                    None
                },
                None => None,
            }
        } else {
            match const_named(name) {
                Some(c) => Some((ExprView::Const(c), q)),
                None => None,
            }
        }
    } else if 0 <= p <= s.len() {
        let q = num_end(s, p);
        proof {
            lemma_num_end(s, p);
        }
        let t = s.subrange(p, q);
        if q > p && decimal(t) {
            Some((ExprView::Num(t), q))
        } else {
            None
        }
    } else {
        None
    }
}

/// The query with its whitespace removed: what the grammar reads.
pub open spec fn squeezed(text: Seq<char>) -> Seq<char> {
    text.filter(|c: char| !is_white(c))
}

/// The sum `text` spells: an `expr` covering the whole of it, whitespace
/// ignored, or `None` when it is not one.
pub open spec fn sum_of(text: Seq<char>) -> Option<ExprView> {
    let s = squeezed(text);
    match expr_at(s, 0) {
        Some((e, q)) => if q == s.len() {
            Some(e)
        } else {
            None
        },
        None => None,
    }
}

/// A run of letters from `p` to `q`, with no letter at `q`, ends at `q`.
proof fn lemma_alpha_run(s: Seq<char>, p: int, q: int)
    requires
        0 <= p <= q <= s.len(),
        forall|i: int| p <= i < q ==> is_alpha(#[trigger] s[i]),
        q == s.len() || !is_alpha(s[q]),
    ensures
        alpha_end(s, p) == q,
    decreases q - p,
{
    if p < q {
        lemma_alpha_run(s, p + 1, q);
    }
}

/// A run of digits and dots from `p` to `q`, with none at `q`, ends at `q`.
proof fn lemma_num_run(s: Seq<char>, p: int, q: int)
    requires
        0 <= p <= q <= s.len(),
        forall|i: int| p <= i < q ==> is_num_char(#[trigger] s[i]),
        q == s.len() || !is_num_char(s[q]),
    ensures
        num_end(s, p) == q,
    decreases q - p,
{
    if p < q {
        lemma_num_run(s, p + 1, q);
    }
}

/// Text with no whitespace in it is read as it stands.
proof fn lemma_squeezed_solid(t: Seq<char>)
    requires
        forall|i: int| 0 <= i < t.len() ==> !is_white(#[trigger] t[i]),
    ensures
        squeezed(t) == t,
    decreases t.len(),
{
    broadcast use Seq::lemma_filter_push;

    if t.len() > 0 {
        lemma_squeezed_solid(t.drop_last());
        assert(t.drop_last().push(t.last()) =~= t);
    } else {
        assert(t.filter(|c: char| !is_white(c)) =~= t) by {
            reveal(Seq::filter);
        }
    }
}

/// Each function name is a run of letters, except `log2`.
proof fn lemma_func_name_letters(f: Func)
    requires
        f != Func::Log2,
    ensures
        func_name(f).len() > 0,
        forall|i: int| 0 <= i < func_name(f).len() ==> is_alpha(#[trigger] func_name(f)[i]),
{
    reveal_strlit("sqrt");
    reveal_strlit("abs");
    reveal_strlit("floor");
    reveal_strlit("ceil");
    reveal_strlit("round");
    reveal_strlit("ln");
    reveal_strlit("log");
    reveal_strlit("exp");
    reveal_strlit("sin");
    reveal_strlit("cos");
    reveal_strlit("tan");
}

/// A number in digits at `a`, closed by `)` at `z`, is read as that number.
proof fn lemma_number_reads(s: Seq<char>, a: int, z: int)
    requires
        0 <= a < z < s.len(),
        forall|i: int| a <= i < z ==> is_digit(#[trigger] s[i]),
        s[z] == ')',
    ensures
        expr_at(s, a) == Some((ExprView::Num(s.subrange(a, z)), z)),
{
    assert forall|i: int| a <= i < z implies is_num_char(#[trigger] s[i]) by {}
    lemma_num_run(s, a, z);
    let t = s.subrange(a, z);
    assert(is_digit(t[0]));
    assert forall|i: int, j: int|
        0 <= i < j < t.len() && #[trigger] t[i] == '.' implies #[trigger] t[j] != '.' by {
        assert(is_digit(s[a + i]));
    }
    assert(decimal(t));
    let num = ExprView::Num(t);
    assert(atom_at(s, a) == Some((num, z)));
    assert(power_at(s, a) == Some((num, z)));
    assert(unary_at(s, a) == Some((num, z)));
    assert(term_rest(s, num, z) == Some((num, z)));
    assert(term_at(s, a) == Some((num, z)));
    assert(expr_rest(s, num, z) == Some((num, z)));
}

/// A name of letters, `(`, an argument and the closing `)` that ends the
/// text, is read as a call of the function the name calls.
proof fn lemma_call_reads(s: Seq<char>, n: int, f: Func, arg: ExprView, z: int)
    requires
        0 < n,
        z + 1 == s.len(),
        forall|i: int| 0 <= i < n ==> is_alpha(#[trigger] s[i]),
        s[n] == '(',
        s[z] == ')',
        func_named(s.subrange(0, n)) == Some(f),
        expr_at(s, n + 1) == Some((arg, z)),
    ensures
        expr_at(s, 0) == Some((ExprView::Call(f, Box::new(arg)), s.len() as int)),
{
    lemma_alpha_run(s, 0, n);
    let call = ExprView::Call(f, Box::new(arg));
    let end = s.len() as int;
    assert(atom_at(s, 0) == Some((call, end)));
    assert(power_at(s, 0) == Some((call, end)));
    assert(unary_at(s, 0) == Some((call, end)));
    assert(term_rest(s, call, end) == Some((call, end)));
    assert(term_at(s, 0) == Some((call, end)));
    assert(expr_rest(s, call, end) == Some((call, end)));
}

/// Letters, digits and brackets are not whitespace.
proof fn lemma_solid_char(c: char)
    requires
        is_alpha(c) || is_digit(c) || c == '(' || c == ')',
    ensures
        !is_white(c),
{
}

/// The parts of `name(t)`: the name, the brackets and the argument.
proof fn lemma_call_text(name: Seq<char>, t: Seq<char>)
    ensures
        ({
            let s = name + "("@ + t + ")"@;
            let a = name.len() + 1int;
            &&& s.len() == a + t.len() + 1
            &&& s[name.len() as int] == '('
            &&& s[a + t.len()] == ')'
            &&& s.subrange(0, name.len() as int) == name
            &&& s.subrange(a, a + t.len()) == t
            &&& forall|i: int| 0 <= i < name.len() ==> #[trigger] s[i] == name[i]
            &&& forall|i: int| a <= i < a + t.len() ==> #[trigger] s[i] == t[i - a]
        }),
{
    reveal_strlit("(");
    reveal_strlit(")");
    let s = name + "("@ + t + ")"@;
    let a = name.len() + 1int;
    assert(s.subrange(0, name.len() as int) =~= name);
    assert(s.subrange(a, a + t.len()) =~= t);
}

/// A name of letters that calls `f`, applied to a number in digits, is read
/// as that call.
proof fn lemma_named_call_reads(name: Seq<char>, f: Func, t: Seq<char>)
    requires
        name.len() > 0,
        forall|i: int| 0 <= i < name.len() ==> is_alpha(#[trigger] name[i]),
        func_named(name) == Some(f),
        t.len() > 0,
        forall|i: int| 0 <= i < t.len() ==> is_digit(#[trigger] t[i]),
    ensures
        sum_of(name + "("@ + t + ")"@) == Some(ExprView::Call(f, Box::new(ExprView::Num(t)))),
{
    let s = name + "("@ + t + ")"@;
    let n = name.len() as int;
    let a = n + 1;
    let z = a + t.len();
    lemma_call_text(name, t);
    assert(squeezed(s) == s) by {
        assert forall|i: int| 0 <= i < s.len() implies !is_white(#[trigger] s[i]) by {
            if i < n {
                assert(s[i] == name[i]);
            } else if a <= i < z {
                assert(s[i] == t[i - a]);
            }
            lemma_solid_char(s[i]);
        }
        lemma_squeezed_solid(s);
    }
    assert forall|i: int| a <= i < z implies is_digit(#[trigger] s[i]) by {
        assert(s[i] == t[i - a]);
    }
    lemma_number_reads(s, a, z);
    assert forall|i: int| 0 <= i < n implies is_alpha(#[trigger] s[i]) by {
        assert(s[i] == name[i]);
    }
    lemma_call_reads(s, n, f, ExprView::Num(t), z);
}

/// A function called on a number is read as that call: `tan(0)` is the
/// tangent of 0, for each function whose name is all letters and any number
/// written in digits alone.
pub proof fn law_a_call_reads_as_that_function(f: Func, t: Seq<char>)
    requires
        f != Func::Log2,
        t.len() > 0,
        forall|i: int| 0 <= i < t.len() ==> is_digit(#[trigger] t[i]),
    ensures
        sum_of(func_name(f) + "("@ + t + ")"@) == Some(
            ExprView::Call(f, Box::new(ExprView::Num(t))),
        ),
{
    lemma_func_name_letters(f);
    law_a_name_calls_the_function_of_that_name(func_name(f), f, Constant::Pi);
    lemma_named_call_reads(func_name(f), f, t);
}

/// `char::is_ascii_alphabetic`.
fn is_alpha_char(c: char) -> (r: bool)
    ensures
        r == is_alpha(c),
{
    ('a' <= c && c <= 'z') || ('A' <= c && c <= 'Z')
}

/// A digit or a dot.
fn is_num_char_exec(c: char) -> (r: bool)
    ensures
        r == is_num_char(c),
{
    ('0' <= c && c <= '9') || c == '.'
}

/// Whether `t` is a number as written (see [`decimal`]).
fn is_decimal(t: &Vec<char>) -> (r: bool)
    ensures
        r == decimal(t@),
{
    let mut digit = false;
    let mut dot = false;
    let mut i: usize = 0;
    while i < t.len()
        invariant
            i <= t.len(),
            digit == exists|k: int| 0 <= k < i && is_digit(#[trigger] t@[k]),
            dot == exists|k: int| 0 <= k < i && #[trigger] t@[k] == '.',
            forall|a: int, b: int| 0 <= a < b < i && #[trigger] t@[a] == '.' ==> #[trigger] t@[b] != '.',
        decreases t.len() - i,
    {
        let c = t[i];
        if c == '.' {
            if dot {
                assert(!decimal(t@)) by {
                    let a = choose|k: int| 0 <= k < i && #[trigger] t@[k] == '.';
                    assert(t@[a] == '.' && t@[i as int] == '.');
                }
                return false;
            }
            dot = true;
        } else if '0' <= c && c <= '9' {
            digit = true;
        }
        i += 1;
    }
    digit
}

/// The function `name` calls, if any.
fn func_of(name: &Vec<char>) -> (r: Option<Func>)
    ensures
        r == func_named(name@),
{
    if crate::text::eq_lit(name, "sqrt") {
        Some(Func::Sqrt)
    } else if crate::text::eq_lit(name, "abs") {
        Some(Func::Abs)
    } else if crate::text::eq_lit(name, "floor") {
        Some(Func::Floor)
    } else if crate::text::eq_lit(name, "ceil") {
        Some(Func::Ceil)
    } else if crate::text::eq_lit(name, "round") {
        Some(Func::Round)
    } else if crate::text::eq_lit(name, "ln") {
        Some(Func::Ln)
    } else if crate::text::eq_lit(name, "log") {
        Some(Func::Log)
    } else if crate::text::eq_lit(name, "log2") {
        Some(Func::Log2)
    } else if crate::text::eq_lit(name, "exp") {
        Some(Func::Exp)
    } else if crate::text::eq_lit(name, "sin") {
        Some(Func::Sin)
    } else if crate::text::eq_lit(name, "cos") {
        Some(Func::Cos)
    } else if crate::text::eq_lit(name, "tan") {
        Some(Func::Tan)
    } else {
        None
    }
}

/// The constant `name` stands for, if any.
fn const_of(name: &Vec<char>) -> (r: Option<Constant>)
    ensures
        r == const_named(name@),
{
    if crate::text::eq_lit(name, "pi") {
        Some(Constant::Pi)
    } else if crate::text::eq_lit(name, "e") {
        Some(Constant::E)
    } else {
        None
    }
}

/// A sum being read: the query with its whitespace removed, and how far
/// the grammar has got.
pub struct Parser {
    chars: Vec<char>,
    at: usize,
}

impl Parser {
    /// What is being read.
    pub closed spec fn text(&self) -> Seq<char> {
        self.chars@
    }

    /// How far it has been read.
    pub closed spec fn pos(&self) -> int {
        self.at as int
    }

    /// The position is inside the text, or at its end.
    pub closed spec fn ok(&self) -> bool {
        self.at <= self.chars@.len()
    }

    /// A parser at the start of `expr`, whitespace removed.
    pub fn new(expr: &str) -> (p: Parser)
        ensures
            p.text() == squeezed(expr@),
            p.pos() == 0,
            p.ok(),
    {
        let v = to_chars(expr);
        let mut chars: Vec<char> = Vec::new();
        let mut i: usize = 0;
        proof {
            reveal(Seq::filter);
            assert(v@.take(0) =~= Seq::<char>::empty());
        }
        while i < v.len()
            invariant
                i <= v.len(),
                v@ == expr@,
                chars@ == squeezed(v@.take(i as int)),
            decreases v.len() - i,
        {
            let c = v[i];
            assert(v@.take(i + 1) =~= v@.take(i as int).push(c));
            assert(squeezed(v@.take(i + 1)) == squeezed(v@.take(i as int).push(c)));
            proof {
                broadcast use Seq::lemma_filter_push;
            }
            if !is_whitespace(c) {
                chars.push(c);
            }
            i += 1;
        }
        assert(v@.take(i as int) =~= v@);
        Parser { chars, at: 0 }
    }

    /// The character at the position, if any is left.
    pub fn peek(&self) -> (r: Option<char>)
        ensures
            r == if 0 <= self.pos() < self.text().len() {
                Some(self.text()[self.pos()])
            } else {
                None::<char>
            },
    {
        if self.at < self.chars.len() {
            Some(self.chars[self.at])
        } else {
            None
        }
    }

    /// Step past `c` if it is next, reporting whether it was.
    pub fn eat(&mut self, c: char) -> (r: bool)
        requires
            old(self).ok(),
        ensures
            final(self).text() == old(self).text(),
            final(self).ok(),
            r == (old(self).pos() < old(self).text().len() && old(self).text()[old(self).pos()] == c),
            final(self).pos() == if r {
                old(self).pos() + 1
            } else {
                old(self).pos()
            },
    {
        if self.at < self.chars.len() && self.chars[self.at] == c {
            self.at += 1;
            return true;
        }
        false
    }

    /// `expr` from the position.
    fn expr(&mut self) -> (r: Option<Expr>)
        requires
            old(self).ok(),
        ensures
            final(self).text() == old(self).text(),
            final(self).ok(),
            r is Some ==> advanced(old(self).text(), old(self).pos(), final(self).pos()),
            match expr_at(old(self).text(), old(self).pos()) {
                Some((e, q)) => r matches Some(x) && expr_view(x) == e && final(self).pos() == q,
                None => r is None,
            },
        decreases old(self).text().len() - old(self).pos(), 7int,
    {
        let ghost s = self.text();
        let ghost p0 = self.pos();
        let mut lhs = match self.term() {
            Some(l) => l,
            None => {
                return None;
            },
        };
        loop
            invariant
                s == old(self).text(),
                p0 == old(self).pos(),
                self.text() == s,
                self.ok(),
                advanced(s, p0, self.pos()),
                expr_at(s, p0) == expr_rest(s, expr_view(lhs), self.pos()),
            decreases s.len() - self.pos(),
        {
            let ghost l0 = expr_view(lhs);
            let ghost at0 = self.pos();
            if self.eat('+') {
                match self.term() {
                    Some(r) => {
                        assert(expr_view(Expr::Bin(Op::Add, Box::new(lhs), Box::new(r))) == bin(
                            Op::Add,
                            l0,
                            expr_view(r),
                        ));
                        lhs = Expr::Bin(Op::Add, Box::new(lhs), Box::new(r));
                    },
                    None => {
                        return None;
                    },
                }
            } else if self.eat('-') {
                match self.term() {
                    Some(r) => {
                        assert(expr_view(Expr::Bin(Op::Sub, Box::new(lhs), Box::new(r))) == bin(
                            Op::Sub,
                            l0,
                            expr_view(r),
                        ));
                        lhs = Expr::Bin(Op::Sub, Box::new(lhs), Box::new(r));
                    },
                    None => {
                        return None;
                    },
                }
            } else {
                return Some(lhs);
            }
        }
    }

    /// `term` from the position.
    fn term(&mut self) -> (r: Option<Expr>)
        requires
            old(self).ok(),
        ensures
            final(self).text() == old(self).text(),
            final(self).ok(),
            r is Some ==> advanced(old(self).text(), old(self).pos(), final(self).pos()),
            match term_at(old(self).text(), old(self).pos()) {
                Some((e, q)) => r matches Some(x) && expr_view(x) == e && final(self).pos() == q,
                None => r is None,
            },
        decreases old(self).text().len() - old(self).pos(), 5int,
    {
        let ghost s = self.text();
        let ghost p0 = self.pos();
        let mut lhs = match self.unary() {
            Some(l) => l,
            None => {
                return None;
            },
        };
        loop
            invariant
                s == old(self).text(),
                p0 == old(self).pos(),
                self.text() == s,
                self.ok(),
                advanced(s, p0, self.pos()),
                term_at(s, p0) == term_rest(s, expr_view(lhs), self.pos()),
            decreases s.len() - self.pos(),
        {
            let ghost l0 = expr_view(lhs);
            if self.eat('*') {
                match self.unary() {
                    Some(r) => {
                        assert(expr_view(Expr::Bin(Op::Mul, Box::new(lhs), Box::new(r))) == bin(
                            Op::Mul,
                            l0,
                            expr_view(r),
                        ));
                        lhs = Expr::Bin(Op::Mul, Box::new(lhs), Box::new(r));
                    },
                    None => {
                        return None;
                    },
                }
            } else if self.eat('/') {
                match self.unary() {
                    Some(r) => {
                        assert(expr_view(Expr::Bin(Op::Div, Box::new(lhs), Box::new(r))) == bin(
                            Op::Div,
                            l0,
                            expr_view(r),
                        ));
                        lhs = Expr::Bin(Op::Div, Box::new(lhs), Box::new(r));
                    },
                    None => {
                        return None;
                    },
                }
            } else if self.eat('%') {
                match self.unary() {
                    Some(r) => {
                        assert(expr_view(Expr::Bin(Op::Rem, Box::new(lhs), Box::new(r))) == bin(
                            Op::Rem,
                            l0,
                            expr_view(r),
                        ));
                        lhs = Expr::Bin(Op::Rem, Box::new(lhs), Box::new(r));
                    },
                    None => {
                        return None;
                    },
                }
            } else {
                return Some(lhs);
            }
        }
    }

    /// `unary` from the position.
    fn unary(&mut self) -> (r: Option<Expr>)
        requires
            old(self).ok(),
        ensures
            final(self).text() == old(self).text(),
            final(self).ok(),
            r is Some ==> advanced(old(self).text(), old(self).pos(), final(self).pos()),
            match unary_at(old(self).text(), old(self).pos()) {
                Some((e, q)) => r matches Some(x) && expr_view(x) == e && final(self).pos() == q,
                None => r is None,
            },
        decreases old(self).text().len() - old(self).pos(), 3int,
    {
        if self.eat('-') {
            return match self.unary() {
                Some(e) => {
                    assert(expr_view(Expr::Neg(Box::new(e))) == ExprView::Neg(
                        Box::new(expr_view(e)),
                    ));
                    Some(Expr::Neg(Box::new(e)))
                },
                None => None,
            };
        }
        if self.eat('+') {
            return self.unary();
        }
        self.power()
    }

    /// `power` from the position.
    fn power(&mut self) -> (r: Option<Expr>)
        requires
            old(self).ok(),
        ensures
            final(self).text() == old(self).text(),
            final(self).ok(),
            r is Some ==> advanced(old(self).text(), old(self).pos(), final(self).pos()),
            match power_at(old(self).text(), old(self).pos()) {
                Some((e, q)) => r matches Some(x) && expr_view(x) == e && final(self).pos() == q,
                None => r is None,
            },
        decreases old(self).text().len() - old(self).pos(), 2int,
    {
        let base = match self.atom() {
            Some(b) => b,
            None => {
                return None;
            },
        };
        if self.eat('^') {
            return match self.unary() {
                Some(e) => {
                    assert(expr_view(Expr::Bin(Op::Pow, Box::new(base), Box::new(e))) == bin(
                        Op::Pow,
                        expr_view(base),
                        expr_view(e),
                    ));
                    Some(Expr::Bin(Op::Pow, Box::new(base), Box::new(e)))
                },
                None => None,
            };
        }
        Some(base)
    }

    /// `atom` from the position.
    fn atom(&mut self) -> (r: Option<Expr>)
        requires
            old(self).ok(),
        ensures
            final(self).text() == old(self).text(),
            final(self).ok(),
            r is Some ==> advanced(old(self).text(), old(self).pos(), final(self).pos()),
            match atom_at(old(self).text(), old(self).pos()) {
                Some((e, q)) => r matches Some(x) && expr_view(x) == e && final(self).pos() == q,
                None => r is None,
            },
        decreases old(self).text().len() - old(self).pos(), 1int,
    {
        let ghost s = self.text();
        let ghost p0 = self.pos();
        if self.eat('(') {
            let inner = match self.expr() {
                Some(e) => e,
                None => {
                    return None;
                },
            };
            if self.eat(')') {
                return Some(inner);
            }
            return None;
        }
        let first = self.peek();
        let alpha = match first {
            Some(c) => is_alpha_char(c),
            None => false,
        };
        if alpha {
            let start = self.at;
            proof {
                lemma_alpha_end(s, p0);
            }
            while self.at < self.chars.len() && is_alpha_char(self.chars[self.at])
                invariant
                    s == old(self).text(),
                    p0 == old(self).pos(),
                    self.text() == s,
                    start == p0,
                    start <= self.at <= self.chars.len(),
                    alpha_end(s, start as int) == alpha_end(s, self.at as int),
                decreases self.chars.len() - self.at,
            {
                self.at += 1;
            }
            let name = slice_of(&self.chars, start, self.at);
            if self.eat('(') {
                let arg = match self.expr() {
                    Some(a) => a,
                    None => {
                        return None;
                    },
                };
                if !self.eat(')') {
                    return None;
                }
                return match func_of(&name) {
                    Some(f) => {
                        assert(expr_view(Expr::Call(f, Box::new(arg))) == ExprView::Call(
                            f,
                            Box::new(expr_view(arg)),
                        ));
                        Some(Expr::Call(f, Box::new(arg)))
                    },
                    None => None,
                };
            }
            return match const_of(&name) {
                Some(c) => Some(Expr::Const(c)),
                None => None,
            };
        }
        let start = self.at;
        proof {
            lemma_num_end(s, p0);
        }
        while self.at < self.chars.len() && is_num_char_exec(self.chars[self.at])
            invariant
                s == old(self).text(),
                p0 == old(self).pos(),
                self.text() == s,
                start == p0,
                start <= self.at <= self.chars.len(),
                num_end(s, start as int) == num_end(s, self.at as int),
            decreases self.chars.len() - self.at,
        {
            self.at += 1;
        }
        if start == self.at {
            return None;
        }
        let t = slice_of(&self.chars, start, self.at);
        if is_decimal(&t) {
            Some(Expr::Num(string_from(&t)))
        } else {
            None
        }
    }
}

/// The sum `text` spells, whitespace ignored, or `None` when it is not one
/// (see [`sum_of`]).
pub fn parse_sum(text: &str) -> (r: Option<Expr>)
    ensures
        opt_expr(r) == sum_of(text@),
{
    let mut p = Parser::new(text);
    let e = match p.expr() {
        Some(e) => e,
        None => {
            return None;
        },
    };
    if p.at != p.chars.len() {
        return None;
    }
    Some(e)
}

/// An operator or an opening bracket: what makes text an expression
/// rather than a number.
pub open spec fn is_sum_sign(c: char) -> bool {
    c == '+' || c == '-' || c == '*' || c == '/' || c == '%' || c == '^' || c == '('
}

/// Something a sum's operands are made of: a digit, or the first letter of
/// `pi` or `e`.
pub open spec fn is_figure(c: char) -> bool {
    is_digit(c) || c == 'p' || c == 'e'
}

/// Text worth handing to the parser: it has an operator or a bracket, and
/// something to operate on.
pub open spec fn sum_shaped(q: Seq<char>) -> bool {
    &&& exists|i: int| 0 <= i < q.len() && is_sum_sign(#[trigger] q[i])
    &&& exists|j: int| 0 <= j < q.len() && is_figure(#[trigger] q[j])
}

/// Whether the text is worth handing to the parser at all: without an
/// operator or a bracket, typing `5` would offer a row reading `5 = 5`.
pub fn looks_like_a_sum(query: &str) -> (r: bool)
    ensures
        r == sum_shaped(query@),
{
    let q = to_chars(query);
    let mut sign = false;
    let mut figure = false;
    let mut i: usize = 0;
    while i < q.len()
        invariant
            i <= q.len(),
            q@ == query@,
            sign == exists|k: int| 0 <= k < i && is_sum_sign(#[trigger] q@[k]),
            figure == exists|k: int| 0 <= k < i && is_figure(#[trigger] q@[k]),
        decreases q.len() - i,
    {
        let c = q[i];
        if c == '+' || c == '-' || c == '*' || c == '/' || c == '%' || c == '^' || c == '(' {
            sign = true;
        }
        if ('0' <= c && c <= '9') || c == 'p' || c == 'e' {
            figure = true;
        }
        i += 1;
    }
    sign && figure
}

/// The arithmetic provider: one certain answer, or nothing.
#[derive(Debug, Clone, Copy)]
pub struct MathProvider;

impl Default for MathProvider {
    fn default() -> (r: Self)
        ensures
            r == MathProvider,
    {
        MathProvider
    }
}

impl MathProvider {
    /// The group heading.
    pub fn name(&self) -> (r: &'static str)
        ensures
            r@ == "maths"@,
    {
        "maths"
    }

    /// The sum a query spells, when it looks like one and parses.
    pub fn sum_in(&self, query: &str) -> (r: Option<Expr>)
        ensures
            opt_expr(r) == if sum_shaped(query@) {
                sum_of(query@)
            } else {
                None
            },
    {
        if !looks_like_a_sum(query) {
            return None;
        }
        parse_sum(query)
    }

    /// The row offering `answer` to `query`: labelled with the answer,
    /// detailed with the sum it answers, certain, and copied when accepted.
    pub fn row(&self, query: &str, answer: String) -> (c: Candidate)
        ensures
            c.label@ == answer@,
            c.detail@ == "= "@ + query@,
            c.score == CONFIDENCE_MAX,
            c.activation matches Activation::Copy(t) && t@ == answer@,
    {
        let mut detail = String::new();
        detail.append("= ");
        detail.append(query);
        let copy = answer.clone();
        Candidate { label: answer, detail, score: CONFIDENCE_MAX, activation: Activation::Copy(copy) }
    }
}

} // verus!
