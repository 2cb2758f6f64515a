//! The expressions typed into numeric fields: numbers, `pi` and `e`,
//! variables, `+ - * / %` with the usual precedence (left to right within a
//! level), unary minus, parentheses, and calls of a fixed set of functions
//! with comma-separated arguments. Text is split into tokens with a regular
//! expression; which tokens are numbers is decided by the caller (it parses
//! them as `f32`, which this library does not hold), and the tokens are then
//! parsed into a tree that the caller evaluates.
use vstd::prelude::*;

verus! {

/// The functions an expression can call.
#[derive(Copy, Clone, Debug, PartialEq, Eq, Structural)]
pub enum Func {
    Cos,
    Sin,
    Tan,
    Sqrt,
    Pow,
    Sign,
    Abs,
    Floor,
    Ceil,
    Ln,
    Rads,
    Degs,
}

/// What a token that is not a number means to the parser.
#[derive(Copy, Clone, Debug, PartialEq, Eq, Structural)]
pub enum Sym {
    Plus,
    Minus,
    Star,
    Slash,
    Percent,
    Open,
    Close,
    Comma,
    Pi,
    E,
    Call(Func),
    Word,
}

/// A token: its text, and its value as `f32` bits when it reads as a number.
#[derive(Debug)]
pub struct Token {
    pub text: String,
    pub number: Option<u32>,
}

/// The arguments of a call, first to last.
#[derive(Debug)]
pub enum Args {
    First(Box<Expr>),
    Then(Box<Args>, Box<Expr>),
}

/// A parsed expression.
#[derive(Debug)]
pub enum Expr {
    Number(u32),
    Pi,
    E,
    Var(String),
    Neg(Box<Expr>),
    Group(Box<Expr>),
    Call(Func, Box<Args>),
    Add(Box<Expr>, Box<Expr>),
    Sub(Box<Expr>, Box<Expr>),
    Mul(Box<Expr>, Box<Expr>),
    Div(Box<Expr>, Box<Expr>),
    Rem(Box<Expr>, Box<Expr>),
}

/// What the text of a token that is not a number means.
pub open spec fn sym_of(s: Seq<char>) -> Sym {
    if s == "+"@ {
        Sym::Plus
    } else if s == "-"@ {
        Sym::Minus
    } else if s == "*"@ {
        Sym::Star
    } else if s == "/"@ {
        Sym::Slash
    } else if s == "%"@ {
        Sym::Percent
    } else if s == "("@ {
        Sym::Open
    } else if s == ")"@ {
        Sym::Close
    } else if s == ","@ {
        Sym::Comma
    } else if s == "pi"@ {
        Sym::Pi
    } else if s == "e"@ {
        Sym::E
    } else if s == "cos"@ {
        Sym::Call(Func::Cos)
    } else if s == "sin"@ {
        Sym::Call(Func::Sin)
    } else if s == "tan"@ {
        Sym::Call(Func::Tan)
    } else if s == "sqrt"@ {
        Sym::Call(Func::Sqrt)
    } else if s == "pow"@ {
        Sym::Call(Func::Pow)
    } else if s == "sign"@ {
        Sym::Call(Func::Sign)
    } else if s == "abs"@ {
        Sym::Call(Func::Abs)
    } else if s == "floor"@ {
        Sym::Call(Func::Floor)
    } else if s == "ceil"@ {
        Sym::Call(Func::Ceil)
    } else if s == "ln"@ {
        Sym::Call(Func::Ln)
    } else if s == "rads"@ {
        Sym::Call(Func::Rads)
    } else if s == "degs"@ {
        Sym::Call(Func::Degs)
    } else {
        Sym::Word
    }
}

pub open spec fn sym_at(t: Seq<Token>, i: int) -> Sym {
    sym_of(t[i].text@)
}

/// The factor that starts at token `i`, and where it ends: a number, `-` and
/// a factor, `pi`, `e`, a call `f(a, ...)`, a parenthesised expression, or
/// any other single token as a variable.
pub open spec fn factor_at(t: Seq<Token>, i: int) -> Option<(Expr, int)>
    decreases t.len() - i, 0int,
{
    if i < 0 || i >= t.len() {
        None
    } else if t[i].number is Some {
        Some((Expr::Number(t[i].number.unwrap()), i + 1))
    } else {
        match sym_at(t, i) {
            Sym::Minus => match factor_at(t, i + 1) {
                Some((f, j)) => if i + 1 < j <= t.len() {
                    Some((Expr::Neg(Box::new(f)), j))
                } else {
                    None
                },
                None => None,
            },
            Sym::Pi => Some((Expr::Pi, i + 1)),
            Sym::E => Some((Expr::E, i + 1)),
            Sym::Call(f) => if i + 1 < t.len() && sym_at(t, i + 1) == Sym::Open {
                match expr_at(t, i + 2) {
                    Some((a, j)) => if i + 2 < j <= t.len() {
                        match args_rest(t, Args::First(Box::new(a)), j) {
                            Some((args, k)) => if j <= k < t.len() && sym_at(t, k) == Sym::Close {
                                Some((Expr::Call(f, Box::new(args)), k + 1))
                            } else {
                                None
                            },
                            None => None,
                        }
                    } else {
                        None
                    },
                    None => None,
                }
            } else {
                None
            },
            Sym::Open => match expr_at(t, i + 1) {
                Some((e, j)) => if i + 1 < j < t.len() && sym_at(t, j) == Sym::Close {
                    Some((Expr::Group(Box::new(e)), j + 1))
                } else {
                    None
                },
                None => None,
            },
            _ => Some((Expr::Var(t[i].text), i + 1)),
        }
    }
}

/// Further arguments `, a` from token `j` on, after `args`.
pub open spec fn args_rest(t: Seq<Token>, args: Args, j: int) -> Option<(Args, int)>
    decreases t.len() - j, 3int,
{
    if 0 <= j < t.len() && sym_at(t, j) == Sym::Comma {
        match expr_at(t, j + 1) {
            Some((a, k)) => if j + 1 < k <= t.len() {
                args_rest(t, Args::Then(Box::new(args), Box::new(a)), k)
            } else {
                None
            },
            None => None,
        }
    } else if 0 <= j <= t.len() {
        Some((args, j))
    } else {
        None
    }
}

/// The term that starts at token `i`: factors joined by `*`, `/` and `%`.
pub open spec fn term_at(t: Seq<Token>, i: int) -> Option<(Expr, int)>
    decreases t.len() - i, 1int,
{
    if i < 0 || i > t.len() {
        None
    } else {
        match factor_at(t, i) {
            Some((f, j)) => if i < j <= t.len() {
                term_rest(t, f, j)
            } else {
                None
            },
            None => None,
        }
    }
}

/// Further `* f`, `/ f` and `% f` from token `j` on, applied to `left`.
pub open spec fn term_rest(t: Seq<Token>, left: Expr, j: int) -> Option<(Expr, int)>
    decreases t.len() - j, 1int,
{
    if 0 <= j < t.len() && (sym_at(t, j) == Sym::Star || sym_at(t, j) == Sym::Slash
        || sym_at(t, j) == Sym::Percent) {
        match factor_at(t, j + 1) {
            Some((f, k)) => if j + 1 < k <= t.len() {
                let e = if sym_at(t, j) == Sym::Star {
                    Expr::Mul(Box::new(left), Box::new(f))
                } else if sym_at(t, j) == Sym::Slash {
                    Expr::Div(Box::new(left), Box::new(f))
                } else {
                    Expr::Rem(Box::new(left), Box::new(f))
                };
                term_rest(t, e, k)
            } else {
                None
            },
            None => None,
        }
    } else if 0 <= j <= t.len() {
        Some((left, j))
    } else {
        None
    }
}

/// The expression that starts at token `i`: terms joined by `+` and `-`.
pub open spec fn expr_at(t: Seq<Token>, i: int) -> Option<(Expr, int)>
    decreases t.len() - i, 2int,
{
    if i < 0 || i > t.len() {
        None
    } else {
        match term_at(t, i) {
            Some((f, j)) => if i < j <= t.len() {
                expr_rest(t, f, j)
            } else {
                None
            },
            None => None,
        }
    }
}

/// Further `+ f` and `- f` from token `j` on, applied to `left`.
pub open spec fn expr_rest(t: Seq<Token>, left: Expr, j: int) -> Option<(Expr, int)>
    decreases t.len() - j, 2int,
{
    if 0 <= j < t.len() && (sym_at(t, j) == Sym::Plus || sym_at(t, j) == Sym::Minus) {
        match term_at(t, j + 1) {
            Some((f, k)) => if j + 1 < k <= t.len() {
                let e = if sym_at(t, j) == Sym::Plus {
                    Expr::Add(Box::new(left), Box::new(f))
                } else {
                    Expr::Sub(Box::new(left), Box::new(f))
                };
                expr_rest(t, e, k)
            } else {
                None
            },
            None => None,
        }
    } else if 0 <= j <= t.len() {
        Some((left, j))
    } else {
        None
    }
}

/// The expression the whole token list reads as, when it reads as one and
/// no token is left over.
pub open spec fn parsed(t: Seq<Token>) -> Option<Expr> {
    match expr_at(t, 0) {
        Some((e, j)) => if j == t.len() {
            Some(e)
        } else {
            None
        },
        None => None,
    }
}

fn text_is(s: &String, lit: &str) -> (r: bool)
    ensures
        r == (s@ == lit@),
{
    let l = lit.to_owned();
    *s == l
}

/// What the text of a token that is not a number means.
pub fn classify(s: &String) -> (r: Sym)
    ensures
        r == sym_of(s@),
{
    if text_is(s, "+") {
        Sym::Plus
    } else if text_is(s, "-") {
        Sym::Minus
    } else if text_is(s, "*") {
        Sym::Star
    } else if text_is(s, "/") {
        Sym::Slash
    } else if text_is(s, "%") {
        Sym::Percent
    } else if text_is(s, "(") {
        Sym::Open
    } else if text_is(s, ")") {
        Sym::Close
    } else if text_is(s, ",") {
        Sym::Comma
    } else if text_is(s, "pi") {
        Sym::Pi
    } else if text_is(s, "e") {
        Sym::E
    } else if text_is(s, "cos") {
        Sym::Call(Func::Cos)
    } else if text_is(s, "sin") {
        Sym::Call(Func::Sin)
    } else if text_is(s, "tan") {
        Sym::Call(Func::Tan)
    } else if text_is(s, "sqrt") {
        Sym::Call(Func::Sqrt)
    } else if text_is(s, "pow") {
        Sym::Call(Func::Pow)
    } else if text_is(s, "sign") {
        Sym::Call(Func::Sign)
    } else if text_is(s, "abs") {
        Sym::Call(Func::Abs)
    } else if text_is(s, "floor") {
        Sym::Call(Func::Floor)
    } else if text_is(s, "ceil") {
        Sym::Call(Func::Ceil)
    } else if text_is(s, "ln") {
        Sym::Call(Func::Ln)
    } else if text_is(s, "rads") {
        Sym::Call(Func::Rads)
    } else if text_is(s, "degs") {
        Sym::Call(Func::Degs)
    } else {
        Sym::Word
    }
}

fn parse_factor(t: &Vec<Token>, i: usize) -> (r: Option<(Expr, usize)>)
    requires
        i <= t@.len(),
    ensures
        match factor_at(t@, i as int) {
            Some((e, j)) => r matches Some((e2, j2)) && e2 == e && j2 == j,
            None => r is None,
        },
        r matches Some((_, j)) ==> i < j <= t@.len(),
    decreases t@.len() - i, 0int,
{
    if i >= t.len() {
        return None;
    }
    match t[i].number {
        Some(b) => {
            return Some((Expr::Number(b), i + 1));
        },
        None => {},
    }
    match classify(&t[i].text) {
        Sym::Minus => match parse_factor(t, i + 1) {
            Some((f, j)) => Some((Expr::Neg(Box::new(f)), j)),
            None => None,
        },
        Sym::Pi => Some((Expr::Pi, i + 1)),
        Sym::E => Some((Expr::E, i + 1)),
        Sym::Call(f) => {
            if i + 1 < t.len() && classify(&t[i + 1].text) == Sym::Open {
                match parse_expr(t, i + 2) {
                    Some((a, j)) => match parse_args_rest(t, Args::First(Box::new(a)), j) {
                        Some((args, k)) => {
                            if k < t.len() && classify(&t[k].text) == Sym::Close {
                                Some((Expr::Call(f, Box::new(args)), k + 1))
                            } else {
                                None
                            }
                        },
                        None => None,
                    },
                    None => None,
                }
            } else {
                None
            }
        },
        Sym::Open => match parse_expr(t, i + 1) {
            Some((e, j)) => {
                if j < t.len() && classify(&t[j].text) == Sym::Close {
                    Some((Expr::Group(Box::new(e)), j + 1))
                } else {
                    None
                }
            },
            None => None,
        },
        _ => Some((Expr::Var(t[i].text.clone()), i + 1)),
    }
}

fn parse_args_rest(t: &Vec<Token>, args: Args, j: usize) -> (r: Option<(Args, usize)>)
    requires
        j <= t@.len(),
    ensures
        match args_rest(t@, args, j as int) {
            Some((a, k)) => r matches Some((a2, k2)) && a2 == a && k2 == k,
            None => r is None,
        },
        r matches Some((_, k)) ==> j <= k <= t@.len(),
    decreases t@.len() - j, 3int,
{
    if j < t.len() && classify(&t[j].text) == Sym::Comma {
        match parse_expr(t, j + 1) {
            Some((a, k)) => parse_args_rest(t, Args::Then(Box::new(args), Box::new(a)), k),
            None => None,
        }
    } else {
        Some((args, j))
    }
}

fn parse_term(t: &Vec<Token>, i: usize) -> (r: Option<(Expr, usize)>)
    requires
        i <= t@.len(),
    ensures
        match term_at(t@, i as int) {
            Some((e, j)) => r matches Some((e2, j2)) && e2 == e && j2 == j,
            None => r is None,
        },
        r matches Some((_, j)) ==> i < j <= t@.len(),
    decreases t@.len() - i, 1int,
{
    match parse_factor(t, i) {
        Some((f, j)) => parse_term_rest(t, f, j),
        None => None,
    }
}

fn parse_term_rest(t: &Vec<Token>, left: Expr, j: usize) -> (r: Option<(Expr, usize)>)
    requires
        j <= t@.len(),
    ensures
        match term_rest(t@, left, j as int) {
            Some((e, k)) => r matches Some((e2, k2)) && e2 == e && k2 == k,
            None => r is None,
        },
        r matches Some((_, k)) ==> j <= k <= t@.len(),
    decreases t@.len() - j, 1int,
{
    if j < t.len() {
        let s = classify(&t[j].text);
        if s == Sym::Star || s == Sym::Slash || s == Sym::Percent {
            return match parse_factor(t, j + 1) {
                Some((f, k)) => {
                    let e = if s == Sym::Star {
                        Expr::Mul(Box::new(left), Box::new(f))
                    } else if s == Sym::Slash {
                        Expr::Div(Box::new(left), Box::new(f))
                    } else {
                        Expr::Rem(Box::new(left), Box::new(f))
                    };
                    parse_term_rest(t, e, k)
                },
                None => None,
            };
        }
    }
    Some((left, j))
}

fn parse_expr(t: &Vec<Token>, i: usize) -> (r: Option<(Expr, usize)>)
    requires
        i <= t@.len(),
    ensures
        match expr_at(t@, i as int) {
            Some((e, j)) => r matches Some((e2, j2)) && e2 == e && j2 == j,
            None => r is None,
        },
        r matches Some((_, j)) ==> i < j <= t@.len(),
    decreases t@.len() - i, 2int,
{
    match parse_term(t, i) {
        Some((f, j)) => parse_expr_rest(t, f, j),
        None => None,
    }
}

fn parse_expr_rest(t: &Vec<Token>, left: Expr, j: usize) -> (r: Option<(Expr, usize)>)
    requires
        j <= t@.len(),
    ensures
        match expr_rest(t@, left, j as int) {
            Some((e, k)) => r matches Some((e2, k2)) && e2 == e && k2 == k,
            None => r is None,
        },
        r matches Some((_, k)) ==> j <= k <= t@.len(),
    decreases t@.len() - j, 2int,
{
    if j < t.len() {
        let s = classify(&t[j].text);
        if s == Sym::Plus || s == Sym::Minus {
            return match parse_term(t, j + 1) {
                Some((f, k)) => {
                    let e = if s == Sym::Plus {
                        Expr::Add(Box::new(left), Box::new(f))
                    } else {
                        Expr::Sub(Box::new(left), Box::new(f))
                    };
                    parse_expr_rest(t, e, k)
                },
                None => None,
            };
        }
    }
    Some((left, j))
}

/// Parses a whole token list as one expression; `None` when it does not read
/// as one or tokens are left over.
pub fn parse(tokens: &Vec<Token>) -> (r: Option<Expr>)
    ensures
        r == parsed(tokens@),
{
    match parse_expr(tokens, 0) {
        Some((e, j)) => {
            if j == tokens.len() {
                Some(e)
            } else {
                None
            }
        },
        None => None,
    }
}

/// The pieces of `text` that the regular expression `pattern` matches, left
/// to right without overlap; `None` when `pattern` does not compile.
pub uninterp spec fn regex_matches(pattern: Seq<char>, text: Seq<char>) -> Option<Seq<Seq<char>>>;

pub open spec fn opt_string_seq(r: Option<Vec<String>>) -> Option<Seq<Seq<char>>> {
    match r {
        Some(v) => Some(v@.map_values(|s: String| s@)),
        None => None,
    }
}

/// `regex::Regex::new` on `pattern`, then `Regex::find_iter` over `text`,
/// each match taken as a string. The result is named by [`regex_matches`].
#[verifier::external_body]
fn regex_find_all(pattern: &str, text: &str) -> (r: Option<Vec<String>>)
    ensures
        opt_string_seq(r) == regex_matches(pattern@, text@),
{
    match regex::Regex::new(pattern) {
        Ok(re) => Some(re.find_iter(text).map(|m| m.as_str().to_string()).collect()),
        Err(_) => None,
    }
}

/// The token pattern: a number (with or without a decimal point), a word, or
/// one of `/ ( ) * + - % ,`. Other characters separate tokens and are dropped.
pub open spec fn token_pattern() -> Seq<char> {
    "((\\d*\\.\\d+|\\d+\\.\\d*|\\d+|\\w+)|[/()*+\\-%,])"@
}

/// Splits an expression's text into tokens.
pub fn tokenize(expr: &str) -> (r: Option<Vec<String>>)
    ensures
        opt_string_seq(r) == regex_matches(token_pattern(), expr@),
{
    regex_find_all("((\\d*\\.\\d+|\\d+\\.\\d*|\\d+|\\w+)|[/()*+\\-%,])", expr)
}

/// A token as the parser sees it: a number, or a text.
pub enum Shape {
    Num(u32),
    Text(Seq<char>),
}

pub open spec fn shape_of(tok: Token) -> Shape {
    match tok.number {
        Some(b) => Shape::Num(b),
        None => Shape::Text(tok.text@),
    }
}

pub open spec fn shapes(t: Seq<Token>) -> Seq<Shape> {
    t.map_values(|tok: Token| shape_of(tok))
}

/// The name a function is called by.
pub open spec fn func_name(f: Func) -> Seq<char> {
    match f {
        Func::Cos => "cos"@,
        Func::Sin => "sin"@,
        Func::Tan => "tan"@,
        Func::Sqrt => "sqrt"@,
        Func::Pow => "pow"@,
        Func::Sign => "sign"@,
        Func::Abs => "abs"@,
        Func::Floor => "floor"@,
        Func::Ceil => "ceil"@,
        Func::Ln => "ln"@,
        Func::Rads => "rads"@,
        Func::Degs => "degs"@,
    }
}

pub open spec fn text(s: &str) -> Shape {
    Shape::Text(s@)
}

/// The tokens an expression is written with.
pub open spec fn unparse(e: Expr) -> Seq<Shape>
    decreases e,
{
    match e {
        Expr::Number(b) => seq![Shape::Num(b)],
        Expr::Pi => seq![text("pi")],
        Expr::E => seq![text("e")],
        Expr::Var(s) => seq![Shape::Text(s@)],
        Expr::Neg(x) => seq![text("-")] + unparse(*x),
        Expr::Group(x) => seq![text("(")] + unparse(*x) + seq![text(")")],
        Expr::Call(f, args) => seq![Shape::Text(func_name(f)), text("(")] + unparse_args(*args) + seq![text(")")],
        Expr::Add(l, r) => unparse(*l) + seq![text("+")] + unparse(*r),
        Expr::Sub(l, r) => unparse(*l) + seq![text("-")] + unparse(*r),
        Expr::Mul(l, r) => unparse(*l) + seq![text("*")] + unparse(*r),
        Expr::Div(l, r) => unparse(*l) + seq![text("/")] + unparse(*r),
        Expr::Rem(l, r) => unparse(*l) + seq![text("%")] + unparse(*r),
    }
}

/// The tokens a call's arguments are written with, separated by commas.
pub open spec fn unparse_args(a: Args) -> Seq<Shape>
    decreases a,
{
    match a {
        Args::First(x) => unparse(*x),
        Args::Then(p, x) => unparse_args(*p) + seq![text(",")] + unparse(*x),
    }
}

/// Only word tokens are marked as numbers: no operator, bracket, comma,
/// constant or function name is.
pub open spec fn numbers_are_words(t: Seq<Token>) -> bool {
    forall|i: int| 0 <= i < t.len() && (#[trigger] t[i]).number is Some ==> sym_of(t[i].text@) == Sym::Word
}

proof fn lemma_symbol_text(s: Seq<char>)
    ensures
        sym_of(s) == Sym::Minus ==> s == "-"@,
        sym_of(s) == Sym::Plus ==> s == "+"@,
        sym_of(s) == Sym::Star ==> s == "*"@,
        sym_of(s) == Sym::Slash ==> s == "/"@,
        sym_of(s) == Sym::Percent ==> s == "%"@,
        sym_of(s) == Sym::Open ==> s == "("@,
        sym_of(s) == Sym::Close ==> s == ")"@,
        sym_of(s) == Sym::Comma ==> s == ","@,
        sym_of(s) == Sym::Pi ==> s == "pi"@,
        sym_of(s) == Sym::E ==> s == "e"@,
        sym_of(s) matches Sym::Call(f) ==> s == func_name(f),
{
}

proof fn lemma_factor_tokens(t: Seq<Token>, i: int)
    requires
        numbers_are_words(t),
    ensures
        factor_at(t, i) matches Some((e, j)) ==> 0 <= i < j <= t.len() && unparse(e) == shapes(t).subrange(i, j),
    decreases t.len() - i, 0int,
{
    if 0 <= i < t.len() {
        let sh = shapes(t);
        assert(sh[i] == shape_of(t[i]));
        if t[i].number is Some {
            assert(sh.subrange(i, i + 1) =~= seq![Shape::Num(t[i].number.unwrap())]);
        } else {
            lemma_symbol_text(t[i].text@);
            assert(sh[i] == Shape::Text(t[i].text@));
            match sym_at(t, i) {
                Sym::Minus => {
                    lemma_factor_tokens(t, i + 1);
                    if let Some((f, j)) = factor_at(t, i + 1) {
                        assert(sh.subrange(i, j) =~= seq![sh[i]] + sh.subrange(i + 1, j));
                        assert(unparse(Expr::Neg(Box::new(f))) == seq![text("-")] + unparse(f));
                    }
                },
                Sym::Pi => {
                    assert(sh.subrange(i, i + 1) =~= seq![sh[i]]);
                    assert(unparse(Expr::Pi) == seq![text("pi")]);
                },
                Sym::E => {
                    assert(sh.subrange(i, i + 1) =~= seq![sh[i]]);
                    assert(unparse(Expr::E) == seq![text("e")]);
                },
                Sym::Call(f) => {
                    if i + 1 < t.len() && sym_at(t, i + 1) == Sym::Open {
                        lemma_symbol_text(t[i + 1].text@);
                        assert(sh[i + 1] == shape_of(t[i + 1]));
                        if t[i + 1].number is Some {
                            assert(sym_of(t[i + 1].text@) == Sym::Word);
                        }
                        lemma_expr_tokens(t, i + 2);
                        if let Some((a, j)) = expr_at(t, i + 2) {
                            let first = Args::First(Box::new(a));
                            lemma_args_tokens(t, first, j);
                            if let Some((args, k)) = args_rest(t, first, j) {
                                if j <= k < t.len() && sym_at(t, k) == Sym::Close {
                                    lemma_symbol_text(t[k].text@);
                                    assert(sh[k] == shape_of(t[k]));
                                    if t[k].number is Some {
                                        assert(sym_of(t[k].text@) == Sym::Word);
                                    }
                                    assert(unparse_args(first) == unparse(a));
                                    assert(sh.subrange(i, k + 1) =~= seq![sh[i], sh[i + 1]] + sh.subrange(i + 2, j)
                                        + sh.subrange(j, k) + seq![sh[k]]);
                                    assert(unparse(Expr::Call(f, Box::new(args))) == seq![Shape::Text(func_name(f)), text("(")]
                                        + unparse_args(args) + seq![text(")")]);
                                }
                            }
                        }
                    }
                },
                Sym::Open => {
                    lemma_expr_tokens(t, i + 1);
                    if let Some((e, j)) = expr_at(t, i + 1) {
                        if i + 1 < j < t.len() && sym_at(t, j) == Sym::Close {
                            lemma_symbol_text(t[j].text@);
                            assert(sh[j] == shape_of(t[j]));
                            if t[j].number is Some {
                                assert(sym_of(t[j].text@) == Sym::Word);
                            }
                            assert(sh.subrange(i, j + 1) =~= seq![sh[i]] + sh.subrange(i + 1, j) + seq![sh[j]]);
                            assert(unparse(Expr::Group(Box::new(e))) == seq![text("(")] + unparse(e) + seq![text(")")]);
                        }
                    }
                },
                _ => {
                    assert(sh.subrange(i, i + 1) =~= seq![sh[i]]);
                    assert(unparse(Expr::Var(t[i].text)) == seq![Shape::Text(t[i].text@)]);
                },
            }
        }
    }
}

proof fn lemma_args_tokens(t: Seq<Token>, args: Args, j: int)
    requires
        numbers_are_words(t),
    ensures
        args_rest(t, args, j) matches Some((a, k)) ==> 0 <= j <= k <= t.len() && unparse_args(a) == unparse_args(args)
            + shapes(t).subrange(j, k),
    decreases t.len() - j, 3int,
{
    let sh = shapes(t);
    if 0 <= j < t.len() && sym_at(t, j) == Sym::Comma {
        lemma_symbol_text(t[j].text@);
        assert(sh[j] == shape_of(t[j]));
        if t[j].number is Some {
            assert(sym_of(t[j].text@) == Sym::Word);
        }
        lemma_expr_tokens(t, j + 1);
        if let Some((a, k)) = expr_at(t, j + 1) {
            if j + 1 < k <= t.len() {
                let next = Args::Then(Box::new(args), Box::new(a));
                lemma_args_tokens(t, next, k);
                if let Some((b, m)) = args_rest(t, next, k) {
                    assert(sh.subrange(j, m) =~= seq![sh[j]] + sh.subrange(j + 1, k) + sh.subrange(k, m));
                }
            }
        }
    } else if 0 <= j <= t.len() {
        assert(sh.subrange(j, j) =~= Seq::<Shape>::empty());
    }
}

proof fn lemma_term_tokens(t: Seq<Token>, i: int)
    requires
        numbers_are_words(t),
    ensures
        term_at(t, i) matches Some((e, j)) ==> 0 <= i < j <= t.len() && unparse(e) == shapes(t).subrange(i, j),
    decreases t.len() - i, 1int,
{
    if 0 <= i <= t.len() {
        lemma_factor_tokens(t, i);
        if let Some((f, j)) = factor_at(t, i) {
            if i < j <= t.len() {
                lemma_term_rest_tokens(t, f, j);
                if let Some((e, k)) = term_rest(t, f, j) {
                    assert(shapes(t).subrange(i, k) =~= shapes(t).subrange(i, j) + shapes(t).subrange(j, k));
                }
            }
        }
    }
}

proof fn lemma_term_rest_tokens(t: Seq<Token>, left: Expr, j: int)
    requires
        numbers_are_words(t),
    ensures
        term_rest(t, left, j) matches Some((e, k)) ==> 0 <= j <= k <= t.len() && unparse(e) == unparse(left)
            + shapes(t).subrange(j, k),
    decreases t.len() - j, 1int,
{
    let sh = shapes(t);
    if 0 <= j < t.len() && (sym_at(t, j) == Sym::Star || sym_at(t, j) == Sym::Slash || sym_at(t, j) == Sym::Percent) {
        lemma_symbol_text(t[j].text@);
        assert(sh[j] == shape_of(t[j]));
        if t[j].number is Some {
            assert(sym_of(t[j].text@) == Sym::Word);
        }
        lemma_factor_tokens(t, j + 1);
        if let Some((f, k)) = factor_at(t, j + 1) {
            if j + 1 < k <= t.len() {
                let e = if sym_at(t, j) == Sym::Star {
                    Expr::Mul(Box::new(left), Box::new(f))
                } else if sym_at(t, j) == Sym::Slash {
                    Expr::Div(Box::new(left), Box::new(f))
                } else {
                    Expr::Rem(Box::new(left), Box::new(f))
                };
                assert(unparse(e) == unparse(left) + seq![sh[j]] + sh.subrange(j + 1, k));
                lemma_term_rest_tokens(t, e, k);
                if let Some((g, m)) = term_rest(t, e, k) {
                    assert(sh.subrange(j, m) =~= seq![sh[j]] + sh.subrange(j + 1, k) + sh.subrange(k, m));
                }
            }
        }
    } else if 0 <= j <= t.len() {
        assert(sh.subrange(j, j) =~= Seq::<Shape>::empty());
    }
}

proof fn lemma_expr_tokens(t: Seq<Token>, i: int)
    requires
        numbers_are_words(t),
    ensures
        expr_at(t, i) matches Some((e, j)) ==> 0 <= i < j <= t.len() && unparse(e) == shapes(t).subrange(i, j),
    decreases t.len() - i, 2int,
{
    if 0 <= i <= t.len() {
        lemma_term_tokens(t, i);
        if let Some((f, j)) = term_at(t, i) {
            if i < j <= t.len() {
                lemma_expr_rest_tokens(t, f, j);
                if let Some((e, k)) = expr_rest(t, f, j) {
                    assert(shapes(t).subrange(i, k) =~= shapes(t).subrange(i, j) + shapes(t).subrange(j, k));
                }
            }
        }
    }
}

proof fn lemma_expr_rest_tokens(t: Seq<Token>, left: Expr, j: int)
    requires
        numbers_are_words(t),
    ensures
        expr_rest(t, left, j) matches Some((e, k)) ==> 0 <= j <= k <= t.len() && unparse(e) == unparse(left)
            + shapes(t).subrange(j, k),
    decreases t.len() - j, 2int,
{
    let sh = shapes(t);
    if 0 <= j < t.len() && (sym_at(t, j) == Sym::Plus || sym_at(t, j) == Sym::Minus) {
        lemma_symbol_text(t[j].text@);
        assert(sh[j] == shape_of(t[j]));
        if t[j].number is Some {
            assert(sym_of(t[j].text@) == Sym::Word);
        }
        lemma_term_tokens(t, j + 1);
        if let Some((f, k)) = term_at(t, j + 1) {
            if j + 1 < k <= t.len() {
                let e = if sym_at(t, j) == Sym::Plus {
                    Expr::Add(Box::new(left), Box::new(f))
                } else {
                    Expr::Sub(Box::new(left), Box::new(f))
                };
                assert(unparse(e) == unparse(left) + seq![sh[j]] + sh.subrange(j + 1, k));
                lemma_expr_rest_tokens(t, e, k);
                if let Some((g, m)) = expr_rest(t, e, k) {
                    assert(sh.subrange(j, m) =~= seq![sh[j]] + sh.subrange(j + 1, k) + sh.subrange(k, m));
                }
            }
        }
    } else if 0 <= j <= t.len() {
        assert(sh.subrange(j, j) =~= Seq::<Shape>::empty());
    }
}

/// A parsed expression is written with exactly the tokens it was parsed
/// from: no token is dropped, added or reordered.
pub proof fn lemma_parse_keeps_tokens(t: Seq<Token>)
    requires
        numbers_are_words(t),
    ensures
        parsed(t) matches Some(e) ==> unparse(e) == shapes(t),
{
    lemma_expr_tokens(t, 0);
    assert(shapes(t).subrange(0, t.len() as int) =~= shapes(t));
}

/// What each operator, bracket, constant and function name means: the
/// symbols and function names of the expression language.
pub proof fn lemma_symbol_table()
    ensures
        sym_of("+"@) == Sym::Plus,
        sym_of("-"@) == Sym::Minus,
        sym_of("*"@) == Sym::Star,
        sym_of("/"@) == Sym::Slash,
        sym_of("%"@) == Sym::Percent,
        sym_of("("@) == Sym::Open,
        sym_of(")"@) == Sym::Close,
        sym_of(","@) == Sym::Comma,
        sym_of("pi"@) == Sym::Pi,
        sym_of("e"@) == Sym::E,
        sym_of("cos"@) == Sym::Call(Func::Cos),
        sym_of("sin"@) == Sym::Call(Func::Sin),
        sym_of("tan"@) == Sym::Call(Func::Tan),
        sym_of("sqrt"@) == Sym::Call(Func::Sqrt),
        sym_of("pow"@) == Sym::Call(Func::Pow),
        sym_of("sign"@) == Sym::Call(Func::Sign),
        sym_of("abs"@) == Sym::Call(Func::Abs),
        sym_of("floor"@) == Sym::Call(Func::Floor),
        sym_of("ceil"@) == Sym::Call(Func::Ceil),
        sym_of("ln"@) == Sym::Call(Func::Ln),
        sym_of("rads"@) == Sym::Call(Func::Rads),
        sym_of("degs"@) == Sym::Call(Func::Degs),
{
    reveal_strlit("+");
    reveal_strlit("-");
    reveal_strlit("*");
    reveal_strlit("/");
    reveal_strlit("%");
    reveal_strlit("(");
    reveal_strlit(")");
    reveal_strlit(",");
    reveal_strlit("pi");
    reveal_strlit("e");
    reveal_strlit("cos");
    reveal_strlit("sin");
    reveal_strlit("tan");
    reveal_strlit("sqrt");
    reveal_strlit("pow");
    reveal_strlit("sign");
    reveal_strlit("abs");
    reveal_strlit("floor");
    reveal_strlit("ceil");
    reveal_strlit("ln");
    reveal_strlit("rads");
    reveal_strlit("degs");
    assert("-"@[0] != "+"@[0]);
    assert("*"@[0] != "+"@[0]);
    assert("*"@[0] != "-"@[0]);
    assert("/"@[0] != "+"@[0]);
    assert("/"@[0] != "-"@[0]);
    assert("/"@[0] != "*"@[0]);
    assert("%"@[0] != "+"@[0]);
    assert("%"@[0] != "-"@[0]);
    assert("%"@[0] != "*"@[0]);
    assert("%"@[0] != "/"@[0]);
    assert("("@[0] != "+"@[0]);
    assert("("@[0] != "-"@[0]);
    assert("("@[0] != "*"@[0]);
    assert("("@[0] != "/"@[0]);
    assert("("@[0] != "%"@[0]);
    assert(")"@[0] != "+"@[0]);
    assert(")"@[0] != "-"@[0]);
    assert(")"@[0] != "*"@[0]);
    assert(")"@[0] != "/"@[0]);
    assert(")"@[0] != "%"@[0]);
    assert(")"@[0] != "("@[0]);
    assert(","@[0] != "+"@[0]);
    assert(","@[0] != "-"@[0]);
    assert(","@[0] != "*"@[0]);
    assert(","@[0] != "/"@[0]);
    assert(","@[0] != "%"@[0]);
    assert(","@[0] != "("@[0]);
    assert(","@[0] != ")"@[0]);
    assert("pi"@.len() != "+"@.len());
    assert("pi"@.len() != "-"@.len());
    assert("pi"@.len() != "*"@.len());
    assert("pi"@.len() != "/"@.len());
    assert("pi"@.len() != "%"@.len());
    assert("pi"@.len() != "("@.len());
    assert("pi"@.len() != ")"@.len());
    assert("pi"@.len() != ","@.len());
    assert("e"@[0] != "+"@[0]);
    assert("e"@[0] != "-"@[0]);
    assert("e"@[0] != "*"@[0]);
    assert("e"@[0] != "/"@[0]);
    assert("e"@[0] != "%"@[0]);
    assert("e"@[0] != "("@[0]);
    assert("e"@[0] != ")"@[0]);
    assert("e"@[0] != ","@[0]);
    assert("e"@.len() != "pi"@.len());
    assert("cos"@.len() != "+"@.len());
    assert("cos"@.len() != "-"@.len());
    assert("cos"@.len() != "*"@.len());
    assert("cos"@.len() != "/"@.len());
    assert("cos"@.len() != "%"@.len());
    assert("cos"@.len() != "("@.len());
    assert("cos"@.len() != ")"@.len());
    assert("cos"@.len() != ","@.len());
    assert("cos"@.len() != "pi"@.len());
    assert("cos"@.len() != "e"@.len());
    assert("sin"@.len() != "+"@.len());
    assert("sin"@.len() != "-"@.len());
    assert("sin"@.len() != "*"@.len());
    assert("sin"@.len() != "/"@.len());
    assert("sin"@.len() != "%"@.len());
    assert("sin"@.len() != "("@.len());
    assert("sin"@.len() != ")"@.len());
    assert("sin"@.len() != ","@.len());
    assert("sin"@.len() != "pi"@.len());
    assert("sin"@.len() != "e"@.len());
    assert("sin"@[0] != "cos"@[0]);
    assert("tan"@.len() != "+"@.len());
    assert("tan"@.len() != "-"@.len());
    assert("tan"@.len() != "*"@.len());
    assert("tan"@.len() != "/"@.len());
    assert("tan"@.len() != "%"@.len());
    assert("tan"@.len() != "("@.len());
    assert("tan"@.len() != ")"@.len());
    assert("tan"@.len() != ","@.len());
    assert("tan"@.len() != "pi"@.len());
    assert("tan"@.len() != "e"@.len());
    assert("tan"@[0] != "cos"@[0]);
    assert("tan"@[0] != "sin"@[0]);
    assert("sqrt"@.len() != "+"@.len());
    assert("sqrt"@.len() != "-"@.len());
    assert("sqrt"@.len() != "*"@.len());
    assert("sqrt"@.len() != "/"@.len());
    assert("sqrt"@.len() != "%"@.len());
    assert("sqrt"@.len() != "("@.len());
    assert("sqrt"@.len() != ")"@.len());
    assert("sqrt"@.len() != ","@.len());
    assert("sqrt"@.len() != "pi"@.len());
    assert("sqrt"@.len() != "e"@.len());
    assert("sqrt"@.len() != "cos"@.len());
    assert("sqrt"@.len() != "sin"@.len());
    assert("sqrt"@.len() != "tan"@.len());
    assert("pow"@.len() != "+"@.len());
    assert("pow"@.len() != "-"@.len());
    assert("pow"@.len() != "*"@.len());
    assert("pow"@.len() != "/"@.len());
    assert("pow"@.len() != "%"@.len());
    assert("pow"@.len() != "("@.len());
    assert("pow"@.len() != ")"@.len());
    assert("pow"@.len() != ","@.len());
    assert("pow"@.len() != "pi"@.len());
    assert("pow"@.len() != "e"@.len());
    assert("pow"@[0] != "cos"@[0]);
    assert("pow"@[0] != "sin"@[0]);
    assert("pow"@[0] != "tan"@[0]);
    assert("pow"@.len() != "sqrt"@.len());
    assert("sign"@.len() != "+"@.len());
    assert("sign"@.len() != "-"@.len());
    assert("sign"@.len() != "*"@.len());
    assert("sign"@.len() != "/"@.len());
    assert("sign"@.len() != "%"@.len());
    assert("sign"@.len() != "("@.len());
    assert("sign"@.len() != ")"@.len());
    assert("sign"@.len() != ","@.len());
    assert("sign"@.len() != "pi"@.len());
    assert("sign"@.len() != "e"@.len());
    assert("sign"@.len() != "cos"@.len());
    assert("sign"@.len() != "sin"@.len());
    assert("sign"@.len() != "tan"@.len());
    assert("sign"@[1] != "sqrt"@[1]);
    assert("sign"@.len() != "pow"@.len());
    assert("abs"@.len() != "+"@.len());
    assert("abs"@.len() != "-"@.len());
    assert("abs"@.len() != "*"@.len());
    assert("abs"@.len() != "/"@.len());
    assert("abs"@.len() != "%"@.len());
    assert("abs"@.len() != "("@.len());
    assert("abs"@.len() != ")"@.len());
    assert("abs"@.len() != ","@.len());
    assert("abs"@.len() != "pi"@.len());
    assert("abs"@.len() != "e"@.len());
    assert("abs"@[0] != "cos"@[0]);
    assert("abs"@[0] != "sin"@[0]);
    assert("abs"@[0] != "tan"@[0]);
    assert("abs"@.len() != "sqrt"@.len());
    assert("abs"@[0] != "pow"@[0]);
    assert("abs"@.len() != "sign"@.len());
    assert("floor"@.len() != "+"@.len());
    assert("floor"@.len() != "-"@.len());
    assert("floor"@.len() != "*"@.len());
    assert("floor"@.len() != "/"@.len());
    assert("floor"@.len() != "%"@.len());
    assert("floor"@.len() != "("@.len());
    assert("floor"@.len() != ")"@.len());
    assert("floor"@.len() != ","@.len());
    assert("floor"@.len() != "pi"@.len());
    assert("floor"@.len() != "e"@.len());
    assert("floor"@.len() != "cos"@.len());
    assert("floor"@.len() != "sin"@.len());
    assert("floor"@.len() != "tan"@.len());
    assert("floor"@.len() != "sqrt"@.len());
    assert("floor"@.len() != "pow"@.len());
    assert("floor"@.len() != "sign"@.len());
    assert("floor"@.len() != "abs"@.len());
    assert("ceil"@.len() != "+"@.len());
    assert("ceil"@.len() != "-"@.len());
    assert("ceil"@.len() != "*"@.len());
    assert("ceil"@.len() != "/"@.len());
    assert("ceil"@.len() != "%"@.len());
    assert("ceil"@.len() != "("@.len());
    assert("ceil"@.len() != ")"@.len());
    assert("ceil"@.len() != ","@.len());
    assert("ceil"@.len() != "pi"@.len());
    assert("ceil"@.len() != "e"@.len());
    assert("ceil"@.len() != "cos"@.len());
    assert("ceil"@.len() != "sin"@.len());
    assert("ceil"@.len() != "tan"@.len());
    assert("ceil"@[0] != "sqrt"@[0]);
    assert("ceil"@.len() != "pow"@.len());
    assert("ceil"@[0] != "sign"@[0]);
    assert("ceil"@.len() != "abs"@.len());
    assert("ceil"@.len() != "floor"@.len());
    assert("ln"@.len() != "+"@.len());
    assert("ln"@.len() != "-"@.len());
    assert("ln"@.len() != "*"@.len());
    assert("ln"@.len() != "/"@.len());
    assert("ln"@.len() != "%"@.len());
    assert("ln"@.len() != "("@.len());
    assert("ln"@.len() != ")"@.len());
    assert("ln"@.len() != ","@.len());
    assert("ln"@[0] != "pi"@[0]);
    assert("ln"@.len() != "e"@.len());
    assert("ln"@.len() != "cos"@.len());
    assert("ln"@.len() != "sin"@.len());
    assert("ln"@.len() != "tan"@.len());
    assert("ln"@.len() != "sqrt"@.len());
    assert("ln"@.len() != "pow"@.len());
    assert("ln"@.len() != "sign"@.len());
    assert("ln"@.len() != "abs"@.len());
    assert("ln"@.len() != "floor"@.len());
    assert("ln"@.len() != "ceil"@.len());
    assert("rads"@.len() != "+"@.len());
    assert("rads"@.len() != "-"@.len());
    assert("rads"@.len() != "*"@.len());
    assert("rads"@.len() != "/"@.len());
    assert("rads"@.len() != "%"@.len());
    assert("rads"@.len() != "("@.len());
    assert("rads"@.len() != ")"@.len());
    assert("rads"@.len() != ","@.len());
    assert("rads"@.len() != "pi"@.len());
    assert("rads"@.len() != "e"@.len());
    assert("rads"@.len() != "cos"@.len());
    assert("rads"@.len() != "sin"@.len());
    assert("rads"@.len() != "tan"@.len());
    assert("rads"@[0] != "sqrt"@[0]);
    assert("rads"@.len() != "pow"@.len());
    assert("rads"@[0] != "sign"@[0]);
    assert("rads"@.len() != "abs"@.len());
    assert("rads"@.len() != "floor"@.len());
    assert("rads"@[0] != "ceil"@[0]);
    assert("rads"@.len() != "ln"@.len());
    assert("degs"@.len() != "+"@.len());
    assert("degs"@.len() != "-"@.len());
    assert("degs"@.len() != "*"@.len());
    assert("degs"@.len() != "/"@.len());
    assert("degs"@.len() != "%"@.len());
    assert("degs"@.len() != "("@.len());
    assert("degs"@.len() != ")"@.len());
    assert("degs"@.len() != ","@.len());
    assert("degs"@.len() != "pi"@.len());
    assert("degs"@.len() != "e"@.len());
    assert("degs"@.len() != "cos"@.len());
    assert("degs"@.len() != "sin"@.len());
    assert("degs"@.len() != "tan"@.len());
    assert("degs"@[0] != "sqrt"@[0]);
    assert("degs"@.len() != "pow"@.len());
    assert("degs"@[0] != "sign"@[0]);
    assert("degs"@.len() != "abs"@.len());
    assert("degs"@.len() != "floor"@.len());
    assert("degs"@[0] != "ceil"@[0]);
    assert("degs"@.len() != "ln"@.len());
    assert("degs"@[0] != "rads"@[0]);
}

/// Unary minus negates exactly one factor: a `-` that is not a number starts
/// a factor that is the negation of the factor right after it and ends where
/// that factor ends, so an operator after that factor is not taken in.
pub proof fn lemma_minus_negates_one_factor(t: Seq<Token>, i: int)
    requires
        0 <= i < t.len(),
        t[i].number is None,
        t[i].text@ == "-"@,
    ensures
        factor_at(t, i + 1) matches Some((f, j)) ==> (i + 1 < j <= t.len()
            ==> factor_at(t, i) == Some((Expr::Neg(Box::new(f)), j))),
        factor_at(t, i + 1) is None ==> factor_at(t, i) is None,
{
    lemma_symbol_table();
    assert(sym_at(t, i) == Sym::Minus);
}

/// A token that is `op` and not a number.
pub open spec fn is_op(tok: Token, op: Seq<char>) -> bool {
    tok.number is None && tok.text@ == op
}

/// `- a + b` reads as `(-a) + b`: the minus applies to `a` alone.
pub proof fn lemma_negation_binds_tighter_than_sum(t: Seq<Token>, a: u32, b: u32)
    requires
        t.len() == 4,
        is_op(t[0], "-"@),
        t[1].number == Some(a),
        is_op(t[2], "+"@),
        t[3].number == Some(b),
    ensures
        parsed(t) == Some(Expr::Add(Box::new(Expr::Neg(Box::new(Expr::Number(a)))), Box::new(Expr::Number(b)))),
{
    lemma_symbol_table();
    assert(sym_at(t, 0) == Sym::Minus);
    assert(sym_at(t, 2) == Sym::Plus);
    assert(factor_at(t, 1) == Some((Expr::Number(a), 2int)));
    let na = Expr::Neg(Box::new(Expr::Number(a)));
    assert(factor_at(t, 0) == Some((na, 2int)));
    assert(term_rest(t, na, 2) == Some((na, 2int)));
    assert(term_at(t, 0) == Some((na, 2int)));
    assert(factor_at(t, 3) == Some((Expr::Number(b), 4int)));
    assert(term_rest(t, Expr::Number(b), 4) == Some((Expr::Number(b), 4int)));
    assert(term_at(t, 3) == Some((Expr::Number(b), 4int)));
    let sum = Expr::Add(Box::new(na), Box::new(Expr::Number(b)));
    assert(expr_rest(t, sum, 4) == Some((sum, 4int)));
    assert(expr_rest(t, na, 2) == Some((sum, 4int)));
    assert(expr_at(t, 0) == Some((sum, 4int)));
}

/// `a + b * c` reads as `a + (b * c)`: products bind tighter than sums.
pub proof fn lemma_product_binds_tighter_than_sum(t: Seq<Token>, a: u32, b: u32, c: u32)
    requires
        t.len() == 5,
        t[0].number == Some(a),
        is_op(t[1], "+"@),
        t[2].number == Some(b),
        is_op(t[3], "*"@),
        t[4].number == Some(c),
    ensures
        parsed(t) == Some(Expr::Add(
            Box::new(Expr::Number(a)),
            Box::new(Expr::Mul(Box::new(Expr::Number(b)), Box::new(Expr::Number(c)))),
        )),
{
    lemma_symbol_table();
    assert(sym_at(t, 1) == Sym::Plus);
    assert(sym_at(t, 3) == Sym::Star);
    let na = Expr::Number(a);
    let nb = Expr::Number(b);
    let nc = Expr::Number(c);
    assert(factor_at(t, 0) == Some((na, 1int)));
    assert(term_rest(t, na, 1) == Some((na, 1int)));
    assert(term_at(t, 0) == Some((na, 1int)));
    assert(factor_at(t, 2) == Some((nb, 3int)));
    assert(factor_at(t, 4) == Some((nc, 5int)));
    let prod = Expr::Mul(Box::new(nb), Box::new(nc));
    assert(term_rest(t, prod, 5) == Some((prod, 5int)));
    assert(term_rest(t, nb, 3) == Some((prod, 5int)));
    assert(term_at(t, 2) == Some((prod, 5int)));
    let sum = Expr::Add(Box::new(na), Box::new(prod));
    assert(expr_rest(t, sum, 5) == Some((sum, 5int)));
    assert(expr_rest(t, na, 1) == Some((sum, 5int)));
    assert(expr_at(t, 0) == Some((sum, 5int)));
}

/// `a - b - c` reads as `(a - b) - c`: operators of one level associate to
/// the left.
pub proof fn lemma_difference_associates_left(t: Seq<Token>, a: u32, b: u32, c: u32)
    requires
        t.len() == 5,
        t[0].number == Some(a),
        is_op(t[1], "-"@),
        t[2].number == Some(b),
        is_op(t[3], "-"@),
        t[4].number == Some(c),
    ensures
        parsed(t) == Some(Expr::Sub(
            Box::new(Expr::Sub(Box::new(Expr::Number(a)), Box::new(Expr::Number(b)))),
            Box::new(Expr::Number(c)),
        )),
{
    lemma_symbol_table();
    assert(sym_at(t, 1) == Sym::Minus);
    assert(sym_at(t, 3) == Sym::Minus);
    let na = Expr::Number(a);
    let nb = Expr::Number(b);
    let nc = Expr::Number(c);
    assert(factor_at(t, 0) == Some((na, 1int)));
    assert(term_rest(t, na, 1) == Some((na, 1int)));
    assert(term_at(t, 0) == Some((na, 1int)));
    assert(factor_at(t, 2) == Some((nb, 3int)));
    assert(term_rest(t, nb, 3) == Some((nb, 3int)));
    assert(term_at(t, 2) == Some((nb, 3int)));
    assert(factor_at(t, 4) == Some((nc, 5int)));
    assert(term_rest(t, nc, 5) == Some((nc, 5int)));
    assert(term_at(t, 4) == Some((nc, 5int)));
    let d1 = Expr::Sub(Box::new(na), Box::new(nb));
    let d2 = Expr::Sub(Box::new(d1), Box::new(nc));
    assert(expr_rest(t, d2, 5) == Some((d2, 5int)));
    assert(expr_rest(t, d1, 3) == Some((d2, 5int)));
    assert(expr_rest(t, na, 1) == Some((d2, 5int)));
    assert(expr_at(t, 0) == Some((d2, 5int)));
}

/// `a op b` for the five binary operators reads as the matching node.
pub proof fn lemma_binary_operators(t: Seq<Token>, a: u32, b: u32, op: Seq<char>)
    requires
        t.len() == 3,
        t[0].number == Some(a),
        is_op(t[1], op),
        t[2].number == Some(b),
    ensures
        op == "+"@ ==> parsed(t) == Some(Expr::Add(Box::new(Expr::Number(a)), Box::new(Expr::Number(b)))),
        op == "-"@ ==> parsed(t) == Some(Expr::Sub(Box::new(Expr::Number(a)), Box::new(Expr::Number(b)))),
        op == "*"@ ==> parsed(t) == Some(Expr::Mul(Box::new(Expr::Number(a)), Box::new(Expr::Number(b)))),
        op == "/"@ ==> parsed(t) == Some(Expr::Div(Box::new(Expr::Number(a)), Box::new(Expr::Number(b)))),
        op == "%"@ ==> parsed(t) == Some(Expr::Rem(Box::new(Expr::Number(a)), Box::new(Expr::Number(b)))),
{
    lemma_symbol_table();
    let na = Expr::Number(a);
    let nb = Expr::Number(b);
    assert(factor_at(t, 0) == Some((na, 1int)));
    assert(factor_at(t, 2) == Some((nb, 3int)));
    if op == "+"@ || op == "-"@ {
        assert(term_rest(t, na, 1) == Some((na, 1int)));
        assert(term_at(t, 0) == Some((na, 1int)));
        assert(term_rest(t, nb, 3) == Some((nb, 3int)));
        assert(term_at(t, 2) == Some((nb, 3int)));
        let e = if op == "+"@ { Expr::Add(Box::new(na), Box::new(nb)) } else { Expr::Sub(Box::new(na), Box::new(nb)) };
        assert(expr_rest(t, e, 3) == Some((e, 3int)));
        assert(expr_rest(t, na, 1) == Some((e, 3int)));
        assert(expr_at(t, 0) == Some((e, 3int)));
    } else if op == "*"@ || op == "/"@ || op == "%"@ {
        let e = if op == "*"@ {
            Expr::Mul(Box::new(na), Box::new(nb))
        } else if op == "/"@ {
            Expr::Div(Box::new(na), Box::new(nb))
        } else {
            Expr::Rem(Box::new(na), Box::new(nb))
        };
        assert(term_rest(t, e, 3) == Some((e, 3int)));
        assert(term_rest(t, na, 1) == Some((e, 3int)));
        assert(term_at(t, 0) == Some((e, 3int)));
        assert(expr_rest(t, e, 3) == Some((e, 3int)));
        assert(expr_at(t, 0) == Some((e, 3int)));
    }
}

/// `( a )` reads as the group of `a`, and `f ( a , b )` for a function name
/// `f` as the call of `f` with arguments `a` and `b`, in that order.
pub proof fn lemma_groups_and_calls(g: Seq<Token>, c: Seq<Token>, a: u32, b: u32, f: Func)
    requires
        g.len() == 3,
        is_op(g[0], "("@),
        g[1].number == Some(a),
        is_op(g[2], ")"@),
        c.len() == 6,
        is_op(c[0], func_name(f)),
        is_op(c[1], "("@),
        c[2].number == Some(a),
        is_op(c[3], ","@),
        c[4].number == Some(b),
        is_op(c[5], ")"@),
    ensures
        parsed(g) == Some(Expr::Group(Box::new(Expr::Number(a)))),
        parsed(c) == Some(Expr::Call(f, Box::new(Args::Then(
            Box::new(Args::First(Box::new(Expr::Number(a)))),
            Box::new(Expr::Number(b)),
        )))),
{
    lemma_symbol_table();
    let na = Expr::Number(a);
    let nb = Expr::Number(b);
    assert(factor_at(g, 1) == Some((na, 2int)));
    assert(term_rest(g, na, 2) == Some((na, 2int)));
    assert(term_at(g, 1) == Some((na, 2int)));
    assert(expr_rest(g, na, 2) == Some((na, 2int)));
    assert(expr_at(g, 1) == Some((na, 2int)));
    let gr = Expr::Group(Box::new(na));
    assert(factor_at(g, 0) == Some((gr, 3int)));
    assert(term_rest(g, gr, 3) == Some((gr, 3int)));
    assert(term_at(g, 0) == Some((gr, 3int)));
    assert(expr_rest(g, gr, 3) == Some((gr, 3int)));
    assert(expr_at(g, 0) == Some((gr, 3int)));
    assert(sym_of(func_name(f)) == Sym::Call(f));
    assert(factor_at(c, 2) == Some((na, 3int)));
    assert(term_rest(c, na, 3) == Some((na, 3int)));
    assert(term_at(c, 2) == Some((na, 3int)));
    assert(expr_rest(c, na, 3) == Some((na, 3int)));
    assert(expr_at(c, 2) == Some((na, 3int)));
    assert(factor_at(c, 4) == Some((nb, 5int)));
    assert(term_rest(c, nb, 5) == Some((nb, 5int)));
    assert(term_at(c, 4) == Some((nb, 5int)));
    assert(expr_rest(c, nb, 5) == Some((nb, 5int)));
    assert(expr_at(c, 4) == Some((nb, 5int)));
    let args = Args::Then(Box::new(Args::First(Box::new(na))), Box::new(nb));
    assert(args_rest(c, args, 5) == Some((args, 5int)));
    assert(args_rest(c, Args::First(Box::new(na)), 3) == Some((args, 5int)));
    let call = Expr::Call(f, Box::new(args));
    assert(factor_at(c, 0) == Some((call, 6int)));
    assert(term_rest(c, call, 6) == Some((call, 6int)));
    assert(term_at(c, 0) == Some((call, 6int)));
    assert(expr_rest(c, call, 6) == Some((call, 6int)));
    assert(expr_at(c, 0) == Some((call, 6int)));
}

} // verus!
