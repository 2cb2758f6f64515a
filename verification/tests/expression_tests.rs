use beatcraft_editor::expression::{classify, parse, tokenize, Args, Expr, Func, Sym, Token};

fn tokens(text: &str) -> Vec<Token> {
    tokenize(text)
        .unwrap()
        .into_iter()
        .map(|t| {
            let number = if classify(&t) == Sym::Word { t.parse::<f32>().ok().map(f32::to_bits) } else { None };
            Token { text: t, number }
        })
        .collect()
}

fn num(e: &Expr) -> f32 {
    match e {
        Expr::Number(b) => f32::from_bits(*b),
        other => panic!("not a number: {other:?}"),
    }
}

#[test]
fn tokenize_splits_numbers_words_and_symbols() {
    assert_eq!(tokenize("1 + 2.5*x_1").unwrap(), vec!["1", "+", "2.5", "*", "x_1"]);
    assert_eq!(tokenize("pow(.5,3.)").unwrap(), vec!["pow", "(", ".5", ",", "3.", ")"]);
    assert_eq!(tokenize("a = b ^ 2").unwrap(), vec!["a", "b", "2"]);
    assert!(tokenize("").unwrap().is_empty());
}

#[test]
fn classify_symbols() {
    assert_eq!(classify(&"%".to_string()), Sym::Percent);
    assert_eq!(classify(&"degs".to_string()), Sym::Call(Func::Degs));
    assert_eq!(classify(&"pi".to_string()), Sym::Pi);
    assert_eq!(classify(&"x".to_string()), Sym::Word);
}

#[test]
fn precedence_and_left_to_right() {
    let e = parse(&tokens("1 - 2 - 3 * 4")).unwrap();
    match e {
        Expr::Sub(l, r) => {
            match *l {
                Expr::Sub(a, b) => {
                    assert_eq!(num(&a), 1.0);
                    assert_eq!(num(&b), 2.0);
                }
                other => panic!("{other:?}"),
            }
            match *r {
                Expr::Mul(a, b) => {
                    assert_eq!(num(&a), 3.0);
                    assert_eq!(num(&b), 4.0);
                }
                other => panic!("{other:?}"),
            }
        }
        other => panic!("{other:?}"),
    }
}

#[test]
fn calls_groups_and_negation() {
    match parse(&tokens("pow(2, -x)")).unwrap() {
        Expr::Call(Func::Pow, args) => match *args {
            Args::Then(first, second) => {
                assert!(matches!(*first, Args::First(ref a) if num(a) == 2.0));
                assert!(matches!(*second, Expr::Neg(ref v) if matches!(**v, Expr::Var(ref n) if n == "x")));
            }
            other => panic!("{other:?}"),
        },
        other => panic!("{other:?}"),
    }
    assert!(matches!(parse(&tokens("(pi)")).unwrap(), Expr::Group(ref g) if matches!(**g, Expr::Pi)));
    assert!(matches!(parse(&tokens("e % 2")).unwrap(), Expr::Rem(ref a, _) if matches!(**a, Expr::E)));
}

#[test]
fn malformed_expressions_fail() {
    assert!(parse(&tokens("(1 + 2")).is_none());
    assert!(parse(&tokens("1 2")).is_none());
    assert!(parse(&tokens("cos 1")).is_none());
    assert!(parse(&tokens("sin(1")).is_none());
    assert!(parse(&tokens("1 +")).is_none());
    assert!(parse(&tokens("")).is_none());
    assert!(parse(&tokens("-")).is_none());
}

#[test]
fn any_other_token_is_a_variable() {
    assert!(matches!(parse(&tokens(")")).unwrap(), Expr::Var(ref n) if n == ")"));
    assert!(matches!(parse(&tokens("foo")).unwrap(), Expr::Var(ref n) if n == "foo"));
}
