use liva_parser::{
    binop_precedence, is_reserved, keyword, keywords, parse_binary_operator, parse_tokens,
    parse_unary_operator, punct, symbol, unops, Label, Operator, Span, UnOperator,
};

#[test]
fn punctuation_tokens_in_their_order() {
    for (text, token, rest) in [
        ("+1", "+", "1"),
        ("-", "-", ""),
        ("*x", "*", "x"),
        ("/ 2", "/", " 2"),
        (".b", ".", "b"),
        ("==3", "==", "3"),
        ("!= 3", "!=", " 3"),
        ("()", "(", ")"),
        (")", ")", ""),
        ("<3", "<", "3"),
        (">3", ">", "3"),
        ("<=3", "<=", "3"),
        (">=3", ">=", "3"),
    ] {
        let (after, found) = parse_tokens(Span::new(text)).unwrap();
        assert_eq!(found.fragment(), token);
        assert_eq!(after.fragment(), rest);
    }
    for text in ["", "=", "!", "x", " +", "[", "^"] {
        let err = parse_tokens(Span::new(text)).unwrap_err();
        assert!(!err.fatal);
        assert_eq!(err.trace.len(), 1);
        assert_eq!(err.trace[0].1, Label::GreaterThan);
        assert_eq!(err.trace[0].0.fragment(), text);
    }
}

#[test]
fn words_end_where_the_word_ends() {
    let (rest, token) = keyword(Span::new("end"), "end", Label::End).unwrap();
    assert_eq!(token.fragment(), "end");
    assert_eq!(rest.fragment(), "");
    let (rest, _) = keyword(Span::new("end)"), "end", Label::End).unwrap();
    assert_eq!(rest.fragment(), ")");
    let (rest, _) = keyword(Span::new("end\u{e9}"), "end", Label::End).unwrap();
    assert_eq!(rest.fragment(), "\u{e9}");
    for text in ["endpoint", "end_", "end1", "en", "End", " end", ""] {
        let err = keyword(Span::new(text), "end", Label::End).unwrap_err();
        assert!(!err.fatal);
        assert_eq!(err.trace[0].1, Label::End);
    }
    assert!(keyword(Span::new("anything"), "", Label::End).is_err());
    let (rest, token) = symbol(Span::new("endpoint"), "end", Label::End).unwrap();
    assert_eq!(token.fragment(), "end");
    assert_eq!(rest.fragment(), "point");
    let (rest, token) = symbol(Span::new("\u{e9}t\u{e9}"), "\u{e9}", Label::Token).unwrap();
    assert_eq!(token.fragment(), "\u{e9}");
    assert_eq!(rest.fragment(), "t\u{e9}");
    let (rest, token) = punct(Span::new("(x"), b'(', Label::LeftParen).unwrap();
    assert_eq!(token.fragment(), "(");
    assert_eq!(rest.fragment(), "x");
    assert_eq!(rest.location_offset(), 1);
    assert!(punct(Span::new(""), b'(', Label::LeftParen).is_err());
    assert!(punct(Span::new(")"), b'(', Label::LeftParen).is_err());
}

#[test]
fn operators_after_blank_space() {
    let (rest, op) = parse_binary_operator(Span::new(" \n // note\n <= 3")).unwrap();
    assert_eq!(op, Operator::Leq);
    assert_eq!(rest.fragment(), " 3");
    assert_eq!(rest.location_line(), 3);
    let (rest, op) = parse_binary_operator(Span::new("=== 3")).unwrap();
    assert_eq!(op, Operator::EQ);
    assert_eq!(rest.fragment(), "= 3");
    let err = parse_binary_operator(Span::new("  = 3")).unwrap_err();
    assert!(!err.fatal);
    assert_eq!(err.trace[0].0.fragment(), "= 3");
    assert_eq!(err.trace[0].1, Label::Token);
    assert_eq!(err.trace[1].0.fragment(), "  = 3");
    assert_eq!(err.trace[1].1, Label::Operator);
    assert!(parse_binary_operator(Span::new("not")).is_err());

    let (rest, op) = parse_unary_operator(Span::new(" -x")).unwrap();
    assert_eq!(op, UnOperator::Sub);
    assert_eq!(rest.fragment(), "x");
    let (_, op) = parse_unary_operator(Span::new("+x")).unwrap();
    assert_eq!(op, UnOperator::Add);
    for text in ["*x", "/x", "not x", "x", ""] {
        let err = parse_unary_operator(Span::new(text)).unwrap_err();
        assert_eq!(err.trace.last().unwrap().1, Label::UnaryOperator);
    }
}

#[test]
fn tables_of_operators_and_reserved_words() {
    assert_eq!(
        binop_precedence(),
        vec![
            vec![Operator::Pow],
            vec![Operator::Div, Operator::Mul, Operator::Mod],
            vec![Operator::Add, Operator::Sub],
            vec![
                Operator::EQ,
                Operator::Lt,
                Operator::Gt,
                Operator::Leq,
                Operator::Geq,
                Operator::Neq
            ],
            vec![Operator::And],
            vec![Operator::Or],
        ]
    );
    assert_eq!(unops(), vec![UnOperator::Add, UnOperator::Sub, UnOperator::Not]);
    assert_eq!(
        keywords(),
        vec![
            "return", "class", "end", "fun", "do", "while", "for", "if", "let", "in", "else",
            "external", "as", "import"
        ]
    );
    for word in keywords() {
        assert!(is_reserved(word));
    }
    for word in ["", "End", "ends", "en", "and", "or", "not", "true", "nil"] {
        assert!(!is_reserved(word));
    }
    assert!(Operator::Add < Operator::Sub);
    assert!(Operator::Or < Operator::Neq);
    assert!(UnOperator::Sub < UnOperator::Not);
}

#[test]
fn labels_have_the_names_of_the_productions() {
    assert_eq!(Label::Block.name(), "Block");
    assert_eq!(Label::Stmt.name(), "Stmt");
    assert_eq!(Label::If.name(), "If");
    assert_eq!(Label::IfCond.name(), "IfCond");
    assert_eq!(Label::Literal.name(), "Literal");
    assert_eq!(Label::String.name(), "String");
    assert_eq!(Label::Num.name(), "Num");
    assert_eq!(Label::Root.name(), "Root");
    assert_eq!(Label::Table.name(), "Map");
    assert_eq!(Label::LeftParen.name(), "LeftParen");
    assert_ne!(Label::Add.name(), Label::Sub.name());
}
