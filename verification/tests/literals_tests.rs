use liva_parser::{
    parse_array, parse_boolean, parse_comment, parse_float, parse_int, parse_literal,
    parse_map, parse_nil, parse_str, parse_variable, sp, Collection, ExprOrVarname, Expression,
    Label, Literal, PrefixExpr, Span, TableEntry, Token,
};

fn number(value: i32, text: &'static str) -> Expression<'static> {
    Expression::Literal(Literal::Int(Token::new(value, Span::new(text))))
}

#[test]
fn test_parse_comment() {
    let string = "// This is a comment\nSome code";
    let (rest, res) = parse_comment(Span::new(string)).unwrap();

    assert_eq!(res, "");
    assert_eq!(rest.fragment(), "Some code");
}

#[test]
fn comment_runs_to_the_end_of_the_text() {
    let (rest, res) = parse_comment(Span::new("// no line feed")).unwrap();
    assert_eq!(res, "");
    assert_eq!(rest.fragment(), "");
    assert!(parse_comment(Span::new("/ not a comment")).is_err());
}

#[test]
fn test_token() {
    // Tokens are compared by their value and not by the span that they carry.
    let token1 = Token::new("hello", Span::new("Thisone"));
    let token2 = Token::new("hello", Span::new("other"));
    assert_eq!(token1, token2);
}

#[test]
fn test_sp() {
    let string = " \n\n";
    let (rest, res) = sp(Span::new(string)).unwrap();
    assert_eq!(res, "");
    assert_eq!(rest.fragment(), "");
}

#[test]
fn test_sp2() {
    let string = " \n\n// \n";
    let (rest, res) = sp(Span::new(string)).unwrap();
    assert_eq!(res, "");
    assert_eq!(rest.fragment(), "");
}

#[test]
fn sp_skips_blank_space_and_comments_in_any_number() {
    let (rest, _) = sp(Span::new(" \t\r\n// one\n  // two\n\n x // three")).unwrap();
    assert_eq!(rest.fragment(), "x // three");
    assert_eq!(rest.location_offset(), 22);
    assert_eq!(rest.location_line(), 5);
    let (rest, _) = sp(Span::new("x")).unwrap();
    assert_eq!(rest.fragment(), "x");
    let (rest, _) = sp(Span::new("/ x")).unwrap();
    assert_eq!(rest.fragment(), "/ x");
}

#[test]
fn parse_nil_test() {
    let string = "Nil";
    let (_, res) = parse_nil(Span::new(string)).unwrap();
    assert_eq!(res, Literal::Nil(Span::new("Nil")));
}

#[test]
fn parse_boolean_test() {
    let string = "False";
    let (_, res) = parse_boolean(Span::new(string)).unwrap();
    assert_eq!(res, Literal::Boolean(Token::new(false, Span::new("False"))));

    let string = "True";
    let (_, res) = parse_boolean(Span::new(string)).unwrap();
    assert_eq!(res, Literal::Boolean(Token::new(true, Span::new("True"))));

    let string = "False";
    let (_, res) = parse_literal(Span::new(string)).unwrap();
    assert_eq!(res, Literal::Boolean(Token::new(false, Span::new("False"))));

    let string = "True";
    let (_, res) = parse_literal(Span::new(string)).unwrap();
    assert_eq!(res, Literal::Boolean(Token::new(true, Span::new("True"))));
}

#[test]
fn boolean_and_nil_in_any_case() {
    let (_, res) = parse_literal(Span::new("tRuE")).unwrap();
    assert_eq!(res, Literal::Boolean(Token::new(true, Span::new("tRuE"))));
    let (_, res) = parse_literal(Span::new("FALSE")).unwrap();
    assert_eq!(res, Literal::Boolean(Token::new(false, Span::new("FALSE"))));
    let (rest, res) = parse_literal(Span::new("  nil)")).unwrap();
    assert_eq!(res, Literal::Nil(Span::new("nil")));
    assert_eq!(rest.fragment(), ")");
    assert_ne!(
        Literal::Boolean(Token::new(true, Span::new("True"))),
        Literal::Boolean(Token::new(false, Span::new("True")))
    );
}

#[test]
fn parse_string_test() {
    let string = "\"HelloWorld\" ";
    let (_, res) = parse_str(Span::new(string)).unwrap();
    assert_eq!(
        res,
        Literal::Str(Token::new(String::from("HelloWorld"), Span::new("HelloWorld")))
    );

    let string = "\"Hello World\" ";
    let (_, res) = parse_str(Span::new(string)).unwrap();
    assert_eq!(
        res,
        Literal::Str(Token::new(String::from("Hello World"), Span::new("Hello World")))
    );

    let string = "\"Hello    World\" ";
    let (_, res) = parse_str(Span::new(string)).unwrap();
    assert_eq!(
        res,
        Literal::Str(Token::new(String::from("Hello    World"), Span::new("Hello    World")))
    );
}

#[test]
fn string_in_single_quotes_and_with_escapes() {
    let (rest, res) = parse_str(Span::new("'Hello World' x")).unwrap();
    assert_eq!(
        res,
        Literal::Str(Token::new(String::from("Hello World"), Span::new("Hello World")))
    );
    assert_eq!(rest.fragment(), " x");

    let (rest, res) = parse_str(Span::new("\"a\\\"b\\nc\\\\\"!")).unwrap();
    match res {
        Literal::Str(token) => {
            assert_eq!(token.value, "a\\\"b\\nc\\\\");
            assert_eq!(token.pos.location_offset(), 1);
        }
        _ => panic!("not a string"),
    }
    assert_eq!(rest.fragment(), "!");

    let (_, res) = parse_str(Span::new("\"\"")).unwrap();
    assert_eq!(res, Literal::Str(Token::new(String::new(), Span::new(""))));
}

#[test]
fn unterminated_string_is_fatal() {
    let err = parse_str(Span::new("\"Hello")).unwrap_err();
    assert!(err.fatal);
    assert_eq!(err.trace.last().unwrap().1, Label::String);
    let err = parse_str(Span::new("'Hello\"")).unwrap_err();
    assert!(err.fatal);
    let err = parse_str(Span::new("\"Hello, World\"")).unwrap_err();
    assert!(err.fatal);
    assert_eq!(err.trace[0].0.fragment(), ", World\"");
    assert_eq!(err.trace[0].1, Label::Quote);
    let err = parse_str(Span::new("\"bad \\x escape\"")).unwrap_err();
    assert!(err.fatal);

    let err = parse_str(Span::new("Hello")).unwrap_err();
    assert!(!err.fatal);
    let err = parse_literal(Span::new(" \"Hello")).unwrap_err();
    assert!(err.fatal);
    assert_eq!(err.trace.last().unwrap().1, Label::Literal);
    assert_eq!(err.trace.last().unwrap().0.fragment(), " \"Hello");
}

#[test]
fn parse_num_test() {
    let string = "1.1";
    let (_, res) = parse_literal(Span::new(string)).unwrap();
    assert_eq!(res, Literal::Float(Token::new("1.1", Span::new("1.1"))));
    match res {
        Literal::Float(token) => assert_eq!(token.value.parse::<f64>().unwrap(), 1.1),
        _ => panic!("not a float"),
    }

    let string = "123.0";
    let (_, res) = parse_literal(Span::new(string)).unwrap();
    assert_eq!(res, Literal::Float(Token::new("123.0", Span::new("123.0"))));
    match res {
        Literal::Float(token) => assert_eq!(token.value.parse::<f64>().unwrap(), 123.0),
        _ => panic!("not a float"),
    }

    let string = "1";
    let (_, res) = parse_literal(Span::new(string)).unwrap();
    assert_eq!(res, Literal::Int(Token::new(1, Span::new("1"))));
}

#[test]
fn float_is_tried_before_int() {
    let (rest, res) = parse_literal(Span::new("1.5")).unwrap();
    assert_eq!(res, Literal::Float(Token::new("1.5", Span::new("1.5"))));
    assert_eq!(rest.fragment(), "");

    let (rest, res) = parse_literal(Span::new("12.x")).unwrap();
    assert_eq!(res, Literal::Int(Token::new(12, Span::new("12"))));
    assert_eq!(rest.fragment(), ".x");

    let (rest, res) = parse_float(Span::new("007.250rest")).unwrap();
    assert_eq!(res, Literal::Float(Token::new("007.250", Span::new("007.250"))));
    assert_eq!(rest.fragment(), "rest");

    assert!(parse_float(Span::new("12")).is_err());
    assert!(parse_float(Span::new(".5")).is_err());
    assert!(parse_float(Span::new("1.")).is_err());
}

#[test]
fn int_literal_values_and_range() {
    let (rest, res) = parse_int(Span::new("2147483647;")).unwrap();
    assert_eq!(res, Literal::Int(Token::new(2147483647, Span::new("2147483647"))));
    assert_eq!(rest.fragment(), ";");
    let (_, res) = parse_int(Span::new("00042")).unwrap();
    assert_eq!(res, Literal::Int(Token::new(42, Span::new("00042"))));
    assert_ne!(res, Literal::Int(Token::new(43, Span::new("00042"))));

    let err = parse_int(Span::new("2147483648")).unwrap_err();
    assert!(err.fatal);
    assert_eq!(err.trace[0].1, Label::Int);
    let err = parse_int(Span::new("99999999999999999999")).unwrap_err();
    assert!(err.fatal);
    let err = parse_int(Span::new("x1")).unwrap_err();
    assert!(!err.fatal);
}

#[test]
fn parse_array_test() {
    let string = "[1, 1, 1]";
    let (_, res) = parse_array(Span::new(string)).unwrap();
    assert_eq!(
        res,
        Collection::Array(vec![number(1, "1"), number(1, "1"), number(1, "1")])
    )
}

#[test]
fn parse_array_test1() {
    let string = "[1, \"String\", 1]";
    let (_, res) = parse_array(Span::new(string)).unwrap();
    assert_eq!(
        res,
        Collection::Array(vec![
            number(1, "1"),
            Expression::Literal(Literal::Str(Token::new(
                String::from("String"),
                Span::new("String")
            ))),
            number(1, "1"),
        ])
    )
}

#[test]
fn parse_array_test1_rest() {
    let string = "[1, \"String\", 1]\nprint(x)";
    let (rest, res) = parse_array(Span::new(string)).unwrap();
    assert_eq!(
        res,
        Collection::Array(vec![
            number(1, "1"),
            Expression::Literal(Literal::Str(Token::new(
                String::from("String"),
                Span::new("String")
            ))),
            number(1, "1"),
        ])
    );
    assert_eq!(rest.fragment(), "\nprint(x)");
}

#[test]
fn unclosed_array_is_fatal() {
    let err = parse_array(Span::new("[1, 2")).unwrap_err();
    assert!(err.fatal);
    assert_eq!(err.trace.last().unwrap().1, Label::Array);
    let err = parse_array(Span::new("[1, ]")).unwrap_err();
    assert!(err.fatal);
    let err = parse_array(Span::new("(1)")).unwrap_err();
    assert!(!err.fatal);
    let (_, res) = parse_array(Span::new("[ ]")).unwrap();
    assert_eq!(res, Collection::Array(vec![]));
}

#[test]
fn parse_array_map() {
    let string = "{}";
    let (_, res) = parse_map(Span::new(string)).unwrap();
    assert_eq!(res, Collection::Table(vec![]));
}

#[test]
fn parse_array_map1() {
    let string = "{\"Helllo\": 2, \"World\": 3}";
    let (_, res) = parse_map(Span::new(string)).unwrap();
    let hm = vec![
        TableEntry { key: String::from("Helllo"), value: number(2, "2") },
        TableEntry { key: String::from("World"), value: number(3, "3") },
    ];
    assert_eq!(res, Collection::Table(hm));
}

#[test]
fn table_keeps_the_last_value_of_a_key() {
    let (_, res) = parse_map(Span::new("{'a': 1, 'b': 2, 'a': 3}")).unwrap();
    assert_eq!(
        res,
        Collection::Table(vec![
            TableEntry { key: String::from("a"), value: number(3, "3") },
            TableEntry { key: String::from("b"), value: number(2, "2") },
        ])
    );
    let err = parse_map(Span::new("{'a' 1}")).unwrap_err();
    assert!(err.fatal);
    let err = parse_map(Span::new("{'a': 1")).unwrap_err();
    assert!(err.fatal);
    assert_eq!(err.trace.last().unwrap().1, Label::Table);
}

#[test]
fn parse_literal_test() {
    let string = "Nil";
    let (_, res) = parse_literal(Span::new(string)).unwrap();
    assert_eq!(res, Literal::Nil(Span::new("Nil")))
}

#[test]
fn test_parse_variable() {
    let string = "hello123";
    let (_, res) = parse_variable(Span::new(string)).unwrap();
    assert_eq!(res, Token::new("hello123", Span::new("hello123")));
}

#[test]
fn test_parse_variable_cap() {
    let string = "Hello123";
    let (_, res) = parse_variable(Span::new(string)).unwrap();
    assert_eq!(res, Token::new("Hello123", Span::new("Hello123")));
}

#[test]
fn test_parse_variable_func() {
    let string = "hello()";
    let (rest, res) = parse_variable(Span::new(string)).unwrap();
    assert_eq!(res, Token::new("hello", Span::new("hello")));
    assert_eq!(rest.fragment(), "()");
}

#[test]
fn reserved_words_are_no_variables() {
    let reserved = [
        "return", "class", "end", "fun", "do", "while", "for", "if", "let", "in", "else",
        "external", "as", "import",
    ];
    for word in reserved {
        let err = parse_variable(Span::new(word)).unwrap_err();
        assert!(!err.fatal);
        assert_eq!(err.trace[0].1, Label::Keyword);
        assert!(liva_parser::is_reserved(word));
    }
    for word in ["endpoint", "_end", "iffy", "For", "and", "or", "not", "x1", "_"] {
        let (rest, res) = parse_variable(Span::new(word)).unwrap();
        assert_eq!(res.value, word);
        assert_eq!(res.pos.fragment(), word);
        assert_eq!(rest.fragment(), "");
        assert!(!liva_parser::is_reserved(word));
    }
    for text in ["1x", "", " x", "-x", "\u{e9}t\u{e9}"] {
        let err = parse_variable(Span::new(text)).unwrap_err();
        assert_eq!(err.trace[0].1, Label::Variable);
    }
    let (rest, res) = parse_variable(Span::new("caf\u{e9}")).unwrap();
    assert_eq!(res.value, "caf");
    assert_eq!(rest.fragment(), "\u{e9}");
}

#[test]
fn test_parse_array_expr() {
    let string = "[1, 2, hello]";
    let (_, res) = parse_array(Span::new(string)).unwrap();

    assert_eq!(
        res,
        Collection::Array(vec![
            number(1, "1"),
            number(2, "2"),
            Expression::PrefixExpr(Box::new(PrefixExpr {
                prefix: ExprOrVarname::Varname(Literal::Variable(Token::new(
                    "hello",
                    Span::new("hello")
                ))),
                suffix_chain: vec![]
            }))
        ])
    )
}
