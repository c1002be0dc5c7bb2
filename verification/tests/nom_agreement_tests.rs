use liva_parser::{
    parse_boolean, parse_float, parse_int, parse_num, parse_str_raw, parse_variable_raw, sp,
    Label, Literal, Span, Token,
};
use nom::branch::alt;
use nom::bytes::complete::{escaped, tag, tag_no_case, take_while};
use nom::character::complete::{alpha1, alphanumeric1, char, digit1, one_of, space1};
use nom::combinator::{cut, recognize};
use nom::error::VerboseError;
use nom::multi::many0;
use nom::sequence::{delimited, pair, preceded, terminated};
use nom::IResult;
use nom_locate::LocatedSpan;

type Located<'a> = LocatedSpan<&'a str>;
type Reference<'a, O> = IResult<Located<'a>, O, VerboseError<Located<'a>>>;

const INPUTS: [&str; 40] = [
    "",
    "x",
    "hello123",
    "Hello_World rest",
    "_under score",
    "__",
    "9lives",
    "a-b",
    "caf\u{e9}",
    "\u{e9}cole",
    "x\ny",
    "snake_case(1, 2)",
    "123",
    "123abc",
    "0",
    "007.50x",
    "1.5",
    "1.",
    ".5",
    "12.34.56",
    "1e5",
    "-1.5e-3 rest",
    "+7",
    "1.5e",
    "True",
    "true!",
    "FALSE",
    "fAlSe0",
    "Tru",
    "\"Hello World\" rest",
    "\"with \\\" quote and \\n and \\\\\"",
    "'single quoted'",
    "\"unterminated",
    "\"bad, char\"",
    "\"tab\there\"",
    "'mixed\"",
    " \t\r\n next",
    "\n\n\nx",
    "   ",
    "no blank",
];

fn same_place(mine: Span, theirs: Located) {
    assert_eq!(mine.fragment(), *theirs.fragment());
    assert_eq!(mine.location_offset(), theirs.location_offset());
    assert_eq!(mine.location_line(), theirs.location_line());
    assert_eq!(mine.get_column(), theirs.get_column());
}

fn reference_identifier(input: Located) -> Reference<Located> {
    recognize(pair(alt((alpha1, tag("_"))), many0(alt((alphanumeric1, tag("_"))))))(input)
}

#[test]
fn identifiers_agree_with_the_combinators() {
    for text in INPUTS {
        let mine = parse_variable_raw(Span::new(text));
        let theirs = reference_identifier(Located::new(text));
        match (mine, theirs) {
            (Ok((rest, name)), Ok((their_rest, their_name))) => {
                same_place(rest, their_rest);
                same_place(name, their_name);
            }
            (Err(_), Err(_)) => {}
            (mine, theirs) => panic!("{:?}: {:?} against {:?}", text, mine, theirs),
        }
    }
}

#[test]
fn integers_agree_with_the_combinators() {
    for text in INPUTS {
        let mine = parse_int(Span::new(text));
        let theirs: Reference<Located> = digit1(Located::new(text));
        match (mine, theirs) {
            (Ok((rest, Literal::Int(token))), Ok((their_rest, their_digits))) => {
                same_place(rest, their_rest);
                same_place(token.pos, their_digits);
                assert_eq!(token.value, their_digits.fragment().parse::<i32>().unwrap());
            }
            (Err(_), Err(_)) => {}
            (mine, theirs) => panic!("{:?}: {:?} against {:?}", text, mine, theirs),
        }
    }
}

#[test]
fn floats_agree_with_the_combinators() {
    for text in INPUTS {
        let mine = parse_float(Span::new(text));
        let theirs: Reference<Located> =
            recognize(delimited(digit1, char('.'), digit1))(Located::new(text));
        match (mine, theirs) {
            (Ok((rest, Literal::Float(token))), Ok((their_rest, their_text))) => {
                same_place(rest, their_rest);
                same_place(token.pos, their_text);
                assert_eq!(token.value, *their_text.fragment());
                assert_eq!(
                    token.value.parse::<f64>().unwrap(),
                    their_text.fragment().parse::<f64>().unwrap()
                );
            }
            (Err(_), Err(_)) => {}
            (mine, theirs) => panic!("{:?}: {:?} against {:?}", text, mine, theirs),
        }
    }
}

#[test]
fn numbers_are_what_recognize_float_recognises() {
    for text in INPUTS {
        let mine = parse_num(Span::new(text));
        let theirs: Reference<Located> =
            nom::number::complete::recognize_float(Located::new(text));
        match (mine, theirs) {
            (Ok((rest, Literal::Float(token))), Ok((their_rest, their_text))) => {
                same_place(rest, their_rest);
                same_place(token.pos, their_text);
                assert_eq!(token.value, *their_text.fragment());
            }
            (Err(e), Err(_)) => {
                assert!(!e.fatal);
                assert_eq!(e.trace[0].1, Label::Num);
            }
            (mine, theirs) => panic!("{:?}: {:?} against {:?}", text, mine, theirs),
        }
    }
    let (rest, res) = parse_num(Span::new("-1.5e-3 rest")).unwrap();
    assert_eq!(res, Literal::Float(Token::new("-1.5e-3", Span::new("-1.5e-3"))));
    assert_eq!(rest.fragment(), " rest");
    let (rest, res) = parse_num(Span::new("12abc")).unwrap();
    assert_eq!(res, Literal::Float(Token::new("12", Span::new("12"))));
    assert_eq!(rest.fragment(), "abc");
    assert!(parse_num(Span::new("abc")).is_err());
}

#[test]
fn booleans_agree_with_the_combinators() {
    for text in INPUTS {
        let mine = parse_boolean(Span::new(text));
        let theirs: Reference<Located> =
            alt((tag_no_case("False"), tag_no_case("True")))(Located::new(text));
        match (mine, theirs) {
            (Ok((rest, Literal::Boolean(token))), Ok((their_rest, their_word))) => {
                same_place(rest, their_rest);
                same_place(token.pos, their_word);
                assert_eq!(token.value, their_word.fragment().eq_ignore_ascii_case("true"));
            }
            (Err(_), Err(_)) => {}
            (mine, theirs) => panic!("{:?}: {:?} against {:?}", text, mine, theirs),
        }
    }
}

fn reference_body(input: Located) -> Reference<Located> {
    escaped(alt((space1, alphanumeric1)), '\\', one_of("\"n\\"))(input)
}

fn reference_string(input: Located) -> Reference<Located> {
    alt((
        preceded(char('"'), cut(terminated(reference_body, char('"')))),
        preceded(char('\''), cut(terminated(reference_body, char('\'')))),
    ))(input)
}

#[test]
fn strings_agree_with_the_combinators() {
    for text in INPUTS {
        let mine = parse_str_raw(Span::new(text));
        let theirs = reference_string(Located::new(text));
        match (mine, theirs) {
            (Ok((rest, body)), Ok((their_rest, their_body))) => {
                same_place(rest, their_rest);
                same_place(body, their_body);
            }
            (Err(e), Err(nom::Err::Failure(_))) => assert!(e.fatal),
            (Err(e), Err(nom::Err::Error(_))) => assert!(!e.fatal),
            (mine, theirs) => panic!("{:?}: {:?} against {:?}", text, mine, theirs),
        }
    }
}

#[test]
fn blank_space_agrees_with_the_combinators() {
    for text in INPUTS {
        let (rest, _) = sp(Span::new(text)).unwrap();
        let theirs: Reference<Located> =
            take_while(|c| " \t\r\n".contains(c))(Located::new(text));
        let (their_rest, _) = theirs.unwrap();
        same_place(rest, their_rest);
    }
}
