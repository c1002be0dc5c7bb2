use liva_parser::Span;

#[test]
fn span_starts_at_line_one() {
    let s = Span::new("hello\nworld");
    assert_eq!(s.location_offset(), 0);
    assert_eq!(s.location_line(), 1);
    assert_eq!(s.get_column(), 1);
    assert_eq!(s.fragment(), "hello\nworld");
    assert_eq!(s.len(), 11);
    assert_eq!(s.bytes(), b"hello\nworld");
}

#[test]
fn split_counts_bytes_and_lines() {
    let whole = Span::new("ab\ncd\n\nef");
    let (head, rest) = whole.split(7);
    assert_eq!(head.fragment(), "ab\ncd\n\n");
    assert_eq!(head.location_offset(), 0);
    assert_eq!(head.location_line(), 1);
    assert_eq!(rest.fragment(), "ef");
    assert_eq!(rest.location_offset(), 7);
    assert_eq!(rest.location_line(), 4);
    assert_eq!(rest.get_column(), 1);
    let (_, f) = rest.split(1);
    assert_eq!(f.get_column(), 2);
    let (_, d) = whole.split(4);
    assert_eq!(d.fragment(), "d\n\nef");
    assert_eq!(d.location_line(), 2);
    assert_eq!(d.get_column(), 2);
    let (_, wide) = Span::new("\u{e9}x").split(2);
    assert_eq!(wide.get_column(), 3);
    let (none, all) = rest.split(0);
    assert_eq!(none.fragment(), "");
    assert_eq!(all.location_offset(), 7);
    assert_eq!(all.location_line(), 4);
}

#[test]
fn span_equality_ignores_position() {
    let whole = Span::new("ab\nab");
    let (_, rest) = whole.split(3);
    assert_eq!(rest.location_offset(), 3);
    assert_eq!(rest.location_line(), 2);
    assert_eq!(rest, Span::new("ab"));
    assert_ne!(rest, Span::new("abc"));
    assert_ne!(rest, Span::new("aB"));
}
