use sharc::ast::{Attrs, Node, Type};
use sharc::parser::parse_u64_bytes;
use sharc::lexer::Lexer;
use sharc::parser::Parser;
use sharc::report::ReportKind;

fn parse_src(src: &[u8]) -> (Vec<sharc::span::Sp<Node>>, Vec<sharc::report::Report>) {
    let (tokens, lex_reports) = Lexer::tokenize(src);
    assert_eq!(lex_reports.len(), 0);
    Parser::parse(tokens, "test.shd")
}

#[test]
fn parses_simple_function() {
    let (ast, reports) = parse_src(b"fn main(): void { ret; }");
    assert_eq!(reports.len(), 0);
    assert_eq!(ast.len(), 1);
    match &ast[0].elem {
        Node::Func {
            name,
            attrs,
            args,
            ret,
            body,
        } => {
            assert_eq!(name.elem, b"main".to_vec());
            assert_eq!(attrs.len(), 0);
            assert_eq!(args.len(), 0);
            assert!(matches!(ret.as_ref().map(|t| &t.elem), Some(Type::Void)));
            assert_eq!(body.len(), 1);
            assert!(matches!(body[0].elem, Node::Ret(None)));
        }
        _ => panic!("expected a function"),
    }
}

#[test]
fn malformed_header_recovers_to_next_function() {
    // one malformed declaration, one diagnostic, and the second function is
    // still in the output sequence
    let (ast, reports) = parse_src(b"fn (): void { ret; } fn g(): void { ret; }");
    assert_eq!(reports.len(), 1);
    assert_eq!(reports[0].kind, ReportKind::UnexpectedToken);
    assert_eq!(ast.len(), 1);
    match &ast[0].elem {
        Node::Func { name, .. } => assert_eq!(name.elem, b"g".to_vec()),
        _ => panic!("expected a function"),
    }
}

#[test]
fn attribute_keywords_wrap_the_function() {
    let (ast, reports) = parse_src(b"extern fn puts(s: *u8): i32; export fn main(): void { ret; }");
    assert_eq!(reports.len(), 0);
    assert_eq!(ast.len(), 2);
    match &ast[0].elem {
        Node::Func {
            name, attrs, args, ..
        } => {
            assert_eq!(name.elem, b"puts".to_vec());
            assert_eq!(attrs.len(), 1);
            assert_eq!(attrs[0].elem, Attrs::Extern);
            assert_eq!(args.len(), 1);
            assert_eq!(args[0].0.elem, b"s".to_vec());
            match &args[0].1.elem {
                Type::Ptr(inner) => assert!(matches!(inner.elem, Type::U(8))),
                _ => panic!("expected a pointer type"),
            }
        }
        _ => panic!("expected a function"),
    }
    match &ast[1].elem {
        Node::Func { attrs, .. } => {
            assert_eq!(attrs.len(), 1);
            assert_eq!(attrs[0].elem, Attrs::Export);
        }
        _ => panic!("expected a function"),
    }
}

#[test]
fn let_statement() {
    let (ast, reports) = parse_src(b"fn f(): void { let x: u8 = 5; }");
    assert_eq!(reports.len(), 0);
    match &ast[0].elem {
        Node::Func { body, .. } => match &body[0].elem {
            Node::Assign { name, ty, value } => {
                assert_eq!(name.elem, b"x".to_vec());
                assert!(matches!(ty.elem, Type::U(8)));
                assert!(matches!(value.elem, Node::UIntLit(5)));
            }
            _ => panic!("expected a let statement"),
        },
        _ => panic!("expected a function"),
    }
}

#[test]
fn call_forms() {
    let (ast, reports) = parse_src(b"fn f(): void { $g(1, 2); $h 3; }");
    assert_eq!(reports.len(), 0);
    match &ast[0].elem {
        Node::Func { body, .. } => {
            match &body[0].elem {
                Node::FuncCall { name, args } => {
                    assert_eq!(name.elem, b"g".to_vec());
                    assert_eq!(args.len(), 2);
                    assert!(matches!(args[0].elem, Node::UIntLit(1)));
                    assert!(matches!(args[1].elem, Node::UIntLit(2)));
                }
                _ => panic!("expected a call"),
            }
            match &body[1].elem {
                Node::FuncCall { name, args } => {
                    assert_eq!(name.elem, b"h".to_vec());
                    assert_eq!(args.len(), 1);
                    assert!(matches!(args[0].elem, Node::UIntLit(3)));
                }
                _ => panic!("expected a call"),
            }
        }
        _ => panic!("expected a function"),
    }
}

#[test]
fn string_escapes_decode_through_the_table() {
    let (ast, reports) = parse_src(b"fn f(): void { ret \"a\\n\\e\\J\\q\"; }");
    assert_eq!(reports.len(), 0);
    match &ast[0].elem {
        Node::Func { body, .. } => match &body[0].elem {
            Node::Ret(Some(value)) => match &value.elem {
                // 'n' -> newline, 'e' -> escape, 'J' -> newline,
                // 'q' is outside the table and stands for itself
                Node::StrLit(s) => assert_eq!(s, &vec![0x61, 0x0a, 0x1b, 0x0a, 0x71]),
                _ => panic!("expected a string literal"),
            },
            _ => panic!("expected a return"),
        },
        _ => panic!("expected a function"),
    }
}

#[test]
fn type_grammar() {
    let (ast, reports) =
        parse_src(b"fn f(a: *u8, b: [i16], c: opt u32, d: mut b4, e: usize, g: wobble): never { ret; }");
    assert_eq!(reports.len(), 0);
    match &ast[0].elem {
        Node::Func { args, ret, .. } => {
            assert!(matches!(&args[0].1.elem, Type::Ptr(_)));
            assert!(matches!(&args[1].1.elem, Type::Arr(_, None)));
            assert!(matches!(&args[2].1.elem, Type::Opt(_)));
            assert!(matches!(&args[3].1.elem, Type::Mut(_)));
            assert!(matches!(&args[4].1.elem, Type::Usize));
            match &args[5].1.elem {
                Type::Ident(n) => assert_eq!(n, &b"wobble".to_vec()),
                _ => panic!("expected a nominal type"),
            }
            assert!(matches!(ret.as_ref().map(|t| &t.elem), Some(Type::Never)));
        }
        _ => panic!("expected a function"),
    }
}

#[test]
fn bad_width_in_primitive_family_is_reported() {
    let (_, reports) = parse_src(b"fn f(a: u8x): void { ret; }");
    assert!(reports.iter().any(|r| r.kind == ReportKind::InvalidNumber));
}

#[test]
fn integer_literal_overflow_is_reported() {
    let (_, reports) = parse_src(b"fn f(): void { $g 99999999999999999999; }");
    assert_eq!(reports.len(), 1);
    assert_eq!(reports[0].kind, ReportKind::InvalidNumber);
}

#[test]
fn missing_close_brace_is_unexpected_eof() {
    let (ast, reports) = parse_src(b"fn f(): void { ret;");
    assert_eq!(ast.len(), 0);
    assert_eq!(reports.len(), 1);
    assert_eq!(reports[0].kind, ReportKind::UnexpectedEOF);
}

#[test]
fn declaration_without_body() {
    let (ast, reports) = parse_src(b"fn f();");
    assert_eq!(reports.len(), 0);
    match &ast[0].elem {
        Node::Func { ret, body, .. } => {
            assert!(ret.is_none());
            assert_eq!(body.len(), 0);
        }
        _ => panic!("expected a function"),
    }
}

#[test]
fn single_statement_body_after_bare_colon() {
    let (ast, reports) = parse_src(b"fn f(): ret;");
    assert_eq!(reports.len(), 0);
    match &ast[0].elem {
        Node::Func { ret, body, .. } => {
            assert!(ret.is_none());
            assert_eq!(body.len(), 1);
            assert!(matches!(body[0].elem, Node::Ret(None)));
        }
        _ => panic!("expected a function"),
    }
}

#[test]
fn missing_semicolon_is_reported() {
    let (_, reports) = parse_src(b"fn f(): void { ret }");
    assert_eq!(reports.len(), 1);
    assert_eq!(reports[0].kind, ReportKind::UnexpectedToken);
}

#[test]
fn parse_u64_bytes_exact() {
    assert_eq!(parse_u64_bytes(b"0"), Some(0));
    assert_eq!(parse_u64_bytes(b"42"), Some(42));
    assert_eq!(parse_u64_bytes(b"18446744073709551615"), Some(u64::MAX));
    assert_eq!(parse_u64_bytes(b"18446744073709551616"), None);
    assert_eq!(parse_u64_bytes(b""), None);
    assert_eq!(parse_u64_bytes(b"1_0"), None);
    assert_eq!(parse_u64_bytes(b"12a"), None);
}

#[test]
fn return_type_without_a_colon() {
    let (ast, reports) = parse_src(b"fn f() u8 { ret 5; }");
    assert_eq!(reports.len(), 0);
    match &ast[0].elem {
        Node::Func { ret, body, .. } => {
            assert!(matches!(ret.as_ref().map(|t| &t.elem), Some(Type::U(8))));
            assert_eq!(body.len(), 1);
        }
        _ => panic!("expected a function"),
    }
}

#[test]
fn single_statement_body_after_a_return_type() {
    let (ast, reports) = parse_src(b"fn f(): u8: ret 5;");
    assert_eq!(reports.len(), 0);
    match &ast[0].elem {
        Node::Func { ret, body, .. } => {
            assert!(matches!(ret.as_ref().map(|t| &t.elem), Some(Type::U(8))));
            assert_eq!(body.len(), 1);
            assert!(matches!(body[0].elem, Node::Ret(Some(_))));
        }
        _ => panic!("expected a function"),
    }
}

#[test]
fn a_float_literal_is_not_an_expression() {
    let (_, reports) = parse_src(b"fn f(): void { $g 1.5; }");
    assert_eq!(reports.len(), 1);
    assert_eq!(reports[0].kind, ReportKind::UnexpectedToken);
}

#[test]
fn sized_array_type() {
    let (ast, reports) = parse_src(b"fn f(a: [u8:4]): void { ret; }");
    assert_eq!(reports.len(), 0);
    match &ast[0].elem {
        Node::Func { args, .. } => match &args[0].1.elem {
            Type::Arr(inner, Some(4)) => assert!(matches!(inner.elem, Type::U(8))),
            _ => panic!("expected a sized array"),
        },
        _ => panic!("expected a function"),
    }
}

#[test]
fn bad_array_size_is_reported() {
    let (_, reports) = parse_src(b"fn f(a: [u8:x]): void { ret; }");
    assert_eq!(reports.len(), 1);
    assert_eq!(reports[0].kind, ReportKind::UnexpectedToken);
}

#[test]
fn width_suggestion_matches_the_family() {
    let (_, reports) = parse_src(b"fn f(a: ix): void { ret; }");
    assert_eq!(reports[0].label.as_deref(), Some("try 'i8'"));
    let (_, reports) = parse_src(b"fn f(a: fx): void { ret; }");
    assert_eq!(reports[0].label.as_deref(), Some("try 'f8'"));
}
