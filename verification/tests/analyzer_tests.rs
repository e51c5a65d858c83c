use sharc::analyzer::Analyzer;
use sharc::hir::{Node, Type, ValId, Var};
use sharc::lexer::Lexer;
use sharc::parser::Parser;
use sharc::report::{Report, ReportKind};

fn analyze_src(src: &[u8]) -> (Vec<Node>, Vec<(ValId, Vec<u8>)>, Vec<Report>) {
    let (tokens, lex_reports) = Lexer::tokenize(src);
    assert_eq!(lex_reports.len(), 0);
    let (ast, parse_reports) = Parser::parse(tokens, "test.shd");
    assert_eq!(parse_reports.len(), 0);
    Analyzer::analyze(ast, "test.shd")
}

#[test]
fn analyzes_simple_function() {
    let (hir, symbols, reports) = analyze_src(b"fn main(): void { ret; }");
    assert_eq!(reports.len(), 0);
    assert_eq!(hir.len(), 1);
    match &hir[0] {
        Node::Func {
            id,
            export,
            args,
            ret,
            body,
        } => {
            assert_eq!(id.0, 1);
            assert!(!export);
            assert_eq!(args.len(), 0);
            assert!(matches!(ret, Type::Void));
            assert_eq!(body.len(), 1);
            assert!(matches!(body[0], Node::Ret(None, Type::Void)));
        }
        _ => panic!("expected a function"),
    }
    assert_eq!(symbols.len(), 1);
    assert_eq!(symbols[0].0 .0, 1);
    assert_eq!(symbols[0].1, b"main".to_vec());
}

#[test]
fn extern_declaration_lowers_to_a_decl() {
    let (hir, symbols, reports) = analyze_src(b"extern fn puts(s: *u8): i32;");
    assert_eq!(reports.len(), 0);
    match &hir[0] {
        Node::FuncDecl { id, args, ret } => {
            assert_eq!(id.0, 1);
            assert_eq!(args.len(), 1);
            assert!(matches!(&args[0], Type::Ptr(_)));
            assert!(matches!(ret, Type::I(32)));
        }
        _ => panic!("expected a declaration"),
    }
    assert_eq!(symbols[0].1, b"puts".to_vec());
}

#[test]
fn redefinition_at_the_same_depth_is_reported() {
    // the extern declaration analyzes cleanly; the body-bearing
    // redefinition raises a duplicate diagnostic without stopping the run
    let (hir, _, reports) =
        analyze_src(b"extern fn puts(s: *u8): i32; fn puts(s: *u8): i32 { ret; }");
    assert_eq!(reports.len(), 1);
    assert_eq!(reports[0].kind, ReportKind::Undefined);
    assert_eq!(hir.len(), 1);
    assert!(matches!(hir[0], Node::FuncDecl { .. }));
}

#[test]
fn self_recursive_call_resolves_to_the_global() {
    // the function's identifier is bound before its scope is pushed, so the
    // self-call resolves at depth zero and raises nothing
    let (hir, _, reports) = analyze_src(b"fn f(): void { ret $f(); }");
    assert_eq!(reports.len(), 0);
    match &hir[0] {
        Node::Func { id, body, .. } => {
            assert_eq!(id.0, 1);
            assert_eq!(body.len(), 2);
            match &body[0] {
                Node::Assign { id: tid, ty, val } => {
                    assert_eq!(tid.0, 2, "the call's value gets a fresh temporary");
                    assert!(matches!(ty, Type::Void));
                    match val.as_ref() {
                        Node::FuncCall { id: callee, args } => {
                            assert_eq!(*callee, Var::Glob(ValId(1)));
                            assert_eq!(args.len(), 0);
                        }
                        _ => panic!("expected the self-call"),
                    }
                }
                _ => panic!("expected the bound self-call"),
            }
            match &body[1] {
                Node::Ret(Some(v), ty) => {
                    assert_eq!(*v, Var::Local(ValId(2)));
                    assert!(matches!(ty, Type::Void));
                }
                _ => panic!("expected a value-carrying return"),
            }
        }
        _ => panic!("expected a function"),
    }
}

#[test]
fn local_binding_shadows_the_global_inside_its_body() {
    // the argument named like the global resolves at depth above zero: the
    // call target is the (uncallable) local, not the global function
    let (_, _, reports) = analyze_src(b"fn g(): void { ret; } fn f(g: u8): void { $g(); }");
    assert_eq!(reports.len(), 1);
    assert_eq!(reports[0].kind, ReportKind::TypeError);
    assert_eq!(reports[0].title.as_deref(), Some("Target is not callable"));
}

#[test]
fn global_resolves_outside_the_shadowing_body() {
    // after the shadowing function's scope is popped, the same name
    // resolves to the global again
    let (hir, _, reports) =
        analyze_src(b"fn g(): void { ret; } fn f(g: u8): void { ret; } fn h(): void { $g(); }");
    assert_eq!(reports.len(), 0);
    match &hir[2] {
        Node::Func { body, .. } => match &body[0] {
            Node::FuncCall { id, .. } => assert_eq!(*id, Var::Glob(ValId(1))),
            _ => panic!("expected a call"),
        },
        _ => panic!("expected a function"),
    }
}

#[test]
fn minted_identifiers_are_unique_and_increasing() {
    let (hir, symbols, reports) =
        analyze_src(b"fn a(x: u8, y: u8): void { ret; } fn b(z: u8): void { ret; }");
    assert_eq!(reports.len(), 0);
    let mut ids: Vec<u64> = Vec::new();
    for node in &hir {
        if let Node::Func { id, args, .. } = node {
            ids.push(id.0);
            for (aid, _) in args {
                ids.push(aid.0);
            }
        }
    }
    let mut sorted = ids.clone();
    sorted.sort();
    sorted.dedup();
    assert_eq!(sorted.len(), ids.len(), "no identifier repeats");
    for w in symbols.windows(2) {
        assert!(w[0].0 .0 < w[1].0 .0, "symbol ids strictly increase");
    }
    // arguments are minted after their function, in order
    match &hir[0] {
        Node::Func { id, args, .. } => {
            assert_eq!(id.0, 1);
            assert_eq!(args[0].0 .0, 2);
            assert_eq!(args[1].0 .0, 3);
        }
        _ => panic!("expected a function"),
    }
}

#[test]
fn same_string_twice_hoists_two_distinct_globals() {
    let (hir, _, reports) = analyze_src(
        b"extern fn puts(s: *u8): i32; fn m(): void { $puts(\"hi\"); $puts(\"hi\"); }",
    );
    assert_eq!(reports.len(), 0);
    match &hir[1] {
        Node::Func { body, .. } => {
            let mut globals = Vec::new();
            for n in body {
                if let Node::Global { id, val, .. } = n {
                    match val.as_ref() {
                        Node::StrLit(s) => globals.push((id.0, s.clone())),
                        _ => panic!("expected string data"),
                    }
                }
            }
            assert_eq!(globals.len(), 2);
            assert_ne!(globals[0].0, globals[1].0, "two distinct definitions");
            assert_eq!(globals[0].1, globals[1].1, "byte-identical contents");
            assert_eq!(globals[0].1, b"hi".to_vec());
        }
        _ => panic!("expected a function"),
    }
}

#[test]
fn string_global_carries_its_length_in_its_type() {
    let (hir, _, reports) =
        analyze_src(b"extern fn p(s: *u8): i32; fn m(): void { $p(\"abc\"); }");
    assert_eq!(reports.len(), 0);
    match &hir[1] {
        Node::Func { body, .. } => match &body[0] {
            Node::Global { ty, .. } => match ty {
                Type::Arr(inner, Some(3)) => assert!(matches!(inner.as_ref(), Type::U(8))),
                _ => panic!("expected a byte array of length 3"),
            },
            _ => panic!("expected a hoisted global"),
        },
        _ => panic!("expected a function"),
    }
}

#[test]
fn void_argument_is_rejected() {
    let (_, _, reports) = analyze_src(b"fn f(x: void): void { ret; }");
    assert_eq!(reports.len(), 1);
    assert_eq!(reports[0].kind, ReportKind::TypeError);
}

#[test]
fn extern_with_a_body_is_rejected() {
    let (_, _, reports) = analyze_src(b"extern fn f(): void { ret; }");
    assert_eq!(reports.len(), 1);
    assert_eq!(reports[0].kind, ReportKind::SyntaxError);
}

#[test]
fn undefined_callee_is_reported() {
    let (_, _, reports) = analyze_src(b"fn f(): void { $nope(); }");
    assert_eq!(reports.len(), 1);
    assert_eq!(reports[0].kind, ReportKind::Undefined);
}

#[test]
fn nominal_type_is_an_invalid_type_diagnostic() {
    let (_, _, reports) = analyze_src(b"fn f(x: widget): void { ret; }");
    assert_eq!(reports.len(), 1);
    assert_eq!(reports[0].kind, ReportKind::InvalidType);
}

#[test]
fn error_in_one_declaration_skips_only_that_declaration() {
    let (hir, _, reports) =
        analyze_src(b"fn f(): void { $nope(); } fn g(): void { ret; }");
    assert_eq!(reports.len(), 1);
    assert_eq!(hir.len(), 1);
    match &hir[0] {
        Node::Func { id, .. } => assert_eq!(id.0, 2),
        _ => panic!("expected a function"),
    }
}
