use sharc::analyzer::Analyzer;
use sharc::codegen::Gen;
use sharc::lexer::Lexer;
use sharc::llvm::{render_module, DataAttr, Instr, Module, Type, ValKind};
use sharc::parser::Parser;
use sharc::report::Report;

fn codegen_src(src: &[u8]) -> (Module, Vec<Report>) {
    let (tokens, r0) = Lexer::tokenize(src);
    assert_eq!(r0.len(), 0);
    let (ast, r1) = Parser::parse(tokens, "test.shd");
    assert_eq!(r1.len(), 0);
    let (hir, symbols, r2) = Analyzer::analyze(ast, "test.shd");
    assert_eq!(r2.len(), 0);
    Gen::codegen("test.shd", hir, &symbols)
}

#[test]
fn simple_function_lowers_to_one_untyped_ret() {
    let (module, reports) = codegen_src(b"fn main(): void { ret; }");
    assert_eq!(reports.len(), 0);
    assert_eq!(module.data.len(), 0);
    assert_eq!(module.decls.len(), 0);
    assert_eq!(module.funcs.len(), 1);
    let f = &module.funcs[0];
    assert_eq!(f.name, b"main".to_vec());
    assert_eq!(f.args.len(), 0);
    assert!(matches!(f.ret, Type::Void));
    assert_eq!(f.body.len(), 1);
    assert!(matches!(f.body[0], Instr::Ret(None)));
}

#[test]
fn renders_the_simple_function_deterministically() {
    let (module, _) = codegen_src(b"fn main(): void { ret; }");
    let text = render_module(&module);
    assert_eq!(text, b"define void @main() {\n\tret\n}\n".to_vec());
    let again = render_module(&module);
    assert_eq!(text, again);
}

#[test]
fn extern_call_with_string_renders_fully() {
    let (module, reports) =
        codegen_src(b"extern fn puts(s: *u8): i32; fn main(): void { $puts(\"hi\"); ret; }");
    assert_eq!(reports.len(), 0);
    assert_eq!(module.data.len(), 1);
    assert_eq!(module.decls.len(), 1);
    assert_eq!(module.funcs.len(), 1);

    let d = &module.data[0];
    assert_eq!(d.name, b"__const3".to_vec());
    assert_eq!(d.attr, vec![DataAttr::Internal, DataAttr::Constant]);
    assert_eq!(d.value.1, ValKind::Str);
    assert_eq!(d.value.2, b"hi".to_vec());
    match &d.value.0 {
        Type::Array(2, inner) => assert!(matches!(inner.as_ref(), Type::Int(8))),
        _ => panic!("expected [2 x i8]"),
    }

    let text = render_module(&module);
    let expected = b"@__const3 = internal constant [2 x i8] c\"hi\"\n\
                     declare i32 @puts(ptr)\n\
                     define void @main() {\n\
                     \tcall ptr @puts(ptr @__const3)\n\
                     \tret\n\
                     }\n"
        .to_vec();
    assert_eq!(String::from_utf8_lossy(&text), String::from_utf8_lossy(&expected));
}

#[test]
fn control_bytes_in_data_are_escaped_on_emission() {
    let (module, reports) =
        codegen_src(b"extern fn p(s: *u8): i32; fn m(): void { $p(\"a\\nb\"); ret; }");
    assert_eq!(reports.len(), 0);
    let text = render_module(&module);
    let text = String::from_utf8_lossy(&text).into_owned();
    assert!(text.contains("c\"a\\0ab\""), "got: {text}");
}

#[test]
fn ret_with_immediate_is_typed_by_the_declared_return_type() {
    let (module, reports) = codegen_src(b"fn f(): u8 { ret 5; }");
    assert_eq!(reports.len(), 0);
    let f = &module.funcs[0];
    assert!(matches!(f.ret, Type::Int(8)));
    match &f.body[0] {
        Instr::Ret(Some(tv)) => {
            assert!(matches!(tv.0, Type::Int(8)));
            assert_eq!(tv.1, ValKind::Const);
            assert_eq!(tv.2, b"5".to_vec());
        }
        _ => panic!("expected a typed return"),
    }
    let text = render_module(&module);
    assert_eq!(text, b"define i8 @f() {\n\tret i8 5\n}\n".to_vec());
}

#[test]
fn exported_function_carries_the_attribute() {
    let (module, reports) = codegen_src(b"export fn main(): void { ret; }");
    assert_eq!(reports.len(), 0);
    let text = render_module(&module);
    assert_eq!(text, b"define export void @main() {\n\tret\n}\n".to_vec());
}

#[test]
fn arguments_become_numbered_temporaries() {
    let (module, reports) = codegen_src(b"fn f(a: u8, b: u16): void { ret; }");
    assert_eq!(reports.len(), 0);
    let f = &module.funcs[0];
    assert_eq!(f.args.len(), 2);
    assert!(matches!(f.args[0].0, Type::Int(8)));
    assert_eq!(f.args[0].1, b"1".to_vec());
    assert!(matches!(f.args[1].0, Type::Int(16)));
    assert_eq!(f.args[1].1, b"2".to_vec());
    let text = render_module(&module);
    assert_eq!(
        text,
        b"define void @f(i8 %1, i16 %2) {\n\tret\n}\n".to_vec()
    );
}

#[test]
fn pointer_and_optional_collapse_to_a_pointer() {
    let (module, reports) = codegen_src(b"fn f(a: *u8, b: opt u8, c: mut u32): void { ret; }");
    assert_eq!(reports.len(), 0);
    let f = &module.funcs[0];
    assert!(matches!(f.args[0].0, Type::Ptr));
    assert!(matches!(f.args[1].0, Type::Ptr));
    assert!(matches!(f.args[2].0, Type::Int(32)));
}

#[test]
fn float_widths_map_across() {
    let (module, reports) =
        codegen_src(b"fn f(a: f16, b: f32, c: f64, d: f128): void { ret; }");
    assert_eq!(reports.len(), 0);
    let f = &module.funcs[0];
    assert!(matches!(f.args[0].0, Type::F16));
    assert!(matches!(f.args[1].0, Type::F32));
    assert!(matches!(f.args[2].0, Type::F64));
    assert!(matches!(f.args[3].0, Type::F128));
}

#[test]
fn odd_float_width_is_an_invalid_type() {
    let (module, reports) = codegen_src(b"fn f(a: f20): void { ret; }");
    assert_eq!(reports.len(), 1);
    assert_eq!(reports[0].kind, sharc::report::ReportKind::InvalidType);
    assert_eq!(module.funcs.len(), 0);
}

#[test]
fn one_bad_function_does_not_stop_the_rest() {
    let (module, reports) =
        codegen_src(b"fn bad(a: f20): void { ret; } fn good(): void { ret; }");
    assert_eq!(reports.len(), 1);
    assert_eq!(module.funcs.len(), 1);
    assert_eq!(module.funcs[0].name, b"good".to_vec());
}

#[test]
fn call_in_return_position_binds_a_temporary() {
    let (module, reports) =
        codegen_src(b"extern fn g(): i32; fn f(): i32 { ret $g(); }");
    assert_eq!(reports.len(), 0);
    let text = render_module(&module);
    assert_eq!(
        String::from_utf8_lossy(&text),
        "declare i32 @g()\ndefine i32 @f() {\n\t%1 = call ptr @g()\n\tret i32 %1\n}\n"
    );
}
