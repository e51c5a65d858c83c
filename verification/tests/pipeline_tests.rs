use sharc::compile;
use sharc::llvm::render_module;
use sharc::report::{error_count, ReportKind};

#[test]
fn whole_pipeline_on_the_simple_function() {
    let (module, reports) = compile("main.shd", b"fn main(): void { ret; }");
    assert_eq!(reports.len(), 0);
    let module = module.expect("compilation should succeed");
    let text = render_module(&module);
    assert_eq!(text, b"define void @main() {\n\tret\n}\n".to_vec());
}

#[test]
fn a_module_comes_back_exactly_when_no_stage_errs() {
    let (module, reports) = compile("main.shd", b"fn main(): void { ret; }");
    assert!(module.is_some());
    assert_eq!(error_count(&reports), 0);

    let (module, reports) = compile("main.shd", b"fn (): void { ret; }");
    assert!(module.is_none());
    assert!(error_count(&reports) > 0);
}

#[test]
fn lexical_errors_stop_the_pipeline_before_parsing() {
    let (module, reports) = compile("main.shd", b"\"unterminated");
    assert!(module.is_none());
    assert_eq!(reports.len(), 1);
    assert_eq!(reports[0].kind, ReportKind::UnterminatedLiteral);
}

#[test]
fn semantic_errors_stop_the_pipeline_before_codegen() {
    let (module, reports) = compile("main.shd", b"fn f(): void { $nope(); }");
    assert!(module.is_none());
    assert_eq!(reports.len(), 1);
    assert_eq!(reports[0].kind, ReportKind::Undefined);
    assert_eq!(reports[0].file.as_deref(), Some("main.shd"));
}

#[test]
fn every_independent_problem_is_reported_in_one_stage() {
    // two malformed declarations, two diagnostics from the same stage
    let (module, reports) = compile(
        "main.shd",
        b"fn (): void { ret; } fn g(: void { ret; } fn ok(): void { ret; }",
    );
    assert!(module.is_none());
    assert_eq!(reports.len(), 2);
}

#[test]
fn compilation_is_deterministic() {
    let src: &[u8] = b"extern fn puts(s: *u8): i32; fn main(): void { $puts(\"hey\"); ret; }";
    let (m1, r1) = compile("main.shd", src);
    let (m2, r2) = compile("main.shd", src);
    assert_eq!(r1.len(), r2.len());
    assert_eq!(
        render_module(&m1.expect("first run")),
        render_module(&m2.expect("second run"))
    );
}

#[test]
fn ret_with_a_call_compiles_end_to_end() {
    let (module, reports) = compile("main.shd", b"fn f(): void { ret $f(); }");
    assert_eq!(reports.len(), 0);
    let text = render_module(&module.expect("the self-call resolves"));
    assert_eq!(
        String::from_utf8_lossy(&text),
        "define void @f() {\n\t%1 = call ptr @f()\n\tret void %1\n}\n"
    );
}
