use sharc::qbe::{render_module, Data, DataDef, Function, Instr, Module, Type, Value};

#[test]
fn renders_a_data_definition() {
    let module = Module {
        name: b"m".to_vec(),
        data: vec![DataDef {
            export: false,
            name: b"msg".to_vec(),
            align: Some(8),
            items: vec![
                (Type::Byte, Data::Str(b"hey".to_vec())),
                (Type::Byte, Data::Const(0)),
            ],
        }],
        funcs: vec![],
    };
    let text = render_module(&module);
    assert_eq!(
        String::from_utf8_lossy(&text),
        "data $msg = align 8 {b \"hey\",b 0,}\n"
    );
}

#[test]
fn renders_an_exported_function_with_a_call() {
    let module = Module {
        name: b"m".to_vec(),
        data: vec![],
        funcs: vec![Function {
            export: true,
            name: b"main".to_vec(),
            args: vec![(Type::Word, Value::Temp(b"1".to_vec()))],
            ret: Some(Type::Word),
            body: vec![
                Instr::Call {
                    func: Value::Global(b"puts".to_vec()),
                    args: vec![(Value::Global(b"msg".to_vec()), Type::Long)],
                },
                Instr::Ret(Some(Value::Const(0))),
            ],
        }],
    };
    let text = render_module(&module);
    assert_eq!(
        String::from_utf8_lossy(&text),
        "export function w $main(w %1, ) {\n@start\n\tcall $puts(l $msg, )\n\tret 0\n}\n"
    );
}

#[test]
fn an_assignment_nests_its_producer() {
    let mut out = Vec::new();
    sharc::qbe::render_instr(
        &mut out,
        &Instr::Assign(
            Value::Temp(b"2".to_vec()),
            Type::Long,
            Box::new(Instr::Call {
                func: Value::Global(b"f".to_vec()),
                args: vec![],
            }),
        ),
    );
    assert_eq!(String::from_utf8_lossy(&out), "%2 =l call $f()");
}
