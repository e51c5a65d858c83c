//! The compact IR variant: byte/half-word/word/long base types rather than
//! true bit widths, with its own deterministic textual rendering.

use vstd::prelude::*;

use crate::util::{dec_bytes, push_u64_dec};

verus! {

/// The compact type set: four integer widths, two float widths, a
/// zero-initializer marker, and named composites.
pub enum Type {
    Byte,
    HalfWord,
    Word,
    Long,
    Single,
    Double,
    Zero,
    Composite(Vec<u8>),
}

/// One piece of constant data.
pub enum Data {
    Str(Vec<u8>),
    Const(u64),
}

/// A value: a temporary, a module global, or an integer constant.
pub enum Value {
    Temp(Vec<u8>),
    Global(Vec<u8>),
    Const(u64),
}

/// A module-scope data definition: typed items laid out in order.
pub struct DataDef {
    pub export: bool,
    pub name: Vec<u8>,
    pub align: Option<u8>,
    pub items: Vec<(Type, Data)>,
}

/// One three-address instruction.
pub enum Instr {
    Assign(Value, Type, Box<Instr>),
    Ret(Option<Value>),
    Call { func: Value, args: Vec<(Value, Type)> },
}

/// A function definition.
pub struct Function {
    pub export: bool,
    pub name: Vec<u8>,
    pub args: Vec<(Type, Value)>,
    pub ret: Option<Type>,
    pub body: Vec<Instr>,
}

/// A whole module: data definitions, then functions.
pub struct Module {
    pub name: Vec<u8>,
    pub data: Vec<DataDef>,
    pub funcs: Vec<Function>,
}

/// A rendered type: its one-letter name, or a colon before a composite's.
pub open spec fn spec_render_type(t: Type) -> Seq<u8> {
    match t {
        Type::Byte => seq![0x62u8],
        Type::HalfWord => seq![0x68u8],
        Type::Word => seq![0x77u8],
        Type::Long => seq![0x6cu8],
        Type::Single => seq![0x73u8],
        Type::Double => seq![0x64u8],
        Type::Zero => seq![0x7au8],
        Type::Composite(n) => seq![0x3au8] + n@,
    }
}

/// A rendered value: `%` before a temporary, `$` before a global, a bare
/// number for a constant.
pub open spec fn spec_render_value(v: Value) -> Seq<u8> {
    match v {
        Value::Temp(s) => seq![0x25u8] + s@,
        Value::Global(s) => seq![0x24u8] + s@,
        Value::Const(c) => dec_bytes(c as nat),
    }
}

/// One rendered data item: its type, a space, its data, a comma.
pub open spec fn spec_render_data(d: Data) -> Seq<u8> {
    match d {
        Data::Str(s) => seq![0x22u8] + s@ + seq![0x22u8],
        Data::Const(c) => dec_bytes(c as nat),
    }
}

/// A rendered instruction.
pub open spec fn spec_render_instr(i: Instr) -> Seq<u8>
    decreases i,
{
    match i {
        Instr::Assign(v, t, inner) => spec_render_value(v) + seq![0x20u8, 0x3du8]
            + spec_render_type(t) + seq![0x20u8] + spec_render_instr(*inner),
        Instr::Ret(None) => seq![0x72u8, 0x65u8, 0x74u8, 0x20u8],
        Instr::Ret(Some(v)) => seq![0x72u8, 0x65u8, 0x74u8, 0x20u8] + spec_render_value(v),
        Instr::Call { func, args } => seq![0x63u8, 0x61u8, 0x6cu8, 0x6cu8, 0x20u8]
            + spec_render_value(func) + seq![0x28u8] + spec_render_call_args(args@) + seq![0x29u8],
    }
}

/// Rendered call arguments: each one as `type value, `.
pub open spec fn spec_render_call_args(args: Seq<(Value, Type)>) -> Seq<u8>
    decreases args.len(),
{
    if args.len() == 0 {
        Seq::empty()
    } else {
        spec_render_call_args(args.drop_last()) + spec_render_type(args.last().1) + seq![0x20u8]
            + spec_render_value(args.last().0) + seq![0x2cu8, 0x20u8]
    }
}

/// Renders one type.
pub fn render_type(out: &mut Vec<u8>, t: &Type)
    ensures
        final(out)@ == old(out)@ + spec_render_type(*t),
{
    match t {
        Type::Byte => {
            out.push(0x62);
            proof {
                assert(out@ =~= old(out)@ + spec_render_type(*t));
            }
        },
        Type::HalfWord => {
            out.push(0x68);
            proof {
                assert(out@ =~= old(out)@ + spec_render_type(*t));
            }
        },
        Type::Word => {
            out.push(0x77);
            proof {
                assert(out@ =~= old(out)@ + spec_render_type(*t));
            }
        },
        Type::Long => {
            out.push(0x6c);
            proof {
                assert(out@ =~= old(out)@ + spec_render_type(*t));
            }
        },
        Type::Single => {
            out.push(0x73);
            proof {
                assert(out@ =~= old(out)@ + spec_render_type(*t));
            }
        },
        Type::Double => {
            out.push(0x64);
            proof {
                assert(out@ =~= old(out)@ + spec_render_type(*t));
            }
        },
        Type::Zero => {
            out.push(0x7a);
            proof {
                assert(out@ =~= old(out)@ + spec_render_type(*t));
            }
        },
        Type::Composite(n) => {
            out.push(0x3a);
            crate::llvm::push_bytes(out, n.as_slice());
            proof {
                assert(out@ =~= old(out)@ + spec_render_type(*t));
            }
        },
    }
}

/// Renders one value.
pub fn render_value(out: &mut Vec<u8>, v: &Value)
    ensures
        final(out)@ == old(out)@ + spec_render_value(*v),
{
    match v {
        Value::Temp(s) => {
            out.push(0x25);
            crate::llvm::push_bytes(out, s.as_slice());
            proof {
                assert(out@ =~= old(out)@ + spec_render_value(*v));
            }
        },
        Value::Global(s) => {
            out.push(0x24);
            crate::llvm::push_bytes(out, s.as_slice());
            proof {
                assert(out@ =~= old(out)@ + spec_render_value(*v));
            }
        },
        Value::Const(c) => {
            push_u64_dec(out, *c);
        },
    }
}

/// Renders one data item.
pub fn render_data(out: &mut Vec<u8>, d: &Data)
    ensures
        final(out)@ == old(out)@ + spec_render_data(*d),
{
    match d {
        Data::Str(s) => {
            out.push(0x22);
            crate::llvm::push_bytes(out, s.as_slice());
            out.push(0x22);
            proof {
                assert(out@ =~= old(out)@ + spec_render_data(*d));
            }
        },
        Data::Const(c) => {
            push_u64_dec(out, *c);
        },
    }
}

/// Renders one instruction.
pub fn render_instr(out: &mut Vec<u8>, i: &Instr)
    ensures
        final(out)@ == old(out)@ + spec_render_instr(*i),
    decreases *i,
{
    match i {
        Instr::Assign(v, t, inner) => {
            render_value(out, v);
            out.push(0x20);
            out.push(0x3d);
            render_type(out, t);
            out.push(0x20);
            render_instr(out, inner);
            proof {
                assert(out@ =~= old(out)@ + spec_render_instr(*i));
            }
        },
        Instr::Ret(None) => {
            out.push(0x72);
            out.push(0x65);
            out.push(0x74);
            out.push(0x20);
            proof {
                assert(out@ =~= old(out)@ + spec_render_instr(*i));
            }
        },
        Instr::Ret(Some(v)) => {
            out.push(0x72);
            out.push(0x65);
            out.push(0x74);
            out.push(0x20);
            render_value(out, v);
            proof {
                assert(out@ =~= old(out)@ + spec_render_instr(*i));
            }
        },
        Instr::Call { func, args } => {
            out.push(0x63);
            out.push(0x61);
            out.push(0x6c);
            out.push(0x6c);
            out.push(0x20);
            render_value(out, func);
            out.push(0x28);
            let ghost mid = out@;
            let n = args.len();
            let mut j: usize = 0;
            proof {
                assert(args@.subrange(0, 0) =~= Seq::<(Value, Type)>::empty());
            }
            while j < n
                invariant
                    n == args@.len(),
                    j <= n,
                    out@ == mid + spec_render_call_args(args@.subrange(0, j as int)),
                decreases n - j,
            {
                render_type(out, &args[j].1);
                out.push(0x20);
                render_value(out, &args[j].0);
                out.push(0x2c);
                out.push(0x20);
                j = j + 1;
                proof {
                    assert(args@.subrange(0, j as int).drop_last() =~= args@.subrange(
                        0,
                        j as int - 1,
                    ));
                    assert(args@.subrange(0, j as int).last() == args@[j - 1]);
                    assert(out@ =~= mid + spec_render_call_args(args@.subrange(0, j as int)));
                }
            }
            out.push(0x29);
            proof {
                assert(args@.subrange(0, n as int) =~= args@);
                assert(out@ =~= old(out)@ + spec_render_instr(*i));
            }
        },
    }
}


/// Rendered data items: each one as `type data,`.
pub open spec fn spec_render_items(items: Seq<(Type, Data)>) -> Seq<u8>
    decreases items.len(),
{
    if items.len() == 0 {
        Seq::empty()
    } else {
        spec_render_items(items.drop_last()) + spec_render_type(items.last().0) + seq![0x20u8]
            + spec_render_data(items.last().1) + seq![0x2cu8]
    }
}

/// A rendered data definition line.
pub open spec fn spec_render_data_def(d: DataDef) -> Seq<u8> {
    (if d.export {
        seq![0x65u8, 0x78u8, 0x70u8, 0x6fu8, 0x72u8, 0x74u8, 0x20u8]
    } else {
        Seq::<u8>::empty()
    }) + seq![0x64u8, 0x61u8, 0x74u8, 0x61u8, 0x20u8, 0x24u8] + d.name@ + seq![
        0x20u8,
        0x3du8,
        0x20u8,
    ] + (match d.align {
        Some(a) => seq![0x61u8, 0x6cu8, 0x69u8, 0x67u8, 0x6eu8, 0x20u8] + dec_bytes(a as nat)
            + seq![0x20u8],
        None => Seq::<u8>::empty(),
    }) + seq![0x7bu8] + spec_render_items(d.items@) + seq![0x7du8, 0x0au8]
}

/// Rendered function parameters: each one as `type value, `.
pub open spec fn spec_render_params(args: Seq<(Type, Value)>) -> Seq<u8>
    decreases args.len(),
{
    if args.len() == 0 {
        Seq::empty()
    } else {
        spec_render_params(args.drop_last()) + spec_render_type(args.last().0) + seq![0x20u8]
            + spec_render_value(args.last().1) + seq![0x2cu8, 0x20u8]
    }
}

/// A rendered function body: each instruction on its own indented line.
pub open spec fn spec_render_body(body: Seq<Instr>) -> Seq<u8>
    decreases body.len(),
{
    if body.len() == 0 {
        Seq::empty()
    } else {
        spec_render_body(body.drop_last()) + seq![0x09u8] + spec_render_instr(body.last()) + seq![
            0x0au8,
        ]
    }
}

/// A rendered function header, up to and including its start label.
pub open spec fn spec_render_function_head(f: Function) -> Seq<u8> {
    (if f.export {
        seq![0x65u8, 0x78u8, 0x70u8, 0x6fu8, 0x72u8, 0x74u8, 0x20u8]
    } else {
        Seq::<u8>::empty()
    }) + seq![0x66u8, 0x75u8, 0x6eu8, 0x63u8, 0x74u8, 0x69u8, 0x6fu8, 0x6eu8, 0x20u8] + (
    match f.ret {
        Some(t) => spec_render_type(t),
        None => Seq::<u8>::empty(),
    }) + seq![0x20u8, 0x24u8] + f.name@ + seq![0x28u8] + spec_render_params(f.args@) + seq![
        0x29u8,
        0x20u8,
        0x7bu8,
        0x0au8,
        0x40u8,
        0x73u8,
        0x74u8,
        0x61u8,
        0x72u8,
        0x74u8,
        0x0au8,
    ]
}

/// A rendered function block, opened by its start label.
pub open spec fn spec_render_function(f: Function) -> Seq<u8> {
    spec_render_function_head(f) + spec_render_body(f.body@) + seq![0x7du8, 0x0au8]
}

/// Every rendered data definition, in order.
pub open spec fn spec_render_data_defs(ds: Seq<DataDef>) -> Seq<u8>
    decreases ds.len(),
{
    if ds.len() == 0 {
        Seq::empty()
    } else {
        spec_render_data_defs(ds.drop_last()) + spec_render_data_def(ds.last())
    }
}

/// Every rendered function, in order.
pub open spec fn spec_render_functions(fs: Seq<Function>) -> Seq<u8>
    decreases fs.len(),
{
    if fs.len() == 0 {
        Seq::empty()
    } else {
        spec_render_functions(fs.drop_last()) + spec_render_function(fs.last())
    }
}

/// The module's deterministic textual form: data definitions, then
/// functions.
pub open spec fn spec_render_module(m: Module) -> Seq<u8> {
    spec_render_data_defs(m.data@) + spec_render_functions(m.funcs@)
}

fn push_export(out: &mut Vec<u8>)
    ensures
        final(out)@ == old(out)@ + seq![0x65u8, 0x78u8, 0x70u8, 0x6fu8, 0x72u8, 0x74u8, 0x20u8],
{
    out.push(0x65);
    out.push(0x78);
    out.push(0x70);
    out.push(0x6f);
    out.push(0x72);
    out.push(0x74);
    out.push(0x20);
    proof {
        assert(out@ =~= old(out)@ + seq![0x65u8, 0x78u8, 0x70u8, 0x6fu8, 0x72u8, 0x74u8, 0x20u8]);
    }
}

/// Renders one data definition line.
#[verifier::rlimit(60)]
fn render_data_def(out: &mut Vec<u8>, d: &DataDef)
    ensures
        final(out)@ == old(out)@ + spec_render_data_def(*d),
{
    if d.export {
        push_export(out);
    }
    out.push(0x64);
    out.push(0x61);
    out.push(0x74);
    out.push(0x61);
    out.push(0x20);
    out.push(0x24);
    crate::llvm::push_bytes(out, d.name.as_slice());
    out.push(0x20);
    out.push(0x3d);
    out.push(0x20);
    match d.align {
        Some(a) => {
            out.push(0x61);
            out.push(0x6c);
            out.push(0x69);
            out.push(0x67);
            out.push(0x6e);
            out.push(0x20);
            push_u64_dec(out, a as u64);
            out.push(0x20);
        },
        None => {},
    }
    out.push(0x7b);
    let ghost mid = out@;
    let n = d.items.len();
    let mut j: usize = 0;
    proof {
        assert(d.items@.subrange(0, 0) =~= Seq::<(Type, Data)>::empty());
    }
    while j < n
        invariant
            n == d.items@.len(),
            j <= n,
            out@ == mid + spec_render_items(d.items@.subrange(0, j as int)),
        decreases n - j,
    {
        render_type(out, &d.items[j].0);
        out.push(0x20);
        render_data(out, &d.items[j].1);
        out.push(0x2c);
        j = j + 1;
        proof {
            assert(d.items@.subrange(0, j as int).drop_last() =~= d.items@.subrange(
                0,
                j as int - 1,
            ));
            assert(d.items@.subrange(0, j as int).last() == d.items@[j - 1]);
            assert(out@ =~= mid + spec_render_items(d.items@.subrange(0, j as int)));
        }
    }
    out.push(0x7d);
    out.push(0x0a);
    proof {
        assert(d.items@.subrange(0, n as int) =~= d.items@);
        assert(out@ =~= old(out)@ + spec_render_data_def(*d));
    }
}

/// Renders one function's header, up to and including its start label.
#[verifier::rlimit(100)]
fn render_function_head(out: &mut Vec<u8>, f: &Function)
    ensures
        final(out)@ == old(out)@ + spec_render_function_head(*f),
{
    if f.export {
        push_export(out);
    }
    proof {
        assert(out@ =~= old(out)@ + (if f.export {
            seq![0x65u8, 0x78u8, 0x70u8, 0x6fu8, 0x72u8, 0x74u8, 0x20u8]
        } else {
            Seq::<u8>::empty()
        }));
    }
    let ghost c0 = out@;
    out.push(0x66);
    out.push(0x75);
    out.push(0x6e);
    out.push(0x63);
    out.push(0x74);
    out.push(0x69);
    out.push(0x6f);
    out.push(0x6e);
    out.push(0x20);
    proof {
        assert(out@ =~= c0 + seq![0x66u8, 0x75u8, 0x6eu8, 0x63u8, 0x74u8, 0x69u8, 0x6fu8, 0x6eu8, 0x20u8]);
    }
    let ghost c1 = out@;
    match &f.ret {
        Some(t) => render_type(out, t),
        None => {},
    }
    proof {
        assert(out@ =~= c1 + (match f.ret {
            Some(t) => spec_render_type(t),
            None => Seq::<u8>::empty(),
        }));
    }
    let ghost c2 = out@;
    out.push(0x20);
    out.push(0x24);
    crate::llvm::push_bytes(out, f.name.as_slice());
    out.push(0x28);
    proof {
        assert(out@ =~= c2 + seq![0x20u8, 0x24u8] + f.name@ + seq![0x28u8]);
    }
    let ghost mid = out@;
    let n = f.args.len();
    let mut j: usize = 0;
    proof {
        assert(f.args@.subrange(0, 0) =~= Seq::<(Type, Value)>::empty());
    }
    while j < n
        invariant
            n == f.args@.len(),
            j <= n,
            out@ == mid + spec_render_params(f.args@.subrange(0, j as int)),
        decreases n - j,
    {
        render_type(out, &f.args[j].0);
        out.push(0x20);
        render_value(out, &f.args[j].1);
        out.push(0x2c);
        out.push(0x20);
        j = j + 1;
        proof {
            assert(f.args@.subrange(0, j as int).drop_last() =~= f.args@.subrange(0, j as int - 1));
            assert(f.args@.subrange(0, j as int).last() == f.args@[j - 1]);
            assert(out@ =~= mid + spec_render_params(f.args@.subrange(0, j as int)));
        }
    }
    proof {
        assert(f.args@.subrange(0, n as int) =~= f.args@);
    }
    let ghost c3 = out@;
    out.push(0x29);
    out.push(0x20);
    out.push(0x7b);
    out.push(0x0a);
    out.push(0x40);
    out.push(0x73);
    out.push(0x74);
    out.push(0x61);
    out.push(0x72);
    out.push(0x74);
    out.push(0x0a);
    proof {
        assert(out@ =~= c3 + seq![
            0x29u8,
            0x20u8,
            0x7bu8,
            0x0au8,
            0x40u8,
            0x73u8,
            0x74u8,
            0x61u8,
            0x72u8,
            0x74u8,
            0x0au8,
        ]);
        assert(out@ =~= old(out)@ + spec_render_function_head(*f));
    }
}

/// Renders one function block.
fn render_function(out: &mut Vec<u8>, f: &Function)
    ensures
        final(out)@ == old(out)@ + spec_render_function(*f),
{
    render_function_head(out, f);
    let ghost mid2 = out@;
    let bn = f.body.len();
    let mut j: usize = 0;
    proof {
        assert(f.body@.subrange(0, 0) =~= Seq::<Instr>::empty());
    }
    while j < bn
        invariant
            bn == f.body@.len(),
            j <= bn,
            out@ == mid2 + spec_render_body(f.body@.subrange(0, j as int)),
        decreases bn - j,
    {
        out.push(0x09);
        render_instr(out, &f.body[j]);
        out.push(0x0a);
        j = j + 1;
        proof {
            assert(f.body@.subrange(0, j as int).drop_last() =~= f.body@.subrange(0, j as int - 1));
            assert(f.body@.subrange(0, j as int).last() == f.body@[j - 1]);
            assert(out@ =~= mid2 + spec_render_body(f.body@.subrange(0, j as int)));
        }
    }
    out.push(0x7d);
    out.push(0x0a);
    proof {
        assert(f.body@.subrange(0, bn as int) =~= f.body@);
        assert(out@ =~= old(out)@ + spec_render_function(*f));
    }
}

/// Renders the whole module to its deterministic textual form.
pub fn render_module(m: &Module) -> (r: Vec<u8>)
    ensures
        r@ == spec_render_module(*m),
{
    let mut out: Vec<u8> = Vec::new();
    let mut i: usize = 0;
    proof {
        assert(m.data@.subrange(0, 0) =~= Seq::<DataDef>::empty());
        assert(out@ =~= spec_render_data_defs(m.data@.subrange(0, 0)));
    }
    while i < m.data.len()
        invariant
            i <= m.data@.len(),
            out@ == spec_render_data_defs(m.data@.subrange(0, i as int)),
        decreases m.data@.len() - i,
    {
        render_data_def(&mut out, &m.data[i]);
        i = i + 1;
        proof {
            assert(m.data@.subrange(0, i as int).drop_last() =~= m.data@.subrange(0, i as int - 1));
            assert(m.data@.subrange(0, i as int).last() == m.data@[i - 1]);
            assert(out@ =~= spec_render_data_defs(m.data@.subrange(0, i as int)));
        }
    }
    proof {
        assert(m.data@.subrange(0, m.data@.len() as int) =~= m.data@);
    }
    let ghost after_data = out@;
    let mut i: usize = 0;
    proof {
        assert(m.funcs@.subrange(0, 0) =~= Seq::<Function>::empty());
    }
    while i < m.funcs.len()
        invariant
            i <= m.funcs@.len(),
            out@ == after_data + spec_render_functions(m.funcs@.subrange(0, i as int)),
        decreases m.funcs@.len() - i,
    {
        render_function(&mut out, &m.funcs[i]);
        i = i + 1;
        proof {
            assert(m.funcs@.subrange(0, i as int).drop_last() =~= m.funcs@.subrange(
                0,
                i as int - 1,
            ));
            assert(m.funcs@.subrange(0, i as int).last() == m.funcs@[i - 1]);
            assert(out@ =~= after_data + spec_render_functions(m.funcs@.subrange(0, i as int)));
        }
    }
    proof {
        assert(m.funcs@.subrange(0, m.funcs@.len() as int) =~= m.funcs@);
        assert(out@ =~= spec_render_module(*m));
    }
    out
}

} // verus!
