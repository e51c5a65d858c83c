//! The output IR: a module of data definitions, function declarations and
//! function bodies of typed three-address instructions, with its
//! deterministic textual rendering.

use vstd::prelude::*;

use crate::util::{dec_bytes, push_u64_dec};

verus! {

/// Linkage and placement attributes of a data definition.
#[derive(Debug, Clone, Copy, PartialEq, Eq, Structural)]
pub enum DataAttr {
    Internal,
    Private,
    UnnamedAddr,
    Constant,
}

/// Attributes of a function.
#[derive(Debug, Clone, Copy, PartialEq, Eq, Structural)]
pub enum FuncAttr {
    Export,
    Nounwind,
    NoReturn,
    NoInline,
    AlwaysInline,
    Cold,
}

/// What kind of value a payload names: a temporary register, a module
/// global, string constant data, or an integer constant.
#[derive(Debug, Clone, Copy, PartialEq, Eq, Structural)]
pub enum ValKind {
    Temp,
    Global,
    Str,
    Const,
}

/// An untyped value: its kind and its payload text (a register number, a
/// global's name, raw string bytes, or a number).
pub struct Val(pub ValKind, pub Vec<u8>);

/// A typed value.
pub struct TypedVal(pub Type, pub ValKind, pub Vec<u8>);

/// The IR's type set: true bit-width integers, the four float widths, a
/// pointer, no type, and constant-data arrays.
pub enum Type {
    Int(u32),
    F16,
    F32,
    F64,
    F128,
    Ptr,
    Void,
    Array(u64, Box<Type>),
}

/// A module-scope constant data definition.
pub struct DataDef {
    pub name: Vec<u8>,
    pub attr: Vec<DataAttr>,
    pub value: TypedVal,
}

/// A declaration of a function defined elsewhere.
pub struct FuncDecl {
    pub name: Vec<u8>,
    pub attr: Vec<FuncAttr>,
    pub args: Vec<Type>,
    pub ret: Type,
}

/// One three-address instruction.
pub enum Instr {
    Assign(Val, Box<Instr>),
    Ret(Option<TypedVal>),
    Call { func: TypedVal, args: Vec<TypedVal> },
}

/// A function definition.
pub struct Function {
    pub name: Vec<u8>,
    pub attr: Vec<FuncAttr>,
    pub args: Vec<(Type, Vec<u8>)>,
    pub ret: Type,
    pub body: Vec<Instr>,
}

/// The complete output artifact, built incrementally by the code generator
/// and immutable once returned.
pub struct Module {
    pub name: Vec<u8>,
    pub data: Vec<DataDef>,
    pub decls: Vec<FuncDecl>,
    pub funcs: Vec<Function>,
}

/// One rendered data attribute, with its trailing space.
pub open spec fn spec_render_data_attr(a: DataAttr) -> Seq<u8> {
    match a {
        DataAttr::Internal => seq![0x69u8, 0x6eu8, 0x74u8, 0x65u8, 0x72u8, 0x6eu8, 0x61u8, 0x6cu8, 0x20u8],
        DataAttr::Private => seq![0x70u8, 0x72u8, 0x69u8, 0x76u8, 0x61u8, 0x74u8, 0x65u8, 0x20u8],
        DataAttr::UnnamedAddr => seq![0x75u8, 0x6eu8, 0x6eu8, 0x61u8, 0x6du8, 0x65u8, 0x64u8, 0x5fu8, 0x61u8, 0x64u8, 0x64u8, 0x72u8, 0x20u8],
        DataAttr::Constant => seq![0x63u8, 0x6fu8, 0x6eu8, 0x73u8, 0x74u8, 0x61u8, 0x6eu8, 0x74u8, 0x20u8],
    }
}

/// One rendered function attribute, with its trailing space.
pub open spec fn spec_render_func_attr(a: FuncAttr) -> Seq<u8> {
    match a {
        FuncAttr::Export => seq![0x65u8, 0x78u8, 0x70u8, 0x6fu8, 0x72u8, 0x74u8, 0x20u8],
        FuncAttr::Nounwind => seq![0x6eu8, 0x6fu8, 0x75u8, 0x6eu8, 0x77u8, 0x69u8, 0x6eu8, 0x64u8, 0x20u8],
        FuncAttr::NoReturn => seq![0x6eu8, 0x6fu8, 0x72u8, 0x65u8, 0x74u8, 0x75u8, 0x72u8, 0x6eu8, 0x20u8],
        FuncAttr::NoInline => seq![0x6eu8, 0x6fu8, 0x69u8, 0x6eu8, 0x6cu8, 0x69u8, 0x6eu8, 0x65u8, 0x20u8],
        FuncAttr::AlwaysInline => seq![0x61u8, 0x6cu8, 0x77u8, 0x61u8, 0x79u8, 0x73u8, 0x69u8, 0x6eu8, 0x6cu8, 0x69u8, 0x6eu8, 0x65u8, 0x20u8],
        FuncAttr::Cold => seq![0x63u8, 0x6fu8, 0x6cu8, 0x64u8, 0x20u8],
    }
}

/// A rendered type.
pub open spec fn spec_render_type(t: Type) -> Seq<u8>
    decreases t,
{
    match t {
        Type::Int(w) => seq![0x69u8] + dec_bytes(w as nat),
        Type::F16 => seq![0x68u8, 0x61u8, 0x6cu8, 0x66u8],
        Type::F32 => seq![0x66u8, 0x6cu8, 0x6fu8, 0x61u8, 0x74u8],
        Type::F64 => seq![0x64u8, 0x6fu8, 0x75u8, 0x62u8, 0x6cu8, 0x65u8],
        Type::F128 => seq![0x66u8, 0x70u8, 0x31u8, 0x32u8, 0x38u8],
        Type::Ptr => seq![0x70u8, 0x74u8, 0x72u8],
        Type::Void => seq![0x76u8, 0x6fu8, 0x69u8, 0x64u8],
        Type::Array(n, inner) => seq![0x5bu8] + dec_bytes(n as nat) + seq![0x20u8, 0x78u8, 0x20u8] + spec_render_type(*inner) + seq![0x5du8],
    }
}

/// A hex digit byte.
pub open spec fn hex_digit(d: nat) -> u8 {
    if d < 10 {
        (0x30 + d) as u8
    } else {
        (0x57 + d) as u8
    }
}

/// One byte of string constant data: control characters are escaped into a
/// backslash and two hex digits, everything else stands as itself.
pub open spec fn spec_escape_data_byte(b: u8) -> Seq<u8> {
    if b < 0x20 || b == 0x22 || b == 0x5c || b >= 0x7f {
        seq![0x5cu8, hex_digit((b / 16) as nat), hex_digit((b % 16) as nat)]
    } else {
        seq![b]
    }
}

/// Rendered string constant data, escaped byte for byte.
pub open spec fn spec_escape_data(s: Seq<u8>) -> Seq<u8>
    decreases s.len(),
{
    if s.len() == 0 {
        Seq::empty()
    } else {
        spec_escape_data(s.drop_last()) + spec_escape_data_byte(s.last())
    }
}

/// A rendered value payload: `%` before a temporary, `@` before a global,
/// nothing before a constant, and `c"..."` around escaped string data.
pub open spec fn spec_render_val(kind: ValKind, payload: Seq<u8>) -> Seq<u8> {
    match kind {
        ValKind::Temp => seq![0x25u8] + payload,
        ValKind::Global => seq![0x40u8] + payload,
        ValKind::Const => payload,
        ValKind::Str => seq![0x63u8, 0x22u8] + spec_escape_data(payload) + seq![0x22u8],
    }
}

/// A rendered typed value: its type, a space, its payload.
pub open spec fn spec_render_typed_val(v: TypedVal) -> Seq<u8> {
    spec_render_type(v.0) + seq![0x20u8] + spec_render_val(v.1, v.2@)
}

/// Renders one type.
pub fn render_type(out: &mut Vec<u8>, t: &Type)
    ensures
        final(out)@ == old(out)@ + spec_render_type(*t),
    decreases *t,
{
    match t {
        Type::Int(w) => {
            out.push(0x69);
            push_u64_dec(out, *w as u64);
            proof {
                assert(out@ =~= old(out)@ + spec_render_type(*t));
            }
        },
        Type::F16 => {
            out.push(0x68);
            out.push(0x61);
            out.push(0x6c);
            out.push(0x66);
            proof {
                assert(out@ =~= old(out)@ + spec_render_type(*t));
            }
        },
        Type::F32 => {
            out.push(0x66);
            out.push(0x6c);
            out.push(0x6f);
            out.push(0x61);
            out.push(0x74);
            proof {
                assert(out@ =~= old(out)@ + spec_render_type(*t));
            }
        },
        Type::F64 => {
            out.push(0x64);
            out.push(0x6f);
            out.push(0x75);
            out.push(0x62);
            out.push(0x6c);
            out.push(0x65);
            proof {
                assert(out@ =~= old(out)@ + spec_render_type(*t));
            }
        },
        Type::F128 => {
            out.push(0x66);
            out.push(0x70);
            out.push(0x31);
            out.push(0x32);
            out.push(0x38);
            proof {
                assert(out@ =~= old(out)@ + spec_render_type(*t));
            }
        },
        Type::Ptr => {
            out.push(0x70);
            out.push(0x74);
            out.push(0x72);
            proof {
                assert(out@ =~= old(out)@ + spec_render_type(*t));
            }
        },
        Type::Void => {
            out.push(0x76);
            out.push(0x6f);
            out.push(0x69);
            out.push(0x64);
            proof {
                assert(out@ =~= old(out)@ + spec_render_type(*t));
            }
        },
        Type::Array(n, inner) => {
            out.push(0x5b);
            push_u64_dec(out, *n);
            out.push(0x20);
            out.push(0x78);
            out.push(0x20);
            render_type(out, inner);
            out.push(0x5d);
            proof {
                assert(out@ =~= old(out)@ + spec_render_type(*t));
            }
        },
    }
}

fn hex_digit_x(d: u8) -> (r: u8)
    requires
        d < 16,
    ensures
        r == hex_digit(d as nat),
{
    if d < 10 {
        0x30 + d
    } else {
        0x57 + d
    }
}

/// Renders string constant data with control characters escaped.
pub fn render_escaped_data(out: &mut Vec<u8>, s: &[u8])
    ensures
        final(out)@ == old(out)@ + spec_escape_data(s@),
{
    let n = s.len();
    let mut i: usize = 0;
    proof {
        assert(s@.subrange(0, 0) =~= Seq::<u8>::empty());
        assert(spec_escape_data(s@.subrange(0, 0)) =~= Seq::<u8>::empty());
        assert(out@ =~= old(out)@ + spec_escape_data(s@.subrange(0, 0)));
    }
    while i < n
        invariant
            n == s@.len(),
            i <= n,
            out@ == old(out)@ + spec_escape_data(s@.subrange(0, i as int)),
        decreases n - i,
    {
        let b = s[i];
        if b < 0x20 || b == 0x22 || b == 0x5c || b >= 0x7f {
            out.push(0x5c);
            out.push(hex_digit_x(b / 16));
            out.push(hex_digit_x(b % 16));
        } else {
            out.push(b);
        }
        i = i + 1;
        proof {
            assert(s@.subrange(0, i as int).drop_last() =~= s@.subrange(0, i - 1));
            assert(s@.subrange(0, i as int).last() == s@[i - 1]);
            assert(out@ =~= old(out)@ + spec_escape_data(s@.subrange(0, i as int)));
        }
    }
    proof {
        assert(s@.subrange(0, n as int) =~= s@);
    }
}

pub(crate) fn push_bytes(out: &mut Vec<u8>, s: &[u8])
    ensures
        final(out)@ == old(out)@ + s@,
{
    let n = s.len();
    let mut i: usize = 0;
    while i < n
        invariant
            n == s@.len(),
            i <= n,
            out@ == old(out)@ + s@.subrange(0, i as int),
        decreases n - i,
    {
        out.push(s[i]);
        proof {
            assert(out@ =~= old(out)@ + s@.subrange(0, i + 1));
        }
        i = i + 1;
    }
    proof {
        assert(s@.subrange(0, n as int) =~= s@);
    }
}

/// Renders one value payload behind its kind's sigil.
pub fn render_val(out: &mut Vec<u8>, kind: ValKind, payload: &[u8])
    ensures
        final(out)@ == old(out)@ + spec_render_val(kind, payload@),
{
    match kind {
        ValKind::Temp => {
            out.push(0x25);
            push_bytes(out, payload);
            proof {
                assert(out@ =~= old(out)@ + spec_render_val(kind, payload@));
            }
        },
        ValKind::Global => {
            out.push(0x40);
            push_bytes(out, payload);
            proof {
                assert(out@ =~= old(out)@ + spec_render_val(kind, payload@));
            }
        },
        ValKind::Const => {
            push_bytes(out, payload);
        },
        ValKind::Str => {
            out.push(0x63);
            out.push(0x22);
            render_escaped_data(out, payload);
            out.push(0x22);
            proof {
                assert(out@ =~= old(out)@ + spec_render_val(kind, payload@));
            }
        },
    }
}

/// Renders one typed value.
pub fn render_typed_val(out: &mut Vec<u8>, v: &TypedVal)
    ensures
        final(out)@ == old(out)@ + spec_render_typed_val(*v),
{
    render_type(out, &v.0);
    out.push(0x20);
    render_val(out, v.1, v.2.as_slice());
    proof {
        assert(out@ =~= old(out)@ + spec_render_typed_val(*v));
    }
}


/// Rendered data attributes, in order.
pub open spec fn spec_render_data_attrs(attrs: Seq<DataAttr>) -> Seq<u8>
    decreases attrs.len(),
{
    if attrs.len() == 0 {
        Seq::empty()
    } else {
        spec_render_data_attrs(attrs.drop_last()) + spec_render_data_attr(attrs.last())
    }
}

/// Rendered function attributes, in order.
pub open spec fn spec_render_func_attrs(attrs: Seq<FuncAttr>) -> Seq<u8>
    decreases attrs.len(),
{
    if attrs.len() == 0 {
        Seq::empty()
    } else {
        spec_render_func_attrs(attrs.drop_last()) + spec_render_func_attr(attrs.last())
    }
}

/// Rendered comma-separated call arguments.
pub open spec fn spec_render_call_args(args: Seq<TypedVal>) -> Seq<u8>
    decreases args.len(),
{
    if args.len() == 0 {
        Seq::empty()
    } else if args.len() == 1 {
        spec_render_typed_val(args.last())
    } else {
        spec_render_call_args(args.drop_last()) + seq![0x2cu8, 0x20u8] + spec_render_typed_val(
            args.last(),
        )
    }
}

/// A rendered instruction.
pub open spec fn spec_render_instr(i: Instr) -> Seq<u8>
    decreases i,
{
    match i {
        Instr::Assign(v, inner) => spec_render_val(v.0, v.1@) + seq![0x20u8, 0x3du8, 0x20u8]
            + spec_render_instr(*inner),
        Instr::Ret(None) => seq![0x72u8, 0x65u8, 0x74u8],
        Instr::Ret(Some(tv)) => seq![0x72u8, 0x65u8, 0x74u8, 0x20u8] + spec_render_typed_val(tv),
        Instr::Call { func, args } => seq![0x63u8, 0x61u8, 0x6cu8, 0x6cu8, 0x20u8]
            + spec_render_typed_val(func) + seq![0x28u8] + spec_render_call_args(args@) + seq![
            0x29u8,
        ],
    }
}

/// A rendered data definition line.
pub open spec fn spec_render_data_def(d: DataDef) -> Seq<u8> {
    seq![0x40u8] + d.name@ + seq![0x20u8, 0x3du8, 0x20u8] + spec_render_data_attrs(d.attr@)
        + spec_render_typed_val(d.value) + seq![0x0au8]
}

/// Rendered comma-separated declaration argument types.
pub open spec fn spec_render_decl_args(args: Seq<Type>) -> Seq<u8>
    decreases args.len(),
{
    if args.len() == 0 {
        Seq::empty()
    } else if args.len() == 1 {
        spec_render_type(args.last())
    } else {
        spec_render_decl_args(args.drop_last()) + seq![0x2cu8, 0x20u8] + spec_render_type(
            args.last(),
        )
    }
}

/// A rendered function declaration line.
pub open spec fn spec_render_func_decl(d: FuncDecl) -> Seq<u8> {
    seq![0x64u8, 0x65u8, 0x63u8, 0x6cu8, 0x61u8, 0x72u8, 0x65u8, 0x20u8] + spec_render_func_attrs(
        d.attr@,
    ) + spec_render_type(d.ret) + seq![0x20u8, 0x40u8] + d.name@ + seq![0x28u8]
        + spec_render_decl_args(d.args@) + seq![0x29u8, 0x0au8]
}

/// Rendered comma-separated function parameters.
pub open spec fn spec_render_params(args: Seq<(Type, Vec<u8>)>) -> Seq<u8>
    decreases args.len(),
{
    if args.len() == 0 {
        Seq::empty()
    } else if args.len() == 1 {
        spec_render_type(args.last().0) + seq![0x20u8, 0x25u8] + args.last().1@
    } else {
        spec_render_params(args.drop_last()) + seq![0x2cu8, 0x20u8] + spec_render_type(
            args.last().0,
        ) + seq![0x20u8, 0x25u8] + args.last().1@
    }
}

/// A rendered function body: each instruction on its own indented line.
pub open spec fn spec_render_body(body: Seq<Instr>) -> Seq<u8>
    decreases body.len(),
{
    if body.len() == 0 {
        Seq::empty()
    } else {
        spec_render_body(body.drop_last()) + seq![0x09u8] + spec_render_instr(body.last()) + seq![
            0x0au8,
        ]
    }
}

/// A rendered function definition block.
pub open spec fn spec_render_function(f: Function) -> Seq<u8> {
    seq![0x64u8, 0x65u8, 0x66u8, 0x69u8, 0x6eu8, 0x65u8, 0x20u8] + spec_render_func_attrs(f.attr@)
        + spec_render_type(f.ret) + seq![0x20u8, 0x40u8] + f.name@ + seq![0x28u8]
        + spec_render_params(f.args@) + seq![0x29u8, 0x20u8, 0x7bu8, 0x0au8] + spec_render_body(
        f.body@,
    ) + seq![0x7du8, 0x0au8]
}

/// Every rendered data definition, in order.
pub open spec fn spec_render_data_defs(ds: Seq<DataDef>) -> Seq<u8>
    decreases ds.len(),
{
    if ds.len() == 0 {
        Seq::empty()
    } else {
        spec_render_data_defs(ds.drop_last()) + spec_render_data_def(ds.last())
    }
}

/// Every rendered declaration, in order.
pub open spec fn spec_render_func_decls(ds: Seq<FuncDecl>) -> Seq<u8>
    decreases ds.len(),
{
    if ds.len() == 0 {
        Seq::empty()
    } else {
        spec_render_func_decls(ds.drop_last()) + spec_render_func_decl(ds.last())
    }
}

/// Every rendered function, in order.
pub open spec fn spec_render_functions(fs: Seq<Function>) -> Seq<u8>
    decreases fs.len(),
{
    if fs.len() == 0 {
        Seq::empty()
    } else {
        spec_render_functions(fs.drop_last()) + spec_render_function(fs.last())
    }
}

/// The module's deterministic textual form: data definitions, then function
/// declarations, then function bodies.
pub open spec fn spec_render_module(m: Module) -> Seq<u8> {
    spec_render_data_defs(m.data@) + spec_render_func_decls(m.decls@) + spec_render_functions(
        m.funcs@,
    )
}

/// Renders one instruction.
pub fn render_instr(out: &mut Vec<u8>, i: &Instr)
    ensures
        final(out)@ == old(out)@ + spec_render_instr(*i),
    decreases *i,
{
    match i {
        Instr::Assign(v, inner) => {
            render_val(out, v.0, v.1.as_slice());
            out.push(0x20);
            out.push(0x3d);
            out.push(0x20);
            render_instr(out, inner);
            proof {
                assert(out@ =~= old(out)@ + spec_render_instr(*i));
            }
        },
        Instr::Ret(None) => {
            out.push(0x72);
            out.push(0x65);
            out.push(0x74);
            proof {
                assert(out@ =~= old(out)@ + spec_render_instr(*i));
            }
        },
        Instr::Ret(Some(tv)) => {
            out.push(0x72);
            out.push(0x65);
            out.push(0x74);
            out.push(0x20);
            render_typed_val(out, tv);
            proof {
                assert(out@ =~= old(out)@ + spec_render_instr(*i));
            }
        },
        Instr::Call { func, args } => {
            out.push(0x63);
            out.push(0x61);
            out.push(0x6c);
            out.push(0x6c);
            out.push(0x20);
            render_typed_val(out, func);
            out.push(0x28);
            let ghost mid = out@;
            let n = args.len();
            let mut j: usize = 0;
            proof {
                assert(args@.subrange(0, 0) =~= Seq::<TypedVal>::empty());
            }
            while j < n
                invariant
                    n == args@.len(),
                    j <= n,
                    out@ == mid + spec_render_call_args(args@.subrange(0, j as int)),
                decreases n - j,
            {
                if j > 0 {
                    out.push(0x2c);
                    out.push(0x20);
                }
                render_typed_val(out, &args[j]);
                j = j + 1;
                proof {
                    assert(args@.subrange(0, j as int).drop_last() =~= args@.subrange(
                        0,
                        j as int - 1,
                    ));
                    assert(args@.subrange(0, j as int).last() == args@[j - 1]);
                    assert(out@ =~= mid + spec_render_call_args(args@.subrange(0, j as int)));
                }
            }
            out.push(0x29);
            proof {
                assert(args@.subrange(0, n as int) =~= args@);
                assert(out@ =~= old(out)@ + spec_render_instr(*i));
            }
        },
    }
}

/// Renders the whole module to its deterministic textual form.
pub fn render_module(m: &Module) -> (r: Vec<u8>)
    ensures
        r@ == spec_render_module(*m),
{
    let mut out: Vec<u8> = Vec::new();
    let mut i: usize = 0;
    proof {
        assert(m.data@.subrange(0, 0) =~= Seq::<DataDef>::empty());
        assert(out@ =~= spec_render_data_defs(m.data@.subrange(0, 0)));
    }
    while i < m.data.len()
        invariant
            i <= m.data@.len(),
            out@ == spec_render_data_defs(m.data@.subrange(0, i as int)),
        decreases m.data@.len() - i,
    {
        let d = &m.data[i];
        out.push(0x40);
        push_bytes(&mut out, d.name.as_slice());
        out.push(0x20);
        out.push(0x3d);
        out.push(0x20);
        let ghost mid = out@;
        let mut j: usize = 0;
        proof {
            assert(d.attr@.subrange(0, 0) =~= Seq::<DataAttr>::empty());
        }
        while j < d.attr.len()
            invariant
                j <= d.attr@.len(),
                d == &m.data@[i as int],
                i < m.data@.len(),
                out@ == mid + spec_render_data_attrs(d.attr@.subrange(0, j as int)),
            decreases d.attr@.len() - j,
        {
            render_data_attr(&mut out, d.attr[j]);
            j = j + 1;
            proof {
                assert(d.attr@.subrange(0, j as int).drop_last() =~= d.attr@.subrange(
                    0,
                    j as int - 1,
                ));
                assert(d.attr@.subrange(0, j as int).last() == d.attr@[j - 1]);
                assert(out@ =~= mid + spec_render_data_attrs(d.attr@.subrange(0, j as int)));
            }
        }
        proof {
            assert(d.attr@.subrange(0, d.attr@.len() as int) =~= d.attr@);
        }
        render_typed_val(&mut out, &d.value);
        out.push(0x0a);
        i = i + 1;
        proof {
            assert(m.data@.subrange(0, i as int).drop_last() =~= m.data@.subrange(0, i as int - 1));
            assert(m.data@.subrange(0, i as int).last() == m.data@[i - 1]);
            assert(out@ =~= spec_render_data_defs(m.data@.subrange(0, i as int)));
        }
    }
    proof {
        assert(m.data@.subrange(0, m.data@.len() as int) =~= m.data@);
    }

    let ghost after_data = out@;
    let mut i: usize = 0;
    proof {
        assert(m.decls@.subrange(0, 0) =~= Seq::<FuncDecl>::empty());
    }
    while i < m.decls.len()
        invariant
            i <= m.decls@.len(),
            out@ == after_data + spec_render_func_decls(m.decls@.subrange(0, i as int)),
        decreases m.decls@.len() - i,
    {
        let d = &m.decls[i];
        render_decl(&mut out, d);
        i = i + 1;
        proof {
            assert(m.decls@.subrange(0, i as int).drop_last() =~= m.decls@.subrange(
                0,
                i as int - 1,
            ));
            assert(m.decls@.subrange(0, i as int).last() == m.decls@[i - 1]);
            assert(out@ =~= after_data + spec_render_func_decls(m.decls@.subrange(0, i as int)));
        }
    }
    proof {
        assert(m.decls@.subrange(0, m.decls@.len() as int) =~= m.decls@);
    }

    let ghost after_decls = out@;
    let mut i: usize = 0;
    proof {
        assert(m.funcs@.subrange(0, 0) =~= Seq::<Function>::empty());
    }
    while i < m.funcs.len()
        invariant
            i <= m.funcs@.len(),
            out@ == after_decls + spec_render_functions(m.funcs@.subrange(0, i as int)),
        decreases m.funcs@.len() - i,
    {
        let f = &m.funcs[i];
        render_function(&mut out, f);
        i = i + 1;
        proof {
            assert(m.funcs@.subrange(0, i as int).drop_last() =~= m.funcs@.subrange(
                0,
                i as int - 1,
            ));
            assert(m.funcs@.subrange(0, i as int).last() == m.funcs@[i - 1]);
            assert(out@ =~= after_decls + spec_render_functions(m.funcs@.subrange(0, i as int)));
        }
    }
    proof {
        assert(m.funcs@.subrange(0, m.funcs@.len() as int) =~= m.funcs@);
        assert(out@ =~= spec_render_module(*m));
    }
    out
}

/// Renders one data attribute.
fn render_data_attr(out: &mut Vec<u8>, a: DataAttr)
    ensures
        final(out)@ == old(out)@ + spec_render_data_attr(a),
{
    match a {
        DataAttr::Internal => {
            out.push(0x69);
            out.push(0x6e);
            out.push(0x74);
            out.push(0x65);
            out.push(0x72);
            out.push(0x6e);
            out.push(0x61);
            out.push(0x6c);
            out.push(0x20);
            proof {
                assert(out@ =~= old(out)@ + spec_render_data_attr(a));
            }
        },
        DataAttr::Private => {
            out.push(0x70);
            out.push(0x72);
            out.push(0x69);
            out.push(0x76);
            out.push(0x61);
            out.push(0x74);
            out.push(0x65);
            out.push(0x20);
            proof {
                assert(out@ =~= old(out)@ + spec_render_data_attr(a));
            }
        },
        DataAttr::UnnamedAddr => {
            out.push(0x75);
            out.push(0x6e);
            out.push(0x6e);
            out.push(0x61);
            out.push(0x6d);
            out.push(0x65);
            out.push(0x64);
            out.push(0x5f);
            out.push(0x61);
            out.push(0x64);
            out.push(0x64);
            out.push(0x72);
            out.push(0x20);
            proof {
                assert(out@ =~= old(out)@ + spec_render_data_attr(a));
            }
        },
        DataAttr::Constant => {
            out.push(0x63);
            out.push(0x6f);
            out.push(0x6e);
            out.push(0x73);
            out.push(0x74);
            out.push(0x61);
            out.push(0x6e);
            out.push(0x74);
            out.push(0x20);
            proof {
                assert(out@ =~= old(out)@ + spec_render_data_attr(a));
            }
        },
    }
}

/// Renders one function attribute.
fn render_func_attr(out: &mut Vec<u8>, a: FuncAttr)
    ensures
        final(out)@ == old(out)@ + spec_render_func_attr(a),
{
    match a {
        FuncAttr::Export => {
            out.push(0x65);
            out.push(0x78);
            out.push(0x70);
            out.push(0x6f);
            out.push(0x72);
            out.push(0x74);
            out.push(0x20);
            proof {
                assert(out@ =~= old(out)@ + spec_render_func_attr(a));
            }
        },
        FuncAttr::Nounwind => {
            out.push(0x6e);
            out.push(0x6f);
            out.push(0x75);
            out.push(0x6e);
            out.push(0x77);
            out.push(0x69);
            out.push(0x6e);
            out.push(0x64);
            out.push(0x20);
            proof {
                assert(out@ =~= old(out)@ + spec_render_func_attr(a));
            }
        },
        FuncAttr::NoReturn => {
            out.push(0x6e);
            out.push(0x6f);
            out.push(0x72);
            out.push(0x65);
            out.push(0x74);
            out.push(0x75);
            out.push(0x72);
            out.push(0x6e);
            out.push(0x20);
            proof {
                assert(out@ =~= old(out)@ + spec_render_func_attr(a));
            }
        },
        FuncAttr::NoInline => {
            out.push(0x6e);
            out.push(0x6f);
            out.push(0x69);
            out.push(0x6e);
            out.push(0x6c);
            out.push(0x69);
            out.push(0x6e);
            out.push(0x65);
            out.push(0x20);
            proof {
                assert(out@ =~= old(out)@ + spec_render_func_attr(a));
            }
        },
        FuncAttr::AlwaysInline => {
            out.push(0x61);
            out.push(0x6c);
            out.push(0x77);
            out.push(0x61);
            out.push(0x79);
            out.push(0x73);
            out.push(0x69);
            out.push(0x6e);
            out.push(0x6c);
            out.push(0x69);
            out.push(0x6e);
            out.push(0x65);
            out.push(0x20);
            proof {
                assert(out@ =~= old(out)@ + spec_render_func_attr(a));
            }
        },
        FuncAttr::Cold => {
            out.push(0x63);
            out.push(0x6f);
            out.push(0x6c);
            out.push(0x64);
            out.push(0x20);
            proof {
                assert(out@ =~= old(out)@ + spec_render_func_attr(a));
            }
        },
    }
}

/// Renders one declaration line.
fn render_decl(out: &mut Vec<u8>, d: &FuncDecl)
    ensures
        final(out)@ == old(out)@ + spec_render_func_decl(*d),
{
    out.push(0x64);
    out.push(0x65);
    out.push(0x63);
    out.push(0x6c);
    out.push(0x61);
    out.push(0x72);
    out.push(0x65);
    out.push(0x20);
    let ghost mid0 = out@;
    let mut j: usize = 0;
    proof {
        assert(d.attr@.subrange(0, 0) =~= Seq::<FuncAttr>::empty());
    }
    while j < d.attr.len()
        invariant
            j <= d.attr@.len(),
            out@ == mid0 + spec_render_func_attrs(d.attr@.subrange(0, j as int)),
        decreases d.attr@.len() - j,
    {
        render_func_attr(out, d.attr[j]);
        j = j + 1;
        proof {
            assert(d.attr@.subrange(0, j as int).drop_last() =~= d.attr@.subrange(0, j as int - 1));
            assert(d.attr@.subrange(0, j as int).last() == d.attr@[j - 1]);
            assert(out@ =~= mid0 + spec_render_func_attrs(d.attr@.subrange(0, j as int)));
        }
    }
    proof {
        assert(d.attr@.subrange(0, d.attr@.len() as int) =~= d.attr@);
    }
    render_type(out, &d.ret);
    out.push(0x20);
    out.push(0x40);
    push_bytes(out, d.name.as_slice());
    out.push(0x28);
    let ghost mid = out@;
    let n = d.args.len();
    let mut j: usize = 0;
    proof {
        assert(d.args@.subrange(0, 0) =~= Seq::<Type>::empty());
    }
    while j < n
        invariant
            n == d.args@.len(),
            j <= n,
            out@ == mid + spec_render_decl_args(d.args@.subrange(0, j as int)),
        decreases n - j,
    {
        if j > 0 {
            out.push(0x2c);
            out.push(0x20);
        }
        render_type(out, &d.args[j]);
        j = j + 1;
        proof {
            assert(d.args@.subrange(0, j as int).drop_last() =~= d.args@.subrange(0, j as int - 1));
            assert(d.args@.subrange(0, j as int).last() == d.args@[j - 1]);
            assert(out@ =~= mid + spec_render_decl_args(d.args@.subrange(0, j as int)));
        }
    }
    out.push(0x29);
    out.push(0x0a);
    proof {
        assert(d.args@.subrange(0, n as int) =~= d.args@);
        assert(out@ =~= old(out)@ + spec_render_func_decl(*d));
    }
}

/// Renders one function block.
fn render_function(out: &mut Vec<u8>, f: &Function)
    ensures
        final(out)@ == old(out)@ + spec_render_function(*f),
{
    out.push(0x64);
    out.push(0x65);
    out.push(0x66);
    out.push(0x69);
    out.push(0x6e);
    out.push(0x65);
    out.push(0x20);
    let ghost mid0 = out@;
    let mut j: usize = 0;
    proof {
        assert(f.attr@.subrange(0, 0) =~= Seq::<FuncAttr>::empty());
    }
    while j < f.attr.len()
        invariant
            j <= f.attr@.len(),
            out@ == mid0 + spec_render_func_attrs(f.attr@.subrange(0, j as int)),
        decreases f.attr@.len() - j,
    {
        render_func_attr(out, f.attr[j]);
        j = j + 1;
        proof {
            assert(f.attr@.subrange(0, j as int).drop_last() =~= f.attr@.subrange(0, j as int - 1));
            assert(f.attr@.subrange(0, j as int).last() == f.attr@[j - 1]);
            assert(out@ =~= mid0 + spec_render_func_attrs(f.attr@.subrange(0, j as int)));
        }
    }
    proof {
        assert(f.attr@.subrange(0, f.attr@.len() as int) =~= f.attr@);
    }
    render_type(out, &f.ret);
    out.push(0x20);
    out.push(0x40);
    push_bytes(out, f.name.as_slice());
    out.push(0x28);
    let ghost mid = out@;
    let n = f.args.len();
    let mut j: usize = 0;
    proof {
        assert(f.args@.subrange(0, 0) =~= Seq::<(Type, Vec<u8>)>::empty());
    }
    while j < n
        invariant
            n == f.args@.len(),
            j <= n,
            out@ == mid + spec_render_params(f.args@.subrange(0, j as int)),
        decreases n - j,
    {
        if j > 0 {
            out.push(0x2c);
            out.push(0x20);
        }
        render_type(out, &f.args[j].0);
        out.push(0x20);
        out.push(0x25);
        push_bytes(out, f.args[j].1.as_slice());
        j = j + 1;
        proof {
            assert(f.args@.subrange(0, j as int).drop_last() =~= f.args@.subrange(0, j as int - 1));
            assert(f.args@.subrange(0, j as int).last() == f.args@[j - 1]);
            assert(out@ =~= mid + spec_render_params(f.args@.subrange(0, j as int)));
        }
    }
    proof {
        assert(f.args@.subrange(0, n as int) =~= f.args@);
    }
    out.push(0x29);
    out.push(0x20);
    out.push(0x7b);
    out.push(0x0a);
    let ghost mid2 = out@;
    let bn = f.body.len();
    let mut j: usize = 0;
    proof {
        assert(f.body@.subrange(0, 0) =~= Seq::<Instr>::empty());
    }
    while j < bn
        invariant
            bn == f.body@.len(),
            j <= bn,
            out@ == mid2 + spec_render_body(f.body@.subrange(0, j as int)),
        decreases bn - j,
    {
        out.push(0x09);
        render_instr(out, &f.body[j]);
        out.push(0x0a);
        j = j + 1;
        proof {
            assert(f.body@.subrange(0, j as int).drop_last() =~= f.body@.subrange(0, j as int - 1));
            assert(f.body@.subrange(0, j as int).last() == f.body@[j - 1]);
            assert(out@ =~= mid2 + spec_render_body(f.body@.subrange(0, j as int)));
        }
    }
    out.push(0x7d);
    out.push(0x0a);
    proof {
        assert(f.body@.subrange(0, bn as int) =~= f.body@);
        assert(out@ =~= old(out)@ + spec_render_function(*f));
    }
}

} // verus!
