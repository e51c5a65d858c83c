//! Code generation: lowers HIR to the IR module — each function to a
//! sequence of typed three-address instructions, with string literal data
//! hoisted to module-level constant data definitions.

use vstd::prelude::*;

use crate::hir::{view_type, Node, Type as HType, TypeV, ValId, Var};
use crate::llvm::{
    DataAttr, DataDef, FuncAttr, FuncDecl, Function, Instr, Module, Type, TypedVal, ValKind,
};
use crate::report::{Report, ReportKind};
use crate::util::push_u64_dec;

verus! {

/// How the canonical type algebra maps onto the IR's type set: bit-width
/// integers keep their width, the four float widths map across, pointers
/// and optionals collapse to a pointer, `mut` is transparent, `void` and
/// `never` lower to no type, and the pointer-sized integers take 64 bits.
/// The outer `None` is a type the generator must reject: an array, or a
/// float of a width the IR does not have.
pub open spec fn spec_gen_type(t: TypeV) -> Option<Option<Type>>
    decreases t,
{
    match t {
        TypeV::U(n) => Some(Some(Type::Int(n))),
        TypeV::I(n) => Some(Some(Type::Int(n))),
        TypeV::B(n) => Some(Some(Type::Int(n))),
        TypeV::F(n) => if n == 16 {
            Some(Some(Type::F16))
        } else if n == 32 {
            Some(Some(Type::F32))
        } else if n == 64 {
            Some(Some(Type::F64))
        } else if n == 128 {
            Some(Some(Type::F128))
        } else {
            None
        },
        TypeV::Usize => Some(Some(Type::Int(64))),
        TypeV::Isize => Some(Some(Type::Int(64))),
        TypeV::Void => Some(None),
        TypeV::Never => Some(None),
        TypeV::Ptr(_) => Some(Some(Type::Ptr)),
        TypeV::Opt(_) => Some(Some(Type::Ptr)),
        TypeV::Mut(inner) => spec_gen_type(*inner),
        TypeV::Arr(_, _) => None,
        TypeV::Fn(_, _) => Some(Some(Type::Ptr)),
    }
}

/// Converts one canonical type to the IR's type set, exactly as the mapping
/// says; `None` without an error is a type that lowers to no type at all.
pub fn gen_type(t: &HType) -> (r: Result<Option<Type>, Report>)
    ensures
        r matches Ok(o) ==> spec_gen_type(view_type(*t)) == Some(o),
        r is Err <==> spec_gen_type(view_type(*t)) is None,
    decreases *t,
{
    match t {
        HType::U(n) => Ok(Some(Type::Int(*n))),
        HType::I(n) => Ok(Some(Type::Int(*n))),
        HType::B(n) => Ok(Some(Type::Int(*n))),
        HType::F(n) => {
            if *n == 16 {
                Ok(Some(Type::F16))
            } else if *n == 32 {
                Ok(Some(Type::F32))
            } else if *n == 64 {
                Ok(Some(Type::F64))
            } else if *n == 128 {
                Ok(Some(Type::F128))
            } else {
                Err(ReportKind::InvalidType.title(String::from_str("Invalid float width")))
            }
        },
        HType::Usize => Ok(Some(Type::Int(64))),
        HType::Isize => Ok(Some(Type::Int(64))),
        HType::Void => Ok(None),
        HType::Never => Ok(None),
        HType::Ptr(_) => Ok(Some(Type::Ptr)),
        HType::Opt(_) => Ok(Some(Type::Ptr)),
        HType::Mut(inner) => gen_type(inner),
        HType::Arr(_, _) => {
            Err(
                ReportKind::InvalidType.title(
                    String::from_str("Stack arrays are not yet supported"),
                ).help(String::from_str("Heap allocate instead")),
            )
        },
        HType::Fn(_, _) => Ok(Some(Type::Ptr)),
    }
}

/// A deep copy of an IR type.
pub fn clone_ir_type(t: &Type) -> (res: Type)
    ensures
        res == *t,
    decreases *t,
{
    match t {
        Type::Int(w) => Type::Int(*w),
        Type::F16 => Type::F16,
        Type::F32 => Type::F32,
        Type::F64 => Type::F64,
        Type::F128 => Type::F128,
        Type::Ptr => Type::Ptr,
        Type::Void => Type::Void,
        Type::Array(n, inner) => Type::Array(*n, Box::new(clone_ir_type(inner))),
    }
}

/// The source name recorded for an identifier, if any: the first entry.
pub open spec fn spec_symbol_name(symbols: Seq<(ValId, Vec<u8>)>, id: ValId) -> Option<Seq<u8>>
    decreases symbols.len(),
{
    if symbols.len() == 0 {
        None
    } else if symbols[0].0 == id {
        Some(symbols[0].1@)
    } else {
        spec_symbol_name(symbols.skip(1), id)
    }
}

/// Looks an identifier up in the symbol table.
fn symbol_name(symbols: &Vec<(ValId, Vec<u8>)>, id: ValId) -> (r: Option<Vec<u8>>)
    ensures
        r matches Some(n) ==> spec_symbol_name(symbols@, id) == Some(n@),
        r is None ==> spec_symbol_name(symbols@, id) is None,
{
    let n = symbols.len();
    let mut i: usize = 0;
    proof {
        assert(symbols@.skip(0) =~= symbols@);
    }
    while i < n
        invariant
            n == symbols@.len(),
            i <= n,
            spec_symbol_name(symbols@, id) == spec_symbol_name(symbols@.skip(i as int), id),
        decreases n - i,
    {
        proof {
            assert(symbols@.skip(i as int)[0] == symbols@[i as int]);
            assert(symbols@.skip(i as int).skip(1) =~= symbols@.skip(i as int + 1));
        }
        if symbols[i].0.0 == id.0 {
            proof {
                assert(symbols@[i as int].0 == id);
            }
            return Some(crate::util::clone_bytes(&symbols[i].1));
        }
        proof {
            assert(symbols@[i as int].0 != id);
        }
        i = i + 1;
    }
    proof {
        assert(symbols@.skip(n as int) =~= Seq::<(ValId, Vec<u8>)>::empty());
    }
    None
}

/// The synthesized name of the global minted for a hoisted literal.
fn const_name(id: ValId) -> (r: Vec<u8>)
    ensures
        r@ == seq![0x5fu8, 0x5fu8, 0x63u8, 0x6fu8, 0x6eu8, 0x73u8, 0x74u8] + crate::util::dec_bytes(
            id.0 as nat,
        ),
{
    let mut nm: Vec<u8> = Vec::new();
    nm.push(0x5f);
    nm.push(0x5f);
    nm.push(0x63);
    nm.push(0x6f);
    nm.push(0x6e);
    nm.push(0x73);
    nm.push(0x74);
    push_u64_dec(&mut nm, id.0);
    proof {
        assert(nm@ =~= seq![0x5fu8, 0x5fu8, 0x63u8, 0x6fu8, 0x6eu8, 0x73u8, 0x74u8]
            + crate::util::dec_bytes(id.0 as nat));
    }
    nm
}

/// The kind and payload standing for one resolved value: an immediate
/// becomes an integer constant, a local maps through the function's
/// register bindings, and a global is named by the symbol table or by its
/// synthesized constant name.
fn var_val(var: Var, locals: &Vec<(u64, u64)>, symbols: &Vec<(ValId, Vec<u8>)>) -> (r: Result<
    (ValKind, Vec<u8>),
    Report,
>)
    ensures
        r matches Ok(v) ==> v.0 != ValKind::Str,
{
    match var {
        Var::Imm(v) => {
            let mut p: Vec<u8> = Vec::new();
            push_u64_dec(&mut p, v);
            Ok((ValKind::Const, p))
        },
        Var::Local(vid) => {
            let n = locals.len();
            let mut i: usize = 0;
            while i < n
                invariant
                    n == locals@.len(),
                    i <= n,
                decreases n - i,
            {
                if locals[i].0 == vid.0 {
                    let mut p: Vec<u8> = Vec::new();
                    push_u64_dec(&mut p, locals[i].1);
                    return Ok((ValKind::Temp, p));
                }
                i = i + 1;
            }
            Err(ReportKind::Undefined.title(String::from_str("Undefined symbol")))
        },
        Var::Glob(vid) => {
            match symbol_name(symbols, vid) {
                Some(n) => Ok((ValKind::Global, n)),
                None => Ok((ValKind::Global, const_name(vid))),
            }
        },
    }
}

/// A well-formed hoisted data definition: internal constant string data
/// typed as a byte array of exactly its length.
pub open spec fn data_def_wf(d: DataDef) -> bool {
    &&& d.attr@ == seq![DataAttr::Internal, DataAttr::Constant]
    &&& d.value.1 == ValKind::Str
    &&& d.value.0 matches Type::Array(n, inner) && n == d.value.2@.len() && *inner == Type::Int(8)
}

/// The string contents hoisted out of a body, in order.
pub open spec fn body_strs(b: Seq<Node>) -> Seq<Seq<u8>>
    decreases b.len(),
{
    if b.len() == 0 {
        Seq::empty()
    } else {
        body_strs(b.drop_last()) + node_strs(b.last())
    }
}

/// The string contents one node hoists.
pub open spec fn node_strs(n: Node) -> Seq<Seq<u8>> {
    match n {
        Node::Global { val, .. } => match *val {
            Node::StrLit(s) => seq![s@],
            _ => Seq::empty(),
        },
        _ => Seq::empty(),
    }
}

/// How many instructions a body's statements lower to: one per return and
/// one per call; hoisted globals lower to data, not instructions.
pub open spec fn count_instr_stmts(b: Seq<Node>) -> nat
    decreases b.len(),
{
    if b.len() == 0 {
        0
    } else {
        count_instr_stmts(b.drop_last()) + if b.last() is Ret || b.last() is FuncCall || b.last()
            is Assign {
            1nat
        } else {
            0nat
        }
    }
}

/// Every statement of the HIR body is a bare return.
pub open spec fn hir_body_bare_ret(b: Seq<Node>) -> bool {
    forall|i: int| 0 <= i < b.len() ==> (#[trigger] b[i]) matches Node::Ret(None, _)
}

/// Every argument binding's type maps into the IR's type set.
pub open spec fn gen_args_ok(args: Seq<(ValId, HType)>) -> bool {
    forall|k: int|
        0 <= k < args.len() ==> (spec_gen_type(view_type((#[trigger] args[k]).1)) matches Some(o)
            && o is Some)
}

/// A body of bare returns hoists no string data.
proof fn lemma_bare_ret_no_strs(b: Seq<Node>)
    requires
        hir_body_bare_ret(b),
    ensures
        body_strs(b).len() == 0,
    decreases b.len(),
{
    if b.len() > 0 {
        assert(hir_body_bare_ret(b.drop_last())) by {
            assert(forall|i: int| 0 <= i < b.len() - 1 ==> (#[trigger] b.drop_last()[i]) == b[i]);
        }
        lemma_bare_ret_no_strs(b.drop_last());
        assert(b[b.len() - 1] matches Node::Ret(None, _));
    }
}

/// Emits the data definition for one hoisted global.
fn gen_global(data: &mut Vec<DataDef>, id: ValId, val: Box<Node>) -> (r: Result<(), Report>)
    ensures
        r is Ok ==> final(data)@.len() == old(data)@.len() + 1 && (forall|i: int|
            0 <= i < old(data)@.len() ==> (#[trigger] final(data)@[i]) == old(data)@[i])
            && data_def_wf(final(data)@.last()) && node_strs(
            Node::Global { id, ty: crate::hir::Type::Void, val },
        ) =~= seq![final(data)@.last().value.2@],
        r is Err ==> final(data)@ == old(data)@,
{
    match *val {
        Node::StrLit(s) => {
            let len64 = s.len() as u64;
            let mut attr: Vec<DataAttr> = Vec::new();
            attr.push(DataAttr::Internal);
            attr.push(DataAttr::Constant);
            let d = DataDef {
                name: const_name(id),
                attr,
                value: TypedVal(Type::Array(len64, Box::new(Type::Int(8))), ValKind::Str, s),
            };
            data.push(d);
            proof {
                assert(data@.last().attr@ =~= seq![DataAttr::Internal, DataAttr::Constant]);
            }
            Ok(())
        },
        _ => Err(ReportKind::SyntaxError.title(String::from_str("Unsupported global initializer"))),
    }
}

/// Lowers one function declaration.
fn gen_decl(symbols: &Vec<(ValId, Vec<u8>)>, id: ValId, args: Vec<HType>, ret: HType) -> (r:
    Result<FuncDecl, Report>)
    ensures
        r matches Ok(d) ==> spec_symbol_name(symbols@, id) == Some(d.name@),
        r is Err <==> (spec_symbol_name(symbols@, id) is None || (exists|k: int|
            0 <= k < args@.len() && (spec_gen_type(view_type(#[trigger] args@[k])) is None
                || spec_gen_type(view_type(args@[k])) == Some(Option::<Type>::None)))
            || spec_gen_type(view_type(ret)) is None),
        r matches Ok(d) ==> (d.attr@.len() == 0 && d.args@.len() == args@.len() && (forall|k: int|
            0 <= k < args@.len() ==> spec_gen_type(view_type(#[trigger] args@[k])) == Some(
                Some(d.args@[k]),
            )) && (match spec_gen_type(view_type(ret)) {
            Some(Some(t)) => d.ret == t,
            Some(None) => d.ret == Type::Void,
            None => false,
        })),
{
    let name = match symbol_name(symbols, id) {
        Some(n) => n,
        None => {
            return Err(ReportKind::Undefined.title(String::from_str("Unknown function symbol")));
        },
    };
    let mut tys: Vec<Type> = Vec::new();
    let an = args.len();
    let mut k: usize = 0;
    while k < an
        invariant
            an == args@.len(),
            k <= an,
            tys@.len() == k,
            forall|j: int|
                0 <= j < k ==> spec_gen_type(view_type(#[trigger] args@[j])) == Some(
                    Some(tys@[j]),
                ),
        decreases an - k,
    {
        let t = match gen_type(&args[k]) {
            Ok(Some(t)) => t,
            Ok(None) => {
                return Err(
                    ReportKind::InvalidType.title(
                        String::from_str("Type of arg may not be void"),
                    ),
                );
            },
            Err(e) => {
                return Err(e);
            },
        };
        tys.push(t);
        k = k + 1;
    }
    let rty = match gen_type(&ret) {
        Ok(Some(t)) => t,
        Ok(None) => Type::Void,
        Err(e) => {
            return Err(e);
        },
    };
    Ok(FuncDecl { name, attr: Vec::new(), args: tys, ret: rty })
}

/// Lowers one call to its instruction: the callee as a pointer-typed value,
/// each argument typed by the IR mapping, hoisted constants handed over as
/// pointer-typed references to their globals.
fn gen_call(
    cvar: Var,
    cargs: Vec<(Var, HType)>,
    locals: &Vec<(u64, u64)>,
    symbols: &Vec<(ValId, Vec<u8>)>,
) -> (r: Result<Instr, Report>)
    ensures
        r matches Ok(i) ==> i is Call,
{
    let (kind, payload) = match var_val(cvar, locals, symbols) {
        Ok(v) => v,
        Err(e) => {
            return Err(e);
        },
    };
    let func = TypedVal(Type::Ptr, kind, payload);
    let mut targs: Vec<TypedVal> = Vec::new();
    let mut crest = cargs;
    while crest.len() > 0
        decreases crest@.len(),
    {
        let (v, t) = crest.remove(0);
        // a hoisted constant is handed to the call as a pointer-typed
        // reference to its global
        let tt = if matches!(&t, HType::Arr(..)) {
            Type::Ptr
        } else {
            match gen_type(&t) {
                Ok(Some(tt)) => tt,
                Ok(None) => {
                    return Err(
                        ReportKind::InvalidType.title(
                            String::from_str("Type of arg may not be void"),
                        ),
                    );
                },
                Err(e) => {
                    return Err(e);
                },
            }
        };
        let (k2, p2) = match var_val(v, locals, symbols) {
            Ok(x) => x,
            Err(e) => {
                return Err(e);
            },
        };
        targs.push(TypedVal(tt, k2, p2));
    }
    Ok(Instr::Call { func, args: targs })
}

/// Lowers one function: a fresh numeric temporary per argument, one typed
/// instruction per return or call, and one data definition per hoisted
/// string, appended in statement order.
fn gen_func(
    data: &mut Vec<DataDef>,
    symbols: &Vec<(ValId, Vec<u8>)>,
    id: ValId,
    export: bool,
    args: Vec<(ValId, HType)>,
    ret: HType,
    body: Vec<Node>,
) -> (r: Result<Function, Report>)
    ensures
        final(data)@.len() >= old(data)@.len(),
        forall|i: int| 0 <= i < old(data)@.len() ==> (#[trigger] final(data)@[i]) == old(data)@[i],
        forall|i: int|
            old(data)@.len() <= i < final(data)@.len() ==> data_def_wf(#[trigger] final(data)@[i]),
        r matches Ok(f) ==> {
            &&& spec_symbol_name(symbols@, id) == Some(f.name@)
            &&& f.attr@ == if export {
                seq![FuncAttr::Export]
            } else {
                Seq::<FuncAttr>::empty()
            }
            &&& f.args@.len() == args@.len()
            &&& forall|k: int|
                0 <= k < args@.len() ==> spec_gen_type(view_type((#[trigger] args@[k]).1)) == Some(
                    Some(f.args@[k].0),
                )
            &&& forall|k: int|
                0 <= k < args@.len() ==> (#[trigger] f.args@[k]).1@ == crate::util::dec_bytes(
                    (k + 1) as nat,
                )
            &&& f.body@.len() == count_instr_stmts(body@)
            &&& final(data)@.len() == old(data)@.len() + body_strs(body@).len()
            &&& forall|j: int|
                0 <= j < body_strs(body@).len() ==> (#[trigger] final(data)@[old(data)@.len()
                    + j]).value.2@ == body_strs(body@)[j]
        },
        spec_symbol_name(symbols@, id) is None ==> r is Err,
        spec_gen_type(view_type(ret)) is None ==> r is Err,
        (exists|k: int|
            0 <= k < args@.len() && (spec_gen_type(view_type((#[trigger] args@[k]).1)) is None
                || spec_gen_type(view_type(args@[k].1)) == Some(Option::<Type>::None))) ==> r
            is Err,
        (spec_symbol_name(symbols@, id) is Some && spec_gen_type(view_type(ret)) is Some
            && gen_args_ok(args@) && hir_body_bare_ret(body@)) ==> (r matches Ok(f) && forall|j:
            int|
            0 <= j < f.body@.len() ==> (#[trigger] f.body@[j]) == Instr::Ret(None::<TypedVal>)),
{
    let name = match symbol_name(symbols, id) {
        Some(n) => n,
        None => {
            return Err(ReportKind::Undefined.title(String::from_str("Unknown function symbol")));
        },
    };
    let rty = match gen_type(&ret) {
        Ok(Some(t)) => t,
        Ok(None) => Type::Void,
        Err(e) => {
            return Err(e);
        },
    };

    let mut locals: Vec<(u64, u64)> = Vec::new();
    let mut fargs: Vec<(Type, Vec<u8>)> = Vec::new();
    let mut idacc: u64 = 0;
    let nlen = args.len();
    let ghost nargs = nlen as nat;
    let mut k: usize = 0;
    while k < nlen
        invariant
            data@ == old(data)@,
            nlen == args@.len(),
            nargs == nlen as nat,
            k <= nlen,
            fargs@.len() == k,
            idacc == k,
            forall|j: int|
                0 <= j < k ==> spec_gen_type(view_type((#[trigger] args@[j]).1)) == Some(
                    Some(fargs@[j].0),
                ),
            forall|j: int|
                0 <= j < k ==> (#[trigger] fargs@[j]).1@ == crate::util::dec_bytes((j + 1) as nat),
        decreases nlen - k,
    {
        let t = match gen_type(&args[k].1) {
            Ok(Some(t)) => t,
            Ok(None) => {
                return Err(
                    ReportKind::InvalidType.title(
                        String::from_str("Type of arg may not be void"),
                    ),
                );
            },
            Err(e) => {
                return Err(e);
            },
        };
        idacc = idacc + 1;
        locals.push((args[k].0.0, idacc));
        let mut p: Vec<u8> = Vec::new();
        push_u64_dec(&mut p, idacc);
        fargs.push((t, p));
        k = k + 1;
    }

    let mut instrs: Vec<Instr> = Vec::new();
    let mut stmts = body;
    let blen = stmts.len();
    let ghost body0 = stmts@;
    proof {
        assert(body0.len() == blen);
    }
    proof {
        assert(body0.subrange(0, 0) =~= Seq::<Node>::empty());
    }
    let mut i: usize = 0;
    while stmts.len() > 0
        invariant
            body0.len() <= usize::MAX,
            i + stmts@.len() == body0.len(),
            stmts@ == body0.skip(i as int),
            instrs@.len() == count_instr_stmts(body0.subrange(0, i as int)),
            data@.len() == old(data)@.len() + body_strs(body0.subrange(0, i as int)).len(),
            forall|j: int|
                0 <= j < old(data)@.len() ==> (#[trigger] data@[j]) == old(data)@[j],
            forall|j: int|
                old(data)@.len() <= j < data@.len() ==> data_def_wf(#[trigger] data@[j]),
            forall|j: int|
                0 <= j < body_strs(body0.subrange(0, i as int)).len() ==> (#[trigger] data@[old(
                    data,
                )@.len() + j]).value.2@ == body_strs(body0.subrange(0, i as int))[j],
            body0 == body@,
            hir_body_bare_ret(body0) ==> forall|j: int|
                0 <= j < instrs@.len() ==> (#[trigger] instrs@[j]) == Instr::Ret(
                    None::<TypedVal>,
                ),
        decreases stmts@.len(),
    {
        proof {
            assert(stmts@[0] == body0[i as int]);
            assert(body0.subrange(0, i + 1).drop_last() =~= body0.subrange(0, i as int));
            assert(body0.subrange(0, i + 1).last() == body0[i as int]);
        }
        let node = stmts.remove(0);
        proof {
            assert(stmts@ =~= body0.skip(i as int + 1));
        }
        match node {
            Node::Global { id: gid, ty: _gty, val } => {
                match gen_global(data, gid, val) {
                    Ok(()) => {},
                    Err(e) => {
                        return Err(e);
                    },
                }
            },
            Node::Ret(None, _) => {
                instrs.push(Instr::Ret(None));
            },
            Node::Ret(Some(var), _ty) => {
                let (kind, payload) = match var_val(var, &locals, symbols) {
                    Ok(v) => v,
                    Err(e) => {
                        return Err(e);
                    },
                };
                instrs.push(Instr::Ret(Some(TypedVal(clone_ir_type(&rty), kind, payload))));
            },
            Node::Assign { id: aid, ty: _aty, val } => {
                // a value-carrying call: the producer is lowered and bound
                // to a fresh numeric temporary
                let call = match *val {
                    Node::FuncCall { id: cvar, args: cargs } => {
                        match gen_call(cvar, cargs, &locals, symbols) {
                            Ok(c) => c,
                            Err(e) => {
                                return Err(e);
                            },
                        }
                    },
                    _ => {
                        return Err(
                            ReportKind::SyntaxError.title(
                                String::from_str("Unsupported value producer"),
                            ),
                        );
                    },
                };
                if idacc == u64::MAX {
                    return Err(
                        ReportKind::SyntaxError.title(
                            String::from_str("Too many temporaries"),
                        ),
                    );
                }
                idacc = idacc + 1;
                locals.push((aid.0, idacc));
                let mut p: Vec<u8> = Vec::new();
                push_u64_dec(&mut p, idacc);
                instrs.push(Instr::Assign(crate::llvm::Val(ValKind::Temp, p), Box::new(call)));
            },
            Node::FuncCall { id: cvar, args: cargs } => {
                let call = match gen_call(cvar, cargs, &locals, symbols) {
                    Ok(c) => c,
                    Err(e) => {
                        return Err(e);
                    },
                };
                instrs.push(call);
            },
            _ => {
                return Err(
                    ReportKind::SyntaxError.title(String::from_str("Unsupported statement")),
                );
            },
        }
        i = i + 1;
        proof {
            assert(instrs@.len() == count_instr_stmts(body0.subrange(0, i as int)));
            assert(data@.len() == old(data)@.len() + body_strs(
                body0.subrange(0, i as int),
            ).len());
        }
    }
    proof {
        assert(body0.subrange(0, body0.len() as int) =~= body0);
    }

    let mut attr: Vec<FuncAttr> = Vec::new();
    if export {
        attr.push(FuncAttr::Export);
        proof {
            assert(attr@ =~= seq![FuncAttr::Export]);
        }
    }
    Ok(Function { name, attr, args: fargs, ret: rty, body: instrs })
}

/// A user-defined type's shape, once type declarations are lowered: a
/// struct, an enum, or an alias of another surface type.
pub enum TypeDef {
    Struct(Vec<(Vec<u8>, crate::span::Sp<crate::ast::Type>)>),
    Enum(Vec<(Vec<u8>, Option<crate::span::Sp<crate::ast::Type>>)>),
    Alias(crate::span::Sp<crate::ast::Type>),
}

/// How many function definitions a HIR sequence holds.
pub open spec fn n_funcs(h: Seq<Node>) -> nat
    decreases h.len(),
{
    if h.len() == 0 {
        0
    } else {
        n_funcs(h.drop_last()) + if h.last() is Func {
            1nat
        } else {
            0nat
        }
    }
}

/// How many function declarations a HIR sequence holds.
pub open spec fn n_decls(h: Seq<Node>) -> nat
    decreases h.len(),
{
    if h.len() == 0 {
        0
    } else {
        n_decls(h.drop_last()) + if h.last() is FuncDecl {
            1nat
        } else {
            0nat
        }
    }
}

/// The code generator.
pub struct Gen {
    pub module: Module,
}

impl Gen {
    /// Lowers a whole HIR sequence into an IR module. Every hoisted data
    /// definition is internal, constant string data typed as a byte array of
    /// its exact length. An error in one declaration skips that declaration
    /// and the generation continues with the rest.
    pub fn codegen(file: &str, hir: Vec<Node>, symbols: &Vec<(ValId, Vec<u8>)>) -> (r: (
        Module,
        Vec<Report>,
    ))
        ensures
            forall|i: int| 0 <= i < r.0.data@.len() ==> data_def_wf(#[trigger] r.0.data@[i]),
            hir@.len() == 0 ==> (r.0.funcs@.len() == 0 && r.0.decls@.len() == 0 && r.0.data@.len()
                == 0 && r.1@.len() == 0),
            r.0.funcs@.len() <= n_funcs(hir@),
            r.0.decls@.len() <= n_decls(hir@),
            r.0.funcs@.len() + r.0.decls@.len() + r.1@.len() >= n_funcs(hir@) + n_decls(hir@),
            (hir@.len() == 1 && (hir@[0] matches Node::Func { id, args, ret, body, .. }
                && spec_symbol_name(symbols@, id) matches Some(nm) && spec_gen_type(
                view_type(ret),
            ) is Some && gen_args_ok(args@) && hir_body_bare_ret(body@))) ==> (r.1@.len() == 0
                && r.0.decls@.len() == 0 && r.0.data@.len() == 0 && r.0.funcs@.len() == 1 && (
            hir@[0] matches Node::Func { id, .. } && spec_symbol_name(symbols@, id) == Some(
                r.0.funcs@[0].name@,
            )) && (forall|j: int|
                0 <= j < r.0.funcs@[0].body@.len() ==> (#[trigger] r.0.funcs@[0].body@[j])
                    == Instr::Ret(None::<TypedVal>))),
    {
        let mut gen = Gen {
            module: Module {
                name: file.as_bytes_vec(),
                data: Vec::new(),
                decls: Vec::new(),
                funcs: Vec::new(),
            },
        };
        let mut reports: Vec<Report> = Vec::new();
        let mut rest = hir;
        let ghost hir0 = rest@;
        proof {
            assert(hir0.subrange(0, 0) =~= Seq::<Node>::empty());
        }
        while rest.len() > 0
            invariant
                forall|i: int|
                    0 <= i < gen.module.data@.len() ==> data_def_wf(#[trigger] gen.module.data@[i]),
                rest@.len() <= hir0.len(),
                rest@ == hir0.skip(hir0.len() - rest@.len()),
                hir0.len() == 0 ==> (gen.module.funcs@.len() == 0 && gen.module.decls@.len() == 0
                    && gen.module.data@.len() == 0 && reports@.len() == 0),
                hir0 == hir@,
                (hir0.len() == 1 && (hir0[0] matches Node::Func { id, args, ret, body, .. }
                    && spec_symbol_name(symbols@, id) is Some && spec_gen_type(view_type(ret))
                    is Some && gen_args_ok(args@) && hir_body_bare_ret(body@))) ==> ((rest@.len()
                    == 1 && gen.module.funcs@.len() == 0 && gen.module.decls@.len() == 0
                    && gen.module.data@.len() == 0 && reports@.len() == 0) || (rest@.len() == 0
                    && reports@.len() == 0 && gen.module.decls@.len() == 0
                    && gen.module.data@.len() == 0 && gen.module.funcs@.len() == 1 && (hir0[0]
                    matches Node::Func { id, .. } && spec_symbol_name(symbols@, id) == Some(
                    gen.module.funcs@[0].name@,
                )) && (forall|j: int|
                    0 <= j < gen.module.funcs@[0].body@.len() ==> (
                    #[trigger] gen.module.funcs@[0].body@[j]) == Instr::Ret(None::<TypedVal>)))),
                gen.module.funcs@.len() <= n_funcs(
                    hir0.subrange(0, hir0.len() - rest@.len()),
                ),
                gen.module.decls@.len() <= n_decls(
                    hir0.subrange(0, hir0.len() - rest@.len()),
                ),
                gen.module.funcs@.len() + gen.module.decls@.len() + reports@.len() >= n_funcs(
                    hir0.subrange(0, hir0.len() - rest@.len()),
                ) + n_decls(hir0.subrange(0, hir0.len() - rest@.len())),
            decreases rest@.len(),
        {
            let ghost at = hir0.len() - rest@.len();
            proof {
                assert(rest@[0] == hir0[at]);
                assert(hir0.subrange(0, at + 1).drop_last() =~= hir0.subrange(0, at));
                assert(hir0.subrange(0, at + 1).last() == hir0[at]);
            }
            let node = rest.remove(0);
            proof {
                assert(rest@ =~= hir0.skip(hir0.len() - rest@.len()));
            }
            match node {
                Node::Func { id, export, args, ret, body } => {
                    proof {
                        if hir_body_bare_ret(body@) {
                            lemma_bare_ret_no_strs(body@);
                        }
                    }
                    match gen_func(&mut gen.module.data, symbols, id, export, args, ret, body) {
                        Ok(f) => {
                            gen.module.funcs.push(f);
                        },
                        Err(e) => {
                            reports.push(e.file(String::from_str(file)));
                        },
                    }
                },
                Node::FuncDecl { id, args, ret } => {
                    match gen_decl(symbols, id, args, ret) {
                        Ok(d) => {
                            gen.module.decls.push(d);
                        },
                        Err(e) => {
                            reports.push(e.file(String::from_str(file)));
                        },
                    }
                },
                Node::Global { id, ty: _, val } => {
                    match gen_global(&mut gen.module.data, id, val) {
                        Ok(()) => {},
                        Err(e) => {
                            reports.push(e.file(String::from_str(file)));
                        },
                    }
                },
                _ => {
                    reports.push(
                        ReportKind::SyntaxError.title(
                            String::from_str("Unsupported declaration"),
                        ).file(String::from_str(file)),
                    );
                },
            }
        }
        proof {
            assert(hir0.subrange(0, hir0.len() as int) =~= hir0);
        }
        (gen.module, reports)
    }
}

} // verus!
