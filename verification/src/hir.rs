//! The high-level intermediate representation: symbol-resolved, fully typed,
//! tagged-variant nodes produced by the analyzer and consumed by the code
//! generator.

use vstd::prelude::*;

verus! {

/// A dense integer identifier, minted once and never reused, standing in for
/// a source-level name once resolved.
#[derive(Clone, Copy, Default, Debug, Eq, Hash, PartialEq, Structural)]
pub struct ValId(pub u64);

/// A resolved value reference: an immediate, a local (scope depth above the
/// global one), or a module-level global.
#[derive(Clone, Copy, Debug, PartialEq, Eq, Structural)]
pub enum Var {
    Imm(u64),
    Local(ValId),
    Glob(ValId),
}

/// The canonical type algebra: the surface algebra with every nominal
/// reference resolved away.
pub enum Type {
    U(u32),
    I(u32),
    B(u32),
    F(u32),
    Usize,
    Isize,
    Void,
    Never,
    Ptr(Box<Type>),
    Arr(Box<Type>, Option<u64>),
    Mut(Box<Type>),
    Opt(Box<Type>),
    Fn(Vec<Type>, Box<Type>),
}

/// The mathematical model of a canonical type, used by contracts.
#[verifier::ext_equal]
pub enum TypeV {
    U(u32),
    I(u32),
    B(u32),
    F(u32),
    Usize,
    Isize,
    Void,
    Never,
    Ptr(Box<TypeV>),
    Arr(Box<TypeV>, Option<u64>),
    Mut(Box<TypeV>),
    Opt(Box<TypeV>),
    Fn(Seq<TypeV>, Box<TypeV>),
}

/// The model of a canonical type.
pub open spec fn view_type(t: Type) -> TypeV
    decreases t,
{
    match t {
        Type::U(n) => TypeV::U(n),
        Type::I(n) => TypeV::I(n),
        Type::B(n) => TypeV::B(n),
        Type::F(n) => TypeV::F(n),
        Type::Usize => TypeV::Usize,
        Type::Isize => TypeV::Isize,
        Type::Void => TypeV::Void,
        Type::Never => TypeV::Never,
        Type::Ptr(inner) => TypeV::Ptr(Box::new(view_type(*inner))),
        Type::Arr(inner, sz) => TypeV::Arr(Box::new(view_type(*inner)), sz),
        Type::Mut(inner) => TypeV::Mut(Box::new(view_type(*inner))),
        Type::Opt(inner) => TypeV::Opt(Box::new(view_type(*inner))),
        Type::Fn(args, ret) => TypeV::Fn(view_type_seq(args@), Box::new(view_type(*ret))),
    }
}

/// The models of a sequence of canonical types, element by element.
pub open spec fn view_type_seq(s: Seq<Type>) -> Seq<TypeV>
    decreases s,
{
    Seq::new(
        s.len(),
        |i: int|
            if 0 <= i < s.len() {
                view_type(s[i])
            } else {
                TypeV::Void
            },
    )
}

impl Type {
    /// The model of this type.
    pub open spec fn view(self) -> TypeV {
        view_type(self)
    }
}

/// A deep copy of a canonical type; the copy has the same model.
#[verifier::loop_isolation(false)]
pub fn clone_type(t: &Type) -> (res: Type)
    ensures
        res.view() == t.view(),
    decreases *t,
{
    match t {
        Type::U(n) => Type::U(*n),
        Type::I(n) => Type::I(*n),
        Type::B(n) => Type::B(*n),
        Type::F(n) => Type::F(*n),
        Type::Usize => Type::Usize,
        Type::Isize => Type::Isize,
        Type::Void => Type::Void,
        Type::Never => Type::Never,
        Type::Ptr(inner) => Type::Ptr(Box::new(clone_type(inner))),
        Type::Arr(inner, sz) => Type::Arr(Box::new(clone_type(inner)), *sz),
        Type::Mut(inner) => Type::Mut(Box::new(clone_type(inner))),
        Type::Opt(inner) => Type::Opt(Box::new(clone_type(inner))),
        Type::Fn(args, ret) => {
            let mut cargs: Vec<Type> = Vec::new();
            let mut i: usize = 0;
            while i < args.len()
                invariant
                    i <= args@.len(),
                    cargs@.len() == i,
                    forall|j: int| 0 <= j < i ==> (#[trigger] cargs@[j].view()) == args@[j].view(),
                decreases args@.len() - i,
            {
                proof {
                    assert(decreases_to!(*t => t->Fn_0));
                    assert(decreases_to!(t->Fn_0 => t->Fn_0@));
                    assert(decreases_to!(t->Fn_0@ => t->Fn_0@[i as int]));
                    assert(args@[i as int] == t->Fn_0@[i as int]);
                }
                cargs.push(clone_type(&args[i]));
                i = i + 1;
            }
            let cret = Box::new(clone_type(ret));
            let res = Type::Fn(cargs, cret);
            proof {
                assert(res.view() == TypeV::Fn(view_type_seq(cargs@), Box::new(view_type(*cret))));
                assert(t.view() == TypeV::Fn(view_type_seq(args@), Box::new(view_type(**ret))));
                assert(view_type_seq(cargs@).len() == cargs@.len());
                assert(view_type_seq(args@).len() == args@.len());
                assert(cargs@.len() == args@.len());
                let lhs = res.view()->Fn_0;
                let rhs = t.view()->Fn_0;
                assert(lhs.len() == rhs.len());
                assert forall|j: int| 0 <= j < lhs.len() implies lhs[j] == rhs[j] by {
                    assert(cargs@[j].view() == args@[j].view());
                }
                assert(lhs =~= rhs);
                assert(res.view() =~~= t.view());
            }
            res
        },
    }
}

impl Clone for Type {
    /// Cloning a type yields one with the same model.
    fn clone(&self) -> (res: Type)
        ensures
            res.view() == self.view(),
    {
        clone_type(self)
    }
}

/// A symbol-resolved node.
pub enum Node {
    Func { id: ValId, export: bool, args: Vec<(ValId, Type)>, ret: Type, body: Vec<Node> },
    FuncDecl { id: ValId, args: Vec<Type>, ret: Type },
    Assign { id: ValId, ty: Type, val: Box<Node> },
    Global { id: ValId, ty: Type, val: Box<Node> },
    Ret(Option<Var>, Type),
    FuncCall { id: Var, args: Vec<(Var, Type)> },
    StrLit(Vec<u8>),
    Var(Var),
}

/// Whether the node is a statement form that may stand in a function body.
pub open spec fn is_body_stmt(n: Node) -> bool {
    n is Ret || n is FuncCall || n is Global || n is Assign
}

/// Whether the node may stand at the top level of the output.
pub open spec fn is_root_node(n: Node) -> bool {
    n is Func || n is FuncDecl || n is Global
}

} // verus!
