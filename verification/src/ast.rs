//! The surface syntax tree: spanned, tagged-variant nodes produced by the
//! parser and consumed (moved) into the analyzer.

use vstd::prelude::*;

use crate::span::Sp;

verus! {

/// A surface syntax node. Top-level declarations are function definitions or
/// declarations; statements and expressions share the same tagged set.
pub enum Node {
    Func {
        name: Sp<Vec<u8>>,
        attrs: Vec<Sp<Attrs>>,
        args: Vec<(Sp<Vec<u8>>, Sp<Type>)>,
        ret: Option<Sp<Type>>,
        body: Vec<Sp<Node>>,
    },
    Assign { name: Sp<Vec<u8>>, ty: Sp<Type>, value: Box<Sp<Node>> },
    Ret(Option<Box<Sp<Node>>>),
    FuncCall { name: Sp<Vec<u8>>, args: Vec<Sp<Node>> },
    StrLit(Vec<u8>),
    UIntLit(u64),
}

/// Attribute keywords that may precede a top-level declaration.
#[derive(Debug, Clone, Copy, PartialEq, Eq, Structural)]
pub enum Attrs {
    Export,
    Extern,
    Pub,
}

/// A surface type: recursive, with nominal references left unresolved.
pub enum Type {
    U(u32),
    I(u32),
    B(u32),
    F(u32),
    Usize,
    Isize,
    Void,
    Never,
    Opt(Box<Sp<Type>>),
    Ptr(Box<Sp<Type>>),
    Arr(Box<Sp<Type>>, Option<u64>),
    Mut(Box<Sp<Type>>),
    Fn(Vec<Sp<Type>>, Option<Box<Sp<Type>>>),
    Ident(Vec<u8>),
}

/// Whether the node is an expression form.
pub open spec fn is_expr(n: Node) -> bool {
    n is FuncCall || n is StrLit || n is UIntLit
}

/// Whether the node is a statement form.
pub open spec fn is_stmt(n: Node) -> bool {
    is_expr(n) || n is Ret || n is Assign
}

} // verus!
