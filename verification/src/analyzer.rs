//! Semantic analysis: resolves identifiers against nested lexical scopes,
//! assigns dense integer value identifiers, converts surface types to the
//! canonical algebra, and lowers the surface tree into HIR.
//!
//! Identifiers are minted from one module-wide counter, so no two symbols
//! ever share a value identifier and each scope's identifiers strictly
//! increase in mint order.

use vstd::prelude::*;

use crate::ast;
use crate::hir::{clone_type, is_body_stmt, is_root_node, view_type, Node, Type, TypeV, ValId, Var};
use crate::report::{Report, ReportKind};
use crate::span::Sp;
use crate::util::bytes_eq;

verus! {

/// One lexical scope: an ordered list of bindings.
pub struct Scope {
    pub locals: Vec<(ValId, Vec<u8>, Type)>,
}

/// The analyzer: a scope stack seeded with one global scope, the table from
/// value identifiers back to source names, and the identifier counter.
pub struct Analyzer {
    pub scope: Vec<Scope>,
    pub symbols: Vec<(ValId, Vec<u8>)>,
    pub next_id: u64,
}

/// Every identifier bound in any scope is below `x`.
pub open spec fn ids_below(a: Analyzer, x: u64) -> bool {
    forall|d: int, k: int|
        0 <= d < a.scope@.len() && 0 <= k < a.scope@[d].locals@.len() ==> (#[trigger] a.scope@[d].locals@[k]).0.0 < x
}

/// The analyzer's invariant: the global scope is always there; every bound
/// or recorded identifier is below the counter; within each scope the
/// identifiers strictly increase in binding order; no two bindings anywhere
/// share an identifier; and the symbol table's identifiers strictly increase.
pub open spec fn scopes_inv(a: Analyzer) -> bool {
    &&& a.scope@.len() >= 1
    &&& ids_below(a, a.next_id)
    &&& forall|d: int, k1: int, k2: int|
        0 <= d < a.scope@.len() && 0 <= k1 < k2 < a.scope@[d].locals@.len() ==> (
        #[trigger] a.scope@[d].locals@[k1]).0.0 < (#[trigger] a.scope@[d].locals@[k2]).0.0
    &&& forall|d1: int, k1: int, d2: int, k2: int|
        0 <= d1 < a.scope@.len() && 0 <= k1 < a.scope@[d1].locals@.len() && 0 <= d2
            < a.scope@.len() && 0 <= k2 < a.scope@[d2].locals@.len() && (d1 != d2 || k1 != k2)
            ==> (#[trigger] a.scope@[d1].locals@[k1]).0.0 != (#[trigger] a.scope@[d2].locals@[k2]).0.0
    &&& forall|i: int, j: int|
        0 <= i < j < a.symbols@.len() ==> (#[trigger] a.symbols@[i]).0.0 < (#[trigger] a.symbols@[j]).0.0
    &&& forall|i: int| 0 <= i < a.symbols@.len() ==> (#[trigger] a.symbols@[i]).0.0 < a.next_id
}

/// Identifier uniqueness: under the analyzer's invariant, no two distinct
/// bindings in the scope stack — whether in the same scope or in any two
/// scopes visible to each other — carry the same value identifier.
pub proof fn lemma_valid_uniqueness(a: Analyzer, d1: int, k1: int, d2: int, k2: int)
    requires
        scopes_inv(a),
        0 <= d1 < a.scope@.len(),
        0 <= k1 < a.scope@[d1].locals@.len(),
        0 <= d2 < a.scope@.len(),
        0 <= k2 < a.scope@[d2].locals@.len(),
        d1 != d2 || k1 != k2,
    ensures
        a.scope@[d1].locals@[k1].0 != a.scope@[d2].locals@[k2].0,
{
    assert(a.scope@[d1].locals@[k1].0.0 != a.scope@[d2].locals@[k2].0.0);
}

/// Each scope's minted identifiers are strictly increasing in mint order.
pub proof fn lemma_scope_ids_increasing(a: Analyzer, d: int, k1: int, k2: int)
    requires
        scopes_inv(a),
        0 <= d < a.scope@.len(),
        0 <= k1 < k2 < a.scope@[d].locals@.len(),
    ensures
        a.scope@[d].locals@[k1].0.0 < a.scope@[d].locals@[k2].0.0,
{
}

/// Whether the table records a name for the identifier.
pub open spec fn symbols_contain(s: Seq<(ValId, Vec<u8>)>, id: ValId) -> bool {
    exists|j: int| 0 <= j < s.len() && (#[trigger] s[j]).0 == id
}

/// A lowered top-level node's identifier is recorded in the symbol table.
pub open spec fn root_symbol_ok(n: Node, s: Seq<(ValId, Vec<u8>)>) -> bool {
    match n {
        Node::Func { id, .. } => symbols_contain(s, id),
        Node::FuncDecl { id, .. } => symbols_contain(s, id),
        _ => true,
    }
}

/// The identifier a lowered top-level node carries.
pub open spec fn root_base(n: Node) -> u64 {
    match n {
        Node::Func { id, .. } => id.0,
        Node::FuncDecl { id, .. } => id.0,
        Node::Global { id, .. } => id.0,
        Node::Assign { id, .. } => id.0,
        _ => 0,
    }
}

/// How many argument bindings a lowered top-level node carries.
pub open spec fn root_arg_count(n: Node) -> nat {
    match n {
        Node::Func { args, .. } => args@.len(),
        _ => 0,
    }
}

/// A function's argument identifiers follow its own, consecutively, in
/// binding order — so they are pairwise distinct and distinct from it.
pub open spec fn root_args_consecutive(n: Node) -> bool {
    match n {
        Node::Func { id, args, .. } => forall|k: int|
            0 <= k < args@.len() ==> (#[trigger] args@[k]).0.0 == id.0 + 1 + k,
        _ => true,
    }
}

/// The identifiers of one lowered declaration sit in `[lo, hi)`: its own is
/// `lo`, its arguments follow consecutively, and `hi` lies beyond them all.
pub open spec fn root_id_layout(n: Node, lo: u64, hi: u64) -> bool {
    match n {
        Node::Func { id, args, .. } => id.0 == lo && (forall|k: int|
            0 <= k < args@.len() ==> (#[trigger] args@[k]).0.0 == lo + 1 + k) && hi > lo
            + args@.len(),
        Node::FuncDecl { id, .. } => id.0 == lo && hi > lo,
        _ => true,
    }
}

/// The identifier at one position of a lowered declaration: its own at
/// position `-1`, its `k`-th argument binding's at position `k`.
pub open spec fn node_id_at(n: Node, k: int) -> u64 {
    if k < 0 {
        root_base(n)
    } else {
        match n {
            Node::Func { args, .. } => args@[k].0.0,
            _ => 0,
        }
    }
}

/// Identifier uniqueness across the analyzer's whole output: under the
/// clauses `analyze` ensures — consecutive argument identifiers within each
/// declaration, and each declaration's identifier range ending before the
/// next declaration's begins — no two distinct identifier positions of the
/// returned declarations carry the same value identifier.
pub proof fn lemma_hir_ids_distinct(h: Seq<Node>, i: int, j: int, ki: int, kj: int)
    requires
        forall|x: int| 0 <= x < h.len() ==> root_args_consecutive(#[trigger] h[x]),
        forall|x: int, y: int|
            0 <= x < y < h.len() ==> root_base(#[trigger] h[x]) + root_arg_count(h[x]) < root_base(
                #[trigger] h[y],
            ),
        0 <= i <= j < h.len(),
        h[i] is Func || h[i] is FuncDecl,
        h[j] is Func || h[j] is FuncDecl,
        -1 <= ki < root_arg_count(h[i]),
        -1 <= kj < root_arg_count(h[j]),
        i != j || ki != kj,
    ensures
        node_id_at(h[i], ki) != node_id_at(h[j], kj),
{
    assert(root_args_consecutive(h[i]));
    assert(root_args_consecutive(h[j]));
    if i == j {
    } else {
        assert(root_base(h[i]) + root_arg_count(h[i]) < root_base(h[j]));
    }
}

/// Every argument of the surface declaration is acceptable: none is
/// `void`, and every type converts to the canonical algebra.
pub open spec fn func_args_ok(args: Seq<(Sp<Vec<u8>>, Sp<ast::Type>)>) -> bool {
    forall|k: int|
        0 <= k < args.len() ==> !((#[trigger] args[k]).1.elem is Void) && conv_ty(args[k].1.elem)
            is Some
}

/// Every statement of the body is a bare `ret;`.
pub open spec fn body_all_bare_ret(body: Seq<Sp<ast::Node>>) -> bool {
    forall|i: int| 0 <= i < body.len() ==> (#[trigger] body[i]).elem matches ast::Node::Ret(None)
}

/// A plain function declaration that nothing rejects: no `extern`
/// attribute, a body of bare returns, acceptable arguments, a convertible
/// return type, and room in the counter.
pub open spec fn simple_func_root(n0: ast::Node) -> bool {
    n0 matches ast::Node::Func { attrs, args, ret, body, .. } && !(exists|i: int|
        0 <= i < attrs@.len() && (#[trigger] attrs@[i]).elem == ast::Attrs::Extern)
        && body_all_bare_ret(body@) && func_args_ok(args@) && (match ret {
        Some(t) => conv_ty(t.elem) is Some,
        None => true,
    }) && args@.len() + 1 < u64::MAX
}

/// How a plain function with a bare-return body lowers: the export flag from
/// its attributes, one converted argument binding per argument, the
/// converted return type, and one `ret` of void per body statement.
pub open spec fn simple_func_lowering(n0: ast::Node, n: Node) -> bool {
    &&& n0 matches ast::Node::Func { attrs, args, ret, body, .. }
    &&& n matches Node::Func { export, args: fa, ret: rr, body: nb, .. }
    &&& (n0 matches ast::Node::Func { attrs, args, ret, body, .. } && (n matches Node::Func {
        export,
        args: fa,
        ret: rr,
        body: nb,
        ..
    } && export == (exists|i: int|
        0 <= i < attrs@.len() && (#[trigger] attrs@[i]).elem == ast::Attrs::Export) && fa@.len()
        == args@.len() && (forall|k: int|
        0 <= k < args@.len() ==> conv_ty((#[trigger] args@[k]).1.elem) == Some(fa@[k].1.view()))
        && (match ret {
        Some(t) => conv_ty(t.elem) == Some(rr.view()),
        None => rr.view() == TypeV::Void,
    }) && nb@.len() == body@.len() && (forall|j: int|
        0 <= j < nb@.len() ==> (#[trigger] nb@[j]) == Node::Ret(None, Type::Void))))
}

/// Exactly when an `extern` declaration is rejected: a non-empty body, a
/// name already bound in the current scope, a `void` or unconvertible
/// argument type, an unconvertible return type, or an exhausted counter.
pub open spec fn extern_rejected(
    a: Analyzer,
    name: Seq<u8>,
    args: Seq<(Sp<Vec<u8>>, Sp<ast::Type>)>,
    ret: Option<Sp<ast::Type>>,
    body_len: nat,
) -> bool {
    ||| body_len > 0
    ||| exists|k: int|
        0 <= k < a.scope@.last().locals@.len() && (#[trigger] a.scope@.last().locals@[k]).1@
            == name
    ||| exists|k: int|
        0 <= k < args.len() && ((#[trigger] args[k]).1.elem is Void || conv_ty(args[k].1.elem)
            is None)
    ||| (match ret {
        Some(t) => conv_ty(t.elem) is None,
        None => false,
    })
    ||| a.next_id == u64::MAX
}

/// The last binding of `name` in one scope's list, if any.
pub open spec fn resolve_in_scope(locals: Seq<(ValId, Vec<u8>, Type)>, name: Seq<u8>) -> Option<
    int,
>
    decreases locals.len(),
{
    if locals.len() == 0 {
        None
    } else if locals.last().1@ == name {
        Some(locals.len() - 1)
    } else {
        resolve_in_scope(locals.drop_last(), name)
    }
}

/// Resolution from scope depth `d` inwards-out: the first scope at or below
/// `d` that binds `name`, innermost first.
pub open spec fn resolve_from(a: Analyzer, name: Seq<u8>, d: int) -> Option<(int, int)>
    decreases d + 1,
{
    if d < 0 {
        None
    } else {
        match resolve_in_scope(a.scope@[d].locals@, name) {
            Some(k) => Some((d, k)),
            None => resolve_from(a, name, d - 1),
        }
    }
}

/// Name resolution: the innermost scope that binds `name`, and within it the
/// binding added last.
pub open spec fn resolve(a: Analyzer, name: Seq<u8>) -> Option<(int, int)> {
    resolve_from(a, name, a.scope@.len() - 1)
}

/// What a successful in-scope search means.
proof fn lemma_resolve_in_scope_some(locals: Seq<(ValId, Vec<u8>, Type)>, name: Seq<u8>, k: int)
    requires
        resolve_in_scope(locals, name) == Some(k),
    ensures
        0 <= k < locals.len(),
        locals[k].1@ == name,
        forall|k2: int| k < k2 < locals.len() ==> (#[trigger] locals[k2]).1@ != name,
    decreases locals.len(),
{
    if locals.len() > 0 && locals.last().1@ != name {
        lemma_resolve_in_scope_some(locals.drop_last(), name, k);
        assert(forall|k2: int|
            k < k2 < locals.len() - 1 ==> (#[trigger] locals[k2]) == locals.drop_last()[k2]);
    }
}

/// Scope shadowing, inside: while a scope above the global one binds `name`,
/// the name resolves into the innermost such scope — at a depth above zero,
/// never to the global binding.
pub proof fn lemma_scope_shadowing_local(a: Analyzer, name: Seq<u8>, k: int)
    requires
        a.scope@.len() > 1,
        0 <= k < a.scope@[a.scope@.len() - 1].locals@.len(),
        a.scope@[a.scope@.len() - 1].locals@[k].1@ == name,
    ensures
        resolve(a, name) matches Some(r) && r.0 == a.scope@.len() - 1 > 0,
{
    let d = a.scope@.len() - 1;
    lemma_resolve_in_scope_from_match(a.scope@[d].locals@, name, k);
}

/// Scope shadowing, outside: once only the global scope binds `name` —
/// after the local scope is popped — the name resolves to depth zero.
pub proof fn lemma_scope_shadowing_global(a: Analyzer, name: Seq<u8>, k: int)
    requires
        scopes_inv(a),
        0 <= k < a.scope@[0].locals@.len(),
        a.scope@[0].locals@[k].1@ == name,
        forall|d: int, k2: int|
            1 <= d < a.scope@.len() && 0 <= k2 < a.scope@[d].locals@.len() ==> (#[trigger] a.scope@[d].locals@[k2]).1@ != name,
    ensures
        resolve(a, name) matches Some(r) && r.0 == 0,
{
    lemma_resolve_in_scope_from_match(a.scope@[0].locals@, name, k);
    assert forall|d: int| 1 <= d < a.scope@.len() implies resolve_in_scope(
        a.scope@[d].locals@,
        name,
    ) is None by {
        let r = resolve_in_scope(a.scope@[d].locals@, name);
        if r is Some {
            lemma_resolve_in_scope_some(a.scope@[d].locals@, name, r->0);
        }
    }
    lemma_resolve_from_skips(a, name, a.scope@.len() - 1, 0);
}

/// A scope that holds a match somewhere resolves to something.
proof fn lemma_resolve_in_scope_from_match(
    locals: Seq<(ValId, Vec<u8>, Type)>,
    name: Seq<u8>,
    k: int,
)
    requires
        0 <= k < locals.len(),
        locals[k].1@ == name,
    ensures
        resolve_in_scope(locals, name) is Some,
    decreases locals.len(),
{
    if locals.len() > 0 && locals.last().1@ != name {
        assert(k < locals.len() - 1);
        assert(locals.drop_last()[k] == locals[k]);
        lemma_resolve_in_scope_from_match(locals.drop_last(), name, k);
    }
}

/// Resolution from depth `d` falls through scopes that bind nothing down to
/// depth `lo`, where a match exists.
proof fn lemma_resolve_from_skips(a: Analyzer, name: Seq<u8>, d: int, lo: int)
    requires
        0 <= lo <= d < a.scope@.len(),
        resolve_in_scope(a.scope@[lo].locals@, name) is Some,
        forall|d2: int|
            lo < d2 <= d ==> resolve_in_scope(#[trigger] a.scope@[d2].locals@, name) is None,
    ensures
        resolve_from(a, name, d) matches Some(r) && r.0 == lo,
    decreases d - lo,
{
    if d > lo {
        lemma_resolve_from_skips(a, name, d - 1, lo);
    }
}

impl Analyzer {
    /// Mints the next value identifier, unless the counter is exhausted.
    fn new_id(&mut self) -> (r: Option<ValId>)
        requires
            scopes_inv(*old(self)),
        ensures
            scopes_inv(*final(self)),
            final(self).scope@ == old(self).scope@,
            final(self).symbols@ == old(self).symbols@,
            r matches Some(id) ==> id.0 == old(self).next_id && final(self).next_id == old(self).next_id + 1,
            r is None ==> *final(self) == *old(self) && old(self).next_id == u64::MAX,
    {
        if self.next_id == u64::MAX {
            None
        } else {
            let id = ValId(self.next_id);
            self.next_id = self.next_id + 1;
            Some(id)
        }
    }

    /// Records one externally visible symbol's source name.
    fn record_symbol(&mut self, id: ValId, name: Vec<u8>)
        requires
            scopes_inv(*old(self)),
            forall|i: int|
                0 <= i < old(self).symbols@.len() ==> (#[trigger] old(self).symbols@[i]).0.0
                    < id.0,
            id.0 < old(self).next_id,
        ensures
            scopes_inv(*final(self)),
            final(self).scope@ == old(self).scope@,
            final(self).next_id == old(self).next_id,
            final(self).symbols@ == old(self).symbols@.push((id, name)),
    {
        let ghost pre = self.symbols@;
        self.symbols.push((id, name));
        proof {
            assert forall|i: int, j: int|
                0 <= i < j < self.symbols@.len() implies (#[trigger] self.symbols@[i]).0.0 < (
            #[trigger] self.symbols@[j]).0.0 by {
                if j < pre.len() {
                    assert(self.symbols@[i] == pre[i]);
                    assert(self.symbols@[j] == pre[j]);
                } else {
                    assert(self.symbols@[i] == pre[i]);
                }
            }
        }
    }

    /// Pushes one fresh, empty scope.
    fn push_new_scope(&mut self)
        requires
            scopes_inv(*old(self)),
        ensures
            scopes_inv(*final(self)),
            final(self).scope@.len() == old(self).scope@.len() + 1,
            forall|d: int|
                0 <= d < old(self).scope@.len() ==> (#[trigger] final(self).scope@[d]) == old(self).scope@[d],
            final(self).scope@.last().locals@.len() == 0,
            final(self).symbols@ == old(self).symbols@,
            final(self).next_id == old(self).next_id,
    {
        self.scope.push(Scope { locals: Vec::new() });
    }

    /// Drops every scope above the global one.
    fn truncate_scopes(&mut self)
        requires
            scopes_inv(*old(self)),
        ensures
            scopes_inv(*final(self)),
            final(self).scope@.len() == 1,
            final(self).scope@[0] == old(self).scope@[0],
            final(self).symbols@ == old(self).symbols@,
            final(self).next_id == old(self).next_id,
    {
        self.scope.truncate(1);
    }

    /// Binds a freshly minted identifier in the innermost scope.
    fn push_local_last(&mut self, id: ValId, name: Vec<u8>, ty: Type)
        requires
            scopes_inv(*old(self)),
            ids_below(*old(self), id.0),
            id.0 < old(self).next_id,
        ensures
            scopes_inv(*final(self)),
            final(self).scope@.len() == old(self).scope@.len(),
            forall|d: int|
                0 <= d < old(self).scope@.len() - 1 ==> (#[trigger] final(self).scope@[d]) == old(self).scope@[d],
            final(self).scope@.last().locals@ == old(self).scope@.last().locals@.push(
                (id, name, ty),
            ),
            final(self).symbols@ == old(self).symbols@,
            final(self).next_id == old(self).next_id,
    {
        let ghost pre = *self;
        let d = self.scope.len() - 1;
        let mut s = match self.scope.pop() {
            Some(s) => s,
            None => {
                // the global scope is always there
                proof {
                    assert(false);
                }
                Scope { locals: Vec::new() }
            },
        };
        s.locals.push((id, name, ty));
        self.scope.push(s);
        proof {
            assert(self.scope@.len() == pre.scope@.len());
            assert forall|d2: int|
                0 <= d2 < pre.scope@.len() - 1 implies (#[trigger] self.scope@[d2])
                == pre.scope@[d2] by {}
            assert(self.scope@.last().locals@ =~= pre.scope@.last().locals@.push((id, name, ty)));
            lemma_push_local_inv(pre, *self, id);
        }
    }

    /// Binds a freshly minted identifier in the global scope.
    fn push_local_global(&mut self, id: ValId, name: Vec<u8>, ty: Type)
        requires
            scopes_inv(*old(self)),
            ids_below(*old(self), id.0),
            id.0 < old(self).next_id,
        ensures
            scopes_inv(*final(self)),
            final(self).scope@.len() == old(self).scope@.len(),
            forall|d: int|
                1 <= d < old(self).scope@.len() ==> (#[trigger] final(self).scope@[d]) == old(self).scope@[d],
            final(self).scope@[0].locals@ == old(self).scope@[0].locals@.push((id, name, ty)),
            final(self).symbols@ == old(self).symbols@,
            final(self).next_id == old(self).next_id,
    {
        let ghost pre = *self;
        let mut s = self.scope.remove(0);
        s.locals.push((id, name, ty));
        self.scope.insert(0, s);
        proof {
            assert(self.scope@.len() == pre.scope@.len());
            assert forall|d2: int|
                1 <= d2 < pre.scope@.len() implies (#[trigger] self.scope@[d2])
                == pre.scope@[d2] by {}
            assert(self.scope@[0].locals@ =~= pre.scope@[0].locals@.push((id, name, ty)));
            lemma_push_local_inv_at(pre, *self, id, 0);
        }
    }

    /// Walks the scope stack from the innermost scope outwards and returns
    /// the depth and position of the first binding of `name`, exactly as the
    /// specification-level resolution says.
    pub fn find_matching_descending(&self, name: &[u8]) -> (r: Option<(usize, usize)>)
        requires
            self.scope@.len() >= 1,
        ensures
            r matches Some(p) ==> resolve(*self, name@) == Some((p.0 as int, p.1 as int)),
            r is None ==> resolve(*self, name@) is None,
    {
        let mut d = self.scope.len();
        proof {
            assert(resolve(*self, name@) == resolve_from(*self, name@, d - 1));
        }
        while d > 0
            invariant
                d <= self.scope@.len(),
                resolve(*self, name@) == resolve_from(*self, name@, d as int - 1),
            decreases d,
        {
            d = d - 1;
            let locals = &self.scope[d].locals;
            let mut k = locals.len();
            proof {
                assert(locals@.subrange(0, k as int) =~= locals@);
            }
            while k > 0
                invariant
                    d < self.scope@.len(),
                    k <= locals@.len(),
                    locals == &self.scope@[d as int].locals,
                    resolve(*self, name@) == resolve_from(*self, name@, d as int),
                    resolve_in_scope(locals@, name@) == resolve_in_scope(
                        locals@.subrange(0, k as int),
                        name@,
                    ),
                decreases k,
            {
                k = k - 1;
                proof {
                    assert(locals@.subrange(0, k + 1).last() == locals@[k as int]);
                    assert(locals@.subrange(0, k + 1).drop_last() =~= locals@.subrange(
                        0,
                        k as int,
                    ));
                }
                if bytes_eq(locals[k].1.as_slice(), name) {
                    proof {
                        assert(resolve_in_scope(locals@.subrange(0, k + 1), name@) == Some(
                            k as int,
                        ));
                        assert(resolve_from(*self, name@, d as int) == Some((d as int, k as int)));
                    }
                    return Some((d, k));
                }
            }
            proof {
                assert(locals@.subrange(0, 0) =~= Seq::<(ValId, Vec<u8>, Type)>::empty());
                assert(resolve_in_scope(locals@, name@) is None);
                assert(resolve_from(*self, name@, d as int) == resolve_from(
                    *self,
                    name@,
                    d as int - 1,
                ));
            }
        }
        None
    }
}

/// Pushing a binding with an identifier above everything bound so far onto
/// the innermost scope keeps the analyzer's invariant.
proof fn lemma_push_local_inv(pre: Analyzer, post: Analyzer, id: ValId)
    requires
        scopes_inv(pre),
        ids_below(pre, id.0),
        id.0 < pre.next_id,
        post.scope@.len() == pre.scope@.len(),
        forall|d: int|
            0 <= d < pre.scope@.len() - 1 ==> (#[trigger] post.scope@[d]) == pre.scope@[d],
        post.scope@.last().locals@.len() == pre.scope@.last().locals@.len() + 1,
        forall|k: int|
            0 <= k < pre.scope@.last().locals@.len() ==> (#[trigger] post.scope@.last().locals@[k])
                == pre.scope@.last().locals@[k],
        post.scope@.last().locals@.last().0 == id,
        post.symbols@ == pre.symbols@,
        post.next_id == pre.next_id,
    ensures
        scopes_inv(post),
{
    lemma_push_local_inv_at(pre, post, id, pre.scope@.len() - 1);
}

/// Pushing a binding with an identifier above everything bound so far onto
/// the scope at depth `at` keeps the analyzer's invariant.
proof fn lemma_push_local_inv_at(pre: Analyzer, post: Analyzer, id: ValId, at: int)
    requires
        scopes_inv(pre),
        ids_below(pre, id.0),
        id.0 < pre.next_id,
        0 <= at < pre.scope@.len(),
        post.scope@.len() == pre.scope@.len(),
        forall|d: int|
            0 <= d < pre.scope@.len() && d != at ==> (#[trigger] post.scope@[d]) == pre.scope@[d],
        post.scope@[at].locals@.len() == pre.scope@[at].locals@.len() + 1,
        forall|k: int|
            0 <= k < pre.scope@[at].locals@.len() ==> (#[trigger] post.scope@[at].locals@[k])
                == pre.scope@[at].locals@[k],
        post.scope@[at].locals@.last().0 == id,
        post.symbols@ == pre.symbols@,
        post.next_id == pre.next_id,
    ensures
        scopes_inv(post),
{
    let npos = pre.scope@[at].locals@.len() as int;
    assert forall|d: int, k: int|
        0 <= d < post.scope@.len() && 0 <= k < post.scope@[d].locals@.len() implies (
    #[trigger] post.scope@[d].locals@[k]).0.0 < post.next_id by {
        if d == at && k == npos {
        } else if d == at {
            assert(post.scope@[d].locals@[k] == pre.scope@[d].locals@[k]);
        } else {
            assert(post.scope@[d] == pre.scope@[d]);
        }
    }
    assert forall|d: int, k1: int, k2: int|
        0 <= d < post.scope@.len() && 0 <= k1 < k2 < post.scope@[d].locals@.len() implies (
    #[trigger] post.scope@[d].locals@[k1]).0.0 < (#[trigger] post.scope@[d].locals@[k2]).0.0 by {
        if d == at {
            if k2 == npos {
                assert(post.scope@[d].locals@[k1] == pre.scope@[d].locals@[k1]);
            } else {
                assert(post.scope@[d].locals@[k1] == pre.scope@[d].locals@[k1]);
                assert(post.scope@[d].locals@[k2] == pre.scope@[d].locals@[k2]);
            }
        } else {
            assert(post.scope@[d] == pre.scope@[d]);
        }
    }
    assert forall|d1: int, k1: int, d2: int, k2: int|
        0 <= d1 < post.scope@.len() && 0 <= k1 < post.scope@[d1].locals@.len() && 0 <= d2
            < post.scope@.len() && 0 <= k2 < post.scope@[d2].locals@.len() && (d1 != d2 || k1 != k2)
        implies (#[trigger] post.scope@[d1].locals@[k1]).0.0 != (#[trigger] post.scope@[d2].locals@[k2]).0.0 by {
        if d1 == at && k1 == npos {
            if d2 == at && k2 != npos {
                assert(post.scope@[d2].locals@[k2] == pre.scope@[d2].locals@[k2]);
            } else if d2 != at {
                assert(post.scope@[d2] == pre.scope@[d2]);
            }
        } else if d2 == at && k2 == npos {
            if d1 == at {
                assert(post.scope@[d1].locals@[k1] == pre.scope@[d1].locals@[k1]);
            } else {
                assert(post.scope@[d1] == pre.scope@[d1]);
            }
        } else {
            if d1 == at {
                assert(post.scope@[d1].locals@[k1] == pre.scope@[d1].locals@[k1]);
            } else {
                assert(post.scope@[d1] == pre.scope@[d1]);
            }
            if d2 == at {
                assert(post.scope@[d2].locals@[k2] == pre.scope@[d2].locals@[k2]);
            } else {
                assert(post.scope@[d2] == pre.scope@[d2]);
            }
        }
    }
}


/// A successful resolution points at a binding of the name.
proof fn lemma_resolve_from_some(a: Analyzer, name: Seq<u8>, d0: int, d: int, k: int)
    requires
        d0 < a.scope@.len(),
        resolve_from(a, name, d0) == Some((d, k)),
    ensures
        0 <= d <= d0,
        0 <= k < a.scope@[d].locals@.len(),
        a.scope@[d].locals@[k].1@ == name,
    decreases d0 + 1,
{
    if d0 >= 0 {
        match resolve_in_scope(a.scope@[d0].locals@, name) {
            Some(k0) => {
                lemma_resolve_in_scope_some(a.scope@[d0].locals@, name, k0);
            },
            None => {
                lemma_resolve_from_some(a, name, d0 - 1, d, k);
            },
        }
    }
}

/// A successful resolution points at a binding of the name.
pub proof fn lemma_resolve_some(a: Analyzer, name: Seq<u8>, d: int, k: int)
    requires
        a.scope@.len() >= 1,
        resolve(a, name) == Some((d, k)),
    ensures
        0 <= d < a.scope@.len(),
        0 <= k < a.scope@[d].locals@.len(),
        a.scope@[d].locals@[k].1@ == name,
{
    lemma_resolve_from_some(a, name, a.scope@.len() - 1, d, k);
}

/// The canonical meaning of a surface type, where it has one: a nominal
/// reference has none, there being no type definitions to resolve it
/// against yet.
pub open spec fn conv_ty(t: ast::Type) -> Option<TypeV>
    decreases t,
{
    match t {
        ast::Type::U(n) => Some(TypeV::U(n)),
        ast::Type::I(n) => Some(TypeV::I(n)),
        ast::Type::B(n) => Some(TypeV::B(n)),
        ast::Type::F(n) => Some(TypeV::F(n)),
        ast::Type::Usize => Some(TypeV::Usize),
        ast::Type::Isize => Some(TypeV::Isize),
        ast::Type::Void => Some(TypeV::Void),
        ast::Type::Never => Some(TypeV::Never),
        ast::Type::Opt(b) => match conv_ty(b.elem) {
            Some(v) => Some(TypeV::Opt(Box::new(v))),
            None => None,
        },
        ast::Type::Ptr(b) => match conv_ty(b.elem) {
            Some(v) => Some(TypeV::Ptr(Box::new(v))),
            None => None,
        },
        ast::Type::Arr(b, sz) => match conv_ty(b.elem) {
            Some(v) => Some(TypeV::Arr(Box::new(v), sz)),
            None => None,
        },
        ast::Type::Mut(b) => match conv_ty(b.elem) {
            Some(v) => Some(TypeV::Mut(Box::new(v))),
            None => None,
        },
        ast::Type::Fn(args, ret) => {
            let rv = match ret {
                Some(b) => conv_ty(b.elem),
                None => Some(TypeV::Void),
            };
            match (conv_ty_seq(args@), rv) {
                (Some(vs), Some(r)) => Some(TypeV::Fn(vs, Box::new(r))),
                _ => None,
            }
        },
        ast::Type::Ident(_) => None,
    }
}

/// The canonical meanings of a sequence of surface types, if all have one.
pub open spec fn conv_ty_seq(s: Seq<Sp<ast::Type>>) -> Option<Seq<TypeV>>
    decreases s,
{
    if s.len() == 0 {
        Some(Seq::empty())
    } else {
        match (conv_ty_seq(s.drop_last()), conv_ty(s.last().elem)) {
            (Some(vs), Some(v)) => Some(vs.push(v)),
            _ => None,
        }
    }
}

/// One unconvertible element makes the whole sequence unconvertible.
proof fn lemma_conv_ty_seq_none(s: Seq<Sp<ast::Type>>, j: int)
    requires
        0 <= j < s.len(),
        conv_ty(s[j].elem) is None,
    ensures
        conv_ty_seq(s) is None,
    decreases s.len(),
{
    if s.len() > 0 && j < s.len() - 1 {
        assert(s.drop_last()[j] == s[j]);
        lemma_conv_ty_seq_none(s.drop_last(), j);
    }
}

/// Converts one surface type to the canonical algebra: exactly its
/// canonical meaning, or a diagnostic where it has none.
pub fn convert_ast_ty(t: &Sp<ast::Type>) -> (r: Result<Type, Report>)
    ensures
        r matches Ok(ty) ==> conv_ty(t.elem) == Some(ty.view()),
        r is Err <==> conv_ty(t.elem) is None,
    decreases t.elem,
{
    match &t.elem {
        ast::Type::U(n) => Ok(Type::U(*n)),
        ast::Type::I(n) => Ok(Type::I(*n)),
        ast::Type::B(n) => Ok(Type::B(*n)),
        ast::Type::F(n) => Ok(Type::F(*n)),
        ast::Type::Usize => Ok(Type::Usize),
        ast::Type::Isize => Ok(Type::Isize),
        ast::Type::Void => Ok(Type::Void),
        ast::Type::Never => Ok(Type::Never),
        ast::Type::Opt(b) => match convert_ast_ty(b) {
            Ok(inner) => Ok(Type::Opt(Box::new(inner))),
            Err(e) => Err(e),
        },
        ast::Type::Ptr(b) => match convert_ast_ty(b) {
            Ok(inner) => Ok(Type::Ptr(Box::new(inner))),
            Err(e) => Err(e),
        },
        ast::Type::Arr(b, sz) => match convert_ast_ty(b) {
            Ok(inner) => Ok(Type::Arr(Box::new(inner), *sz)),
            Err(e) => Err(e),
        },
        ast::Type::Mut(b) => match convert_ast_ty(b) {
            Ok(inner) => Ok(Type::Mut(Box::new(inner))),
            Err(e) => Err(e),
        },
        ast::Type::Fn(args, ret) => {
            let mut cargs: Vec<Type> = Vec::new();
            let mut i: usize = 0;
            proof {
                assert(args@.subrange(0, 0) =~= Seq::<Sp<ast::Type>>::empty());
                assert(crate::hir::view_type_seq(cargs@) =~= Seq::<TypeV>::empty());
            }
            while i < args.len()
                invariant
                    t.elem matches ast::Type::Fn(a, _) && a == args,
                    i <= args@.len(),
                    cargs@.len() == i,
                    conv_ty_seq(args@.subrange(0, i as int)) == Some(
                        crate::hir::view_type_seq(cargs@),
                    ),
                decreases args@.len() - i,
            {
                proof {
                    assert(decreases_to!(t.elem => t.elem->Fn_0));
                    assert(decreases_to!(t.elem->Fn_0 => t.elem->Fn_0@));
                    assert(decreases_to!(t.elem->Fn_0@ => t.elem->Fn_0@[i as int]));
                    assert(args@[i as int] == t.elem->Fn_0@[i as int]);
                }
                let ghost pre = cargs@;
                match convert_ast_ty(&args[i]) {
                    Ok(inner) => {
                        cargs.push(inner);
                    },
                    Err(e) => {
                        proof {
                            lemma_conv_ty_seq_none(args@, i as int);
                        }
                        return Err(e);
                    },
                }
                i = i + 1;
                proof {
                    assert(args@.subrange(0, i as int).drop_last() =~= args@.subrange(
                        0,
                        i as int - 1,
                    ));
                    assert(args@.subrange(0, i as int).last() == args@[i as int - 1]);
                    assert(crate::hir::view_type_seq(cargs@) =~= crate::hir::view_type_seq(pre)
                        .push(cargs@.last().view()));
                }
            }
            proof {
                assert(args@.subrange(0, args@.len() as int) =~= args@);
            }
            let rty: Type = match ret {
                Some(b) => {
                    match convert_ast_ty(b) {
                        Ok(inner) => inner,
                        Err(e) => {
                            return Err(e);
                        },
                    }
                },
                None => Type::Void,
            };
            let res = Type::Fn(cargs, Box::new(rty));
            proof {
                assert(conv_ty(t.elem) == Some(res.view()));
            }
            Ok(res)
        },
        ast::Type::Ident(_) => {
            Err(ReportKind::InvalidType.title(String::from_str("Undefined type")).span(t.span))
        },
    }
}


/// What lowering a string literal does: a fresh identifier is minted, and a
/// module-level global carrying exactly the literal bytes is handed back
/// beside a reference to it.
pub open spec fn strlit_lowering(
    pre: Analyzer,
    post: Analyzer,
    s: Seq<u8>,
    t: (Type, Option<Node>, Var),
) -> bool {
    &&& t.0.view() == TypeV::Arr(Box::new(TypeV::U(8)), Some(s.len() as u64))
    &&& t.2 == Var::Glob(ValId(pre.next_id))
    &&& post.next_id == pre.next_id + 1
    &&& t.1 matches Some(g) && (g matches Node::Global { id, ty, val } && id == ValId(pre.next_id)
        && ty.view() == TypeV::Arr(Box::new(TypeV::U(8)), Some(s.len() as u64)) && (*val
        matches Node::StrLit(b) && b@ == s))
}

/// String hoisting determinism: lowering the same string literal value twice
/// in one function produces two distinct global data definitions — no
/// accidental aliasing — with byte-identical contents.
pub proof fn lemma_string_hoisting(
    a0: Analyzer,
    a1: Analyzer,
    a2: Analyzer,
    s: Seq<u8>,
    t1: (Type, Option<Node>, Var),
    t2: (Type, Option<Node>, Var),
)
    requires
        strlit_lowering(a0, a1, s, t1),
        strlit_lowering(a1, a2, s, t2),
    ensures
        t1.2 != t2.2,
        t1.1 matches Some(g1) && (g1 matches Node::Global { id: id1, val: v1, .. } && (t2.1
            matches Some(g2) && (g2 matches Node::Global { id: id2, val: v2, .. } && id1 != id2 && (
        *v1 matches Node::StrLit(b1) && (*v2 matches Node::StrLit(b2) && b1@ == b2@))))),
{
    assert(a1.next_id == a0.next_id + 1);
}

/// Whether any of the attribute keywords is the given one.
fn has_attr(attrs: &Vec<Sp<ast::Attrs>>, which: ast::Attrs) -> (r: bool)
    ensures
        r <==> (exists|i: int| 0 <= i < attrs@.len() && (#[trigger] attrs@[i]).elem == which),
{
    let mut i: usize = 0;
    while i < attrs.len()
        invariant
            i <= attrs@.len(),
            forall|j: int| 0 <= j < i ==> (#[trigger] attrs@[j]).elem != which,
        decreases attrs@.len() - i,
    {
        if attrs[i].elem == which {
            return true;
        }
        i = i + 1;
    }
    false
}

impl Analyzer {
    /// Whether the innermost scope already binds `name`.
    fn scope_has_name(&self, name: &[u8]) -> (r: bool)
        requires
            self.scope@.len() >= 1,
        ensures
            r <==> (exists|k: int|
                0 <= k < self.scope@.last().locals@.len() && (#[trigger] self.scope@.last().locals@[k]).1@ == name@),
    {
        let d = self.scope.len() - 1;
        let locals = &self.scope[d].locals;
        let mut k: usize = 0;
        while k < locals.len()
            invariant
                locals == &self.scope@.last().locals,
                k <= locals@.len(),
                forall|j: int| 0 <= j < k ==> (#[trigger] locals@[j]).1@ != name@,
            decreases locals@.len() - k,
        {
            if bytes_eq(locals[k].1.as_slice(), name) {
                return true;
            }
            k = k + 1;
        }
        false
    }

    /// Lowers one expression to its type, an optional hoisted module-level
    /// node, and the value standing for it. An unsigned integer literal
    /// lowers to an immediate; a string literal mints a global in the global
    /// scope and hands its definition back to be hoisted.
    fn analyze_expr(&mut self, node: Sp<ast::Node>) -> (r: Result<(Type, Option<Node>, Var), Report>)
        requires
            scopes_inv(*old(self)),
        ensures
            scopes_inv(*final(self)),
            final(self).scope@.len() == old(self).scope@.len(),
            final(self).symbols@ == old(self).symbols@,
            final(self).next_id >= old(self).next_id,
            r matches Ok(t) ==> (t.1 matches Some(g) ==> g is Global),
            node.elem matches ast::Node::UIntLit(v) ==> (r matches Ok(t) && t.0.view()
                == TypeV::Usize && t.1 is None && t.2 == Var::Imm(v) && *final(self) == *old(self)),
            node.elem matches ast::Node::StrLit(s) ==> (old(self).next_id < u64::MAX ==> (r
                matches Ok(t) && strlit_lowering(*old(self), *final(self), s@, t))),
            r is Ok <==> (node.elem is UIntLit || (node.elem is StrLit && old(self).next_id
                < u64::MAX)),
            node.elem matches ast::Node::StrLit(s) ==> (old(self).next_id < u64::MAX ==> (final(self).scope@[0].locals@.len() == old(self).scope@[0].locals@.len() + 1 && (forall|k: int|
                0 <= k < old(self).scope@[0].locals@.len() ==> (#[trigger] final(self).scope@[0].locals@[k]) == old(self).scope@[0].locals@[k]) && final(self).scope@[0].locals@.last().0 == ValId(old(self).next_id) && final(self).scope@[0].locals@.last().1@ == seq![0x5fu8, 0x5fu8, 0x63u8, 0x6fu8, 0x6eu8, 0x73u8, 0x74u8]
                + crate::util::dec_bytes(old(self).next_id as nat) && view_type(
                final(self).scope@[0].locals@.last().2,
            ) == TypeV::Arr(Box::new(TypeV::U(8)), Some(s@.len() as u64)))),
    {
        match node.elem {
            ast::Node::StrLit(s) => {
                let ghost s0 = s@;
                let id = match self.new_id() {
                    Some(id) => id,
                    None => {
                        return Err(
                            ReportKind::SyntaxError.title(
                                String::from_str("Too many symbols"),
                            ).span(node.span),
                        );
                    },
                };
                let len64 = s.len() as u64;
                let mut nm: Vec<u8> = Vec::new();
                nm.push(0x5f);
                nm.push(0x5f);
                nm.push(0x63);
                nm.push(0x6f);
                nm.push(0x6e);
                nm.push(0x73);
                nm.push(0x74);
                crate::util::push_u64_dec(&mut nm, id.0);
                proof {
                    assert(nm@ =~= seq![0x5fu8, 0x5fu8, 0x63u8, 0x6fu8, 0x6eu8, 0x73u8, 0x74u8]
                        + crate::util::dec_bytes(id.0 as nat));
                }
                let ty_scope = Type::Arr(Box::new(Type::U(8)), Some(len64));
                self.push_local_global(id, nm, ty_scope);
                let ty_node = Type::Arr(Box::new(Type::U(8)), Some(len64));
                let ty_ret = Type::Arr(Box::new(Type::U(8)), Some(len64));
                let out = (
                    ty_ret,
                    Some(Node::Global { id, ty: ty_node, val: Box::new(Node::StrLit(s)) }),
                    Var::Glob(id),
                );
                proof {
                    assert(len64 == s0.len() as u64);
                    assert(view_type(Type::U(8)) == TypeV::U(8));
                    assert(ty_ret.view() == TypeV::Arr(Box::new(TypeV::U(8)), Some(len64)));
                    assert(out.0.view() == TypeV::Arr(Box::new(TypeV::U(8)), Some(s0.len() as u64)));
                    assert(out.2 == Var::Glob(ValId(old(self).next_id)));
                    assert(self.next_id == old(self).next_id + 1);
                    assert(out.1 matches Some(g) && (g matches Node::Global { id: gid, ty, val }
                        && gid == ValId(old(self).next_id)
                        && ty.view() == TypeV::Arr(Box::new(TypeV::U(8)), Some(s0.len() as u64))
                        && (*val matches Node::StrLit(b) && b@ == s0)));
                    assert(strlit_lowering(*old(self), *self, s0, out));
                }
                Ok(out)
            },
            ast::Node::UIntLit(v) => Ok((Type::Usize, None, Var::Imm(v))),
            _ => {
                Err(
                    ReportKind::SyntaxError.title(
                        String::from_str("Unsupported expression"),
                    ).span(node.span),
                )
            },
        }
    }

    /// Lowers one call: the callee is resolved against the scope stack
    /// innermost-first — depth zero gives a global reference, any deeper
    /// scope a local one — and each argument's hoisted globals are emitted
    /// ahead of the call itself.
    #[verifier::loop_isolation(false)]
    fn analyze_call(&mut self, name: Sp<Vec<u8>>, args: Vec<Sp<ast::Node>>) -> (r: Result<
        (Vec<Node>, Node, Type),
        Report,
    >)
        requires
            scopes_inv(*old(self)),
        ensures
            scopes_inv(*final(self)),
            final(self).scope@.len() == old(self).scope@.len(),
            final(self).symbols@ == old(self).symbols@,
            final(self).next_id >= old(self).next_id,
            r matches Ok(t) ==> (t.1 is FuncCall && forall|i: int|
                0 <= i < t.0@.len() ==> (#[trigger] t.0@[i]) is Global),
            (forall|k: int| 0 <= k < args@.len() ==> (#[trigger] args@[k]).elem is UIntLit) ==>
                final(self).next_id == old(self).next_id,
            resolve(*old(self), name.elem@) is None ==> r is Err,
            (resolve(*old(self), name.elem@) matches Some(p) && !(old(self).scope@[p.0].locals@[p.1].2 is Fn)) ==> r is Err,
            (resolve(*old(self), name.elem@) matches Some(p) && old(self).scope@[p.0].locals@[p.1].2 is Fn && (forall|k: int|
                0 <= k < args@.len() ==> (#[trigger] args@[k]).elem is UIntLit)) ==> r is Ok,
    {
        let nspan = name.span;
        let found = self.find_matching_descending(name.elem.as_slice());
        let (d, k) = match found {
            Some(p) => p,
            None => {
                return Err(
                    ReportKind::Undefined.title(String::from_str("Function is not defined")).span(
                        nspan,
                    ),
                );
            },
        };
        proof {
            lemma_resolve_some(*self, name.elem@, d as int, k as int);
        }
        let entry = &self.scope[d].locals[k];
        let id = entry.0;
        let callable = matches!(&entry.2, Type::Fn(..));
        if !callable {
            return Err(
                ReportKind::TypeError.title(String::from_str("Target is not callable")).help(
                    String::from_str("consider changing the type to 'fn(...) ...'"),
                ).span(nspan),
            );
        }
        let var = if d == 0 {
            Var::Glob(id)
        } else {
            Var::Local(id)
        };
        // the callee's declared return type annotates a value-carrying call
        let rty = match &entry.2 {
            Type::Fn(_, r0) => clone_type(r0),
            _ => Type::Void,
        };
        let mut ns: Vec<Node> = Vec::new();
        let mut cargs: Vec<(Var, Type)> = Vec::new();
        let mut rest = args;
        let ghost args0 = rest@;
        while rest.len() > 0
            invariant
                scopes_inv(*self),
                self.scope@.len() == old(self).scope@.len(),
                self.symbols@ == old(self).symbols@,
                self.next_id >= old(self).next_id,
                rest@.len() <= args0.len(),
                rest@ == args0.skip(args0.len() - rest@.len()),
                (forall|k: int| 0 <= k < args0.len() ==> (#[trigger] args0[k]).elem is UIntLit)
                    ==> self.next_id == old(self).next_id,
                forall|i: int| 0 <= i < ns@.len() ==> (#[trigger] ns@[i]) is Global,
            decreases rest@.len(),
        {
            let ghost at = args0.len() - rest@.len();
            proof {
                assert(rest@[0] == args0[at]);
            }
            let a0 = rest.remove(0);
            proof {
                assert(rest@ =~= args0.skip(args0.len() - rest@.len()));
            }
            let (t, n, v) = match self.analyze_expr(a0) {
                Ok(x) => x,
                Err(e) => {
                    proof {
                        // the argument that failed is not an integer
                        // literal, so success was not owed
                        assert(0 <= at < args0.len());
                        assert(!((#[trigger] args0[at]).elem is UIntLit));
                    }
                    return Err(e);
                },
            };
            match n {
                Some(g) => {
                    ns.push(g);
                },
                None => {},
            }
            cargs.push((v, t));
        }
        Ok((ns, Node::FuncCall { id: var, args: cargs }, rty))
    }

    /// Lowers one statement to the nodes it produces, hoisted globals ahead
    /// of the statement itself. A call resolves its callee innermost-first:
    /// depth zero gives a global reference, any deeper scope a local one.
    fn analyze_stmt(&mut self, node: Sp<ast::Node>, ret: &Type) -> (r: Result<Vec<Node>, Report>)
        requires
            scopes_inv(*old(self)),
        ensures
            scopes_inv(*final(self)),
            final(self).scope@.len() == old(self).scope@.len(),
            final(self).symbols@ == old(self).symbols@,
            final(self).next_id >= old(self).next_id,
            r matches Ok(ns) ==> forall|i: int|
                0 <= i < ns@.len() ==> is_body_stmt(#[trigger] ns@[i]),
            node.elem matches ast::Node::Ret(None) ==> (r matches Ok(ns) && ns@.len() == 1
                && ns@[0] == Node::Ret(None, Type::Void) && *final(self) == *old(self)),
            node.elem matches ast::Node::FuncCall { name, .. } ==> (resolve(
                *old(self),
                name.elem@,
            ) is None ==> r is Err),
            node.elem matches ast::Node::FuncCall { name, args } ==> ((resolve(
                *old(self),
                name.elem@,
            ) matches Some(p) && old(self).scope@[p.0].locals@[p.1].2 is Fn && (forall|k: int|
                0 <= k < args@.len() ==> (#[trigger] args@[k]).elem is UIntLit)) ==> r is Ok),
            node.elem matches ast::Node::Ret(Some(b)) ==> (b.elem matches ast::Node::UIntLit(v)
                ==> (r matches Ok(ns) && ns@.len() == 1 && (ns@[0] matches Node::Ret(rv, ty) && rv
                == Some(Var::Imm(v)) && view_type(ty) == TypeV::Usize))),
            node.elem matches ast::Node::Ret(Some(b)) ==> (b.elem matches ast::Node::FuncCall {
                name,
                ..
            } ==> (resolve(*old(self), name.elem@) is None ==> r is Err)),
            node.elem matches ast::Node::Ret(Some(b)) ==> (b.elem matches ast::Node::FuncCall {
                name,
                args,
            } ==> ((resolve(*old(self), name.elem@) matches Some(p) && old(self).scope@[
                p.0
            ].locals@[p.1].2 is Fn && old(self).next_id < u64::MAX && (forall|k: int|
                0 <= k < args@.len() ==> (#[trigger] args@[k]).elem is UIntLit)) ==> r is Ok)),
    {
        match node.elem {
            ast::Node::Ret(None) => {
                let mut ns: Vec<Node> = Vec::new();
                ns.push(Node::Ret(None, Type::Void));
                Ok(ns)
            },
            ast::Node::Ret(Some(b)) => {
                let inner = *b;
                match inner.elem {
                    ast::Node::FuncCall { name, args } => {
                        // a call in return position resolves while the
                        // function's scope is still live; its value is
                        // carried through a fresh temporary and returned
                        // with the callee's declared return type
                        let (mut ns, call, rty) = match self.analyze_call(name, args) {
                            Ok(t) => t,
                            Err(e) => {
                                return Err(e);
                            },
                        };
                        let tid = match self.new_id() {
                            Some(tid) => tid,
                            None => {
                                return Err(
                                    ReportKind::SyntaxError.title(
                                        String::from_str("Too many symbols"),
                                    ).span(node.span),
                                );
                            },
                        };
                        ns.push(
                            Node::Assign { id: tid, ty: clone_type(&rty), val: Box::new(call) },
                        );
                        ns.push(Node::Ret(Some(Var::Local(tid)), rty));
                        Ok(ns)
                    },
                    other => {
                        let (ty, hoist, var) = match self.analyze_expr(
                            Sp { span: inner.span, elem: other },
                        ) {
                            Ok(t) => t,
                            Err(e) => {
                                return Err(e);
                            },
                        };
                        let mut ns: Vec<Node> = Vec::new();
                        match hoist {
                            Some(g) => {
                                ns.push(g);
                            },
                            None => {},
                        }
                        ns.push(Node::Ret(Some(var), ty));
                        Ok(ns)
                    },
                }
            },
            ast::Node::FuncCall { name, args } => {
                match self.analyze_call(name, args) {
                    Ok((mut ns, call, _rty)) => {
                        ns.push(call);
                        Ok(ns)
                    },
                    Err(e) => Err(e),
                }
            },
            _ => {
                Err(
                    ReportKind::SyntaxError.title(
                        String::from_str("Unsupported statement"),
                    ).span(node.span),
                )
            },
        }
    }
}


impl Analyzer {
    /// Lowers one `extern` function declaration: no body allowed, no `void`
    /// arguments, one fresh identifier recorded and bound in the global
    /// scope with the function's resolved type.
    fn analyze_extern(
        &mut self,
        name: Sp<Vec<u8>>,
        args: Vec<(Sp<Vec<u8>>, Sp<ast::Type>)>,
        ret: Option<Sp<ast::Type>>,
        body: Vec<Sp<ast::Node>>,
        span: crate::span::Span,
    ) -> (r: Result<Node, Report>)
        requires
            scopes_inv(*old(self)),
            old(self).scope@.len() == 1,
        ensures
            scopes_inv(*final(self)),
            final(self).scope@.len() == 1,
            final(self).next_id >= old(self).next_id,
            final(self).symbols@.len() >= old(self).symbols@.len(),
            forall|i: int|
                0 <= i < old(self).symbols@.len() ==> (#[trigger] final(self).symbols@[i]) == old(self).symbols@[i],
            r matches Ok(n) ==> is_root_node(n) && root_symbol_ok(n, final(self).symbols@),
            r is Err <==> extern_rejected(*old(self), name.elem@, args@, ret, body@.len() as nat),
            r matches Ok(n) ==> (n matches Node::FuncDecl { id, args: fa, ret: rr } && id == ValId(
                old(self).next_id,
            ) && final(self).next_id == old(self).next_id + 1 && fa@.len() == args@.len() && (
            forall|k: int|
                0 <= k < args@.len() ==> conv_ty((#[trigger] args@[k]).1.elem) == Some(
                    fa@[k].view(),
                )) && (match ret {
                Some(t) => conv_ty(t.elem) == Some(rr.view()),
                None => rr.view() == TypeV::Void,
            })),
    {
        if body.len() > 0 {
            return Err(
                ReportKind::SyntaxError.title(
                    String::from_str("Extern functions cannot have a body"),
                ).span(span),
            );
        }
        if self.scope_has_name(name.elem.as_slice()) {
            return Err(
                ReportKind::Undefined.title(String::from_str("Symbol is already defined")).span(
                    name.span,
                ),
            );
        }
        let mut fargs: Vec<Type> = Vec::new();
        let mut nargs: Vec<Type> = Vec::new();
        let an = args.len();
        let mut k: usize = 0;
        while k < an
            invariant
                *self == *old(self),
                scopes_inv(*self),
                self.scope@.len() == 1,
                an == args@.len(),
                k <= an,
                fargs@.len() == k,
                nargs@.len() == k,
                forall|j: int|
                    0 <= j < k ==> !((#[trigger] args@[j]).1.elem is Void) && conv_ty(
                        args@[j].1.elem,
                    ) == Some(fargs@[j].view()),
            decreases an - k,
        {
            let aty = &args[k].1;
            if matches!(&aty.elem, ast::Type::Void) {
                return Err(
                    ReportKind::TypeError.title(
                        String::from_str("Type 'void' is not allowed as a function argument"),
                    ).help(String::from_str("Remove the arg, or change the type to '*void'")).span(
                        aty.span,
                    ),
                );
            }
            match convert_ast_ty(aty) {
                Ok(t1) => {
                    nargs.push(clone_type(&t1));
                    fargs.push(t1);
                },
                Err(e) => {
                    return Err(e);
                },
            }
            k = k + 1;
        }
        let rty = match &ret {
            Some(t) => {
                match convert_ast_ty(t) {
                    Ok(ty) => ty,
                    Err(e) => {
                        return Err(e);
                    },
                }
            },
            None => Type::Void,
        };
        let rty2 = clone_type(&rty);
        let fnty = Type::Fn(nargs, Box::new(rty2));
        let id = match self.new_id() {
            Some(id) => id,
            None => {
                return Err(
                    ReportKind::SyntaxError.title(String::from_str("Too many symbols")).span(span),
                );
            },
        };
        self.record_symbol(id, crate::util::clone_bytes(&name.elem));
        self.push_local_last(id, name.elem, fnty);
        proof {
            assert(self.symbols@[self.symbols@.len() - 1].0 == id);
            assert(!extern_rejected(*old(self), name.elem@, args@, ret, body@.len() as nat));
        }
        Ok(Node::FuncDecl { id, args: fargs, ret: rty })
    }

    /// Lowers one defining function: the function's identifier is minted and
    /// bound in the enclosing scope before its own scope is pushed, so that
    /// recursive self-calls resolve; each argument is bound in the new
    /// scope; the body is lowered statement by statement; and the scope is
    /// popped once the whole body is lowered.
    fn analyze_func(
        &mut self,
        name: Sp<Vec<u8>>,
        attrs: Vec<Sp<ast::Attrs>>,
        args: Vec<(Sp<Vec<u8>>, Sp<ast::Type>)>,
        ret: Option<Sp<ast::Type>>,
        body: Vec<Sp<ast::Node>>,
        span: crate::span::Span,
    ) -> (r: Result<Node, Report>)
        requires
            scopes_inv(*old(self)),
            old(self).scope@.len() == 1,
        ensures
            scopes_inv(*final(self)),
            r is Ok ==> final(self).scope@.len() == 1,
            final(self).next_id >= old(self).next_id,
            final(self).symbols@.len() >= old(self).symbols@.len(),
            forall|i: int|
                0 <= i < old(self).symbols@.len() ==> (#[trigger] final(self).symbols@[i]) == old(self).symbols@[i],
            r matches Ok(n) ==> is_root_node(n) && root_symbol_ok(n, final(self).symbols@),
            (exists|k: int|
                0 <= k < old(self).scope@.last().locals@.len() && (#[trigger] old(self).scope@.last().locals@[k]).1@ == name.elem@) ==> r is Err,
            (exists|k: int|
                0 <= k < args@.len() && ((#[trigger] args@[k]).1.elem is Void || conv_ty(
                    args@[k].1.elem,
                ) is None)) ==> r is Err,
            (match ret {
                Some(t) => conv_ty(t.elem) is None,
                None => false,
            }) ==> r is Err,
            old(self).next_id == u64::MAX ==> r is Err,
            r matches Ok(n) ==> (n matches Node::Func { id, export, args: fa, ret: rr, .. } && id
                == ValId(old(self).next_id) && export == (exists|i: int|
                0 <= i < attrs@.len() && (#[trigger] attrs@[i]).elem == ast::Attrs::Export)
                && fa@.len() == args@.len() && (forall|k: int|
                0 <= k < fa@.len() ==> (#[trigger] fa@[k]).0.0 == old(self).next_id + 1 + k) && (
            forall|k: int|
                0 <= k < args@.len() ==> conv_ty((#[trigger] args@[k]).1.elem) == Some(
                    fa@[k].1.view(),
                )) && (match ret {
                Some(t) => conv_ty(t.elem) == Some(rr.view()),
                None => rr.view() == TypeV::Void,
            }) && final(self).next_id > old(self).next_id + args@.len()),
            (body_all_bare_ret(body@) && !(exists|k: int|
                0 <= k < old(self).scope@.last().locals@.len() && (#[trigger] old(self).scope@.last().locals@[k]).1@ == name.elem@) && func_args_ok(args@) && (match ret {
                Some(t) => conv_ty(t.elem) is Some,
                None => true,
            }) && old(self).next_id + args@.len() < u64::MAX) ==> (r matches Ok(n) && (n matches
                Node::Func { body: nb, .. } && nb@.len() == body@.len() && (forall|j: int|
                0 <= j < nb@.len() ==> (#[trigger] nb@[j]) == Node::Ret(None, Type::Void)))),
    {
        if self.scope_has_name(name.elem.as_slice()) {
            return Err(
                ReportKind::Undefined.title(String::from_str("Symbol is already defined")).span(
                    name.span,
                ),
            );
        }
        let mut arginfo: Vec<(Vec<u8>, Type)> = Vec::new();
        let mut nargs: Vec<Type> = Vec::new();
        let an_count = args.len();
        let mut k: usize = 0;
        while k < an_count
            invariant
                *self == *old(self),
                scopes_inv(*self),
                self.scope@.len() == 1,
                an_count == args@.len(),
                k <= an_count,
                arginfo@.len() == k,
                nargs@.len() == k,
                forall|j: int|
                    0 <= j < k ==> !((#[trigger] args@[j]).1.elem is Void) && conv_ty(
                        args@[j].1.elem,
                    ) == Some(arginfo@[j].1.view()),
            decreases an_count - k,
        {
            let aty = &args[k].1;
            if matches!(&aty.elem, ast::Type::Void) {
                return Err(
                    ReportKind::TypeError.title(
                        String::from_str("Type 'void' is not allowed as a function argument"),
                    ).help(String::from_str("Remove the arg, or change the type to '*void'")).span(
                        aty.span,
                    ),
                );
            }
            match convert_ast_ty(aty) {
                Ok(t1) => {
                    nargs.push(clone_type(&t1));
                    arginfo.push((crate::util::clone_bytes(&args[k].0.elem), t1));
                },
                Err(e) => {
                    return Err(e);
                },
            }
            k = k + 1;
        }
        let rty = match &ret {
            Some(t) => {
                match convert_ast_ty(t) {
                    Ok(ty) => ty,
                    Err(e) => {
                        return Err(e);
                    },
                }
            },
            None => Type::Void,
        };
        let fnty = Type::Fn(nargs, Box::new(clone_type(&rty)));
        let id = match self.new_id() {
            Some(id) => id,
            None => {
                return Err(
                    ReportKind::SyntaxError.title(String::from_str("Too many symbols")).span(span),
                );
            },
        };
        self.record_symbol(id, crate::util::clone_bytes(&name.elem));
        let ghost syms = self.symbols@;
        self.push_local_last(id, name.elem, fnty);
        self.push_new_scope();

        let mut fargs: Vec<(ValId, Type)> = Vec::new();
        let mut k: usize = 0;
        while k < an_count
            invariant
                scopes_inv(*self),
                self.scope@.len() == 2,
                an_count == args@.len(),
                k <= an_count,
                arginfo@.len() == an_count,
                forall|j: int|
                    0 <= j < an_count ==> conv_ty((#[trigger] args@[j]).1.elem) == Some(
                        arginfo@[j].1.view(),
                    ),
                id.0 == old(self).next_id,
                self.next_id == id.0 + 1 + k,
                fargs@.len() == k,
                forall|j: int|
                    0 <= j < k ==> (#[trigger] fargs@[j]).0.0 == id.0 + 1 + j && fargs@[j].1.view()
                        == arginfo@[j].1.view(),
                self.symbols@ == syms,
                self.symbols@.len() == old(self).symbols@.len() + 1,
                forall|i: int|
                    0 <= i < old(self).symbols@.len() ==> (#[trigger] self.symbols@[i]) == old(self).symbols@[i],
            decreases an_count - k,
        {
            let aid = match self.new_id() {
                Some(aid) => aid,
                None => {
                    return Err(
                        ReportKind::SyntaxError.title(String::from_str("Too many symbols")).span(
                            span,
                        ),
                    );
                },
            };
            self.push_local_last(
                aid,
                crate::util::clone_bytes(&arginfo[k].0),
                clone_type(&arginfo[k].1),
            );
            fargs.push((aid, clone_type(&arginfo[k].1)));
            k = k + 1;
        }

        let mut nbody: Vec<Node> = Vec::new();
        let mut stmts = body;
        let ghost body0 = stmts@;
        while stmts.len() > 0
            invariant
                scopes_inv(*self),
                self.scope@.len() == 2,
                an_count == args@.len(),
                id.0 == old(self).next_id,
                self.next_id >= id.0 + 1 + an_count,
                fargs@.len() == an_count,
                forall|j: int|
                    0 <= j < an_count ==> (#[trigger] fargs@[j]).0.0 == id.0 + 1 + j
                        && fargs@[j].1.view() == arginfo@[j].1.view(),
                forall|j: int|
                    0 <= j < an_count ==> conv_ty((#[trigger] args@[j]).1.elem) == Some(
                        arginfo@[j].1.view(),
                    ),
                self.symbols@ == syms,
                self.symbols@.len() == old(self).symbols@.len() + 1,
                forall|i: int|
                    0 <= i < old(self).symbols@.len() ==> (#[trigger] self.symbols@[i]) == old(self).symbols@[i],
                stmts@.len() <= body0.len(),
                stmts@ == body0.skip(body0.len() - stmts@.len()),
                body0 == body@,
                forall|i: int| 0 <= i < nbody@.len() ==> is_body_stmt(#[trigger] nbody@[i]),
                body_all_bare_ret(body0) ==> (nbody@.len() == body0.len() - stmts@.len() && (
                forall|j: int|
                    0 <= j < nbody@.len() ==> (#[trigger] nbody@[j]) == Node::Ret(
                        None,
                        Type::Void,
                    ))),
            decreases stmts@.len(),
        {
            let ghost at = body0.len() - stmts@.len();
            proof {
                assert(stmts@[0] == body0[at]);
            }
            let stmt = stmts.remove(0);
            proof {
                assert(stmts@ =~= body0.skip(body0.len() - stmts@.len()));
            }
            let mut ns = match self.analyze_stmt(stmt, &rty) {
                Ok(ns) => ns,
                Err(e) => {
                    proof {
                        if body_all_bare_ret(body0) {
                            assert(body0[at].elem matches ast::Node::Ret(None));
                        }
                    }
                    return Err(e);
                },
            };
            let ghost pre = nbody@;
            let ghost add = ns@;
            nbody.append(&mut ns);
            proof {
                assert(nbody@ == pre + add);
                assert forall|i: int| 0 <= i < nbody@.len() implies is_body_stmt(
                    #[trigger] nbody@[i],
                ) by {
                    if i < pre.len() {
                        assert(nbody@[i] == pre[i]);
                    } else {
                        assert(nbody@[i] == add[i - pre.len()]);
                    }
                }
            }
        }
        self.truncate_scopes();
        let export = has_attr(&attrs, ast::Attrs::Export);
        proof {
            assert(self.symbols@[self.symbols@.len() - 1].0 == id);
        }
        Ok(Node::Func { id, export, args: fargs, ret: rty, body: nbody })
    }

    /// Lowers one top-level declaration.
    fn analyze_root(&mut self, node: Sp<ast::Node>) -> (r: Result<Node, Report>)
        requires
            scopes_inv(*old(self)),
            old(self).scope@.len() == 1,
        ensures
            scopes_inv(*final(self)),
            r is Ok ==> final(self).scope@.len() == 1,
            final(self).next_id >= old(self).next_id,
            final(self).symbols@.len() >= old(self).symbols@.len(),
            forall|i: int|
                0 <= i < old(self).symbols@.len() ==> (#[trigger] final(self).symbols@[i]) == old(self).symbols@[i],
            r matches Ok(n) ==> is_root_node(n) && root_symbol_ok(n, final(self).symbols@),
            r matches Ok(n) ==> (n is Func || n is FuncDecl),
            r matches Ok(n) ==> root_id_layout(n, old(self).next_id, final(self).next_id),
            !(node.elem is Func) ==> r is Err,
            node.elem matches ast::Node::Func { attrs, .. } ==> (r matches Ok(n) ==> (n is FuncDecl
                <==> (exists|i: int|
                0 <= i < attrs@.len() && (#[trigger] attrs@[i]).elem == ast::Attrs::Extern))),
            node.elem matches ast::Node::Func { args, .. } ==> ((exists|k: int|
                0 <= k < args@.len() && ((#[trigger] args@[k]).1.elem is Void || conv_ty(
                    args@[k].1.elem,
                ) is None)) ==> r is Err),
            (simple_func_root(node.elem) && (node.elem matches ast::Node::Func { name, .. }
                && !(exists|k: int|
                0 <= k < old(self).scope@.last().locals@.len() && (#[trigger] old(self).scope@.last().locals@[k]).1@ == name.elem@)) && old(self).next_id
                < u64::MAX - (match node.elem {
                ast::Node::Func { args, .. } => args@.len() as u64,
                _ => 0,
            })) ==> (r matches Ok(n) && simple_func_lowering(node.elem, n)),
    {
        let span = node.span;
        match node.elem {
            ast::Node::Func { name, attrs, args, ret, body } => {
                if has_attr(&attrs, ast::Attrs::Extern) {
                    self.analyze_extern(name, args, ret, body, span)
                } else {
                    self.analyze_func(name, attrs, args, ret, body, span)
                }
            },
            _ => {
                Err(
                    ReportKind::SyntaxError.title(String::from_str("Expected a declaration")).span(
                        span,
                    ),
                )
            },
        }
    }

    /// Analysis of a whole surface tree: each top-level declaration is
    /// lowered in order; an error inside one declaration truncates the scope
    /// stack back to the global scope and the next declaration proceeds.
    /// The returned symbol table's identifiers are strictly increasing in
    /// mint order — in particular, no identifier repeats.
    pub fn analyze(ast: Vec<Sp<ast::Node>>, file: &str) -> (r: (
        Vec<Node>,
        Vec<(ValId, Vec<u8>)>,
        Vec<Report>,
    ))
        ensures
            r.0@.len() + r.2@.len() == ast@.len(),
            forall|i: int|
                0 <= i < r.0@.len() ==> (#[trigger] r.0@[i]) is Func || r.0@[i] is FuncDecl,
            forall|i: int| 0 <= i < r.0@.len() ==> root_symbol_ok(#[trigger] r.0@[i], r.1@),
            forall|i: int| 0 <= i < r.0@.len() ==> root_args_consecutive(#[trigger] r.0@[i]),
            forall|i: int, j: int|
                0 <= i < j < r.0@.len() ==> root_base(#[trigger] r.0@[i]) + root_arg_count(r.0@[i])
                    < root_base(#[trigger] r.0@[j]),
            forall|i: int, j: int|
                0 <= i < j < r.1@.len() ==> (#[trigger] r.1@[i]).0.0 < (#[trigger] r.1@[j]).0.0,
            forall|i: int|
                0 <= i < r.2@.len() ==> ((#[trigger] r.2@[i]).file matches Some(f) && f@
                    == file@),
            (ast@.len() == 1 && simple_func_root(ast@[0].elem)) ==> (r.2@.len() == 0 && r.0@.len()
                == 1 && simple_func_lowering(ast@[0].elem, r.0@[0]) && (r.0@[0] matches Node::Func {
                id,
                ..
            } && id == ValId(1))),
    {
        let mut scope: Vec<Scope> = Vec::new();
        scope.push(Scope { locals: Vec::new() });
        let mut analyzer = Analyzer { scope, symbols: Vec::new(), next_id: 1 };
        let mut hir: Vec<Node> = Vec::new();
        let mut reports: Vec<Report> = Vec::new();
        let mut rest = ast;
        let ghost ast0 = rest@;
        while rest.len() > 0
            invariant
                scopes_inv(analyzer),
                analyzer.scope@.len() == 1,
                hir@.len() + reports@.len() + rest@.len() == ast0.len(),
                forall|i: int|
                    0 <= i < hir@.len() ==> (#[trigger] hir@[i]) is Func || hir@[i] is FuncDecl,
                forall|i: int|
                    0 <= i < hir@.len() ==> root_symbol_ok(#[trigger] hir@[i], analyzer.symbols@),
                forall|i: int| 0 <= i < hir@.len() ==> root_args_consecutive(#[trigger] hir@[i]),
                forall|i: int|
                    0 <= i < hir@.len() ==> root_base(#[trigger] hir@[i]) + root_arg_count(hir@[i])
                        < analyzer.next_id,
                forall|i: int, j: int|
                    0 <= i < j < hir@.len() ==> root_base(#[trigger] hir@[i]) + root_arg_count(
                        hir@[i],
                    ) < root_base(#[trigger] hir@[j]),
                ast0 == ast@,
                forall|i: int|
                    0 <= i < reports@.len() ==> ((#[trigger] reports@[i]).file matches Some(f)
                        && f@ == file@),
                rest@.len() <= ast0.len(),
                rest@ == ast0.skip(ast0.len() - rest@.len()),
                (ast0.len() == 1 && simple_func_root(ast0[0].elem)) ==> ((rest@.len() == 1
                    && hir@.len() == 0 && reports@.len() == 0 && analyzer.next_id == 1
                    && analyzer.scope@[0].locals@.len() == 0) || (rest@.len() == 0
                    && reports@.len() == 0 && hir@.len() == 1 && simple_func_lowering(
                    ast0[0].elem,
                    hir@[0],
                ) && (hir@[0] matches Node::Func { id, .. } && id == ValId(1)))),
            decreases rest@.len(),
        {
            let ghost at = ast0.len() - rest@.len();
            proof {
                assert(rest@[0] == ast0[at]);
            }
            let nd = rest.remove(0);
            proof {
                assert(rest@ =~= ast0.skip(ast0.len() - rest@.len()));
            }
            let ghost pre_syms = analyzer.symbols@;
            let ghost pre_hir = hir@;
            let ghost pre_next = analyzer.next_id;
            match analyzer.analyze_root(nd) {
                Ok(n) => {
                    hir.push(n);
                    proof {
                        assert forall|i: int, j: int|
                            0 <= i < j < hir@.len() implies root_base(#[trigger] hir@[i])
                            + root_arg_count(hir@[i]) < root_base(#[trigger] hir@[j]) by {
                            if j < pre_hir.len() {
                                assert(hir@[i] == pre_hir[i]);
                                assert(hir@[j] == pre_hir[j]);
                            } else {
                                assert(hir@[i] == pre_hir[i]);
                                assert(hir@[j] == hir@.last());
                                assert(root_id_layout(hir@[j], pre_next, analyzer.next_id));
                            }
                        }
                        assert forall|i: int|
                            0 <= i < hir@.len() implies root_base(#[trigger] hir@[i])
                            + root_arg_count(hir@[i]) < analyzer.next_id by {
                            if i < pre_hir.len() {
                                assert(hir@[i] == pre_hir[i]);
                            } else {
                                assert(root_id_layout(hir@[i], pre_next, analyzer.next_id));
                            }
                        }
                    }
                },
                Err(e) => {
                    let ghost pre_reports = reports@;
                    reports.push(e.file(String::from_str(file)));
                    analyzer.truncate_scopes();
                    proof {
                        assert forall|i: int|
                            0 <= i < reports@.len() implies ((#[trigger] reports@[i]).file
                            matches Some(f) && f@ == file@) by {
                            if i < pre_reports.len() {
                                assert(reports@[i] == pre_reports[i]);
                            } else {
                                assert(reports@[i] == reports@.last());
                            }
                        }
                    }
                },
            }
            proof {
                // identifiers recorded earlier stay recorded: the table only
                // ever grows at the end
                assert forall|i: int| 0 <= i < hir@.len() implies root_symbol_ok(
                    #[trigger] hir@[i],
                    analyzer.symbols@,
                ) by {
                    if i < pre_hir.len() {
                        assert(hir@[i] == pre_hir[i]);
                        assert(root_symbol_ok(pre_hir[i], pre_syms));
                        match pre_hir[i] {
                            Node::Func { id, .. } => {
                                let j = choose|j: int|
                                    0 <= j < pre_syms.len() && (#[trigger] pre_syms[j]).0 == id;
                                assert(analyzer.symbols@[j].0 == id);
                            },
                            Node::FuncDecl { id, .. } => {
                                let j = choose|j: int|
                                    0 <= j < pre_syms.len() && (#[trigger] pre_syms[j]).0 == id;
                                assert(analyzer.symbols@[j].0 == id);
                            },
                            _ => {},
                        }
                    }
                }
            }
        }
        (hir, analyzer.symbols, reports)
    }
}

} // verus!
