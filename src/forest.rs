//! The parent forest of a whole system, with every shard's node records
//! side by side, and what the shard steps do to it.

use vstd::prelude::*;
use crate::key::{Key, LOCAL_SPAN, lemma_of_parts};
use crate::message::ShardMessage;
use crate::request::ReqId;
use crate::shard::{ShardView, new_head_sibling};
use crate::storage::{Field, NodeData, fresh_node, holds, set_field, with_field};

verus! {

/// `k` is a node of the system whose shards hold `sys`.
pub open spec fn present(sys: Seq<Seq<NodeData>>, k: Key) -> bool {
    0 <= k.shard_of() < sys.len() && holds(sys[k.shard_of()], k)
}

/// The parent of `k`; a key that no shard holds is its own parent.
pub open spec fn parent(sys: Seq<Seq<NodeData>>, k: Key) -> Key {
    if present(sys, k) {
        sys[k.shard_of()][k.local_of()].parent
    } else {
        k
    }
}

/// The node reached from `k` by following `d` parent links.
pub open spec fn ancestor(sys: Seq<Seq<NodeData>>, k: Key, d: nat) -> Key
    decreases d,
{
    if d == 0 {
        k
    } else {
        ancestor(sys, parent(sys, k), (d - 1) as nat)
    }
}

pub open spec fn is_root(sys: Seq<Seq<NodeData>>, k: Key) -> bool {
    parent(sys, k) == k
}

/// Following `d` parent links from `k` ends at a root.
pub open spec fn root_in(sys: Seq<Seq<NodeData>>, k: Key, d: nat) -> bool {
    is_root(sys, ancestor(sys, k, d))
}

/// Every node of the system reaches a root.
pub open spec fn all_converge(sys: Seq<Seq<NodeData>>) -> bool {
    forall|k: Key| present(sys, k) ==> exists|d: nat| root_in(sys, k, d)
}

/// The system after the shard in state `s` processed `m`, all other shards
/// unchanged.
pub open spec fn after_step(sys: Seq<Seq<NodeData>>, s: ShardView, m: ShardMessage) -> Seq<Seq<NodeData>> {
    sys.update(s.shard_idx, s.step(m).0.nodes)
}

/// `s` is the state of its shard within `sys`.
pub open spec fn shard_in(sys: Seq<Seq<NodeData>>, s: ShardView) -> bool {
    &&& 0 <= s.shard_idx < sys.len()
    &&& s.nodes == sys[s.shard_idx]
}

/// Two keys with the same shard and local id are the same key.
pub proof fn lemma_key_parts(a: Key, b: Key)
    requires
        a.shard_of() == b.shard_of(),
        a.local_of() == b.local_of(),
    ensures
        a == b,
{
    let s = LOCAL_SPAN as int;
    assert(a.inner as int == s * a.shard_of() + a.local_of()) by (nonlinear_arith)
        requires
            s > 0,
            a.shard_of() == a.inner as int / s,
            a.local_of() == a.inner as int % s,
    ;
    assert(b.inner as int == s * b.shard_of() + b.local_of()) by (nonlinear_arith)
        requires
            s > 0,
            b.shard_of() == b.inner as int / s,
            b.local_of() == b.inner as int % s,
    ;
}

/// Writing the parent of `n` changes no other node's parent.
pub proof fn lemma_write_parent(sys: Seq<Seq<NodeData>>, n: Key, p: Key, y: Key)
    requires
        present(sys, n),
    ensures
        ({
            let sys2 = sys.update(n.shard_of(), set_field(sys[n.shard_of()], n, Field::Parent, p));
            &&& present(sys2, y) == present(sys, y)
            &&& parent(sys2, y) == if y == n { p } else { parent(sys, y) }
        }),
{
    if y != n && y.shard_of() == n.shard_of() && y.local_of() == n.local_of() {
        lemma_key_parts(y, n);
    }
}

/// `d1 + d2` links are `d1` links, then `d2` more.
pub proof fn lemma_ancestor_add(sys: Seq<Seq<NodeData>>, k: Key, d1: nat, d2: nat)
    ensures
        ancestor(sys, ancestor(sys, k, d1), d2) == ancestor(sys, k, d1 + d2),
    decreases d1,
{
    if d1 > 0 {
        lemma_ancestor_add(sys, parent(sys, k), (d1 - 1) as nat, d2);
    }
}

/// A root, once reached, is never left.
pub proof fn lemma_root_stays(sys: Seq<Seq<NodeData>>, k: Key, d: nat, e: nat)
    requires
        root_in(sys, k, d),
        d <= e,
    ensures
        ancestor(sys, k, e) == ancestor(sys, k, d),
    decreases e - d,
{
    if d < e {
        lemma_root_stays(sys, k, d, (e - 1) as nat);
        lemma_ancestor_add(sys, k, (e - 1) as nat, 1);
        let x = ancestor(sys, k, (e - 1) as nat);
        assert(ancestor(sys, x, 1) == ancestor(sys, parent(sys, x), 0));
    }
}

/// Following links from a root stays at that root.
pub proof fn lemma_from_root(sys: Seq<Seq<NodeData>>, r: Key, e: nat)
    requires
        is_root(sys, r),
    ensures
        ancestor(sys, r, e) == r,
    decreases e,
{
    if e > 0 {
        lemma_from_root(sys, r, (e - 1) as nat);
    }
}

/// A path that never visits `n` is the same in two forests that differ
/// only in the parent of `n`.
pub proof fn lemma_path_avoiding(
    sys: Seq<Seq<NodeData>>,
    sys2: Seq<Seq<NodeData>>,
    n: Key,
    k: Key,
    e: nat,
)
    requires
        forall|y: Key| y != n ==> parent(sys2, y) == parent(sys, y),
        forall|j: nat| j < e ==> ancestor(sys, k, j) != n,
    ensures
        ancestor(sys2, k, e) == ancestor(sys, k, e),
    decreases e,
{
    if e > 0 {
        assert(ancestor(sys, k, 0) != n);
        assert forall|j: nat| j < (e - 1) as nat implies ancestor(sys, parent(sys, k), j) != n by {
            assert(ancestor(sys, k, j + 1) != n);
        }
        lemma_path_avoiding(sys, sys2, n, parent(sys, k), (e - 1) as nat);
    }
}

/// A path that ends at a root `r` other than `n` never visits `n` when `n`
/// is a root.
pub proof fn lemma_avoids_other_root(sys: Seq<Seq<NodeData>>, n: Key, k: Key, d: nat, j: nat)
    requires
        is_root(sys, n),
        root_in(sys, k, d),
        ancestor(sys, k, d) != n,
    ensures
        ancestor(sys, k, j) != n,
{
    if ancestor(sys, k, j) == n {
        lemma_ancestor_add(sys, k, j, d);
        lemma_from_root(sys, n, d);
        lemma_root_stays(sys, k, d, j + d);
    }
}

/// Forests with the same parents have the same paths.
pub proof fn lemma_same_parents(sys: Seq<Seq<NodeData>>, sys2: Seq<Seq<NodeData>>, k: Key, e: nat)
    requires
        forall|y: Key| parent(sys2, y) == parent(sys, y),
    ensures
        ancestor(sys2, k, e) == ancestor(sys, k, e),
    decreases e,
{
    if e > 0 {
        lemma_same_parents(sys, sys2, parent(sys, k), (e - 1) as nat);
    }
}

/// The parents after the shard of `n` wrote `v` as the parent of `n`.
pub proof fn lemma_parents_after_write(sys: Seq<Seq<NodeData>>, sys2: Seq<Seq<NodeData>>, n: Key, v: Key)
    requires
        present(sys, n),
        sys2 == sys.update(n.shard_of(), set_field(sys[n.shard_of()], n, Field::Parent, v)),
    ensures
        forall|y: Key| #[trigger] parent(sys2, y) == if y == n { v } else { parent(sys, y) },
        forall|y: Key| #[trigger] present(sys2, y) == present(sys, y),
{
    assert forall|y: Key| #[trigger] parent(sys2, y) == if y == n { v } else { parent(sys, y) } by {
        lemma_write_parent(sys, n, v, y);
    }
    assert forall|y: Key| #[trigger] present(sys2, y) == present(sys, y) by {
        lemma_write_parent(sys, n, v, y);
    }
}

/// Compression keeps the end of every path that reached a root: the
/// induction behind `lemma_set_parent_never_deepens`.
proof fn lemma_compressed_path(
    sys: Seq<Seq<NodeData>>,
    sys2: Seq<Seq<NodeData>>,
    n: Key,
    p: Key,
    k: nat,
    m: Key,
    d: nat,
)
    requires
        forall|y: Key| #[trigger] parent(sys2, y) == if y == n { p } else { parent(sys, y) },
        !is_root(sys, n),
        k >= 1,
        ancestor(sys, n, k) == p,
        root_in(sys, m, d),
    ensures
        ancestor(sys2, m, d) == ancestor(sys, m, d),
    decreases d,
{
    if d > 0 {
        if m != n {
            lemma_compressed_path(sys, sys2, n, p, k, parent(sys, m), (d - 1) as nat);
        } else {
            lemma_ancestor_add(sys, n, k, (d - 1) as nat);
            lemma_root_stays(sys, n, d, (k + d - 1) as nat);
            lemma_compressed_path(sys, sys2, n, p, k, p, (d - 1) as nat);
        }
    }
}

/// Path compression never makes a node deeper. When `p` is a proper
/// ancestor of `n` and the shard of `n` processes
/// `SetParent { node: n, to: p }`, every node that reached its root within
/// `d` links reaches that same root, still a root, within `d` links. So a
/// compression may be dropped, repeated or reordered with others.
pub proof fn lemma_set_parent_never_deepens(
    sys: Seq<Seq<NodeData>>,
    s: ShardView,
    n: Key,
    p: Key,
    k: nat,
    m: Key,
    d: nat,
)
    requires
        shard_in(sys, s),
        s.owns(n),
        k >= 1,
        ancestor(sys, n, k) == p,
        root_in(sys, m, d),
    ensures
        ({
            let sys2 = after_step(sys, s, ShardMessage::SetParent { node: n, to: p });
            &&& ancestor(sys2, m, d) == ancestor(sys, m, d)
            &&& root_in(sys2, m, d)
        }),
{
    let sys2 = after_step(sys, s, ShardMessage::SetParent { node: n, to: p });
    assert(sys2 == sys.update(n.shard_of(), set_field(sys[n.shard_of()], n, Field::Parent, p)));
    lemma_parents_after_write(sys, sys2, n, p);
    let r = ancestor(sys, m, d);
    if is_root(sys, n) {
        lemma_from_root(sys, n, k);
        assert forall|y: Key| parent(sys2, y) == parent(sys, y) by {}
        lemma_same_parents(sys, sys2, m, d);
    } else {
        lemma_compressed_path(sys, sys2, n, p, k, m, d);
        assert(r != n);
    }
}

/// After a root `r` is linked under `to`, whose class has another root
/// `rt`, every path that reached `r` goes on to `rt`.
proof fn lemma_linked_path(
    sys: Seq<Seq<NodeData>>,
    sys2: Seq<Seq<NodeData>>,
    r: Key,
    to: Key,
    dt: nat,
    x: Key,
    d: nat,
)
    requires
        forall|y: Key| #[trigger] parent(sys2, y) == if y == r { to } else { parent(sys, y) },
        is_root(sys, r),
        root_in(sys, to, dt),
        ancestor(sys, to, dt) != r,
        ancestor(sys, x, d) == r,
    ensures
        ancestor(sys2, x, d + 1 + dt) == ancestor(sys, to, dt),
        is_root(sys2, ancestor(sys, to, dt)),
    decreases d,
{
    let rt = ancestor(sys, to, dt);
    assert forall|j: nat| j < dt implies ancestor(sys, to, j) != r by {
        lemma_avoids_other_root(sys, r, to, dt, j);
    }
    lemma_path_avoiding(sys, sys2, r, to, dt);
    assert(is_root(sys2, rt));
    if d == 0 {
        assert(ancestor(sys2, r, 1 + dt) == ancestor(sys2, to, dt));
    } else if x == r {
        assert(ancestor(sys2, r, 1 + dt) == ancestor(sys2, to, dt));
        lemma_ancestor_add(sys2, r, 1 + dt, d);
        lemma_from_root(sys2, rt, d);
        assert(d + 1 + dt == 1 + dt + d);
    } else {
        lemma_linked_path(sys, sys2, r, to, dt, parent(sys, x), (d - 1) as nat);
    }
}

/// The parents after the shard of a root `r` processed a union hop that
/// links `r` under `to`.
proof fn lemma_union_at_root(sys: Seq<Seq<NodeData>>, s: ShardView, r: Key, to: Key, child: Key, req_id: ReqId)
    requires
        shard_in(sys, s),
        s.owns(r),
        is_root(sys, r),
    ensures
        ({
            let sys2 = after_step(sys, s, ShardMessage::Union { node: r, to, child, req_id });
            &&& forall|y: Key| #[trigger] parent(sys2, y) == if y == r { to } else { parent(sys, y) }
            &&& forall|y: Key| #[trigger] present(sys2, y) == present(sys, y)
        }),
{
    let sys2 = after_step(sys, s, ShardMessage::Union { node: r, to, child, req_id });
    assert(sys[r.shard_of()][r.local_of()].parent == r);
    if to == r {
        lemma_self_union_no_op(sys, s, r, child, req_id);
    } else {
        assert(sys2 == sys.update(r.shard_of(), set_field(sys[r.shard_of()], r, Field::Parent, to)));
        lemma_parents_after_write(sys, sys2, r, to);
    }
}

/// A union hop that reaches a root `r` with `r` as its target changes no
/// node record anywhere: a self-union, or a union with a node's own root,
/// is a no-op on the forest and on every child list.
pub proof fn lemma_self_union_no_op(sys: Seq<Seq<NodeData>>, s: ShardView, r: Key, child: Key, req_id: ReqId)
    requires
        shard_in(sys, s),
        s.owns(r),
        is_root(sys, r),
    ensures
        s.step(ShardMessage::Union { node: r, to: r, child, req_id }).0.nodes == s.nodes,
        after_step(sys, s, ShardMessage::Union { node: r, to: r, child, req_id }) == sys,
{
    assert(sys.update(s.shard_idx, s.nodes) =~= sys);
}

/// Linking keeps every node converging. When every node reaches a root and
/// the shard of a root `r` processes `Union { node: r, to, .. }`, with `to`
/// in another class or `to` being `r` itself, every node still reaches a
/// root afterwards.
pub proof fn lemma_union_keeps_convergence(
    sys: Seq<Seq<NodeData>>,
    s: ShardView,
    r: Key,
    to: Key,
    dt: nat,
    child: Key,
    req_id: ReqId,
)
    requires
        shard_in(sys, s),
        s.owns(r),
        is_root(sys, r),
        all_converge(sys),
        root_in(sys, to, dt),
        to == r || ancestor(sys, to, dt) != r,
    ensures
        all_converge(after_step(sys, s, ShardMessage::Union { node: r, to, child, req_id })),
{
    let sys2 = after_step(sys, s, ShardMessage::Union { node: r, to, child, req_id });
    lemma_union_at_root(sys, s, r, to, child, req_id);
    assert forall|x: Key| present(sys2, x) implies exists|e: nat| root_in(sys2, x, e) by {
        let d = choose|d: nat| root_in(sys, x, d);
        let rx = ancestor(sys, x, d);
        if to == r {
            assert forall|y: Key| parent(sys2, y) == parent(sys, y) by {}
            lemma_same_parents(sys, sys2, x, d);
            assert(root_in(sys2, x, d));
        } else if rx == r {
            lemma_linked_path(sys, sys2, r, to, dt, x, d);
            assert(root_in(sys2, x, d + 1 + dt));
        } else {
            assert forall|j: nat| j < d implies ancestor(sys, x, j) != r by {
                lemma_avoids_other_root(sys, r, x, d, j);
            }
            lemma_path_avoiding(sys, sys2, r, x, d);
            assert(root_in(sys2, x, d));
        }
    }
}

/// A union joins the two classes. When the walk from `a` reached its root
/// `ancestor(sys, a, da)` and that root's shard linked it under `b`, with
/// `b` in another class or `b` being that root, `a` and `b` reach one same
/// root: a find on either answers the same key.
pub proof fn lemma_union_joins_classes(
    sys: Seq<Seq<NodeData>>,
    s: ShardView,
    a: Key,
    da: nat,
    b: Key,
    db: nat,
    req_id: ReqId,
)
    requires
        shard_in(sys, s),
        s.owns(ancestor(sys, a, da)),
        root_in(sys, a, da),
        root_in(sys, b, db),
        b == ancestor(sys, a, da) || ancestor(sys, b, db) != ancestor(sys, a, da),
    ensures
        ({
            let ra = ancestor(sys, a, da);
            let sys2 = after_step(
                sys,
                s,
                ShardMessage::Union { node: ra, to: b, child: a, req_id },
            );
            &&& ancestor(sys2, a, da + 1 + db) == ancestor(sys2, b, db)
            &&& root_in(sys2, b, db)
        }),
{
    let ra = ancestor(sys, a, da);
    let sys2 = after_step(sys, s, ShardMessage::Union { node: ra, to: b, child: a, req_id });
    lemma_union_at_root(sys, s, ra, b, a, req_id);
    if b == ra {
        assert forall|y: Key| parent(sys2, y) == parent(sys, y) by {}
        lemma_same_parents(sys, sys2, a, da + 1 + db);
        lemma_same_parents(sys, sys2, b, db);
        lemma_root_stays(sys, a, da, da + 1 + db);
        lemma_from_root(sys, ra, db);
    } else {
        lemma_linked_path(sys, sys2, ra, b, db, a, da);
        assert forall|j: nat| j < db implies ancestor(sys, b, j) != ra by {
            lemma_avoids_other_root(sys, ra, b, db, j);
        }
        lemma_path_avoiding(sys, sys2, ra, b, db);
    }
}

/// The record of `k`.
pub open spec fn rec(sys: Seq<Seq<NodeData>>, k: Key) -> NodeData {
    sys[k.shard_of()][k.local_of()]
}

/// Writing one link of `n` leaves every other record as it was.
pub proof fn lemma_write_rec(sys: Seq<Seq<NodeData>>, n: Key, f: Field, v: Key, y: Key)
    requires
        present(sys, n),
        present(sys, y),
    ensures
        ({
            let sys2 = sys.update(n.shard_of(), set_field(sys[n.shard_of()], n, f, v));
            &&& present(sys2, y)
            &&& rec(sys2, y) == if y == n { with_field(rec(sys, n), f, v) } else { rec(sys, y) }
        }),
{
    if y != n && y.shard_of() == n.shard_of() && y.local_of() == n.local_of() {
        lemma_key_parts(y, n);
    }
}

/// `l` is the child list of `p`: `p`'s child link names its first member
/// (or `p` itself when `l` is empty), each member's sibling link names the
/// next one, and the last member's names itself, the end-of-list marker.
pub open spec fn child_list(sys: Seq<Seq<NodeData>>, p: Key, l: Seq<Key>) -> bool {
    &&& forall|i: int| 0 <= i < l.len() ==> present(sys, #[trigger] l[i])
    &&& rec(sys, p).child == if l.len() == 0 { p } else { l[0] }
    &&& forall|i: int| 0 <= i < l.len() - 1 ==> rec(sys, #[trigger] l[i]).sibling == l[i + 1]
    &&& l.len() > 0 ==> rec(sys, l.last()).sibling == l.last()
}

/// Linking puts the new child at the head of the list, once. When `p`'s
/// child list is `l`, neither `c` nor `p` is in it, and the shard of `p`
/// processes `SetChild { node: p, to: c, .. }` and then the shard of `c`
/// processes the `SetSibling` it sends, `p`'s child list is `c` followed by
/// `l`; the list still ends in a self-reference.
pub proof fn lemma_link_prepends_child(
    sys: Seq<Seq<NodeData>>,
    s1: ShardView,
    s2: ShardView,
    p: Key,
    c: Key,
    l: Seq<Key>,
    req_id: ReqId,
)
    requires
        shard_in(sys, s1),
        s1.owns(p),
        present(sys, c),
        c != p,
        !l.contains(c),
        !l.contains(p),
        child_list(sys, p, l),
        shard_in(after_step(sys, s1, ShardMessage::SetChild { node: p, to: c, req_id }), s2),
        s2.owns(c),
    ensures
        ({
            let sys1 = after_step(sys, s1, ShardMessage::SetChild { node: p, to: c, req_id });
            let sys2 = after_step(
                sys1,
                s2,
                ShardMessage::SetSibling { node: c, to: new_head_sibling(p, c, rec(sys, p).child), req_id },
            );
            child_list(sys2, p, seq![c] + l)
        }),
{
    let old_head = new_head_sibling(p, c, rec(sys, p).child);
    let sys1 = after_step(sys, s1, ShardMessage::SetChild { node: p, to: c, req_id });
    let sys2 = after_step(sys1, s2, ShardMessage::SetSibling { node: c, to: old_head, req_id });
    assert(sys1 == sys.update(p.shard_of(), set_field(sys[p.shard_of()], p, Field::Child, c)));
    assert(sys2 == sys1.update(c.shard_of(), set_field(sys1[c.shard_of()], c, Field::Sibling, old_head)));
    let nl = seq![c] + l;
    lemma_write_rec(sys, p, Field::Child, c, p);
    lemma_write_rec(sys, p, Field::Child, c, c);
    lemma_write_rec(sys1, c, Field::Sibling, old_head, p);
    lemma_write_rec(sys1, c, Field::Sibling, old_head, c);
    assert forall|i: int| 0 <= i < l.len() implies {
        &&& present(sys2, #[trigger] l[i])
        &&& rec(sys2, l[i]).sibling == rec(sys, l[i]).sibling
    } by {
        assert(l[i] != c);
        lemma_write_rec(sys, p, Field::Child, c, l[i]);
        lemma_write_rec(sys1, c, Field::Sibling, old_head, l[i]);
    }
    assert(rec(sys2, p).child == c);
    assert(rec(sys2, c).sibling == old_head);
    assert forall|i: int| 0 <= i < nl.len() implies present(sys2, #[trigger] nl[i]) by {
        if i > 0 {
            assert(nl[i] == l[i - 1]);
        }
    }
    assert forall|i: int| 0 <= i < nl.len() - 1 implies rec(sys2, #[trigger] nl[i]).sibling == nl[i + 1] by {
        if i > 0 {
            assert(nl[i] == l[i - 1]);
            assert(nl[i + 1] == l[i]);
        } else {
            assert(l[0] != p);
        }
    }
    if l.len() > 0 {
        assert(nl.last() == l.last());
        assert(l.last() == l[l.len() - 1]);
    }
}

/// Forests with the same parents, where the second holds no node the
/// first lacks but possibly some roots, agree on convergence.
proof fn lemma_converge_same_parents(sys: Seq<Seq<NodeData>>, sys2: Seq<Seq<NodeData>>)
    requires
        all_converge(sys),
        forall|y: Key| #[trigger] parent(sys2, y) == parent(sys, y),
        forall|y: Key| #[trigger] present(sys2, y) ==> present(sys, y) || is_root(sys2, y),
    ensures
        all_converge(sys2),
{
    assert forall|x: Key| present(sys2, x) implies exists|e: nat| root_in(sys2, x, e) by {
        if present(sys, x) {
            let d = choose|d: nat| root_in(sys, x, d);
            lemma_same_parents(sys, sys2, x, d);
            assert(root_in(sys2, x, d));
        } else {
            assert(root_in(sys2, x, 0));
        }
    }
}

/// Writing a link other than the parent changes no parent.
proof fn lemma_parents_after_other_write(
    sys: Seq<Seq<NodeData>>,
    sys2: Seq<Seq<NodeData>>,
    n: Key,
    f: Field,
    v: Key,
)
    requires
        present(sys, n),
        f != Field::Parent,
        sys2 == sys.update(n.shard_of(), set_field(sys[n.shard_of()], n, f, v)),
    ensures
        forall|y: Key| #[trigger] parent(sys2, y) == parent(sys, y),
        forall|y: Key| #[trigger] present(sys2, y) == present(sys, y),
{
    assert forall|y: Key| #[trigger] parent(sys2, y) == parent(sys, y) && present(sys2, y) == present(
        sys,
        y,
    ) by {
        if present(sys, y) {
            lemma_write_rec(sys, n, f, v, y);
        }
    }
}

/// A new node is a root, and no other parent changes.
proof fn lemma_parents_after_push(sys: Seq<Seq<NodeData>>, sh: int, kk: Key)
    requires
        0 <= sh < sys.len(),
        sh <= 0xFFFF,
        sys[sh].len() <= 0xFFFF_FFFF_FFFF,
        kk == Key::of(sh, sys[sh].len() as int),
    ensures
        ({
            let sys2 = sys.update(sh, sys[sh].push(fresh_node(kk)));
            &&& forall|y: Key| #[trigger] parent(sys2, y) == parent(sys, y)
            &&& forall|y: Key| #[trigger] present(sys2, y) ==> present(sys, y) || is_root(sys2, y)
        }),
{
    let sys2 = sys.update(sh, sys[sh].push(fresh_node(kk)));
    lemma_of_parts(sh, sys[sh].len() as int);
    assert forall|y: Key| #[trigger] parent(sys2, y) == parent(sys, y) && (present(sys2, y) ==> present(sys, y) || is_root(sys2, y)) by {
        if present(sys2, y) && !present(sys, y) {
            lemma_key_parts(y, kk);
        }
    }
}

/// A union hop that links a root keeps the forest acyclic: `to` reaches
/// the root `ancestor(sys, to, dt)`, which is not `node` unless `to` is
/// `node` itself.
pub open spec fn link_ok(sys: Seq<Seq<NodeData>>, node: Key, to: Key, dt: nat) -> bool {
    root_in(sys, to, dt) && (to == node || ancestor(sys, to, dt) != node)
}

/// Every node keeps reaching a root, whatever message a shard processes,
/// provided a union hop that links a root links it outside its own class
/// (`link_ok`) and a compression points a node at a proper ancestor: the
/// `k`-th one. The first proviso is the caller's: a union of two nodes of
/// one class whose second node is not the root would close a cycle.
pub proof fn lemma_step_keeps_convergence(
    sys: Seq<Seq<NodeData>>,
    s: ShardView,
    m: ShardMessage,
    dt: nat,
    k: nat,
)
    requires
        shard_in(sys, s),
        s.wf(),
        s.accepts(m),
        all_converge(sys),
        m matches ShardMessage::Union { node, to, .. } ==> (is_root(sys, node) ==> link_ok(
            sys,
            node,
            to,
            dt,
        )),
        m matches ShardMessage::SetParent { node, to } ==> k >= 1 && ancestor(sys, node, k) == to,
    ensures
        all_converge(after_step(sys, s, m)),
{
    let sys2 = after_step(sys, s, m);
    match m {
        ShardMessage::AddNode { shard, req_id } => {
            let kk = Key::of(shard as int, s.nodes.len() as int);
            assert(sys2 == sys.update(s.shard_idx, sys[s.shard_idx].push(fresh_node(kk))));
            lemma_parents_after_push(sys, s.shard_idx, kk);
            lemma_converge_same_parents(sys, sys2);
        },
        ShardMessage::Union { node, to, child, req_id } => {
            if is_root(sys, node) {
                lemma_union_keeps_convergence(sys, s, node, to, dt, child, req_id);
            } else {
                assert(sys2 =~= sys);
            }
        },
        ShardMessage::SetChild { node, to, req_id } => {
            lemma_parents_after_other_write(sys, sys2, node, Field::Child, to);
            lemma_converge_same_parents(sys, sys2);
        },
        ShardMessage::SetSibling { node, to, req_id } => {
            lemma_parents_after_other_write(sys, sys2, node, Field::Sibling, to);
            lemma_converge_same_parents(sys, sys2);
        },
        ShardMessage::SetParent { node, to } => {
            assert forall|x: Key| present(sys2, x) implies exists|e: nat| root_in(sys2, x, e) by {
                lemma_parents_after_write(sys, sys2, node, to);
                let d = choose|d: nat| root_in(sys, x, d);
                lemma_set_parent_never_deepens(sys, s, node, to, k, x, d);
            }
        },
        ShardMessage::Find { .. } => {
            assert(sys2 =~= sys);
        },
        ShardMessage::GracefulShutdown { .. } => {
            assert(sys2 =~= sys);
        },
    }
}

} // verus!
