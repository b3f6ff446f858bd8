//! What one shard step sends, as a list, and how each request travels: every
//! hop of a request passes it on exactly once, to its next hop or as its
//! completion.

use vstd::prelude::*;
use crate::key::Key;
use crate::message::ShardMessage;
use crate::request::{DriverMessage, ReqId};
use crate::batching::BatchingView;
use crate::forest::after_step;
use crate::shard::{ShardView, new_head_sibling};
use crate::storage::NodeData;
use crate::storage::{link, node_of};

verus! {

/// One message sent by a shard step.
pub enum Sent {
    ToShard(ShardMessage),
    ToDriver(DriverMessage),
}

/// The request a message belongs to; path compression belongs to none.
pub open spec fn msg_req(m: ShardMessage) -> Option<ReqId> {
    match m {
        ShardMessage::AddNode { req_id, .. } => Some(req_id),
        ShardMessage::Union { req_id, .. } => Some(req_id),
        ShardMessage::SetChild { req_id, .. } => Some(req_id),
        ShardMessage::SetSibling { req_id, .. } => Some(req_id),
        ShardMessage::SetParent { .. } => None,
        ShardMessage::Find { req_id, .. } => Some(req_id),
        ShardMessage::GracefulShutdown { req_id, .. } => Some(req_id),
    }
}

/// The request a sent message belongs to.
pub open spec fn sent_req(x: Sent) -> Option<ReqId> {
    match x {
        Sent::ToShard(m) => msg_req(m),
        Sent::ToDriver(d) => Some(d.req_of()),
    }
}

/// The completion that ends a request of the kind `m` belongs to.
pub open spec fn completes(m: ShardMessage, d: DriverMessage) -> bool {
    match m {
        ShardMessage::AddNode { .. } => d is AddNodeDone,
        ShardMessage::Union { .. } => d is UnionDone,
        ShardMessage::SetChild { .. } => d is UnionDone,
        ShardMessage::SetSibling { .. } => d is UnionDone,
        ShardMessage::Find { .. } => d is FindDone,
        _ => false,
    }
}

/// The next hop of a request continues a request of the same kind.
pub open spec fn continues(m: ShardMessage, next: ShardMessage) -> bool {
    match m {
        ShardMessage::Union { .. } => next is Union || next is SetChild,
        ShardMessage::SetChild { .. } => next is SetSibling,
        ShardMessage::Find { .. } => next is Find,
        _ => false,
    }
}

impl ShardView {
    /// The state after one sent message.
    pub open spec fn deliver(self, x: Sent) -> ShardView {
        match x {
            Sent::ToShard(m) => self.emit(m),
            Sent::ToDriver(d) => self.notify(d),
        }
    }

    /// The state after sending `xs`, in order.
    pub open spec fn deliver_all(self, xs: Seq<Sent>) -> ShardView
        decreases xs.len(),
    {
        if xs.len() == 0 {
            self
        } else {
            self.deliver(xs[0]).deliver_all(xs.drop_first())
        }
    }

    /// The path compression a hop from `child` through `node` to `parent`
    /// sends.
    pub open spec fn compression(self, node: Key, child: Key, parent: Key) -> Seq<Sent> {
        if child != node {
            seq![Sent::ToShard(ShardMessage::SetParent { node: child, to: parent })]
        } else {
            Seq::empty()
        }
    }

    /// What processing `m` sends, in order.
    pub open spec fn sends(self, m: ShardMessage) -> Seq<Sent> {
        match m {
            ShardMessage::AddNode { shard, req_id } => seq![
                Sent::ToDriver(
                    DriverMessage::AddNodeDone {
                        req_id,
                        response: Key::of(shard as int, self.nodes.len() as int),
                    },
                ),
            ],
            ShardMessage::Union { node, to, child, req_id } => {
                match link(node_of(self.nodes, node).parent, node) {
                    None => if to == node {
                        seq![Sent::ToDriver(DriverMessage::UnionDone { req_id })] + self.compression(
                            node,
                            child,
                            to,
                        )
                    } else {
                        seq![
                            Sent::ToShard(ShardMessage::SetChild { node: to, to: node, req_id }),
                        ] + self.compression(node, child, to)
                    },
                    Some(p) => seq![
                        Sent::ToShard(ShardMessage::Union { node: p, to, child: node, req_id }),
                    ] + self.compression(node, child, p),
                }
            },
            ShardMessage::SetChild { node, to, req_id } => seq![
                Sent::ToShard(
                    ShardMessage::SetSibling {
                        node: to,
                        to: new_head_sibling(node, to, node_of(self.nodes, node).child),
                        req_id,
                    },
                ),
            ],
            ShardMessage::SetSibling { req_id, .. } => seq![
                Sent::ToDriver(DriverMessage::UnionDone { req_id }),
            ],
            ShardMessage::SetParent { .. } => Seq::empty(),
            ShardMessage::Find { node, child, req_id } => {
                match link(node_of(self.nodes, node).parent, node) {
                    None => seq![Sent::ToDriver(DriverMessage::FindDone { req_id, response: node })],
                    Some(p) => seq![
                        Sent::ToShard(ShardMessage::Find { node: p, child: node, req_id }),
                    ] + self.compression(node, child, p),
                }
            },
            ShardMessage::GracefulShutdown { .. } => Seq::empty(),
        }
    }
}

/// A step sends exactly `sends`, in order: its new state is the old one
/// with the new node records, after delivering that list.
pub proof fn lemma_step_sends(s: ShardView, m: ShardMessage)
    ensures
        s.step(m).0 == (ShardView { nodes: s.step(m).0.nodes, ..s }).deliver_all(s.sends(m)),
{
    reveal_with_fuel(ShardView::deliver_all, 3);
    let t = ShardView { nodes: s.step(m).0.nodes, ..s };
    let xs = s.sends(m);
    if xs.len() == 2 {
        assert(xs.drop_first().drop_first() =~= Seq::<Sent>::empty());
        assert(xs.drop_first() =~= seq![xs[1]]);
    } else if xs.len() == 1 {
        assert(xs.drop_first() =~= Seq::<Sent>::empty());
    }
}

/// Each hop passes its request on exactly once. Processing a message of a
/// request other than a shutdown sends first exactly one message of that
/// request: the completion of its kind when the walk ends here (a new node,
/// the last link of a union, a union hop at a root that is already in the
/// target's class, a find at a root), and otherwise its next hop.
/// Anything sent after it is a path compression, which belongs to no
/// request.
pub proof fn lemma_request_passed_on_once(s: ShardView, m: ShardMessage)
    requires
        msg_req(m).is_some(),
        !(m is GracefulShutdown),
    ensures
        s.sends(m).len() >= 1,
        sent_req(s.sends(m)[0]) == msg_req(m),
        forall|i: int| 1 <= i < s.sends(m).len() ==> sent_req(#[trigger] s.sends(m)[i]).is_none(),
        match s.sends(m)[0] {
            Sent::ToDriver(d) => completes(m, d),
            Sent::ToShard(next) => continues(m, next),
        },
{
}

/// How many of `xs` belong to request `r`.
pub open spec fn count_req(xs: Seq<Sent>, r: ReqId) -> nat
    decreases xs.len(),
{
    if xs.len() == 0 {
        0
    } else {
        (if sent_req(xs[0]) == Some(r) { 1nat } else { 0nat }) + count_req(xs.drop_first(), r)
    }
}

/// Requests are conserved. Processing a message other than a shutdown sends
/// exactly one message of its own request and none of any other. So across
/// any run, the messages in flight plus the completions delivered for one
/// request stay at the one message its driver sent: once a client has seen
/// every completion, K requests of a kind have given exactly K completions.
pub proof fn lemma_request_conserved(s: ShardView, m: ShardMessage, r: ReqId)
    requires
        !(m is GracefulShutdown),
    ensures
        count_req(s.sends(m), r) == if msg_req(m) == Some(r) { 1nat } else { 0nat },
{
    reveal_with_fuel(count_req, 3);
    let xs = s.sends(m);
    if xs.len() == 2 {
        assert(xs.drop_first().drop_first() =~= Seq::<Sent>::empty());
        assert(xs.drop_first() =~= seq![xs[1]]);
    } else if xs.len() == 1 {
        assert(xs.drop_first() =~= Seq::<Sent>::empty());
    }
}

/// Whether `x` belongs to request `r`, as a count.
pub open spec fn is_of(x: Sent, r: ReqId) -> nat {
    if sent_req(x) == Some(r) {
        1
    } else {
        0
    }
}

/// Counting over a concatenation adds up.
pub proof fn lemma_count_concat(a: Seq<Sent>, b: Seq<Sent>, r: ReqId)
    ensures
        count_req(a + b, r) == count_req(a, r) + count_req(b, r),
    decreases a.len(),
{
    if a.len() == 0 {
        assert(a + b =~= b);
    } else {
        assert((a + b).drop_first() =~= a.drop_first() + b);
        lemma_count_concat(a.drop_first(), b, r);
    }
}

/// Removing one message takes its share out of the count.
pub proof fn lemma_count_remove(xs: Seq<Sent>, j: int, r: ReqId)
    requires
        0 <= j < xs.len(),
    ensures
        count_req(xs, r) == count_req(xs.remove(j), r) + is_of(xs[j], r),
    decreases j,
{
    if j == 0 {
        assert(xs.remove(0) =~= xs.drop_first());
    } else {
        assert(xs.remove(j).drop_first() =~= xs.drop_first().remove(j - 1));
        assert(xs.remove(j)[0] == xs[0]);
        lemma_count_remove(xs.drop_first(), j - 1, r);
    }
}

/// The state of shard `sh` as far as a step's effect on the forest and
/// what it sends are concerned: its node records.
pub open spec fn shard_at(sys: Seq<Seq<NodeData>>, sh: int) -> ShardView {
    ShardView {
        batching: BatchingView {
            batch_len: 0,
            shard_bufs: Seq::empty(),
            driver_bufs: Seq::empty(),
            shard_out: Seq::empty(),
            driver_out: Seq::empty(),
        },
        pending: Seq::empty(),
        shard_idx: sh,
        nodes: sys[sh],
    }
}

/// A whole system: every shard's records, and a pool of the messages sent
/// so far, where `ToShard` ones are still in flight and `ToDriver` ones
/// have been delivered.
pub open spec fn run_step(sys: Seq<Seq<NodeData>>, pool: Seq<Sent>, j: int) -> (Seq<Seq<NodeData>>, Seq<Sent>) {
    match pool[j] {
        Sent::ToShard(m) => {
            let s = shard_at(sys, m.target_of());
            (after_step(sys, s, m), pool.remove(j) + s.sends(m))
        },
        Sent::ToDriver(_) => (sys, pool),
    }
}

/// `js` picks, one after another, an in-flight message other than a
/// shutdown for its shard to process.
pub open spec fn valid_run(sys: Seq<Seq<NodeData>>, pool: Seq<Sent>, js: Seq<int>) -> bool
    decreases js.len(),
{
    js.len() == 0 || {
        let j = js[0];
        &&& 0 <= j < pool.len()
        &&& pool[j] matches Sent::ToShard(m) && !(m is GracefulShutdown)
        &&& valid_run(run_step(sys, pool, j).0, run_step(sys, pool, j).1, js.drop_first())
    }
}

/// The pool after the steps `js`, in order.
pub open spec fn run(sys: Seq<Seq<NodeData>>, pool: Seq<Sent>, js: Seq<int>) -> Seq<Sent>
    decreases js.len(),
{
    if js.len() == 0 {
        pool
    } else {
        let (sys1, pool1) = run_step(sys, pool, js[0]);
        run(sys1, pool1, js.drop_first())
    }
}

/// Completion count over any run. Whatever order shards process in-flight
/// messages in, and however many requests are interleaved, the number of
/// messages of one request in flight plus its completions delivered never
/// changes. A client's request starts as one in-flight message; so when
/// nothing is left in flight, each request has exactly one completion, and
/// K requests of a kind have given K completions of that kind.
pub proof fn lemma_run_conserves_requests(sys: Seq<Seq<NodeData>>, pool: Seq<Sent>, js: Seq<int>, r: ReqId)
    requires
        valid_run(sys, pool, js),
    ensures
        count_req(run(sys, pool, js), r) == count_req(pool, r),
    decreases js.len(),
{
    if js.len() > 0 {
        let j = js[0];
        if let Sent::ToShard(m) = pool[j] {
            let s = shard_at(sys, m.target_of());
            lemma_count_remove(pool, j, r);
            lemma_count_concat(pool.remove(j), s.sends(m), r);
            lemma_request_conserved(s, m, r);
            let (sys1, pool1) = run_step(sys, pool, j);
            lemma_run_conserves_requests(sys1, pool1, js.drop_first(), r);
        }
    }
}

/// One request, one completion: a run that starts from the single message a
/// driver sent for request `r` holds, at every point, exactly one message
/// of `r`, in flight or delivered.
pub proof fn lemma_one_request_one_message(sys: Seq<Seq<NodeData>>, m: ShardMessage, js: Seq<int>, r: ReqId)
    requires
        msg_req(m) == Some(r),
        valid_run(sys, seq![Sent::ToShard(m)], js),
    ensures
        count_req(run(sys, seq![Sent::ToShard(m)], js), r) == 1,
{
    reveal_with_fuel(count_req, 2);
    assert(seq![Sent::ToShard(m)].drop_first() =~= Seq::<Sent>::empty());
    lemma_run_conserves_requests(sys, seq![Sent::ToShard(m)], js, r);
}

/// The kind of request a message serves: node creation, union, find,
/// shutdown, or none for a path compression.
pub open spec fn family(x: Sent) -> int {
    match x {
        Sent::ToShard(m) => match m {
            ShardMessage::AddNode { .. } => 0,
            ShardMessage::Union { .. } => 1,
            ShardMessage::SetChild { .. } => 1,
            ShardMessage::SetSibling { .. } => 1,
            ShardMessage::Find { .. } => 2,
            ShardMessage::GracefulShutdown { .. } => 3,
            ShardMessage::SetParent { .. } => 4,
        },
        Sent::ToDriver(d) => match d {
            DriverMessage::AddNodeDone { .. } => 0,
            DriverMessage::UnionDone { .. } => 1,
            DriverMessage::FindDone { .. } => 2,
            DriverMessage::ShutdownDone { .. } => 3,
        },
    }
}

/// Every message of request `r` in `pool` is of kind `f`.
pub open spec fn request_of_kind(pool: Seq<Sent>, r: ReqId, f: int) -> bool {
    forall|i: int| 0 <= i < pool.len() && sent_req(#[trigger] pool[i]) == Some(r) ==> family(pool[i]) == f
}

/// A step passes a request on within its kind.
pub proof fn lemma_step_keeps_kind(s: ShardView, m: ShardMessage, r: ReqId, f: int)
    requires
        !(m is GracefulShutdown),
        msg_req(m) == Some(r) ==> family(Sent::ToShard(m)) == f,
    ensures
        request_of_kind(s.sends(m), r, f),
{
}

/// Completions match their requests over any run. When every message of
/// request `r` is of one kind at the start, it still is after any run; with
/// `lemma_one_request_one_message`, a request whose messages have all been
/// processed has exactly one completion, and it is the one of its kind:
/// `AddNodeDone` for a new node, `UnionDone` for a union, `FindDone` for a
/// find.
pub proof fn lemma_run_keeps_kind(sys: Seq<Seq<NodeData>>, pool: Seq<Sent>, js: Seq<int>, r: ReqId, f: int)
    requires
        valid_run(sys, pool, js),
        request_of_kind(pool, r, f),
    ensures
        request_of_kind(run(sys, pool, js), r, f),
    decreases js.len(),
{
    if js.len() > 0 {
        let j = js[0];
        if let Sent::ToShard(m) = pool[j] {
            let s = shard_at(sys, m.target_of());
            lemma_step_keeps_kind(s, m, r, f);
            let rest = pool.remove(j);
            let sends = s.sends(m);
            assert forall|i: int| 0 <= i < rest.len() && sent_req(#[trigger] rest[i]) == Some(r) implies family(
                rest[i],
            ) == f by {
                if i < j {
                    assert(rest[i] == pool[i]);
                } else {
                    assert(rest[i] == pool[i + 1]);
                }
            }
            let pool1 = rest + sends;
            assert forall|i: int| 0 <= i < pool1.len() && sent_req(#[trigger] pool1[i]) == Some(r) implies family(
                pool1[i],
            ) == f by {
                if i < rest.len() {
                    assert(pool1[i] == rest[i]);
                } else {
                    assert(pool1[i] == sends[i - rest.len()]);
                }
            }
            let (sys1, p1) = run_step(sys, pool, j);
            assert(p1 == pool1);
            lemma_run_keeps_kind(sys1, p1, js.drop_first(), r, f);
        }
    }
}

} // verus!
