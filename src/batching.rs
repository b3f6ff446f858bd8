//! Outbound batching: one buffer per destination shard and per destination
//! driver. A buffer that grows past `batch_len`, and every non-empty buffer
//! on a flush, is moved whole to the queue of batches ready for delivery,
//! where the owner of the endpoints takes it from.

use vstd::prelude::*;
use crate::message::ShardMessage;
use crate::request::DriverMessage;
use crate::system::System;

verus! {

/// The contents of a vector of buffers.
pub open spec fn bufs_view<M>(s: Seq<Vec<M>>) -> Seq<Seq<M>> {
    s.map_values(|b: Vec<M>| b@)
}

/// The contents of a queue of (destination, batch) pairs.
pub open spec fn out_view<M>(s: Seq<(usize, Vec<M>)>) -> Seq<(int, Seq<M>)> {
    s.map_values(|p: (usize, Vec<M>)| (p.0 as int, p.1@))
}

/// Buffers and ready queue after `m` was appended to the buffer of `dest`:
/// once that buffer holds more than `batch_len` messages it moves whole to
/// the end of the queue.
pub open spec fn enqueued<M>(
    bufs: Seq<Seq<M>>,
    out: Seq<(int, Seq<M>)>,
    dest: int,
    m: M,
    batch_len: int,
) -> (Seq<Seq<M>>, Seq<(int, Seq<M>)>) {
    let b = bufs[dest].push(m);
    if b.len() > batch_len {
        (bufs.update(dest, Seq::empty()), out.push((dest, b)))
    } else {
        (bufs.update(dest, b), out)
    }
}

/// The non-empty buffers among the first `n`, in destination order, each
/// with its destination.
pub open spec fn nonempty_batches<M>(bufs: Seq<Seq<M>>, n: nat) -> Seq<(int, Seq<M>)>
    decreases n,
{
    if n == 0 {
        Seq::empty()
    } else {
        let prev = nonempty_batches(bufs, (n - 1) as nat);
        if bufs[n - 1].len() > 0 {
            prev.push(((n - 1) as int, bufs[n - 1]))
        } else {
            prev
        }
    }
}

/// `n` empty buffers.
pub open spec fn empty_bufs<M>(n: nat) -> Seq<Seq<M>> {
    Seq::new(n, |i: int| Seq::<M>::empty())
}

/// The abstract state of a `MessageBatching`.
pub ghost struct BatchingView {
    pub batch_len: int,
    pub shard_bufs: Seq<Seq<ShardMessage>>,
    pub driver_bufs: Seq<Seq<DriverMessage>>,
    pub shard_out: Seq<(int, Seq<ShardMessage>)>,
    pub driver_out: Seq<(int, Seq<DriverMessage>)>,
}

impl BatchingView {
    /// The state after a message to a shard was sent.
    pub open spec fn send_shard(self, m: ShardMessage) -> BatchingView {
        let (b, o) = enqueued(self.shard_bufs, self.shard_out, m.target_of(), m, self.batch_len);
        BatchingView { shard_bufs: b, shard_out: o, ..self }
    }

    /// The state after a completion was sent to a driver.
    pub open spec fn send_driver(self, m: DriverMessage) -> BatchingView {
        let (b, o) = enqueued(self.driver_bufs, self.driver_out, m.target_of(), m, self.batch_len);
        BatchingView { driver_bufs: b, driver_out: o, ..self }
    }

    /// The state after a flush.
    pub open spec fn flushed(self) -> BatchingView {
        BatchingView {
            shard_bufs: empty_bufs(self.shard_bufs.len()),
            driver_bufs: empty_bufs(self.driver_bufs.len()),
            shard_out: self.shard_out + nonempty_batches(self.shard_bufs, self.shard_bufs.len()),
            driver_out: self.driver_out + nonempty_batches(self.driver_bufs, self.driver_bufs.len()),
            ..self
        }
    }

    /// A message to shard `m.target_of()` can be buffered.
    pub open spec fn routes_shard(self, m: ShardMessage) -> bool {
        0 <= m.target_of() < self.shard_bufs.len()
    }

    /// A completion for driver `m.target_of()` can be buffered.
    pub open spec fn routes_driver(self, m: DriverMessage) -> bool {
        0 <= m.target_of() < self.driver_bufs.len()
    }
}

/// Outbound buffers of one shard worker or driver.
pub struct MessageBatching {
    pub batch_len: usize,
    shard_message_batches: Vec<Vec<ShardMessage>>,
    driver_message_batches: Vec<Vec<DriverMessage>>,
    ready_shard_batches: Vec<(usize, Vec<ShardMessage>)>,
    ready_driver_batches: Vec<(usize, Vec<DriverMessage>)>,
}

impl View for MessageBatching {
    type V = BatchingView;

    closed spec fn view(&self) -> BatchingView {
        BatchingView {
            batch_len: self.batch_len as int,
            shard_bufs: bufs_view(self.shard_message_batches@),
            driver_bufs: bufs_view(self.driver_message_batches@),
            shard_out: out_view(self.ready_shard_batches@),
            driver_out: out_view(self.ready_driver_batches@),
        }
    }
}

/// Appends `m` to buffer `dest`, moving the buffer to `out` once it holds
/// more than `batch_len` messages.
fn enqueue<M>(
    bufs: &mut Vec<Vec<M>>,
    out: &mut Vec<(usize, Vec<M>)>,
    dest: usize,
    m: M,
    batch_len: usize,
)
    requires
        dest < old(bufs)@.len(),
    ensures
        (bufs_view(final(bufs)@), out_view(final(out)@)) == enqueued(
            bufs_view(old(bufs)@),
            out_view(old(out)@),
            dest as int,
            m,
            batch_len as int,
        ),
{
    let ghost b0 = bufs_view(bufs@);
    let ghost o0 = out_view(out@);
    let mut batch: Vec<M> = Vec::new();
    bufs.set_and_swap(dest, &mut batch);
    batch.push(m);
    if batch.len() > batch_len {
        out.push((dest, batch));
        assert(bufs_view(bufs@) =~= b0.update(dest as int, Seq::empty()));
        assert(out_view(out@) =~= o0.push((dest as int, b0[dest as int].push(m))));
    } else {
        bufs.set_and_swap(dest, &mut batch);
        assert(bufs_view(bufs@) =~= b0.update(dest as int, b0[dest as int].push(m)));
        assert(out_view(out@) =~= o0);
    }
}

/// Moves every non-empty buffer, in destination order, to the end of `out`.
fn flush_all<M>(bufs: &mut Vec<Vec<M>>, out: &mut Vec<(usize, Vec<M>)>)
    ensures
        bufs_view(final(bufs)@) == empty_bufs::<M>(old(bufs)@.len()),
        out_view(final(out)@) == out_view(old(out)@) + nonempty_batches(
            bufs_view(old(bufs)@),
            old(bufs)@.len(),
        ),
{
    let ghost b0 = bufs_view(bufs@);
    let ghost o0 = out_view(out@);
    let n = bufs.len();
    let mut i: usize = 0;
    while i < n
        invariant
            n == bufs@.len(),
            b0.len() == n,
            i <= n,
            forall|j: int| 0 <= j < i ==> (#[trigger] bufs@[j])@ == Seq::<M>::empty(),
            forall|j: int| i <= j < n ==> (#[trigger] bufs@[j])@ == b0[j],
            out_view(out@) == o0 + nonempty_batches(b0, i as nat),
        decreases n - i,
    {
        let mut batch: Vec<M> = Vec::new();
        bufs.set_and_swap(i, &mut batch);
        assert(batch@ == b0[i as int]);
        if batch.len() > 0 {
            let ghost before = out_view(out@);
            out.push((i, batch));
            assert(out_view(out@) =~= before.push((i as int, b0[i as int])));
        }
        assert(o0 + nonempty_batches(b0, (i + 1) as nat) =~= if b0[i as int].len() > 0 {
            (o0 + nonempty_batches(b0, i as nat)).push((i as int, b0[i as int]))
        } else {
            o0 + nonempty_batches(b0, i as nat)
        });
        i = i + 1;
    }
    assert(bufs_view(bufs@) =~= empty_bufs::<M>(n as nat));
}

/// Hands out the queue of ready batches and leaves it empty.
fn take_out<M>(out: &mut Vec<(usize, Vec<M>)>) -> (r: Vec<(usize, Vec<M>)>)
    ensures
        out_view(r@) == out_view(old(out)@),
        out_view(final(out)@) == Seq::<(int, Seq<M>)>::empty(),
{
    let mut r: Vec<(usize, Vec<M>)> = Vec::new();
    std::mem::swap(out, &mut r);
    assert(out_view(out@) =~= Seq::<(int, Seq<M>)>::empty());
    r
}

/// `n` empty buffers.
fn new_bufs<M>(n: usize) -> (r: Vec<Vec<M>>)
    ensures
        bufs_view(r@) == empty_bufs::<M>(n as nat),
{
    let mut r: Vec<Vec<M>> = Vec::new();
    let mut i: usize = 0;
    while i < n
        invariant
            i <= n,
            r@.len() == i,
            forall|j: int| 0 <= j < i ==> (#[trigger] r@[j])@ == Seq::<M>::empty(),
        decreases n - i,
    {
        r.push(Vec::new());
        i = i + 1;
    }
    assert(bufs_view(r@) =~= empty_bufs::<M>(n as nat));
    r
}

impl MessageBatching {
    /// The state of a fresh batching for `system`.
    pub open spec fn new_view(system: &System) -> BatchingView {
        BatchingView {
            batch_len: 50_000,
            shard_bufs: empty_bufs::<ShardMessage>(system.n_shards_of()),
            driver_bufs: empty_bufs::<DriverMessage>(system.n_drivers_of()),
            shard_out: Seq::<(int, Seq<ShardMessage>)>::empty(),
            driver_out: Seq::<(int, Seq<DriverMessage>)>::empty(),
        }
    }

    /// Buffers for every shard and every driver of `system`, all empty.
    pub fn new(system: &System) -> (r: MessageBatching)
        ensures
            r@ == MessageBatching::new_view(system),
    {
        let r = MessageBatching {
            shard_message_batches: new_bufs(system.n_shards()),
            driver_message_batches: new_bufs(system.n_drivers()),
            ready_shard_batches: Vec::new(),
            ready_driver_batches: Vec::new(),
            batch_len: 50_000,
        };
        assert(out_view(r.ready_shard_batches@) =~= Seq::<(int, Seq<ShardMessage>)>::empty());
        assert(out_view(r.ready_driver_batches@) =~= Seq::<(int, Seq<DriverMessage>)>::empty());
        r
    }

    /// Number of shards this batching can address.
    pub fn n_shards(&self) -> (r: usize)
        ensures
            r == self@.shard_bufs.len(),
    {
        self.shard_message_batches.len()
    }

    /// Number of drivers this batching can address.
    pub fn n_drivers(&self) -> (r: usize)
        ensures
            r == self@.driver_bufs.len(),
    {
        self.driver_message_batches.len()
    }

    pub fn send_to_shard(&mut self, message: ShardMessage)
        requires
            old(self)@.routes_shard(message),
        ensures
            final(self)@ == old(self)@.send_shard(message),
    {
        let target_shard = message.target_shard();
        enqueue(
            &mut self.shard_message_batches,
            &mut self.ready_shard_batches,
            target_shard,
            message,
            self.batch_len,
        );
    }

    pub fn send_to_driver(&mut self, message: DriverMessage)
        requires
            old(self)@.routes_driver(message),
        ensures
            final(self)@ == old(self)@.send_driver(message),
    {
        let target_driver = message.target_driver();
        enqueue(
            &mut self.driver_message_batches,
            &mut self.ready_driver_batches,
            target_driver,
            message,
            self.batch_len,
        );
    }

    /// Moves every non-empty buffer to the ready queues.
    pub fn flush(&mut self)
        ensures
            final(self)@ == old(self)@.flushed(),
    {
        flush_all(&mut self.shard_message_batches, &mut self.ready_shard_batches);
        flush_all(&mut self.driver_message_batches, &mut self.ready_driver_batches);
    }

    /// Takes the batches ready for shards, oldest first.
    pub fn take_shard_batches(&mut self) -> (r: Vec<(usize, Vec<ShardMessage>)>)
        ensures
            out_view(r@) == old(self)@.shard_out,
            final(self)@ == (BatchingView { shard_out: Seq::empty(), ..old(self)@ }),
    {
        take_out(&mut self.ready_shard_batches)
    }

    /// Takes the batches ready for drivers, oldest first.
    pub fn take_driver_batches(&mut self) -> (r: Vec<(usize, Vec<DriverMessage>)>)
        ensures
            out_view(r@) == old(self)@.driver_out,
            final(self)@ == (BatchingView { driver_out: Seq::empty(), ..old(self)@ }),
    {
        take_out(&mut self.ready_driver_batches)
    }
}

} // verus!
