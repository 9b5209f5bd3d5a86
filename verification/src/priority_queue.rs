use rbtree::RBTree;
use vstd::multiset::Multiset;
use vstd::prelude::*;

use crate::http2::{FlowControl, PriorityWeights};

verus! {

broadcast use vstd::multiset::group_multiset_axioms;

#[verifier::external_type_specification]
#[verifier::external_body]
#[verifier::reject_recursive_types(K)]
#[verifier::reject_recursive_types(V)]
pub struct ExRBTree<K: Ord, V>(RBTree<K, V>);

/// A frame waiting to be sent: its key (the stream's weight, then the
/// order in which it was queued) and whether it is a DATA frame.
pub type QueuedFrame = ((u8, u64), bool);

/// What the send queue holds.
pub uninterp spec fn queue_items(t: RBTree<(u8, u64), bool>) -> Multiset<((u8, u64), bool)>;

/// The order of keys: by weight, then by queueing order (the order std
/// documents for tuples).
pub open spec fn key_le(a: (u8, u64), b: (u8, u64)) -> bool {
    a.0 < b.0 || (a.0 == b.0 && a.1 <= b.1)
}

/// `item` is in `m` and no key in `m` is smaller.
pub open spec fn is_least(m: Multiset<QueuedFrame>, item: QueuedFrame) -> bool {
    &&& m.count(item) > 0
    &&& forall|x: QueuedFrame| #[trigger] m.count(x) > 0 ==> key_le(item.0, x.0)
}

/// `RBTree::new` of rbtree: an empty tree.
#[verifier::external_body]
fn queue_new() -> (r: RBTree<(u8, u64), bool>)
    ensures
        queue_items(r) == Multiset::<QueuedFrame>::empty(),
{
    RBTree::new()
}

/// `RBTree::insert` of rbtree: the pair joins the tree (equal keys are
/// kept side by side, nothing is replaced).
#[verifier::external_body]
fn queue_insert(t: &mut RBTree<(u8, u64), bool>, k: (u8, u64), v: bool)
    ensures
        queue_items(*final(t)) == queue_items(*old(t)).insert((k, v)),
{
    t.insert(k, v)
}

/// `RBTree::is_empty` of rbtree: whether the tree holds nothing.
#[verifier::external_body]
fn queue_is_empty(t: &RBTree<(u8, u64), bool>) -> (r: bool)
    ensures
        r == (queue_items(*t).len() == 0),
{
    t.is_empty()
}

/// `RBTree::get_first` of rbtree, the pair copied out: a pair with the
/// smallest key, `None` when the tree is empty.
#[verifier::external_body]
fn queue_first(t: &RBTree<(u8, u64), bool>) -> (r: Option<QueuedFrame>)
    ensures
        r is None <==> queue_items(*t).len() == 0,
        r matches Some(item) ==> is_least(queue_items(*t), item),
{
    match t.get_first() {
        Some((k, v)) => Some((*k, *v)),
        None => None,
    }
}

/// `RBTree::pop_first` of rbtree: takes out a pair with the smallest key,
/// `None` when the tree is empty.
#[verifier::external_body]
fn queue_pop_first(t: &mut RBTree<(u8, u64), bool>) -> (r: Option<QueuedFrame>)
    ensures
        r is None <==> queue_items(*old(t)).len() == 0,
        r is None ==> queue_items(*final(t)) == queue_items(*old(t)),
        r matches Some(item) ==> is_least(queue_items(*old(t)), item)
            && queue_items(*final(t)) == queue_items(*old(t)).remove(item),
{
    t.pop_first()
}

/// The frames `flags` (true: a DATA frame) of a stream of weight `w`,
/// queued in order from position `start` on.
pub open spec fn spec_batch(w: u8, start: u64, flags: Seq<bool>) -> Multiset<QueuedFrame>
    decreases flags.len(),
{
    if flags.len() == 0 {
        Multiset::empty()
    } else {
        spec_batch(w, start, flags.drop_last()).insert(((w, (start + flags.len() - 1) as u64), flags.last()))
    }
}

proof fn lemma_batch_positions(w: u8, start: u64, flags: Seq<bool>)
    requires
        start + flags.len() <= u64::MAX,
    ensures
        forall|x: QueuedFrame| #[trigger] spec_batch(w, start, flags).count(x) > 0 ==> x.0.0 == w && start <= x.0.1 < start + flags.len(),
        forall|x: QueuedFrame| #[trigger] spec_batch(w, start, flags).count(x) <= 1,
    decreases flags.len(),
{
    if flags.len() > 0 {
        let prev = flags.drop_last();
        lemma_batch_positions(w, start, prev);
        let new_item: QueuedFrame = ((w, (start + flags.len() - 1) as u64), flags.last());
        let b = spec_batch(w, start, flags);
        assert(b == spec_batch(w, start, prev).insert(new_item));
        assert(spec_batch(w, start, prev).count(new_item) == 0);
        assert forall|x: QueuedFrame| #[trigger] b.count(x) > 0 implies x.0.0 == w && start <= x.0.1 < start + flags.len() by {
            if x != new_item {
                assert(b.count(x) == spec_batch(w, start, prev).count(x));
            }
        }
        assert forall|x: QueuedFrame| #[trigger] b.count(x) <= 1 by {
            if x != new_item {
                assert(b.count(x) == spec_batch(w, start, prev).count(x));
            } else {
                assert(b.count(x) == spec_batch(w, start, prev).count(x) + 1);
            }
        }
    }
}

proof fn lemma_batch_unique_keys(w: u8, start: u64, flags: Seq<bool>, x: QueuedFrame, y: QueuedFrame)
    requires
        start + flags.len() <= u64::MAX,
        spec_batch(w, start, flags).count(x) > 0,
        spec_batch(w, start, flags).count(y) > 0,
        x.0 == y.0,
    ensures
        x == y,
    decreases flags.len(),
{
    if flags.len() > 0 {
        let prev = flags.drop_last();
        lemma_batch_positions(w, start, prev);
        let new_item: QueuedFrame = ((w, (start + flags.len() - 1) as u64), flags.last());
        let b = spec_batch(w, start, flags);
        assert(b == spec_batch(w, start, prev).insert(new_item));
        if x != new_item && y != new_item {
            assert(spec_batch(w, start, prev).count(x) > 0);
            assert(spec_batch(w, start, prev).count(y) > 0);
            lemma_batch_unique_keys(w, start, prev, x, y);
        } else if x != new_item {
            assert(spec_batch(w, start, prev).count(x) > 0);
        } else if y != new_item {
            assert(spec_batch(w, start, prev).count(y) > 0);
        }
    }
}

/// Frames leave the queue in order: the frame taken after another never
/// has a smaller key (lighter streams first, and within a weight the order
/// of queueing).
pub proof fn law_send_order(m: Multiset<QueuedFrame>, first: QueuedFrame, second: QueuedFrame)
    requires
        is_least(m, first),
        is_least(m.remove(first), second),
    ensures
        key_le(first.0, second.0),
{
    assert(m.remove(first).count(second) > 0);
    assert(m.count(second) > 0);
}

/// The frames waiting to be sent on an HTTP/2 connection, taken lightest
/// stream first and, within a weight, in the order they were queued; the
/// weights announced by the peer; and the connection's flow-control window.
pub struct PriorityQueue {
    pub send_queue: RBTree<(u8, u64), bool>,
    pub weights: PriorityWeights,
    pub flow_control: FlowControl,
    pub next_seq: u64,
}

impl PriorityQueue {
    /// Every queued frame has a position below `next_seq`, and no two
    /// queued frames share a key.
    pub open spec fn wf(&self) -> bool {
        let m = queue_items(self.send_queue);
        &&& forall|x: QueuedFrame| #[trigger] m.count(x) > 0 ==> x.0.1 < self.next_seq
        &&& forall|x: QueuedFrame, y: QueuedFrame| #[trigger] m.count(x) > 0 && #[trigger] m.count(y) > 0 && x.0 == y.0 ==> x == y
        &&& forall|x: QueuedFrame| #[trigger] m.count(x) <= 1
    }

    /// An empty queue and a window of `init_window_size` bytes.
    pub fn new(init_window_size: u32) -> (r: PriorityQueue)
        ensures
            r.wf(),
            queue_items(r.send_queue) == Multiset::<QueuedFrame>::empty(),
            r.weights.hash_weight@ == Map::<u32, u8>::empty().insert(0, 255),
            r.weights.hash_depend@ == Map::<u32, u32>::empty(),
            r.flow_control.window_size == init_window_size as i32,
            r.flow_control.available == init_window_size as i32,
            r.next_seq == 0,
    {
        PriorityQueue {
            send_queue: queue_new(),
            weights: PriorityWeights::new(),
            flow_control: FlowControl::new(init_window_size),
            next_seq: 0,
        }
    }

    /// Nothing waits to be sent.
    pub fn is_empty(&self) -> (r: bool)
        ensures
            r == (queue_items(self.send_queue).len() == 0),
    {
        queue_is_empty(&self.send_queue)
    }

    /// Queues the frames of stream `stream_id` (`frames_is_data[i]`: the
    /// i-th frame is a DATA frame) at the stream's weight; answers the
    /// position given to each, in order.
    pub fn send_frames(&mut self, stream_id: u32, frames_is_data: &[bool]) -> (r: Vec<u64>)
        requires
            old(self).wf(),
            old(self).next_seq + frames_is_data@.len() <= u64::MAX,
        ensures
            final(self).wf(),
            ({
                let w = if old(self).weights.hash_weight@.contains_key(stream_id) {
                    old(self).weights.hash_weight@[stream_id]
                } else {
                    0
                };
                queue_items(final(self).send_queue) == queue_items(old(self).send_queue).add(
                    spec_batch(w, old(self).next_seq, frames_is_data@),
                )
            }),
            final(self).next_seq == old(self).next_seq + frames_is_data@.len(),
            r@.len() == frames_is_data@.len(),
            forall|i: int| 0 <= i < r@.len() ==> #[trigger] r@[i] == old(self).next_seq + i,
            final(self).weights == old(self).weights,
            final(self).flow_control == old(self).flow_control,
    {
        let w = self.weights.weight(stream_id);
        let ghost start = self.next_seq;
        let ghost m0 = queue_items(self.send_queue);
        let mut out: Vec<u64> = Vec::new();
        let mut i: usize = 0;
        while i < frames_is_data.len()
            invariant
                i <= frames_is_data@.len(),
                start + frames_is_data@.len() <= u64::MAX,
                self.next_seq == start + i,
                queue_items(self.send_queue) == m0.add(spec_batch(w, start, frames_is_data@.take(i as int))),
                out@.len() == i,
                forall|j: int| 0 <= j < i ==> #[trigger] out@[j] == start + j,
                forall|x: QueuedFrame| #[trigger] m0.count(x) > 0 ==> x.0.1 < start,
                forall|x: QueuedFrame, y: QueuedFrame| #[trigger] m0.count(x) > 0 && #[trigger] m0.count(y) > 0 && x.0 == y.0 ==> x == y,
                forall|x: QueuedFrame| #[trigger] m0.count(x) <= 1,
                self.weights == old(self).weights,
                self.flow_control == old(self).flow_control,
            decreases frames_is_data@.len() - i,
        {
            let seq = self.next_seq;
            let is_data = frames_is_data[i];
            queue_insert(&mut self.send_queue, (w, seq), is_data);
            proof {
                let t = frames_is_data@.take(i as int + 1);
                assert(t.drop_last() =~= frames_is_data@.take(i as int));
                assert(t.last() == is_data);
                assert(spec_batch(w, start, t) == spec_batch(w, start, frames_is_data@.take(i as int)).insert(((w, seq), is_data)));
                assert(queue_items(self.send_queue) =~= m0.add(spec_batch(w, start, t)));
            }
            out.push(seq);
            self.next_seq = seq + 1;
            i = i + 1;
        }
        proof {
            assert(frames_is_data@.take(frames_is_data@.len() as int) =~= frames_is_data@);
            let b = spec_batch(w, start, frames_is_data@);
            lemma_batch_positions(w, start, frames_is_data@);
            let m = queue_items(self.send_queue);
            assert forall|x: QueuedFrame| #[trigger] m.count(x) > 0 implies x.0.1 < self.next_seq by {
                assert(m.count(x) == m0.count(x) + b.count(x));
            }
            assert forall|x: QueuedFrame, y: QueuedFrame| #[trigger] m.count(x) > 0 && #[trigger] m.count(y) > 0 && x.0 == y.0 implies x == y by {
                assert(m.count(x) == m0.count(x) + b.count(x));
                assert(m.count(y) == m0.count(y) + b.count(y));
                if m0.count(x) > 0 && b.count(y) > 0 {
                    assert(x.0.1 < start);
                }
                if b.count(x) > 0 && m0.count(y) > 0 {
                    assert(y.0.1 < start);
                }
                if b.count(x) > 0 && b.count(y) > 0 {
                    lemma_batch_unique_keys(w, start, frames_is_data@, x, y);
                }
            }
            assert forall|x: QueuedFrame| #[trigger] m.count(x) <= 1 by {
                assert(m.count(x) == m0.count(x) + b.count(x));
                if m0.count(x) > 0 {
                    assert(x.0.1 < start);
                    if b.count(x) > 0 {
                        assert(start <= x.0.1);
                    }
                }
            }
        }
        out
    }

    /// The next frame to hand to the connection, when it can take one:
    /// none when nothing waits; else the first frame, unless the window is
    /// closed and that frame is DATA (it waits for the window).
    pub fn next_to_send(&mut self) -> (r: Option<u64>)
        requires
            old(self).wf(),
        ensures
            final(self).wf(),
            final(self).weights == old(self).weights,
            final(self).flow_control == old(self).flow_control,
            final(self).next_seq == old(self).next_seq,
            queue_items(old(self).send_queue).len() == 0 ==> r is None
                && queue_items(final(self).send_queue) == queue_items(old(self).send_queue),
            queue_items(old(self).send_queue).len() > 0 ==> {
                let m = queue_items(old(self).send_queue);
                exists|item: QueuedFrame| #[trigger] is_least(m, item) && if old(self).flow_control.available <= 0 && item.1 {
                    r is None && queue_items(final(self).send_queue) == m
                } else {
                    r == Some(item.0.1) && queue_items(final(self).send_queue) == m.remove(item)
                }
            },
    {
        if queue_is_empty(&self.send_queue) {
            return None;
        }
        let ghost m = queue_items(self.send_queue);
        if self.flow_control.is_available() {
            let popped = queue_pop_first(&mut self.send_queue);
            match popped {
                Some(item) => {
                    proof {
                        self.lemma_remove_keeps_wf(m, item);
                    }
                    Some((item.0).1)
                },
                None => None,
            }
        } else {
            let first = queue_first(&self.send_queue);
            match first {
                Some(item) => {
                    if item.1 {
                        None
                    } else {
                        let popped = queue_pop_first(&mut self.send_queue);
                        match popped {
                            Some(p) => {
                                proof {
                                    assert(m.count(item) > 0 && m.count(p) > 0);
                                    assert(key_le(item.0, p.0) && key_le(p.0, item.0));
                                    assert(item.0 == p.0);
                                    self.lemma_remove_keeps_wf(m, p);
                                }
                                Some((p.0).1)
                            },
                            None => None,
                        }
                    }
                },
                None => None,
            }
        }
    }

    proof fn lemma_remove_keeps_wf(&self, m: Multiset<QueuedFrame>, item: QueuedFrame)
        requires
            m.count(item) > 0,
            queue_items(self.send_queue) == m.remove(item),
            forall|x: QueuedFrame| #[trigger] m.count(x) > 0 ==> x.0.1 < self.next_seq,
            forall|x: QueuedFrame, y: QueuedFrame| #[trigger] m.count(x) > 0 && #[trigger] m.count(y) > 0 && x.0 == y.0 ==> x == y,
            forall|x: QueuedFrame| #[trigger] m.count(x) <= 1,
        ensures
            self.wf(),
    {
        let n = queue_items(self.send_queue);
        assert forall|x: QueuedFrame| #[trigger] n.count(x) <= m.count(x) by {
            if x == item {
            } else {
            }
        }
    }
}

} // verus!
