//! The live streaming subscriptions, each polled once per tick until it ends.

use vstd::prelude::*;

verus! {

/// A live subscription: the message that opened it, and its streaming handler.
pub struct ActiveStream<M, S>(pub M, pub S);

/// The items of `s` whose flag in `keep` is set, in their order.
pub open spec fn kept<T>(s: Seq<T>, keep: Seq<bool>) -> Seq<T>
    decreases s.len(),
{
    if s.len() == 0 {
        Seq::empty()
    } else {
        let rest = kept(s.drop_first(), keep.drop_first());
        if keep[0] {
            seq![s[0]] + rest
        } else {
            rest
        }
    }
}

/// The live subscriptions, in the order they were opened.
pub struct ActiveStreams<M, S> {
    streams: Vec<ActiveStream<M, S>>,
}

impl<M, S> View for ActiveStreams<M, S> {
    type V = Seq<ActiveStream<M, S>>;

    closed spec fn view(&self) -> Seq<ActiveStream<M, S>> {
        self.streams@
    }
}

impl<M, S> ActiveStreams<M, S> {
    /// No subscriptions.
    pub fn new() -> (r: Self)
        ensures
            r@ == Seq::<ActiveStream<M, S>>::empty(),
    {
        ActiveStreams { streams: Vec::new() }
    }

    /// The number of live subscriptions.
    pub fn len(&self) -> (r: usize)
        ensures
            r == self@.len(),
    {
        self.streams.len()
    }

    /// The subscription at position `i`.
    pub fn get(&self, i: usize) -> (r: &ActiveStream<M, S>)
        requires
            i < self@.len(),
        ensures
            *r == self@[i as int],
    {
        &self.streams[i]
    }

    /// Opens a subscription for `message`, served by `handler`.
    pub fn subscribe(&mut self, message: M, handler: S)
        ensures
            final(self)@ == old(self)@.push(ActiveStream(message, handler)),
    {
        self.streams.push(ActiveStream(message, handler));
    }

    /// Keeps the subscriptions whose flag is set and drops the others, each
    /// exactly once; the order of those kept does not change.
    pub fn retain_marked(&mut self, keep: &Vec<bool>)
        requires
            keep@.len() == old(self)@.len(),
        ensures
            final(self)@ == kept(old(self)@, keep@),
    {
        let ghost all = self.streams@;
        let ghost flags = keep@;
        let mut i: usize = self.streams.len();
        assert(all.skip(all.len() as int) =~= Seq::<ActiveStream<M, S>>::empty());
        assert(all.take(all.len() as int) =~= all);
        assert(self.streams@ =~= all.take(i as int) + kept(
            all.skip(i as int),
            flags.skip(i as int),
        ));
        while i > 0
            invariant
                i <= all.len(),
                flags.len() == all.len(),
                flags == keep@,
                self.streams@ == all.take(i as int) + kept(all.skip(i as int), flags.skip(i as int)),
            decreases i,
        {
            let ghost tail = kept(all.skip(i as int), flags.skip(i as int));
            i = i - 1;
            assert(all.skip(i as int).drop_first() =~= all.skip(i + 1));
            assert(flags.skip(i as int).drop_first() =~= flags.skip(i + 1));
            if !keep[i] {
                self.streams.remove(i);
                assert(self.streams@ =~= all.take(i as int) + tail);
            } else {
                assert(all.take(i + 1) + tail =~= all.take(i as int) + (seq![all[i as int]] + tail));
            }
        }
        assert(all.skip(0) =~= all);
        assert(flags.skip(0) =~= flags);
        assert(all.take(0) + kept(all, flags) =~= kept(all, flags));
    }
} // impl

} // verus!
