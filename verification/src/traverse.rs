//! The schedule of a traversal: which retrieval starts next, with a bound
//! on how many run at once.

use crate::text::texts_view;
use vstd::prelude::*;

verus! {

/// The state of a traversal.
pub struct TraversalState {
    /// The URLs whose retrieval has not started, in order.
    pub pending: Seq<Seq<char>>,
    /// How many retrievals have started and not ended.
    pub in_flight: nat,
    /// How many retrievals may run at once: at least 1.
    pub limit: nat,
}

impl TraversalState {
    /// The bound holds: no more retrievals run than the limit allows.
    pub open spec fn within_limit(self) -> bool {
        self.in_flight <= self.limit
    }

    /// A retrieval may start: one is pending and a slot is free.
    pub open spec fn can_start(self) -> bool {
        self.pending.len() > 0 && self.in_flight < self.limit
    }

    /// The state after the first pending retrieval has started.
    pub open spec fn started(self) -> TraversalState {
        TraversalState {
            pending: self.pending.drop_first(),
            in_flight: self.in_flight + 1,
            limit: self.limit,
        }
    }

    /// The state after one retrieval has ended, however it ended.
    pub open spec fn ended(self) -> TraversalState {
        TraversalState {
            pending: self.pending,
            in_flight: (self.in_flight - 1) as nat,
            limit: self.limit,
        }
    }

    /// Nothing is pending and nothing runs.
    pub open spec fn done(self) -> bool {
        self.pending.len() == 0 && self.in_flight == 0
    }

    /// The steps that are left: two for each pending retrieval, one for
    /// each that runs.
    pub open spec fn steps_left(self) -> nat {
        2 * self.pending.len() + self.in_flight
    }
}

/// No step of a traversal brings more retrievals in flight than the
/// limit allows.
pub proof fn lemma_limit_is_kept(s: TraversalState)
    requires
        s.within_limit(),
    ensures
        s.can_start() ==> s.started().within_limit(),
        s.in_flight > 0 ==> s.ended().within_limit(),
{
}

/// A traversal runs to its end, whatever becomes of its retrievals: as
/// long as it is not done a retrieval can start or one is running, and
/// each start and each end leaves fewer steps.
pub proof fn lemma_traversal_completes(s: TraversalState)
    requires
        s.limit >= 1,
        s.within_limit(),
    ensures
        s.done() <==> s.steps_left() == 0,
        !s.done() ==> s.can_start() || s.in_flight > 0,
        s.can_start() ==> s.started().steps_left() < s.steps_left(),
        s.in_flight > 0 ==> s.ended().steps_left() < s.steps_left(),
{
}

/// A traversal over the URLs of a listing page.
pub struct Traversal {
    urls: Vec<String>,
    next: usize,
    in_flight: usize,
    limit: usize,
}

impl View for Traversal {
    type V = TraversalState;

    closed spec fn view(&self) -> TraversalState {
        TraversalState {
            pending: texts_view(self.urls@).skip(self.next as int),
            in_flight: self.in_flight as nat,
            limit: self.limit as nat,
        }
    }
}

impl Traversal {
    #[verifier::type_invariant]
    spec fn well_formed(&self) -> bool {
        &&& self.next <= self.urls.len()
        &&& self.in_flight <= self.next
        &&& self.limit >= 1
        &&& self.in_flight <= self.limit
    }

    /// A traversal over `urls` in which at most `limit` retrievals run at
    /// once. `None` exactly for a limit of 0, under which no retrieval
    /// could ever start.
    pub fn new(urls: Vec<String>, limit: usize) -> (r: Option<Traversal>)
        ensures
            r is Some <==> limit >= 1,
            r matches Some(t) ==> t@ == (TraversalState {
                pending: texts_view(urls@),
                in_flight: 0,
                limit: limit as nat,
            }),
    {
        if limit == 0 {
            return None;
        }
        let r = Traversal { urls: urls, next: 0, in_flight: 0, limit: limit };
        assert(texts_view(r.urls@).skip(0) =~= texts_view(r.urls@));
        Some(r)
    }

    /// Starts the next retrieval, if one may start, and hands out its URL.
    pub fn start_next(&mut self) -> (r: Option<String>)
        ensures
            r is Some <==> old(self)@.can_start(),
            match r {
                Some(url) => url@ == old(self)@.pending[0] && final(self)@ == old(self)@.started(),
                None => final(self)@ == old(self)@,
            },
            final(self)@.within_limit(),
    {
        proof {
            use_type_invariant(&*self);
        }
        if self.next < self.urls.len() && self.in_flight < self.limit {
            let url = self.urls[self.next].clone();
            assert(texts_view(self.urls@).skip(self.next as int)[0] == url@);
            assert(texts_view(self.urls@).skip(self.next as int).drop_first() =~= texts_view(
                self.urls@,
            ).skip(self.next + 1));
            self.next = self.next + 1;
            self.in_flight = self.in_flight + 1;
            Some(url)
        } else {
            None
        }
    }

    /// Records that one retrieval has ended, whether it succeeded or
    /// failed. Returns `false`, and changes nothing, where none runs.
    pub fn finish_one(&mut self) -> (r: bool)
        ensures
            r == (old(self)@.in_flight > 0),
            final(self)@ == if r {
                old(self)@.ended()
            } else {
                old(self)@
            },
            final(self)@.within_limit(),
    {
        proof {
            use_type_invariant(&*self);
        }
        if self.in_flight > 0 {
            self.in_flight = self.in_flight - 1;
            true
        } else {
            false
        }
    }

    /// Whether every retrieval has started and ended.
    pub fn is_done(&self) -> (r: bool)
        ensures
            r == self@.done(),
    {
        proof {
            use_type_invariant(self);
        }
        self.next == self.urls.len() && self.in_flight == 0
    }

    /// How many retrievals run: never more than the limit, which is at
    /// least 1.
    pub fn in_flight(&self) -> (r: usize)
        ensures
            r == self@.in_flight,
            self@.within_limit(),
            self@.limit >= 1,
    {
        proof {
            use_type_invariant(self);
        }
        self.in_flight
    }
}

} // verus!
