//! Joining two concurrent sub-requests.
//!
//! The two sub-requests are sent at once and their replies are taken in
//! whatever order they come back. The first reply of each sub-request
//! counts; a later one for the same sub-request is ignored. As soon as one
//! sub-request fails the join fails with that error, and when both have
//! answered the replies are handed out in request order.

use crate::step::Step;
use vstd::prelude::*;

verus! {

/// A reply to one of two concurrent sub-requests.
#[derive(Debug, PartialEq, Eq)]
pub enum Arrival2<A, B, E> {
    /// The first sub-request answered.
    First(Result<A, E>),
    /// The second sub-request answered.
    Second(Result<B, E>),
}

impl<A, B, E> Arrival2<A, B, E> {
    /// The position of the sub-request that this reply belongs to.
    pub open spec fn slot(self) -> int {
        match self {
            Arrival2::First(_) => 0,
            Arrival2::Second(_) => 1,
        }
    }

    /// Whether the sub-request failed.
    pub open spec fn is_failure(self) -> bool {
        match self {
            Arrival2::First(reply) => reply is Err,
            Arrival2::Second(reply) => reply is Err,
        }
    }

    /// The error of a failed sub-request.
    pub open spec fn error(self) -> E
        recommends
            self.is_failure(),
    {
        match self {
            Arrival2::First(reply) => reply->Err_0,
            Arrival2::Second(reply) => reply->Err_0,
        }
    }
}

/// The replies collected so far for two concurrent sub-requests.
#[derive(Debug, PartialEq, Eq)]
pub struct Join2<A, B> {
    /// The first sub-request's reply, once it has come.
    pub first: Option<A>,
    /// The second sub-request's reply, once it has come.
    pub second: Option<B>,
}

impl<A, B> Join2<A, B> {
    /// The join with no reply yet.
    pub open spec fn empty() -> Self {
        Join2 { first: None, second: None }
    }

    /// Whether the sub-request at `slot` has answered.
    pub open spec fn answered(self, slot: int) -> bool {
        if slot == 0 {
            self.first is Some
        } else {
            slot == 1 && self.second is Some
        }
    }

    /// Hands the replies out once both are there.
    pub open spec fn settle<E>(self) -> Step<Self, (A, B), E> {
        match (self.first, self.second) {
            (Some(a), Some(b)) => Step::Ready((a, b)),
            _ => Step::Pending(self),
        }
    }

    /// The join after one more reply.
    pub open spec fn step<E>(self, arrival: Arrival2<A, B, E>) -> Step<Self, (A, B), E> {
        match arrival {
            Arrival2::First(reply) => match (self.first, reply) {
                (Some(_), _) => self.settle(),
                (None, Err(e)) => Step::Failed(e),
                (None, Ok(a)) => (Join2 { first: Some(a), second: self.second }).settle(),
            },
            Arrival2::Second(reply) => match (self.second, reply) {
                (Some(_), _) => self.settle(),
                (None, Err(e)) => Step::Failed(e),
                (None, Ok(b)) => (Join2 { first: self.first, second: Some(b) }).settle(),
            },
        }
    }

    /// The join after a run of replies, in the order in which they came.
    /// Replies that come after the join has settled are not looked at.
    pub open spec fn run<E>(self, arrivals: Seq<Arrival2<A, B, E>>) -> Step<Self, (A, B), E>
        decreases arrivals.len(),
    {
        if arrivals.len() == 0 {
            Step::Pending(self)
        } else {
            match self.step(arrivals[0]) {
                Step::Pending(next) => next.run(arrivals.drop_first()),
                settled => settled,
            }
        }
    }

    /// Starts a join of two sub-requests.
    pub fn new() -> (join: Self)
        ensures
            join == Self::empty(),
    {
        Join2 { first: None, second: None }
    }

    /// Takes in one reply.
    pub fn arrive<E>(self, arrival: Arrival2<A, B, E>) -> (next: Step<Self, (A, B), E>)
        ensures
            next == self.step(arrival),
    {
        let Join2 { first, second } = self;
        match arrival {
            Arrival2::First(reply) => match (first, reply) {
                (Some(a), _) => Self::close(Some(a), second),
                (None, Err(e)) => Step::Failed(e),
                (None, Ok(a)) => Self::close(Some(a), second),
            },
            Arrival2::Second(reply) => match (second, reply) {
                (Some(b), _) => Self::close(first, Some(b)),
                (None, Err(e)) => Step::Failed(e),
                (None, Ok(b)) => Self::close(first, Some(b)),
            },
        }
    }

    // Hands the replies out if all are there, and the join back if not.
    fn close<E>(first: Option<A>, second: Option<B>) -> (next: Step<Self, (A, B), E>)
        ensures
            next == (Join2 { first, second }).settle::<E>(),
    {
        match (first, second) {
            (Some(a), Some(b)) => Step::Ready((a, b)),
            (first, second) => Step::Pending(Join2 { first, second }),
        }
    }
}

/// Whether `arrival` stands at index `at` of `arrivals` and is the first
/// reply there of its sub-request.
pub open spec fn first_reply2<A, B, E>(
    arrivals: Seq<Arrival2<A, B, E>>,
    at: int,
    arrival: Arrival2<A, B, E>,
) -> bool {
    &&& 0 <= at < arrivals.len()
    &&& arrivals[at] == arrival
    &&& forall|k: int| 0 <= k < at ==> (#[trigger] arrivals[k]).slot() != arrival.slot()
}

// `lemma_join2_any_order`, from any join that still waits.
proof fn lemma_join2_collects<A, B, E>(
    join: Join2<A, B>,
    arrivals: Seq<Arrival2<A, B, E>>,
    a: A,
    b: B,
    i: int,
    j: int,
)
    requires
        !(join.first is Some && join.second is Some),
        match join.first {
            Some(x) => x == a,
            None => first_reply2(arrivals, i, Arrival2::First(Ok(a))),
        },
        match join.second {
            Some(x) => x == b,
            None => first_reply2(arrivals, j, Arrival2::Second(Ok(b))),
        },
    ensures
        join.run(arrivals) == Step::<Join2<A, B>, (A, B), E>::Ready((a, b)),
    decreases arrivals.len(),
{
    let rest = arrivals.drop_first();
    assert(forall|k: int| 0 <= k < rest.len() ==> rest[k] == arrivals[k + 1]);
    match join.step(arrivals[0]) {
        Step::Pending(next) => {
            lemma_join2_collects(next, rest, a, b, i - 1, j - 1);
        },
        _ => {},
    }
}

/// The order of arrival does not matter: once the first reply of each of the
/// two sub-requests is a success, the join hands out those two replies in
/// request order, wherever in the run they stand and whatever repeats come
/// between them.
pub proof fn lemma_join2_any_order<A, B, E>(
    arrivals: Seq<Arrival2<A, B, E>>,
    a: A,
    b: B,
    i: int,
    j: int,
)
    requires
        first_reply2(arrivals, i, Arrival2::First(Ok(a))),
        first_reply2(arrivals, j, Arrival2::Second(Ok(b))),
    ensures
        Join2::<A, B>::empty().run(arrivals) == Step::<Join2<A, B>, (A, B), E>::Ready((a, b)),
{
    lemma_join2_collects(Join2::<A, B>::empty(), arrivals, a, b, i, j);
}

// `lemma_join2_fail_fast`, from any join that still waits.
proof fn lemma_join2_fails<A, B, E>(join: Join2<A, B>, arrivals: Seq<Arrival2<A, B, E>>, at: int)
    requires
        0 <= at < arrivals.len(),
        arrivals[at].is_failure(),
        !join.answered(arrivals[at].slot()),
        forall|k: int|
            0 <= k < at ==> !(#[trigger] arrivals[k]).is_failure() && arrivals[k].slot()
                != arrivals[at].slot(),
    ensures
        join.run(arrivals) == Step::<Join2<A, B>, (A, B), E>::Failed(arrivals[at].error()),
    decreases arrivals.len(),
{
    let rest = arrivals.drop_first();
    assert(forall|k: int| 0 <= k < rest.len() ==> rest[k] == arrivals[k + 1]);
    if at > 0 {
        assert(!arrivals[0].is_failure() && arrivals[0].slot() != arrivals[at].slot());
        match join.step(arrivals[0]) {
            Step::Pending(next) => {
                lemma_join2_fails(next, rest, at - 1);
            },
            _ => {},
        }
    }
}

/// The failure that comes first decides: when a sub-request fails before it
/// has answered and before any other has failed, the join ends at once with
/// that very error, and no later reply is looked at.
pub proof fn lemma_join2_fail_fast<A, B, E>(arrivals: Seq<Arrival2<A, B, E>>, at: int)
    requires
        0 <= at < arrivals.len(),
        arrivals[at].is_failure(),
        forall|k: int|
            0 <= k < at ==> !(#[trigger] arrivals[k]).is_failure() && arrivals[k].slot()
                != arrivals[at].slot(),
    ensures
        Join2::<A, B>::empty().run(arrivals) == Step::<Join2<A, B>, (A, B), E>::Failed(
            arrivals[at].error(),
        ),
{
    lemma_join2_fails(Join2::<A, B>::empty(), arrivals, at);
}

// `lemma_join2_ready_is_whole`, from any join that still waits.
proof fn lemma_join2_ready_from<A, B, E>(
    join: Join2<A, B>,
    arrivals: Seq<Arrival2<A, B, E>>,
    a: A,
    b: B,
) -> (at: (int, int))
    requires
        !(join.first is Some && join.second is Some),
        join.run(arrivals) == Step::<Join2<A, B>, (A, B), E>::Ready((a, b)),
    ensures
        match join.first {
            Some(x) => x == a,
            None => first_reply2(arrivals, at.0, Arrival2::First(Ok(a))),
        },
        match join.second {
            Some(x) => x == b,
            None => first_reply2(arrivals, at.1, Arrival2::Second(Ok(b))),
        },
    decreases arrivals.len(),
{
    let rest = arrivals.drop_first();
    assert(forall|n: int| 0 <= n < rest.len() ==> rest[n] == arrivals[n + 1]);
    match join.step(arrivals[0]) {
        Step::Pending(next) => {
            let tail = lemma_join2_ready_from(next, rest, a, b);
            let i = if next.first is Some { 0 } else { tail.0 + 1 };
            let j = if next.second is Some { 0 } else { tail.1 + 1 };
            assert forall|n: int| 0 < n < arrivals.len() implies #[trigger] arrivals[n] == rest[n
                - 1] by {}
            (i, j)
        },
        _ => (0, 0),
    }
}

/// No partial result: a join hands out replies only when the first reply of
/// each of the two sub-requests was a success, and then hands out exactly
/// those. The result says where in the run they stand.
pub proof fn lemma_join2_ready_is_whole<A, B, E>(
    arrivals: Seq<Arrival2<A, B, E>>,
    a: A,
    b: B,
) -> (at: (int, int))
    requires
        Join2::<A, B>::empty().run(arrivals) == Step::<Join2<A, B>, (A, B), E>::Ready((a, b)),
    ensures
        first_reply2(arrivals, at.0, Arrival2::First(Ok(a))),
        first_reply2(arrivals, at.1, Arrival2::Second(Ok(b))),
{
    lemma_join2_ready_from(Join2::<A, B>::empty(), arrivals, a, b)
}

// `lemma_join2_error_is_a_reply`, from any join.
proof fn lemma_join2_failed_from<A, B, E>(
    join: Join2<A, B>,
    arrivals: Seq<Arrival2<A, B, E>>,
    e: E,
) -> (at: int)
    requires
        join.run(arrivals) == Step::<Join2<A, B>, (A, B), E>::Failed(e),
    ensures
        0 <= at < arrivals.len(),
        arrivals[at].is_failure(),
        arrivals[at].error() == e,
    decreases arrivals.len(),
{
    let rest = arrivals.drop_first();
    assert(forall|n: int| 0 <= n < rest.len() ==> rest[n] == arrivals[n + 1]);
    match join.step(arrivals[0]) {
        Step::Pending(next) => lemma_join2_failed_from(next, rest, e) + 1,
        _ => 0,
    }
}

/// The error of a failed join is the error of one of its sub-requests: the
/// result says which reply brought it.
pub proof fn lemma_join2_error_is_a_reply<A, B, E>(
    arrivals: Seq<Arrival2<A, B, E>>,
    e: E,
) -> (at: int)
    requires
        Join2::<A, B>::empty().run(arrivals) == Step::<Join2<A, B>, (A, B), E>::Failed(e),
    ensures
        0 <= at < arrivals.len(),
        arrivals[at].is_failure(),
        arrivals[at].error() == e,
{
    lemma_join2_failed_from(Join2::<A, B>::empty(), arrivals, e)
}

// `lemma_join2_failure_fails`, from any join that still waits.
proof fn lemma_join2_cannot_succeed<A, B, E>(
    join: Join2<A, B>,
    arrivals: Seq<Arrival2<A, B, E>>,
    at: int,
)
    requires
        first_reply2(arrivals, at, arrivals[at]),
        arrivals[at].is_failure(),
        !join.answered(arrivals[at].slot()),
    ensures
        join.run(arrivals) is Failed,
    decreases arrivals.len(),
{
    let rest = arrivals.drop_first();
    assert(forall|n: int| 0 <= n < rest.len() ==> rest[n] == arrivals[n + 1]);
    if at > 0 {
        assert(arrivals[0].slot() != arrivals[at].slot());
        match join.step(arrivals[0]) {
            Step::Pending(next) => {
                lemma_join2_cannot_succeed(next, rest, at - 1);
            },
            _ => {},
        }
    }
}

/// One failure fails the whole join: if the first reply of either
/// sub-request is a failure, the join fails, however the replies are
/// ordered and whatever the other sub-request answers.
pub proof fn lemma_join2_failure_fails<A, B, E>(arrivals: Seq<Arrival2<A, B, E>>, at: int)
    requires
        first_reply2(arrivals, at, arrivals[at]),
        arrivals[at].is_failure(),
    ensures
        Join2::<A, B>::empty().run(arrivals) is Failed,
{
    lemma_join2_cannot_succeed(Join2::<A, B>::empty(), arrivals, at);
}

} // verus!
