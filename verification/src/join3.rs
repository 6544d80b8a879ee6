//! Joining three concurrent sub-requests.
//!
//! The three sub-requests are sent at once and their replies are taken in
//! whatever order they come back. The first reply of each sub-request
//! counts; a later one for the same sub-request is ignored. As soon as one
//! sub-request fails the join fails with that error, and when all have
//! answered the replies are handed out in request order.

use crate::step::Step;
use vstd::prelude::*;

verus! {

/// A reply to one of three concurrent sub-requests.
#[derive(Debug, PartialEq, Eq)]
pub enum Arrival3<A, B, C, E> {
    /// The first sub-request answered.
    First(Result<A, E>),
    /// The second sub-request answered.
    Second(Result<B, E>),
    /// The third sub-request answered.
    Third(Result<C, E>),
}

impl<A, B, C, E> Arrival3<A, B, C, E> {
    /// The position of the sub-request that this reply belongs to.
    pub open spec fn slot(self) -> int {
        match self {
            Arrival3::First(_) => 0,
            Arrival3::Second(_) => 1,
            Arrival3::Third(_) => 2,
        }
    }

    /// Whether the sub-request failed.
    pub open spec fn is_failure(self) -> bool {
        match self {
            Arrival3::First(reply) => reply is Err,
            Arrival3::Second(reply) => reply is Err,
            Arrival3::Third(reply) => reply is Err,
        }
    }

    /// The error of a failed sub-request.
    pub open spec fn error(self) -> E
        recommends
            self.is_failure(),
    {
        match self {
            Arrival3::First(reply) => reply->Err_0,
            Arrival3::Second(reply) => reply->Err_0,
            Arrival3::Third(reply) => reply->Err_0,
        }
    }
}

/// The replies collected so far for three concurrent sub-requests.
#[derive(Debug, PartialEq, Eq)]
pub struct Join3<A, B, C> {
    /// The first sub-request's reply, once it has come.
    pub first: Option<A>,
    /// The second sub-request's reply, once it has come.
    pub second: Option<B>,
    /// The third sub-request's reply, once it has come.
    pub third: Option<C>,
}

impl<A, B, C> Join3<A, B, C> {
    /// The join with no reply yet.
    pub open spec fn empty() -> Self {
        Join3 { first: None, second: None, third: None }
    }

    /// Whether the sub-request at `slot` has answered.
    pub open spec fn answered(self, slot: int) -> bool {
        if slot == 0 {
            self.first is Some
        } else if slot == 1 {
            self.second is Some
        } else {
            slot == 2 && self.third is Some
        }
    }

    /// Hands the replies out once all three are there.
    pub open spec fn settle<E>(self) -> Step<Self, (A, B, C), E> {
        match (self.first, self.second, self.third) {
            (Some(a), Some(b), Some(c)) => Step::Ready((a, b, c)),
            _ => Step::Pending(self),
        }
    }

    /// The join after one more reply.
    pub open spec fn step<E>(self, arrival: Arrival3<A, B, C, E>) -> Step<Self, (A, B, C), E> {
        match arrival {
            Arrival3::First(reply) => match (self.first, reply) {
                (Some(_), _) => self.settle(),
                (None, Err(e)) => Step::Failed(e),
                (None, Ok(a)) => (Join3 {
                    first: Some(a),
                    second: self.second,
                    third: self.third,
                }).settle(),
            },
            Arrival3::Second(reply) => match (self.second, reply) {
                (Some(_), _) => self.settle(),
                (None, Err(e)) => Step::Failed(e),
                (None, Ok(b)) => (Join3 {
                    first: self.first,
                    second: Some(b),
                    third: self.third,
                }).settle(),
            },
            Arrival3::Third(reply) => match (self.third, reply) {
                (Some(_), _) => self.settle(),
                (None, Err(e)) => Step::Failed(e),
                (None, Ok(c)) => (Join3 {
                    first: self.first,
                    second: self.second,
                    third: Some(c),
                }).settle(),
            },
        }
    }

    /// The join after a run of replies, in the order in which they came.
    /// Replies that come after the join has settled are not looked at.
    pub open spec fn run<E>(self, arrivals: Seq<Arrival3<A, B, C, E>>) -> Step<
        Self,
        (A, B, C),
        E,
    >
        decreases arrivals.len(),
    {
        if arrivals.len() == 0 {
            Step::Pending(self)
        } else {
            match self.step(arrivals[0]) {
                Step::Pending(next) => next.run(arrivals.drop_first()),
                settled => settled,
            }
        }
    }

    /// Starts a join of three sub-requests.
    pub fn new() -> (join: Self)
        ensures
            join == Self::empty(),
    {
        Join3 { first: None, second: None, third: None }
    }

    /// Takes in one reply.
    pub fn arrive<E>(self, arrival: Arrival3<A, B, C, E>) -> (next: Step<Self, (A, B, C), E>)
        ensures
            next == self.step(arrival),
    {
        let Join3 { first, second, third } = self;
        match arrival {
            Arrival3::First(reply) => match (first, reply) {
                (Some(a), _) => Self::close(Some(a), second, third),
                (None, Err(e)) => Step::Failed(e),
                (None, Ok(a)) => Self::close(Some(a), second, third),
            },
            Arrival3::Second(reply) => match (second, reply) {
                (Some(b), _) => Self::close(first, Some(b), third),
                (None, Err(e)) => Step::Failed(e),
                (None, Ok(b)) => Self::close(first, Some(b), third),
            },
            Arrival3::Third(reply) => match (third, reply) {
                (Some(c), _) => Self::close(first, second, Some(c)),
                (None, Err(e)) => Step::Failed(e),
                (None, Ok(c)) => Self::close(first, second, Some(c)),
            },
        }
    }

    // Hands the replies out if all are there, and the join back if not.
    fn close<E>(first: Option<A>, second: Option<B>, third: Option<C>) -> (next: Step<
        Self,
        (A, B, C),
        E,
    >)
        ensures
            next == (Join3 { first, second, third }).settle::<E>(),
    {
        match (first, second, third) {
            (Some(a), Some(b), Some(c)) => Step::Ready((a, b, c)),
            (first, second, third) => Step::Pending(Join3 { first, second, third }),
        }
    }
}

/// Whether `arrival` stands at index `at` of `arrivals` and is the first
/// reply there of its sub-request.
pub open spec fn first_reply3<A, B, C, E>(
    arrivals: Seq<Arrival3<A, B, C, E>>,
    at: int,
    arrival: Arrival3<A, B, C, E>,
) -> bool {
    &&& 0 <= at < arrivals.len()
    &&& arrivals[at] == arrival
    &&& forall|k: int| 0 <= k < at ==> (#[trigger] arrivals[k]).slot() != arrival.slot()
}

// `lemma_join3_any_order`, from any join that still waits.
proof fn lemma_join3_collects<A, B, C, E>(
    join: Join3<A, B, C>,
    arrivals: Seq<Arrival3<A, B, C, E>>,
    a: A,
    b: B,
    c: C,
    i: int,
    j: int,
    k: int,
)
    requires
        !(join.first is Some && join.second is Some && join.third is Some),
        match join.first {
            Some(x) => x == a,
            None => first_reply3(arrivals, i, Arrival3::First(Ok(a))),
        },
        match join.second {
            Some(x) => x == b,
            None => first_reply3(arrivals, j, Arrival3::Second(Ok(b))),
        },
        match join.third {
            Some(x) => x == c,
            None => first_reply3(arrivals, k, Arrival3::Third(Ok(c))),
        },
    ensures
        join.run(arrivals) == Step::<Join3<A, B, C>, (A, B, C), E>::Ready((a, b, c)),
    decreases arrivals.len(),
{
    let rest = arrivals.drop_first();
    assert(forall|n: int| 0 <= n < rest.len() ==> rest[n] == arrivals[n + 1]);
    match join.step(arrivals[0]) {
        Step::Pending(next) => {
            lemma_join3_collects(next, rest, a, b, c, i - 1, j - 1, k - 1);
        },
        _ => {},
    }
}

/// The order of arrival does not matter: once the first reply of each of the
/// three sub-requests is a success, the join hands out those three replies in
/// request order, wherever in the run they stand and whatever repeats come
/// between them.
pub proof fn lemma_join3_any_order<A, B, C, E>(
    arrivals: Seq<Arrival3<A, B, C, E>>,
    a: A,
    b: B,
    c: C,
    i: int,
    j: int,
    k: int,
)
    requires
        first_reply3(arrivals, i, Arrival3::First(Ok(a))),
        first_reply3(arrivals, j, Arrival3::Second(Ok(b))),
        first_reply3(arrivals, k, Arrival3::Third(Ok(c))),
    ensures
        Join3::<A, B, C>::empty().run(arrivals) == Step::<Join3<A, B, C>, (A, B, C), E>::Ready(
            (a, b, c),
        ),
{
    lemma_join3_collects(Join3::<A, B, C>::empty(), arrivals, a, b, c, i, j, k);
}

// `lemma_join3_fail_fast`, from any join that still waits.
proof fn lemma_join3_fails<A, B, C, E>(
    join: Join3<A, B, C>,
    arrivals: Seq<Arrival3<A, B, C, E>>,
    at: int,
)
    requires
        0 <= at < arrivals.len(),
        arrivals[at].is_failure(),
        !join.answered(arrivals[at].slot()),
        forall|k: int|
            0 <= k < at ==> !(#[trigger] arrivals[k]).is_failure() && arrivals[k].slot()
                != arrivals[at].slot(),
    ensures
        join.run(arrivals) == Step::<Join3<A, B, C>, (A, B, C), E>::Failed(arrivals[at].error()),
    decreases arrivals.len(),
{
    let rest = arrivals.drop_first();
    assert(forall|n: int| 0 <= n < rest.len() ==> rest[n] == arrivals[n + 1]);
    if at > 0 {
        assert(!arrivals[0].is_failure() && arrivals[0].slot() != arrivals[at].slot());
        match join.step(arrivals[0]) {
            Step::Pending(next) => {
                lemma_join3_fails(next, rest, at - 1);
            },
            _ => {},
        }
    }
}

/// The failure that comes first decides: when a sub-request fails before it
/// has answered and before any other has failed, the join ends at once with
/// that very error, and no later reply is looked at.
pub proof fn lemma_join3_fail_fast<A, B, C, E>(arrivals: Seq<Arrival3<A, B, C, E>>, at: int)
    requires
        0 <= at < arrivals.len(),
        arrivals[at].is_failure(),
        forall|k: int|
            0 <= k < at ==> !(#[trigger] arrivals[k]).is_failure() && arrivals[k].slot()
                != arrivals[at].slot(),
    ensures
        Join3::<A, B, C>::empty().run(arrivals) == Step::<Join3<A, B, C>, (A, B, C), E>::Failed(
            arrivals[at].error(),
        ),
{
    lemma_join3_fails(Join3::<A, B, C>::empty(), arrivals, at);
}

// `lemma_join3_ready_is_whole`, from any join that still waits.
proof fn lemma_join3_ready_from<A, B, C, E>(
    join: Join3<A, B, C>,
    arrivals: Seq<Arrival3<A, B, C, E>>,
    a: A,
    b: B,
    c: C,
) -> (at: (int, int, int))
    requires
        !(join.first is Some && join.second is Some && join.third is Some),
        join.run(arrivals) == Step::<Join3<A, B, C>, (A, B, C), E>::Ready((a, b, c)),
    ensures
        match join.first {
            Some(x) => x == a,
            None => first_reply3(arrivals, at.0, Arrival3::First(Ok(a))),
        },
        match join.second {
            Some(x) => x == b,
            None => first_reply3(arrivals, at.1, Arrival3::Second(Ok(b))),
        },
        match join.third {
            Some(x) => x == c,
            None => first_reply3(arrivals, at.2, Arrival3::Third(Ok(c))),
        },
    decreases arrivals.len(),
{
    let rest = arrivals.drop_first();
    assert(forall|n: int| 0 <= n < rest.len() ==> rest[n] == arrivals[n + 1]);
    match join.step(arrivals[0]) {
        Step::Pending(next) => {
            let tail = lemma_join3_ready_from(next, rest, a, b, c);
            let i = if next.first is Some { 0 } else { tail.0 + 1 };
            let j = if next.second is Some { 0 } else { tail.1 + 1 };
            let k = if next.third is Some { 0 } else { tail.2 + 1 };
            assert forall|n: int| 0 < n < arrivals.len() implies #[trigger] arrivals[n] == rest[n
                - 1] by {}
            (i, j, k)
        },
        _ => (0, 0, 0),
    }
}

/// No partial result: a join hands out replies only when the first reply of
/// each of the three sub-requests was a success, and then hands out exactly
/// those. The result says where in the run they stand.
pub proof fn lemma_join3_ready_is_whole<A, B, C, E>(
    arrivals: Seq<Arrival3<A, B, C, E>>,
    a: A,
    b: B,
    c: C,
) -> (at: (int, int, int))
    requires
        Join3::<A, B, C>::empty().run(arrivals) == Step::<Join3<A, B, C>, (A, B, C), E>::Ready(
            (a, b, c),
        ),
    ensures
        first_reply3(arrivals, at.0, Arrival3::First(Ok(a))),
        first_reply3(arrivals, at.1, Arrival3::Second(Ok(b))),
        first_reply3(arrivals, at.2, Arrival3::Third(Ok(c))),
{
    lemma_join3_ready_from(Join3::<A, B, C>::empty(), arrivals, a, b, c)
}

// `lemma_join3_error_is_a_reply`, from any join.
proof fn lemma_join3_failed_from<A, B, C, E>(
    join: Join3<A, B, C>,
    arrivals: Seq<Arrival3<A, B, C, E>>,
    e: E,
) -> (at: int)
    requires
        join.run(arrivals) == Step::<Join3<A, B, C>, (A, B, C), E>::Failed(e),
    ensures
        0 <= at < arrivals.len(),
        arrivals[at].is_failure(),
        arrivals[at].error() == e,
    decreases arrivals.len(),
{
    let rest = arrivals.drop_first();
    assert(forall|n: int| 0 <= n < rest.len() ==> rest[n] == arrivals[n + 1]);
    match join.step(arrivals[0]) {
        Step::Pending(next) => lemma_join3_failed_from(next, rest, e) + 1,
        _ => 0,
    }
}

/// The error of a failed join is the error of one of its sub-requests: the
/// result says which reply brought it.
pub proof fn lemma_join3_error_is_a_reply<A, B, C, E>(
    arrivals: Seq<Arrival3<A, B, C, E>>,
    e: E,
) -> (at: int)
    requires
        Join3::<A, B, C>::empty().run(arrivals) == Step::<Join3<A, B, C>, (A, B, C), E>::Failed(e),
    ensures
        0 <= at < arrivals.len(),
        arrivals[at].is_failure(),
        arrivals[at].error() == e,
{
    lemma_join3_failed_from(Join3::<A, B, C>::empty(), arrivals, e)
}

// `lemma_join3_failure_fails`, from any join that still waits.
proof fn lemma_join3_cannot_succeed<A, B, C, E>(
    join: Join3<A, B, C>,
    arrivals: Seq<Arrival3<A, B, C, E>>,
    at: int,
)
    requires
        first_reply3(arrivals, at, arrivals[at]),
        arrivals[at].is_failure(),
        !join.answered(arrivals[at].slot()),
    ensures
        join.run(arrivals) is Failed,
    decreases arrivals.len(),
{
    let rest = arrivals.drop_first();
    assert(forall|n: int| 0 <= n < rest.len() ==> rest[n] == arrivals[n + 1]);
    if at > 0 {
        assert(arrivals[0].slot() != arrivals[at].slot());
        match join.step(arrivals[0]) {
            Step::Pending(next) => {
                lemma_join3_cannot_succeed(next, rest, at - 1);
            },
            _ => {},
        }
    }
}

/// One failure fails the whole join: if the first reply of any of the three
/// sub-requests is a failure, the join fails, however the replies are
/// ordered and whatever the other sub-requests answer.
pub proof fn lemma_join3_failure_fails<A, B, C, E>(arrivals: Seq<Arrival3<A, B, C, E>>, at: int)
    requires
        first_reply3(arrivals, at, arrivals[at]),
        arrivals[at].is_failure(),
    ensures
        Join3::<A, B, C>::empty().run(arrivals) is Failed,
{
    lemma_join3_cannot_succeed(Join3::<A, B, C>::empty(), arrivals, at);
}

} // verus!
