//! Punch requests that wait for the target's answer.

use vstd::prelude::*;

use crate::registry::Outbox;

verus! {

/// One request: the peer that was asked to relay, and who asked for it.
struct Request {
    target: String,
    requester: Outbox,
}

/// The waiting requests, one per target at most.
pub struct Pending {
    requests: Vec<Request>,
}

spec fn by_target(requests: Seq<Request>) -> Map<Seq<char>, Outbox>
    decreases requests.len(),
{
    if requests.len() == 0 {
        Map::empty()
    } else {
        by_target(requests.drop_last()).insert(requests.last().target@, requests.last().requester)
    }
}

spec fn distinct(requests: Seq<Request>) -> bool {
    forall|i: int, j: int|
        0 <= i < j < requests.len() ==> (#[trigger] requests[i]).target@ != (
        #[trigger] requests[j]).target@
}

/// A target is in the map exactly when a request names it.
proof fn lemma_by_target(requests: Seq<Request>)
    ensures
        by_target(requests).dom().finite(),
        forall|k: Seq<char>| #[trigger]
            by_target(requests).contains_key(k) ==> exists|i: int|
                0 <= i < requests.len() && (#[trigger] requests[i]).target@ == k,
        forall|i: int|
            0 <= i < requests.len() ==> by_target(requests).contains_key(
                (#[trigger] requests[i]).target@,
            ),
        distinct(requests) ==> forall|i: int|
            0 <= i < requests.len() ==> by_target(requests)[(#[trigger] requests[i]).target@]
                == requests[i].requester,
    decreases requests.len(),
{
    if requests.len() > 0 {
        let rest = requests.drop_last();
        lemma_by_target(rest);
        assert forall|k: Seq<char>| #[trigger]
            by_target(requests).contains_key(k) implies exists|i: int|
            0 <= i < requests.len() && (#[trigger] requests[i]).target@ == k by {
            if k == requests.last().target@ {
                assert(requests[requests.len() - 1].target@ == k);
            } else {
                let i = choose|i: int| 0 <= i < rest.len() && (#[trigger] rest[i]).target@ == k;
                assert(requests[i].target@ == k);
            }
        }
        assert forall|i: int| 0 <= i < requests.len() implies by_target(requests).contains_key(
            (#[trigger] requests[i]).target@,
        ) by {
            if i < rest.len() {
                assert(rest[i] == requests[i]);
            }
        }
        if distinct(requests) {
            assert forall|i: int| 0 <= i < requests.len() implies by_target(
                requests,
            )[(#[trigger] requests[i]).target@] == requests[i].requester by {
                if i < rest.len() {
                    assert(rest[i] == requests[i]);
                }
            }
        }
    }
}

impl View for Pending {
    /// The requester by target.
    type V = Map<Seq<char>, Outbox>;

    closed spec fn view(&self) -> Map<Seq<char>, Outbox> {
        by_target(self.requests@)
    }
}

impl Pending {
    #[verifier::type_invariant]
    spec fn wf(self) -> bool {
        distinct(self.requests@)
    }

    /// No request waits.
    pub fn new() -> (r: Self)
        ensures
            r@ == Map::<Seq<char>, Outbox>::empty(),
    {
        Pending { requests: Vec::new() }
    }

    /// The place of `target`'s request, if there is one.
    fn position(&self, target: &str) -> (r: Option<usize>)
        ensures
            match r {
                Some(i) => i < self.requests@.len() && self.requests@[i as int].target@
                    == target@,
                None => forall|i: int|
                    0 <= i < self.requests@.len() ==> (#[trigger] self.requests@[i]).target@
                        != target@,
            },
    {
        let wanted = target.to_owned();
        let mut i: usize = 0;
        while i < self.requests.len()
            invariant
                i <= self.requests@.len(),
                wanted@ == target@,
                forall|j: int|
                    0 <= j < i ==> (#[trigger] self.requests@[j]).target@ != target@,
            decreases self.requests@.len() - i,
        {
            if self.requests[i].target == wanted {
                return Some(i);
            }
            i += 1;
        }
        None
    }

    /// Let `requester` wait for `target`, in the place of whoever waited for it.
    pub fn insert(&mut self, target: String, requester: Outbox)
        ensures
            final(self)@ == old(self)@.insert(target@, requester),
    {
        proof {
            use_type_invariant(&*self);
            lemma_by_target(self.requests@);
        }
        let at = self.position(target.as_str());
        let mut requests: Vec<Request> = Vec::new();
        std::mem::swap(&mut requests, &mut self.requests);
        let ghost before = requests@;
        let ghost request = Request { target, requester };
        match at {
            Some(i) => {
                requests.set(i, Request { target, requester });
                proof {
                    lemma_by_target(requests@);
                    lemma_replaced(before, i as int, request);
                }
            },
            None => {
                requests.push(Request { target, requester });
                assert(requests@.drop_last() =~= before);
            },
        }
        self.requests = requests;
    }

    /// Some target that a requester waits for.
    pub fn any_target(&self) -> (r: Option<String>)
        ensures
            r is None <==> self@ == Map::<Seq<char>, Outbox>::empty(),
            r matches Some(target) ==> self@.contains_key(target@),
    {
        proof {
            lemma_by_target(self.requests@);
        }
        if self.requests.len() == 0 {
            assert(self@ =~= Map::empty());
            None
        } else {
            assert(self@.contains_key(self.requests@[0].target@));
            Some(self.requests[0].target.clone())
        }
    }

    /// Take the request for `target` out.
    pub fn remove(&mut self, target: &str) -> (r: Option<Outbox>)
        ensures
            r == (if old(self)@.contains_key(target@) {
                Some(old(self)@[target@])
            } else {
                None
            }),
            final(self)@ == old(self)@.remove(target@),
    {
        proof {
            use_type_invariant(&*self);
            lemma_by_target(self.requests@);
        }
        match self.position(target) {
            Some(i) => {
                let mut requests: Vec<Request> = Vec::new();
                std::mem::swap(&mut requests, &mut self.requests);
                let ghost before = requests@;
                let request = requests.remove(i);
                proof {
                    lemma_removed(before, i as int);
                }
                self.requests = requests;
                Some(request.requester)
            },
            None => {
                assert(!self@.contains_key(target@));
                assert(self@.remove(target@) =~= self@);
                None
            },
        }
    }
}

proof fn lemma_replaced(before: Seq<Request>, i: int, request: Request)
    requires
        distinct(before),
        0 <= i < before.len(),
        before[i].target@ == request.target@,
    ensures
        distinct(before.update(i, request)),
        by_target(before.update(i, request)) == by_target(before).insert(
            request.target@,
            request.requester,
        ),
{
    let after = before.update(i, request);
    lemma_by_target(before);
    assert(distinct(after)) by {
        assert forall|a: int, b: int| 0 <= a < b < after.len() implies (
        #[trigger] after[a]).target@ != (#[trigger] after[b]).target@ by {
            assert(before[a].target@ != before[b].target@);
        }
    }
    lemma_by_target(after);
    let want = by_target(before).insert(request.target@, request.requester);
    assert(by_target(after) =~= want) by {
        assert forall|k: Seq<char>| by_target(after).contains_key(k) == want.contains_key(k) by {
            if by_target(after).contains_key(k) {
                let j = choose|j: int| 0 <= j < after.len() && (#[trigger] after[j]).target@ == k;
                assert(before[j].target@ == k);
            }
            if want.contains_key(k) {
                if k == request.target@ {
                    assert(after[i].target@ == k);
                } else {
                    let j = choose|j: int|
                        0 <= j < before.len() && (#[trigger] before[j]).target@ == k;
                    assert(after[j].target@ == k);
                }
            }
        }
        assert forall|k: Seq<char>| by_target(after).contains_key(k) implies by_target(after)[k]
            == want[k] by {
            let j = choose|j: int| 0 <= j < after.len() && (#[trigger] after[j]).target@ == k;
            assert(before[j].target@ == k);
            if j != i {
                assert(before[i].target@ != before[j].target@);
            }
        }
    }
}

proof fn lemma_removed(before: Seq<Request>, i: int)
    requires
        distinct(before),
        0 <= i < before.len(),
    ensures
        distinct(before.remove(i)),
        by_target(before.remove(i)) == by_target(before).remove(before[i].target@),
{
    let after = before.remove(i);
    lemma_by_target(before);
    assert(distinct(after)) by {
        assert forall|a: int, b: int| 0 <= a < b < after.len() implies (
        #[trigger] after[a]).target@ != (#[trigger] after[b]).target@ by {
            let a2 = if a < i { a } else { a + 1 };
            let b2 = if b < i { b } else { b + 1 };
            assert(before[a2].target@ != before[b2].target@);
        }
    }
    lemma_by_target(after);
    let want = by_target(before).remove(before[i].target@);
    assert(by_target(after) =~= want) by {
        assert forall|k: Seq<char>| by_target(after).contains_key(k) == want.contains_key(k) by {
            if by_target(after).contains_key(k) {
                let j = choose|j: int| 0 <= j < after.len() && (#[trigger] after[j]).target@ == k;
                let j2 = if j < i { j } else { j + 1 };
                assert(before[j2].target@ == k);
                assert(before[i].target@ != before[j2].target@);
            }
            if want.contains_key(k) {
                let j = choose|j: int| 0 <= j < before.len() && (#[trigger] before[j]).target@ == k;
                let j2 = if j < i { j } else { j - 1 };
                assert(after[j2].target@ == k);
            }
        }
        assert forall|k: Seq<char>| by_target(after).contains_key(k) implies by_target(after)[k]
            == want[k] by {
            let j = choose|j: int| 0 <= j < after.len() && (#[trigger] after[j]).target@ == k;
            let j2 = if j < i { j } else { j + 1 };
            assert(before[j2].target@ == k);
        }
    }
}

/// The one that asked last for a target is the one that waits for it, and it
/// waits no more once it was taken out. Others are not touched.
pub proof fn law_last_request_counts(
    p: &mut Pending,
    target: String,
    requester: Outbox,
    then: &mut Pending,
    name: &str,
    taken: Option<Outbox>,
    last: &mut Pending,
    again: Option<Outbox>,
)
    requires
        call_ensures(Pending::insert, (p, target, requester), ()),
        *then == *final(p),
        call_ensures(Pending::remove, (then, name), taken),
        *last == *final(then),
        call_ensures(Pending::remove, (last, name), again),
    ensures
        name@ == target@ ==> taken == Some(requester),
        name@ != target@ ==> (taken is Some <==> old(p)@.contains_key(name@)),
        name@ != target@ && taken is Some ==> taken->0 == old(p)@[name@],
        again is None,
{
}

/// Some target is named exactly where somebody waits, and then it is one that
/// somebody waits for: taking it out gives the one that waited for it.
pub proof fn law_any_target_is_waited_for(
    p: &mut Pending,
    named: Option<String>,
    target: &str,
    taken: Option<Outbox>,
)
    requires
        call_ensures(Pending::any_target, (&*p,), named),
        named matches Some(t) ==> t@ == target@,
        call_ensures(Pending::remove, (p, target), taken),
    ensures
        named is None <==> (forall|t: Seq<char>| !#[trigger] old(p)@.contains_key(t)),
        named is Some ==> taken is Some && taken->0 == old(p)@[target@],
        !final(p)@.contains_key(target@),
{
    if forall|t: Seq<char>| !#[trigger] old(p)@.contains_key(t) {
        assert(old(p)@ =~= Map::empty());
    }
}

} // verus!
