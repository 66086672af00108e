//! Requests to spawn an agent that are not answered yet, each under the id of
//! its call.

use vstd::prelude::*;

use crate::text::same_text;

verus! {

/// A request to spawn an agent.
pub struct SpawnRequest<S> {
    pub id: String,
    pub summary: S,
}

/// Where the request of a call stands.
pub open spec fn holds_id<S>(requests: Seq<SpawnRequest<S>>, id: Seq<char>, i: int) -> bool {
    0 <= i < requests.len() && requests[i].id@ == id
}

/// The requests by the ids of their calls.
pub open spec fn by_id<S>(requests: Seq<SpawnRequest<S>>) -> Map<Seq<char>, S> {
    Map::new(
        |id: Seq<char>| exists|i: int| holds_id(requests, id, i),
        |id: Seq<char>| requests[choose|i: int| holds_id(requests, id, i)].summary,
    )
}

/// Whether no call has two requests.
pub open spec fn distinct_ids<S>(requests: Seq<SpawnRequest<S>>) -> bool {
    forall|i: int, j: int|
        0 <= i < j < requests.len() ==> (#[trigger] requests[i]).id@ != (
        #[trigger] requests[j]).id@
}

/// The requests that wait for their calls to end.
pub struct SpawnRequests<S> {
    requests: Vec<SpawnRequest<S>>,
}

impl<S> View for SpawnRequests<S> {
    type V = Map<Seq<char>, S>;

    closed spec fn view(&self) -> Map<Seq<char>, S> {
        by_id(self.requests@)
    }
}

impl<S> SpawnRequests<S> {
    #[verifier::type_invariant]
    spec fn well_formed(&self) -> bool {
        distinct_ids(self.requests@)
    }

    /// No request at all.
    pub fn new() -> (requests: Self)
        ensures
            requests@ == Map::<Seq<char>, S>::empty(),
    {
        let requests = SpawnRequests { requests: Vec::new() };
        assert(requests@ =~= Map::empty());
        requests
    }

    /// How many requests wait.
    pub fn len(&self) -> (count: usize)
        ensures
            count == self@.dom().len(),
            self@.dom().finite(),
    {
        proof {
            use_type_invariant(self);
            lemma_id_count(self.requests@);
        }
        self.requests.len()
    }

    /// Where the request of a call stands.
    fn position(&self, id: &str) -> (found: Option<usize>)
        ensures
            match found {
                Some(i) => holds_id(self.requests@, id@, i as int),
                None => forall|i: int| !holds_id(self.requests@, id@, i),
            },
    {
        let mut i: usize = 0;
        while i < self.requests.len()
            invariant
                0 <= i <= self.requests.len(),
                forall|j: int| 0 <= j < i ==> !holds_id(self.requests@, id@, j),
            decreases self.requests.len() - i,
        {
            if same_text(self.requests[i].id.as_str(), id) {
                return Some(i);
            }
            i += 1;
        }
        None
    }

    /// Keeps a request, in place of an earlier one of the same call.
    pub fn insert(&mut self, id: String, summary: S)
        ensures
            final(self)@ == old(self)@.insert(id@, summary),
    {
        proof {
            use_type_invariant(&*self);
        }
        let ghost before = self.requests@;
        let ghost key = id@;
        let found = self.position(id.as_str());
        let mut requests: Vec<SpawnRequest<S>> = Vec::new();
        std::mem::swap(&mut requests, &mut self.requests);
        let request = SpawnRequest { id, summary };
        match found {
            Some(i) => {
                requests.set(i, request);
            },
            None => {
                requests.push(request);
            },
        }
        proof {
            let at = match found {
                Some(i) => i as int,
                None => before.len() as int,
            };
            assert(distinct_ids(requests@)) by {
                assert forall|i: int, j: int| 0 <= i < j < requests.len() implies (
                #[trigger] requests[i]).id@ != (#[trigger] requests[j]).id@ by {
                    if found is None {
                        assert(i < before.len() ==> !holds_id(before, key, i));
                    }
                }
            }
            lemma_by_id_insert(before, requests@, at, key, summary);
        }
        self.requests = requests;
    }

    /// Takes the request of a call out, where there is one.
    pub fn remove(&mut self, id: &str) -> (taken: Option<S>)
        ensures
            final(self)@ == old(self)@.remove(id@),
            taken == (if old(self)@.dom().contains(id@) {
                Some(old(self)@[id@])
            } else {
                None
            }),
    {
        proof {
            use_type_invariant(&*self);
        }
        match self.position(id) {
            Some(i) => {
                let ghost before = self.requests@;
                let mut requests: Vec<SpawnRequest<S>> = Vec::new();
                std::mem::swap(&mut requests, &mut self.requests);
                let request = requests.remove(i);
                proof {
                    lemma_by_id_remove(before, i as int);
                    assert(requests@ =~= before.remove(i as int));
                }
                self.requests = requests;
                Some(request.summary)
            },
            None => {
                assert(self@.remove(id@) =~= self@);
                None
            },
        }
    }
}

/// What the request of a call is.
proof fn lemma_by_id<S>(requests: Seq<SpawnRequest<S>>, i: int)
    requires
        distinct_ids(requests),
        0 <= i < requests.len(),
    ensures
        by_id(requests).dom().contains(requests[i].id@),
        by_id(requests)[requests[i].id@] == requests[i].summary,
{
    let id = requests[i].id@;
    assert(holds_id(requests, id, i));
    let j = choose|j: int| holds_id(requests, id, j);
    assert(i == j);
}

/// A request that is kept at some place, the others being as before, is an
/// insertion.
proof fn lemma_by_id_insert<S>(
    before: Seq<SpawnRequest<S>>,
    after: Seq<SpawnRequest<S>>,
    at: int,
    id: Seq<char>,
    summary: S,
)
    requires
        distinct_ids(before),
        distinct_ids(after),
        0 <= at < after.len(),
        after[at].id@ == id,
        after[at].summary == summary,
        after.len() == before.len() || after.len() == before.len() + 1 && at == before.len(),
        at < before.len() ==> before[at].id@ == id,
        forall|i: int| 0 <= i < before.len() && i != at ==> after[i] == #[trigger] before[i],
    ensures
        by_id(after) == by_id(before).insert(id, summary),
{
    let want = by_id(before).insert(id, summary);
    assert forall|key: Seq<char>| by_id(after).dom().contains(key) == want.dom().contains(key) by {
        if by_id(after).dom().contains(key) {
            let i = choose|i: int| holds_id(after, key, i);
            if i != at {
                assert(before[i] == after[i]);
                assert(holds_id(before, key, i));
            }
        }
        if by_id(before).dom().contains(key) {
            let i = choose|i: int| holds_id(before, key, i);
            assert(holds_id(after, key, i));
        }
        assert(holds_id(after, id, at));
    }
    assert forall|key: Seq<char>| by_id(after).dom().contains(key) implies by_id(after)[key]
        == want[key] by {
        let i = choose|i: int| holds_id(after, key, i);
        lemma_by_id(after, i);
        if i != at {
            assert(before[i] == after[i]);
            lemma_by_id(before, i);
        }
    }
    assert(by_id(after) =~= want);
}

/// Taking a request out of the list removes its call.
proof fn lemma_by_id_remove<S>(requests: Seq<SpawnRequest<S>>, at: int)
    requires
        distinct_ids(requests),
        0 <= at < requests.len(),
    ensures
        distinct_ids(requests.remove(at)),
        by_id(requests.remove(at)) == by_id(requests).remove(requests[at].id@),
        by_id(requests).dom().contains(requests[at].id@),
        by_id(requests)[requests[at].id@] == requests[at].summary,
{
    let left = requests.remove(at);
    let gone = requests[at].id@;
    lemma_by_id(requests, at);
    assert forall|i: int, j: int| 0 <= i < j < left.len() implies (#[trigger] left[i]).id@ != (
    #[trigger] left[j]).id@ by {
        let a = if i < at { i } else { i + 1 };
        let b = if j < at { j } else { j + 1 };
        assert(left[i] == requests[a] && left[j] == requests[b]);
    }
    let want = by_id(requests).remove(gone);
    assert forall|key: Seq<char>| by_id(left).dom().contains(key) == want.dom().contains(key) by {
        if by_id(left).dom().contains(key) {
            let i = choose|i: int| holds_id(left, key, i);
            let a = if i < at { i } else { i + 1 };
            assert(left[i] == requests[a]);
            assert(holds_id(requests, key, a));
        }
        if want.dom().contains(key) {
            let a = choose|a: int| holds_id(requests, key, a);
            let i = if a < at { a } else { a - 1 };
            assert(left[i] == requests[a]);
            assert(holds_id(left, key, i));
        }
    }
    assert forall|key: Seq<char>| by_id(left).dom().contains(key) implies by_id(left)[key]
        == want[key] by {
        let i = choose|i: int| holds_id(left, key, i);
        let a = if i < at { i } else { i + 1 };
        assert(left[i] == requests[a]);
        lemma_by_id(left, i);
        lemma_by_id(requests, a);
    }
    assert(by_id(left) =~= want);
}

/// There are as many calls as requests.
proof fn lemma_id_count<S>(requests: Seq<SpawnRequest<S>>)
    requires
        distinct_ids(requests),
    ensures
        by_id(requests).dom().finite(),
        by_id(requests).dom().len() == requests.len(),
    decreases requests.len(),
{
    if requests.len() == 0 {
        assert(by_id(requests).dom() =~= Set::empty());
    } else {
        let at = requests.len() - 1;
        lemma_by_id_remove(requests, at);
        lemma_id_count(requests.remove(at));
        assert(by_id(requests.remove(at)).dom() =~= by_id(requests).dom().remove(requests[at].id@));
    }
}

/// Every request is found under the id of its call, and nothing is found under
/// any other id.
pub proof fn law_requests_are_found_under_their_ids<S>(
    requests: Seq<SpawnRequest<S>>,
    id: Seq<char>,
)
    requires
        distinct_ids(requests),
    ensures
        forall|i: int|
            0 <= i < requests.len() ==> by_id(requests).dom().contains(
                (#[trigger] requests[i]).id@,
            ) && by_id(requests)[requests[i].id@] == requests[i].summary,
        by_id(requests).dom().contains(id) ==> exists|i: int|
            0 <= i < requests.len() && (#[trigger] requests[i]).id@ == id,
{
    assert forall|i: int| 0 <= i < requests.len() implies by_id(requests).dom().contains(
        (#[trigger] requests[i]).id@,
    ) && by_id(requests)[requests[i].id@] == requests[i].summary by {
        lemma_by_id(requests, i);
    }
    if by_id(requests).dom().contains(id) {
        let i = choose|i: int| holds_id(requests, id, i);
        assert(requests[i].id@ == id);
    }
}

} // verus!
