//! The chat requests that are under way.

use vstd::prelude::*;

use crate::text::text_eq;

verus! {

/// The requests under way, each with what cancels it.
pub struct RequestRegistry<S> {
    entries: Vec<(String, S)>,
}

/// The identifier stands at this place.
spec fn is_at<S>(entries: Seq<(String, S)>, id: Seq<char>, i: int) -> bool {
    0 <= i < entries.len() && entries[i].0@ == id
}

/// A list without the item at a place.
pub open spec fn takes_out<S>(before: Seq<S>, i: int, item: S, after: Seq<S>) -> bool {
    0 <= i < before.len() && before[i] == item && after == before.remove(i)
}

impl<S> View for RequestRegistry<S> {
    type V = Map<Seq<char>, S>;

    closed spec fn view(&self) -> Map<Seq<char>, S> {
        Map::new(
            |id: Seq<char>| exists|i: int| is_at(self.entries@, id, i),
            |id: Seq<char>| self.entries@[choose|i: int| is_at(self.entries@, id, i)].1,
        )
    }
}

impl<S> RequestRegistry<S> {
    /// No two requests have the same identifier.
    pub closed spec fn wf(&self) -> bool {
        forall|i: int, j: int|
            0 <= i < j < self.entries@.len() ==> (#[trigger] self.entries@[i]).0@ != (
            #[trigger] self.entries@[j]).0@
    }

    /// What cancels each request, in the order in which the requests began.
    pub closed spec fn in_order(&self) -> Seq<S> {
        self.entries@.map_values(|entry: (String, S)| entry.1)
    }

    proof fn lemma_at(&self, i: int)
        requires
            self.wf(),
            0 <= i < self.entries@.len(),
        ensures
            self@.contains_key(self.entries@[i].0@),
            self@[self.entries@[i].0@] == self.entries@[i].1,
    {
        let id = self.entries@[i].0@;
        assert(is_at(self.entries@, id, i));
        let j = choose|j: int| is_at(self.entries@, id, j);
        assert(is_at(self.entries@, id, j));
        if j < i {
            assert(self.entries@[j].0@ != self.entries@[i].0@);
        } else if i < j {
            assert(self.entries@[i].0@ != self.entries@[j].0@);
        }
    }

    /// No request is under way.
    pub fn new() -> (r: RequestRegistry<S>)
        ensures
            r.wf(),
            r@ == Map::<Seq<char>, S>::empty(),
            r.in_order() == Seq::<S>::empty(),
    {
        let r: RequestRegistry<S> = RequestRegistry { entries: Vec::new() };
        assert(r@ =~= Map::<Seq<char>, S>::empty());
        assert(r.in_order() =~= Seq::<S>::empty());
        r
    }

    /// Where the request with an identifier stands.
    fn find(&self, id: &str) -> (r: Option<usize>)
        requires
            self.wf(),
        ensures
            match r {
                Some(i) => is_at(self.entries@, id@, i as int),
                None => !self@.contains_key(id@),
            },
    {
        let mut i: usize = 0;
        while i < self.entries.len()
            invariant
                i <= self.entries@.len(),
                forall|k: int| 0 <= k < i ==> !(#[trigger] is_at(self.entries@, id@, k)),
            decreases self.entries.len() - i,
        {
            if text_eq(self.entries[i].0.as_str(), id) {
                assert(is_at(self.entries@, id@, i as int));
                return Some(i);
            }
            i += 1;
        }
        None
    }

    /// Adds a request, unless one with its identifier is under way.
    pub fn register(&mut self, id: String, cancel: S) -> (r: Result<(), String>)
        requires
            old(self).wf(),
        ensures
            final(self).wf(),
            match r {
                Ok(_) => !old(self)@.contains_key(id@) && final(self)@ == old(self)@.insert(
                    id@,
                    cancel,
                ) && final(self).in_order() == old(self).in_order().push(cancel),
                Err(reason) => old(self)@.contains_key(id@) && *final(self) == *old(self) && reason@
                    == "AI Pass request identifier is already active."@,
            },
    {
        if let Some(i) = self.find(id.as_str()) {
            proof {
                self.lemma_at(i as int);
            }
            return Err("AI Pass request identifier is already active.".to_owned());
        }
        let ghost before = self.entries@;
        self.entries.push((id, cancel));
        proof {
            assert forall|i: int, j: int| 0 <= i < j < self.entries@.len() implies (
            #[trigger] self.entries@[i]).0@ != (#[trigger] self.entries@[j]).0@ by {
                assert(self.entries@[i] == before[i]);
                if j < before.len() {
                    assert(self.entries@[j] == before[j]);
                } else {
                    assert(!is_at(before, id@, i)) by {
                        if is_at(before, id@, i) {
                            old(self).lemma_at(i);
                        }
                    }
                }
            }
            assert(self@ =~= old(self)@.insert(id@, cancel)) by {
                assert forall|key: Seq<char>|
                    (#[trigger] self@.dom().contains(key) == old(self)@.insert(
                        id@,
                        cancel,
                    ).dom().contains(key)) && (self@.dom().contains(key) ==> self@[key] == old(
                        self,
                    )@.insert(id@, cancel)[key]) by {
                    if old(self)@.contains_key(key) {
                        let i = choose|i: int| is_at(before, key, i);
                        assert(is_at(before, key, i));
                        assert(self.entries@[i] == before[i]);
                        self.lemma_at(i);
                        old(self).lemma_at(i);
                    }
                    if key == id@ {
                        self.lemma_at(before.len() as int);
                    }
                    if self@.contains_key(key) {
                        let i = choose|i: int| is_at(self.entries@, key, i);
                        assert(is_at(self.entries@, key, i));
                        if i < before.len() {
                            assert(self.entries@[i] == before[i]);
                            old(self).lemma_at(i);
                        }
                    }
                }
            }
            assert(self.in_order() =~= old(self).in_order().push(cancel));
        }
        Ok(())
    }

    /// Takes out the request with an identifier.
    pub fn remove(&mut self, id: &str) -> (r: Option<S>)
        requires
            old(self).wf(),
        ensures
            final(self).wf(),
            final(self)@ == old(self)@.remove(id@),
            match r {
                Some(cancel) => old(self)@.contains_key(id@) && old(self)@[id@] == cancel && exists|
                    i: int,
                | #[trigger]
                    takes_out(old(self).in_order(), i, cancel, final(self).in_order()),
                None => !old(self)@.contains_key(id@) && *final(self) == *old(self),
            },
    {
        match self.find(id) {
            None => {
                assert(self@ =~= old(self)@.remove(id@));
                None
            },
            Some(at) => {
                let ghost before = self.entries@;
                let (_, cancel) = self.entries.remove(at);
                proof {
                    let n = at as int;
                    old(self).lemma_at(n);
                    assert(cancel == before[n].1);
                    assert(self.entries@ == before.remove(n));
                    assert forall|i: int, j: int| 0 <= i < j < self.entries@.len() implies (
                    #[trigger] self.entries@[i]).0@ != (#[trigger] self.entries@[j]).0@ by {
                        let a = if i < n { i } else { i + 1 };
                        let b = if j < n { j } else { j + 1 };
                        assert(self.entries@[i] == before[a]);
                        assert(self.entries@[j] == before[b]);
                    }
                    assert(self@ =~= old(self)@.remove(id@)) by {
                        assert forall|key: Seq<char>|
                            (#[trigger] self@.dom().contains(key) == old(self)@.remove(
                                id@,
                            ).dom().contains(key)) && (self@.dom().contains(key) ==> self@[key]
                                == old(self)@.remove(id@)[key]) by {
                            if self@.contains_key(key) {
                                let i = choose|i: int| is_at(self.entries@, key, i);
                                assert(is_at(self.entries@, key, i));
                                let a = if i < n { i } else { i + 1 };
                                assert(self.entries@[i] == before[a]);
                                self.lemma_at(i);
                                old(self).lemma_at(a);
                                if a < n {
                                    assert(before[a].0@ != before[n].0@);
                                } else {
                                    assert(before[n].0@ != before[a].0@);
                                }
                            }
                            if old(self)@.remove(id@).contains_key(key) {
                                let a = choose|a: int| is_at(before, key, a);
                                assert(is_at(before, key, a));
                                let i = if a < n { a } else { a - 1 };
                                assert(self.entries@[i] == before[a]);
                                self.lemma_at(i);
                            }
                        }
                    }
                }
                assert(takes_out(old(self).in_order(), at as int, cancel, self.in_order())) by {
                    assert(self.in_order() =~= old(self).in_order().remove(at as int));
                }
                Some(cancel)
            },
        }
    }

    /// Takes out every request.
    pub fn drain(&mut self) -> (r: Vec<S>)
        requires
            old(self).wf(),
        ensures
            final(self).wf(),
            final(self)@ == Map::<Seq<char>, S>::empty(),
            final(self).in_order() == Seq::<S>::empty(),
            r@ == old(self).in_order(),
            forall|id: Seq<char>| #[trigger]
                old(self)@.contains_key(id) ==> r@.contains(old(self)@[id]),
    {
        let mut taken: Vec<(String, S)> = Vec::new();
        std::mem::swap(&mut taken, &mut self.entries);
        let ghost all = taken@;
        let mut r: Vec<S> = Vec::new();
        for entry in it: taken
            invariant
                it.seq() == all,
                r@ == all.take(it.index() as int).map_values(|entry: (String, S)| entry.1),
        {
            let ghost before = r@;
            assert(entry == all[it.index() as int]);
            let (_, cancel) = entry;
            r.push(cancel);
            assert(r@ =~= all.take(it.index() + 1).map_values(|entry: (String, S)| entry.1));
        }
        assert(all.take(all.len() as int) =~= all);
        assert(self@ =~= Map::<Seq<char>, S>::empty());
        assert(self.in_order() =~= Seq::<S>::empty());
        assert forall|id: Seq<char>| #[trigger] old(self)@.contains_key(id) implies r@.contains(
            old(self)@[id],
        ) by {
            let i = choose|i: int| is_at(all, id, i);
            assert(is_at(all, id, i));
            old(self).lemma_at(i);
            assert(r@[i] == all[i].1);
        }
        r
    }
}

/// A request that is registered can be taken out again by its identifier, which
/// brings back what cancels it and leaves the registry as it was.
pub proof fn law_registered_requests_can_be_taken_out<S>(
    before: RequestRegistry<S>,
    during: RequestRegistry<S>,
    after: RequestRegistry<S>,
    id: Seq<char>,
    cancel: S,
)
    requires
        !before@.contains_key(id),
        during@ == before@.insert(id, cancel),
        after@ == during@.remove(id),
    ensures
        during@.contains_key(id),
        during@[id] == cancel,
        after@ == before@,
{
    assert(after@ =~= before@);
}

} // verus!
