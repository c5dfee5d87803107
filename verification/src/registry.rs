//! The registry of a router: which actor answers to which ID.
use vstd::prelude::*;

use crate::actor::Actor;

verus! {

/// The actors that a router knows, each under its own ID.
#[verifier::reject_recursive_types(M)]
#[verifier::reject_recursive_types(H)]
pub struct Registry<M, H> {
    actors: Vec<Actor<M, H>>,
}

impl<M, H> View for Registry<M, H> {
    type V = Map<Seq<char>, Actor<M, H>>;

    /// What the registry holds, by ID.
    closed spec fn view(&self) -> Map<Seq<char>, Actor<M, H>> {
        Map::new(
            |id: Seq<char>| exists|i: int| self.sits_at(id, i),
            |id: Seq<char>| self.actors[choose|i: int| self.sits_at(id, i)],
        )
    }
}

impl<M, H> Registry<M, H> {
    /// The actor of ID `id` is the one at index `i`.
    spec fn sits_at(self, id: Seq<char>, i: int) -> bool {
        0 <= i < self.actors.len() && self.actors[i].id@ == id
    }

    /// No two actors share an ID.
    pub closed spec fn wf(self) -> bool {
        forall|i: int, j: int|
            0 <= i < j < self.actors.len() ==> #[trigger] self.actors[i].id@
                != #[trigger] self.actors[j].id@
    }

    /// The actor at index `i` is what the registry holds under its ID.
    proof fn lemma_sits_at(self, i: int)
        requires
            self.wf(),
            0 <= i < self.actors.len(),
        ensures
            self@.contains_key(self.actors[i].id@),
            self@[self.actors[i].id@] == self.actors[i],
    {
        let id = self.actors[i].id@;
        assert(self.sits_at(id, i));
        let j = choose|j: int| self.sits_at(id, j);
        assert(self.sits_at(id, j));
        assert(j == i);
    }

    /// A map that holds each actor under its ID, and nothing else, is the view.
    proof fn lemma_view(self, m: Map<Seq<char>, Actor<M, H>>)
        requires
            self.wf(),
            forall|i: int|
                0 <= i < self.actors.len() ==> m.contains_key(#[trigger] self.actors[i].id@)
                    && m[self.actors[i].id@] == self.actors[i],
            forall|id: Seq<char>| m.contains_key(id) ==> exists|i: int| self.sits_at(id, i),
        ensures
            self@ == m,
    {
        assert forall|id: Seq<char>| self@.contains_key(id) implies m.contains_key(id) && m[id]
            == self@[id] by {
            let i = choose|i: int| self.sits_at(id, i);
            assert(self.sits_at(id, i));
        }
        assert(self@ =~= m);
    }

    /// Every actor is held under its own ID.
    pub proof fn lemma_own_id(self, id: Seq<char>)
        requires
            self@.contains_key(id),
        ensures
            self@[id].id@ == id,
    {
        let i = choose|i: int| self.sits_at(id, i);
        assert(self.sits_at(id, i));
    }

    /// A registry that knows no actor.
    pub fn new() -> (registry: Self)
        ensures
            registry.wf(),
            registry@ == Map::<Seq<char>, Actor<M, H>>::empty(),
    {
        let registry = Registry { actors: Vec::new() };
        assert(registry@ =~= Map::<Seq<char>, Actor<M, H>>::empty());
        registry
    }

    /// Where the actor of ID `id` sits.
    fn position(&self, id: &String) -> (pos: Option<usize>)
        requires
            self.wf(),
        ensures
            match pos {
                Some(i) => self.sits_at(id@, i as int) && self@.contains_key(id@) && self@[id@]
                    == self.actors[i as int],
                None => !self@.contains_key(id@),
            },
    {
        let mut i: usize = 0;
        while i < self.actors.len()
            invariant
                self.wf(),
                i <= self.actors.len(),
                forall|j: int| 0 <= j < i ==> !self.sits_at(id@, j),
            decreases self.actors.len() - i,
        {
            if self.actors[i].id == *id {
                proof {
                    self.lemma_sits_at(i as int);
                }
                return Some(i);
            }
            i += 1;
        }
        None
    }

    /// Whether there is an actor of ID `id`.
    pub fn contains(&self, id: &String) -> (found: bool)
        requires
            self.wf(),
        ensures
            found == self@.contains_key(id@),
    {
        self.position(id).is_some()
    }

    /// The actor of ID `id`.
    pub fn get(&self, id: &String) -> (actor: Option<&Actor<M, H>>)
        requires
            self.wf(),
        ensures
            match actor {
                Some(actor) => self@.contains_key(id@) && *actor == self@[id@],
                None => !self@.contains_key(id@),
            },
    {
        match self.position(id) {
            Some(i) => Some(&self.actors[i]),
            None => None,
        }
    }

    /// Enters `actor` under its ID, in place of one that had that ID before.
    pub fn insert(&mut self, actor: Actor<M, H>)
        requires
            old(self).wf(),
        ensures
            final(self).wf(),
            final(self)@ == old(self)@.insert(actor.id@, actor),
    {
        let ghost before = *self;
        let ghost id = actor.id@;
        match self.position(&actor.id) {
            Some(i) => {
                self.actors.set(i, actor);
                proof {
                    assert forall|k: Seq<char>| before@.contains_key(k) implies exists|j: int|
                        self.sits_at(k, j) by {
                        let j = choose|j: int| before.sits_at(k, j);
                        assert(before.sits_at(k, j));
                        assert(self.sits_at(k, j));
                    }
                    assert(self.sits_at(id, i as int));
                }
            },
            None => {
                self.actors.push(actor);
                proof {
                    let n = before.actors.len() as int;
                    assert(self.sits_at(id, n));
                    assert forall|k: Seq<char>| before@.contains_key(k) implies exists|j: int|
                        self.sits_at(k, j) by {
                        let j = choose|j: int| before.sits_at(k, j);
                        assert(before.sits_at(k, j));
                        assert(self.sits_at(k, j));
                    }
                    assert forall|i: int| 0 <= i < n implies #[trigger] self.actors[i].id@ != id by {
                        before.lemma_sits_at(i);
                    }
                }
            },
        }
        proof {
            assert forall|j: int| 0 <= j < self.actors.len() implies ({
                let m = before@.insert(id, actor);
                m.contains_key(#[trigger] self.actors[j].id@) && m[self.actors[j].id@]
                    == self.actors[j]
            }) by {
                if self.actors[j].id@ != id {
                    before.lemma_sits_at(j);
                }
            }
            self.lemma_view(before@.insert(id, actor));
        }
    }

    /// Takes out the actor of ID `id`.
    pub fn remove(&mut self, id: &String) -> (removed: Option<Actor<M, H>>)
        requires
            old(self).wf(),
        ensures
            final(self).wf(),
            final(self)@ == old(self)@.remove(id@),
            match removed {
                Some(actor) => old(self)@.contains_key(id@) && actor == old(self)@[id@],
                None => !old(self)@.contains_key(id@),
            },
    {
        match self.position(id) {
            Some(i) => Some(self.take_at(i)),
            None => {
                assert(self@ =~= self@.remove(id@));
                None
            },
        }
    }

    /// Takes out some actor, as long as there is one.
    pub fn take_any(&mut self) -> (taken: Option<Actor<M, H>>)
        requires
            old(self).wf(),
        ensures
            final(self).wf(),
            match taken {
                Some(actor) => {
                    &&& old(self)@.contains_key(actor.id@)
                    &&& actor == old(self)@[actor.id@]
                    &&& final(self)@ == old(self)@.remove(actor.id@)
                    &&& final(self).size() < old(self).size()
                },
                None => {
                    &&& old(self)@ == Map::<Seq<char>, Actor<M, H>>::empty()
                    &&& final(self)@ == old(self)@
                },
            },
    {
        let n: usize = self.actors.len();
        if n == 0 {
            assert(self@ =~= Map::<Seq<char>, Actor<M, H>>::empty());
            None
        } else {
            Some(self.take_at(n - 1))
        }
    }

    /// How many actors there are.
    pub closed spec fn size(self) -> nat {
        self.actors.len() as nat
    }

    /// Takes out the actor at index `i`.
    fn take_at(&mut self, i: usize) -> (actor: Actor<M, H>)
        requires
            old(self).wf(),
            i < old(self).actors.len(),
        ensures
            final(self).wf(),
            final(self).size() < old(self).size(),
            actor == old(self).actors[i as int],
            old(self)@.contains_key(actor.id@),
            old(self)@[actor.id@] == actor,
            final(self)@ == old(self)@.remove(actor.id@),
    {
        let ghost before = *self;
        let actor = self.actors.remove(i);
        proof {
            before.lemma_sits_at(i as int);
            assert forall|k: Seq<char>| before@.remove(actor.id@).contains_key(k) implies exists|j: int|
                self.sits_at(k, j) by {
                let j = choose|j: int| before.sits_at(k, j);
                assert(before.sits_at(k, j));
                assert(self.sits_at(k, if j < i { j } else { j - 1 }));
            }
            assert forall|j: int| 0 <= j < self.actors.len() implies ({
                let m = before@.remove(actor.id@);
                m.contains_key(#[trigger] self.actors[j].id@) && m[self.actors[j].id@]
                    == self.actors[j]
            }) by {
                let b: int = if j < i { j } else { j + 1 };
                assert(self.actors[j] == before.actors[b]);
                before.lemma_sits_at(b);
            }
            self.lemma_view(before@.remove(actor.id@));
        }
        actor
    }
}

} // verus!
