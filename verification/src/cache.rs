//! The cache of resolvers: one entry for each scope that was asked for.

use vstd::prelude::*;
use crate::config::{assoc, find_last, is_last, keys_of, lemma_assoc_push, lemma_assoc_update, lemma_last_is};
use crate::provider::{same_value, Answer, ResolverSlot};
use crate::resolver::BuckConfigTargetAliasResolver;

verus! {

/// The entries of the scopes, each under the name of its scope.
pub struct ResolverCache<E> {
    slots: Vec<(String, ResolverSlot<E>)>,
}

impl<E> View for ResolverCache<E> {
    type V = Map<Seq<char>, ResolverSlot<E>>;

    /// The entry of each scope that was asked for.
    closed spec fn view(&self) -> Map<Seq<char>, ResolverSlot<E>> {
        assoc(keys_of(self.slots@), self.entries())
    }
}

impl<E> ResolverCache<E> {
    /// The entries, in the order in which their scopes were first asked for.
    spec fn entries(&self) -> Seq<ResolverSlot<E>> {
        Seq::new(self.slots@.len(), |i: int| self.slots@[i].1)
    }

    /// The entry of `scope`: vacant where the scope was never asked for.
    pub open spec fn slot(&self, scope: Seq<char>) -> ResolverSlot<E> {
        if self@.dom().contains(scope) {
            self@[scope]
        } else {
            ResolverSlot::Vacant
        }
    }

    /// A cache without entries.
    pub fn new() -> (cache: Self)
        ensures
            cache@ == Map::<Seq<char>, ResolverSlot<E>>::empty(),
    {
        let cache = ResolverCache { slots: Vec::new() };
        assert(cache@ =~= Map::<Seq<char>, ResolverSlot<E>>::empty());
        cache
    }

    /// Takes the entry of `scope` out, and says where it stood.
    fn take(&mut self, scope: &str) -> (taken: (Option<usize>, ResolverSlot<E>))
        ensures
            taken.1 == old(self).slot(scope@),
            match taken.0 {
                Some(j) => is_last(keys_of(old(self).slots@), scope@, j as int) && final(self).slots@ == old(
                    self,
                ).slots@.remove(j as int),
                None => !keys_of(old(self).slots@).contains(scope@) && final(self).slots@ == old(self).slots@,
            },
    {
        match find_last(&self.slots, scope) {
            Some(j) => {
                proof {
                    lemma_last_is(keys_of(self.slots@), scope@, j as int);
                }
                let entry = self.slots.remove(j);
                (Some(j), entry.1)
            },
            None => (None, ResolverSlot::Vacant),
        }
    }

    /// Puts `slot` where the entry of `scope` was taken from, or at the end.
    fn put(&mut self, Ghost(before): Ghost<Self>, scope: &str, at: Option<usize>, slot: ResolverSlot<E>)
        requires
            match at {
                Some(j) => is_last(keys_of(before.slots@), scope@, j as int) && old(self).slots@
                    == before.slots@.remove(j as int),
                None => !keys_of(before.slots@).contains(scope@) && old(self).slots@ == before.slots@,
            },
        ensures
            final(self)@ == before@.insert(scope@, slot),
    {
        let ghost keys = keys_of(before.slots@);
        let ghost entries = before.entries();
        match at {
            Some(j) => {
                self.slots.insert(j, (scope.to_owned(), slot));
                proof {
                    lemma_assoc_update(keys, entries, j as int, slot);
                    assert(keys_of(self.slots@) =~= keys);
                    assert(self.entries() =~= entries.update(j as int, slot));
                }
            },
            None => {
                self.slots.push((scope.to_owned(), slot));
                proof {
                    lemma_assoc_push(keys, entries, scope@, slot);
                    assert(keys_of(self.slots@) =~= keys.push(scope@));
                    assert(self.entries() =~= entries.push(slot));
                }
            },
        }
    }

    /// Takes a request for the resolver of `scope`: its entry moves on, no
    /// other entry changes, and the requester is told what to do.
    pub fn request(&mut self, scope: &str) -> (answer: Answer)
        ensures
            answer == old(self).slot(scope@).answer(),
            final(self)@ == old(self)@.insert(scope@, old(self).slot(scope@).requested()),
    {
        let ghost before = *self;
        let (at, slot) = self.take(scope);
        let (next, answer) = slot.request();
        self.put(Ghost(before), scope, at, next);
        answer
    }

    /// Takes the result of the computation for `scope`: it is kept, and the
    /// answer says whether those who depend on the resolver of `scope` are told
    /// of a change.
    pub fn complete(&mut self, scope: &str, value: Result<BuckConfigTargetAliasResolver, E>) -> (changed:
        bool)
        ensures
            changed == !(old(self).slot(scope@).held() is Some && same_value(
                old(self).slot(scope@).held()->Some_0,
                value,
            )),
            final(self)@ == old(self)@.insert(scope@, ResolverSlot::Cached(value)),
    {
        let ghost before = *self;
        let (at, slot) = self.take(scope);
        let (next, changed) = slot.complete(value);
        self.put(Ghost(before), scope, at, next);
        changed
    }

    /// Takes note that the configuration of `scope` has changed.
    pub fn invalidate(&mut self, scope: &str)
        ensures
            final(self)@ == old(self)@.insert(scope@, old(self).slot(scope@).invalidated()),
    {
        let ghost before = *self;
        let (at, slot) = self.take(scope);
        let next = slot.invalidate();
        self.put(Ghost(before), scope, at, next);
    }

    /// The kept value of `scope`, where it is current.
    pub fn value(&self, scope: &str) -> (kept: Option<&Result<BuckConfigTargetAliasResolver, E>>)
        ensures
            match kept {
                Some(value) => self.slot(scope@) == ResolverSlot::Cached(*value),
                None => !(self.slot(scope@) is Cached),
            },
    {
        match find_last(&self.slots, scope) {
            Some(j) => {
                proof {
                    lemma_last_is(keys_of(self.slots@), scope@, j as int);
                }
                self.slots[j].1.value()
            },
            None => None,
        }
    }
}

} // verus!
