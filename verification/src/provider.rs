//! What the provider of resolvers decides: the resolver of a scope is
//! computed once per configuration snapshot, requests that arrive while it is
//! computed wait for it, and a recomputed resolver counts as a change only
//! where its alias section differs.

use vstd::prelude::*;
use crate::config::BuckConfig;
use crate::resolver::BuckConfigTargetAliasResolver;

verus! {

/// The key under which the resolver of one scope is kept.
#[derive(Debug, Clone, PartialEq, Eq, Hash)]
pub struct TargetAliasResolverKey {
    /// The name of the scope that owns the configuration.
    pub cell_name: String,
}

impl TargetAliasResolverKey {
    /// The key of the scope named `cell_name`.
    pub fn new(cell_name: String) -> (key: Self)
        ensures
            key.cell_name == cell_name,
    {
        TargetAliasResolverKey { cell_name }
    }

    /// The value of this key, from what loading the scope's configuration
    /// gave: a resolver over the snapshot, or the failure of the load.
    pub fn compute<E>(&self, loaded: Result<BuckConfig, E>) -> (value: Result<
        BuckConfigTargetAliasResolver,
        E,
    >)
        ensures
            match loaded {
                Ok(config) => value is Ok && value->Ok_0.config() == config,
                Err(e) => value == Err::<BuckConfigTargetAliasResolver, E>(e),
            },
    {
        match loaded {
            Ok(config) => Ok(BuckConfigTargetAliasResolver::new(config)),
            Err(e) => Err(e),
        }
    }

    /// Whether a recomputed value counts as the old one: both are resolvers
    /// and their alias sections hold the same mapping. A failure equals
    /// nothing, so it is always handed on as a change.
    pub fn equality<E>(
        x: &Result<BuckConfigTargetAliasResolver, E>,
        y: &Result<BuckConfigTargetAliasResolver, E>,
    ) -> (same: bool)
        ensures
            same == (x is Ok && y is Ok && x->Ok_0.aliases() == y->Ok_0.aliases()),
    {
        match (x, y) {
            (Ok(x), Ok(y)) => x == y,
            _ => false,
        }
    }
}

/// What a request for the resolver of a scope is told to do.
#[derive(Debug, PartialEq, Eq, Structural, Clone, Copy)]
pub enum Answer {
    /// Nothing usable is kept and nobody computes: the requester computes.
    Compute,
    /// A computation is under way: the requester waits for its result.
    Wait,
    /// The kept value is current: the requester takes it.
    Ready,
}

/// The cache entry of one scope.
pub enum ResolverSlot<E> {
    /// Nothing was computed yet.
    Vacant,
    /// A computation is under way; with it the value that it replaces, if any.
    Running(Option<Result<BuckConfigTargetAliasResolver, E>>),
    /// The value of the current configuration: a resolver or a failure.
    Cached(Result<BuckConfigTargetAliasResolver, E>),
    /// A value of a configuration that has changed since.
    Stale(Result<BuckConfigTargetAliasResolver, E>),
}

/// Whether `new` counts as `old` for those who depend on the value.
pub open spec fn same_value<E>(
    old_value: Result<BuckConfigTargetAliasResolver, E>,
    new_value: Result<BuckConfigTargetAliasResolver, E>,
) -> bool {
    old_value is Ok && new_value is Ok && old_value->Ok_0.aliases() == new_value->Ok_0.aliases()
}

impl<E> ResolverSlot<E> {
    /// What a request is told in this state.
    pub open spec fn answer(self) -> Answer {
        match self {
            ResolverSlot::Vacant => Answer::Compute,
            ResolverSlot::Stale(_) => Answer::Compute,
            ResolverSlot::Running(_) => Answer::Wait,
            ResolverSlot::Cached(_) => Answer::Ready,
        }
    }

    /// The state after a request.
    pub open spec fn requested(self) -> Self {
        match self {
            ResolverSlot::Vacant => ResolverSlot::Running(None),
            ResolverSlot::Stale(value) => ResolverSlot::Running(Some(value)),
            other => other,
        }
    }

    /// The value that a new one is held against, if the entry has one.
    pub open spec fn held(self) -> Option<Result<BuckConfigTargetAliasResolver, E>> {
        match self {
            ResolverSlot::Vacant => None,
            ResolverSlot::Running(previous) => previous,
            ResolverSlot::Cached(value) => Some(value),
            ResolverSlot::Stale(value) => Some(value),
        }
    }

    /// The state after the configuration of the scope has changed.
    pub open spec fn invalidated(self) -> Self {
        match self {
            ResolverSlot::Cached(value) => ResolverSlot::Stale(value),
            other => other,
        }
    }

    /// The state after `n` requests with no completion in between.
    pub open spec fn after(self, n: nat) -> Self
        decreases n,
    {
        if n == 0 {
            self
        } else {
            self.requested().after((n - 1) as nat)
        }
    }

    /// How many of `n` requests in a row are told to compute.
    pub open spec fn computations(self, n: nat) -> nat
        decreases n,
    {
        if n == 0 {
            0
        } else {
            let first: nat = if self.answer() == Answer::Compute {
                1
            } else {
                0
            };
            first + self.requested().computations((n - 1) as nat)
        }
    }

    /// An entry with nothing computed.
    pub fn new() -> (slot: Self)
        ensures
            slot == ResolverSlot::<E>::Vacant,
    {
        ResolverSlot::Vacant
    }

    /// Takes a request: the next state, and what the requester does.
    pub fn request(self) -> (next: (Self, Answer))
        ensures
            next.0 == self.requested(),
            next.1 == self.answer(),
    {
        match self {
            ResolverSlot::Vacant => (ResolverSlot::Running(None), Answer::Compute),
            ResolverSlot::Stale(value) => (ResolverSlot::Running(Some(value)), Answer::Compute),
            ResolverSlot::Running(previous) => (ResolverSlot::Running(previous), Answer::Wait),
            ResolverSlot::Cached(value) => (ResolverSlot::Cached(value), Answer::Ready),
        }
    }

    /// Takes the result of a computation: it is kept, success or failure, and
    /// those who depend on the entry are told of a change unless the entry held
    /// a resolver before and the new one has the same alias section.
    pub fn complete(self, value: Result<BuckConfigTargetAliasResolver, E>) -> (next: (Self, bool))
        ensures
            next.0 == ResolverSlot::Cached(value),
            next.1 == !(self.held() is Some && same_value(self.held()->Some_0, value)),
    {
        let held = match self {
            ResolverSlot::Vacant => None,
            ResolverSlot::Running(previous) => previous,
            ResolverSlot::Cached(old_value) => Some(old_value),
            ResolverSlot::Stale(old_value) => Some(old_value),
        };
        let changed = match &held {
            Some(old_value) => !TargetAliasResolverKey::equality(old_value, &value),
            None => true,
        };
        (ResolverSlot::Cached(value), changed)
    }

    /// Takes note that the configuration of the scope has changed: a kept
    /// value, resolver or failure, is computed anew on the next request.
    pub fn invalidate(self) -> (next: Self)
        ensures
            next == self.invalidated(),
    {
        match self {
            ResolverSlot::Cached(value) => ResolverSlot::Stale(value),
            other => other,
        }
    }

    /// The kept value, where it is current.
    pub fn value(&self) -> (kept: Option<&Result<BuckConfigTargetAliasResolver, E>>)
        ensures
            match kept {
                Some(value) => *self == ResolverSlot::Cached(*value),
                None => !(self is Cached),
            },
    {
        match self {
            ResolverSlot::Cached(value) => Some(value),
            _ => None,
        }
    }
}

/// While a computation is under way, requests change nothing and none of them
/// is told to compute.
pub proof fn lemma_running_waits<E>(previous: Option<Result<BuckConfigTargetAliasResolver, E>>, n: nat)
    ensures
        ResolverSlot::Running(previous).after(n) == ResolverSlot::Running(previous),
        ResolverSlot::Running(previous).computations(n) == 0,
    decreases n,
{
    if n > 0 {
        lemma_running_waits(previous, (n - 1) as nat);
    }
}

/// Of any number of requests that arrive for an entry with no current value
/// before the computation completes, exactly one is told to compute and every
/// later one waits for it.
pub proof fn law_one_computation<E>(slot: ResolverSlot<E>, n: nat)
    requires
        slot is Vacant || slot is Stale,
        n >= 1,
    ensures
        slot.computations(n) == 1,
        slot.answer() == Answer::Compute,
        slot.after(n) == slot.requested(),
        slot.after(n).answer() == Answer::Wait,
{
    lemma_running_waits(slot.held(), (n - 1) as nat);
}

/// Once a computation has completed, every request is handed its result,
/// success or failure, and none computes again until the configuration
/// changes.
pub proof fn law_all_observe_the_result<E>(value: Result<BuckConfigTargetAliasResolver, E>, n: nat)
    ensures
        ResolverSlot::Cached(value).after(n) == ResolverSlot::Cached(value),
        ResolverSlot::Cached(value).computations(n) == 0,
        ResolverSlot::Cached(value).answer() == Answer::Ready,
        ResolverSlot::Cached(value).invalidated().answer() == Answer::Compute,
    decreases n,
{
    if n > 0 {
        law_all_observe_the_result(value, (n - 1) as nat);
    }
}

} // verus!
