//! The resolver: it follows an alias through the `[alias]` section until a
//! target reference comes up, and reports a cycle or a dangling chain.

use vstd::prelude::*;
use crate::chain::{chain_contains, chain_insert, chain_into_vec, chain_is_empty, chain_new, visited};
use crate::config::BuckConfig;
use crate::error::{AliasFailure, AliasLookupError, AliasResolutionError};
use crate::text::{contains_char, is_target, views};
use vstd::std_specs::cmp::PartialEqSpec;

verus! {

/// What a resolution gives: the target with the aliases that led to it, or a
/// failure.
pub type Resolution = Result<(Seq<char>, Seq<Seq<char>>), AliasFailure>;

/// A chain that a walk through `section` can have visited: names of the
/// section, none of them twice.
pub open spec fn chain_within(section: Map<Seq<char>, Seq<char>>, chain: Seq<Seq<char>>) -> bool {
    &&& section.dom().finite()
    &&& chain.no_duplicates()
    &&& forall|i: int| 0 <= i < chain.len() ==> section.dom().contains(#[trigger] chain[i])
}

/// A chain has room for one more name of the section that it does not hold.
pub proof fn lemma_chain_grows(
    section: Map<Seq<char>, Seq<char>>,
    chain: Seq<Seq<char>>,
    current: Seq<char>,
)
    requires
        chain_within(section, chain),
        section.dom().contains(current),
        !chain.contains(current),
    ensures
        chain_within(section, chain.push(current)),
        chain.len() < section.dom().len(),
{
    let longer = chain.push(current);
    assert forall|i: int, j: int| 0 <= i < longer.len() && 0 <= j < longer.len() && i != j implies longer[i]
        != longer[j] by {
        if i < chain.len() {
            assert(chain.contains(longer[i]));
        }
        if j < chain.len() {
            assert(chain.contains(longer[j]));
        }
    }
    longer.unique_seq_to_set();
    assert(longer.to_set().subset_of(section.dom()));
    vstd::set_lib::lemma_len_subset(longer.to_set(), section.dom());
}

/// The walk from `current`, with `chain` visited so far: a name seen before
/// is a cycle; a name that the section lacks ends the walk, as no alias where
/// nothing was visited yet and as a broken chain otherwise; a value that is a
/// target is the answer; any other value is the next name.
pub open spec fn follow(
    section: Map<Seq<char>, Seq<char>>,
    chain: Seq<Seq<char>>,
    current: Seq<char>,
) -> Resolution
    decreases section.dom().len() - chain.len(),
    when chain_within(section, chain)
    via follow_decreases
{
    if chain.contains(current) {
        Err(AliasFailure::AliasCycle(chain, current))
    } else if !section.dom().contains(current) {
        if chain.len() == 0 {
            Err(AliasFailure::NotAnAlias)
        } else {
            Err(AliasFailure::AliasChainBroken(chain.push(current)))
        }
    } else if is_target(section[current]) {
        Ok((section[current], chain.push(current)))
    } else {
        follow(section, chain.push(current), section[current])
    }
}

#[via_fn]
proof fn follow_decreases(
    section: Map<Seq<char>, Seq<char>>,
    chain: Seq<Seq<char>>,
    current: Seq<char>,
) {
    if !chain.contains(current) && section.dom().contains(current) {
        lemma_chain_grows(section, chain, current);
    }
}

/// The resolution of `name` against the `[alias]` section of a configuration,
/// `None` where the configuration has no such section.
pub open spec fn resolution(aliases: Option<Map<Seq<char>, Seq<char>>>, name: Seq<char>) -> Resolution {
    if is_target(name) {
        Err(AliasFailure::NotAnAlias)
    } else {
        match aliases {
            None => Err(AliasFailure::MissingAliasSection),
            Some(section) => follow(section, Seq::empty(), name),
        }
    }
}

/// What a caller of the resolver sees for a resolution: the target, nothing
/// for a soft failure, the failure itself for a hard one.
pub open spec fn lookup(outcome: Resolution) -> Result<Option<Seq<char>>, AliasFailure> {
    match outcome {
        Ok((target, _)) => Ok(Some(target)),
        Err(failure) => if failure.is_soft() {
            Ok(None)
        } else {
            Err(failure)
        },
    }
}

/// An executable resolution with its chain, as a `Resolution`.
pub open spec fn traced_view(outcome: Result<(&str, Vec<String>), AliasResolutionError>) -> Resolution {
    match outcome {
        Ok((target, names)) => Ok((target@, views(names@))),
        Err(e) => Err(e@),
    }
}

/// Resolves the aliases of one configuration snapshot.
#[derive(Debug, Clone)]
pub struct BuckConfigTargetAliasResolver {
    config: BuckConfig,
}

impl BuckConfigTargetAliasResolver {
    /// The snapshot that the resolver was made with.
    pub closed spec fn config(&self) -> BuckConfig {
        self.config
    }

    /// What the `[alias]` section of the snapshot holds, if there is one.
    pub open spec fn aliases(&self) -> Option<Map<Seq<char>, Seq<char>>> {
        self.config().section("alias"@)
    }

    /// The aliases of a resolver are finitely many.
    pub proof fn lemma_aliases_finite(&self)
        ensures
            self.aliases() is Some ==> self.aliases()->Some_0.dom().finite(),
    {
        self.config.lemma_section_finite("alias"@);
    }

    /// A resolver over `config`.
    pub fn new(config: BuckConfig) -> (resolver: Self)
        ensures
            resolver.config() == config,
    {
        BuckConfigTargetAliasResolver { config }
    }

    /// Resolves `alias` and hands out, with the target, the aliases that were
    /// looked up on the way, in the order of the visits: one lookup each.
    pub fn resolve_with_chain<'a>(&'a self, alias: &str) -> (outcome: Result<
        (&'a str, Vec<String>),
        AliasResolutionError,
    >)
        ensures
            traced_view(outcome) == resolution(self.aliases(), alias@),
    {
        if contains_char(alias, ':') {
            return Err(AliasResolutionError::NotAnAlias);
        }
        let section = match self.config.get_section("alias") {
            Some(section) => section,
            None => {
                return Err(AliasResolutionError::MissingAliasSection);
            },
        };
        let mut current: &str = alias;
        let mut chain = chain_new();
        proof {
            section.lemma_finite();
        }
        loop
            invariant
                chain_within(section@, visited(chain)),
                follow(section@, visited(chain), current@) == resolution(self.aliases(), alias@),
            decreases section@.dom().len() - visited(chain).len(),
        {
            if chain_contains(&chain, current) {
                let names = chain_into_vec(chain);
                return Err(AliasResolutionError::AliasCycle(names, current.to_owned()));
            }
            match section.get(current) {
                Some(value) => {
                    proof {
                        lemma_chain_grows(section@, visited(chain), current@);
                    }
                    chain_insert(&mut chain, current.to_owned());
                    if contains_char(value.as_str(), ':') {
                        let names = chain_into_vec(chain);
                        return Ok((value.as_str(), names));
                    }
                    current = value.as_str();
                },
                None => {
                    if chain_is_empty(&chain) {
                        return Err(AliasResolutionError::NotAnAlias);
                    }
                    let ghost before = visited(chain);
                    let mut names = chain_into_vec(chain);
                    names.push(current.to_owned());
                    assert(views(names@) =~= before.push(current@));
                    return Err(AliasResolutionError::AliasChainBroken(names));
                },
            }
        }
    }

    /// Resolves `alias` to the target that its chain of aliases ends in.
    pub fn resolve_alias<'a>(&'a self, alias: &str) -> (outcome: Result<&'a str, AliasResolutionError>)
        ensures
            match outcome {
                Ok(target) => resolution(self.aliases(), alias@) is Ok && resolution(
                    self.aliases(),
                    alias@,
                )->Ok_0.0 == target@,
                Err(e) => resolution(self.aliases(), alias@) == Err::<(Seq<char>, Seq<Seq<char>>), _>(e@),
            },
    {
        match self.resolve_with_chain(alias) {
            Ok((target, _)) => Ok(target),
            Err(e) => Err(e),
        }
    }

    /// The target of `name` for a caller that passes a name on unchanged when
    /// it is no alias: nothing for a soft failure, an error that names the
    /// alias for a broken chain or a cycle.
    pub fn get<'a>(&'a self, name: &str) -> (found: Result<Option<&'a str>, AliasLookupError>)
        ensures
            match found {
                Ok(Some(target)) => lookup(resolution(self.aliases(), name@)) == Ok::<_, AliasFailure>(
                    Some(target@),
                ),
                Ok(None) => lookup(resolution(self.aliases(), name@)) == Ok::<Option<Seq<char>>, AliasFailure>(
                    None,
                ),
                Err(e) => lookup(resolution(self.aliases(), name@)) == Err::<Option<Seq<char>>, _>(e.cause@)
                    && e.alias@ == name@,
            },
    {
        match self.resolve_alias(name) {
            Ok(target) => Ok(Some(target)),
            Err(AliasResolutionError::MissingAliasSection) => Ok(None),
            Err(AliasResolutionError::NotAnAlias) => Ok(None),
            Err(cause) => Err(AliasLookupError { alias: name.to_owned(), cause }),
        }
    }
}

impl PartialEq for BuckConfigTargetAliasResolver {
    /// Two resolvers are the same when their `[alias]` sections hold the same
    /// entries, or when neither has one; no other section is read.
    fn eq(&self, other: &BuckConfigTargetAliasResolver) -> (same: bool) {
        let self_aliases = self.config.get_section("alias");
        let other_aliases = other.config.get_section("alias");
        match (self_aliases, other_aliases) {
            (Some(self_aliases), Some(other_aliases)) => self_aliases.compare(other_aliases),
            (None, None) => true,
            _ => false,
        }
    }
}

impl vstd::std_specs::cmp::PartialEqSpecImpl for BuckConfigTargetAliasResolver {
    open spec fn obeys_eq_spec() -> bool {
        true
    }

    open spec fn eq_spec(&self, other: &BuckConfigTargetAliasResolver) -> bool {
        self.aliases() == other.aliases()
    }
}

/// Resolution is a function of the alias section and the name: two outcomes
/// that `resolve_with_chain` may give for one name on one resolver are the
/// same outcome.
pub proof fn law_resolution_repeats(
    resolver: BuckConfigTargetAliasResolver,
    name: Seq<char>,
    first: Result<(&str, Vec<String>), AliasResolutionError>,
    second: Result<(&str, Vec<String>), AliasResolutionError>,
)
    requires
        traced_view(first) == resolution(resolver.aliases(), name),
        traced_view(second) == resolution(resolver.aliases(), name),
    ensures
        traced_view(first) == traced_view(second),
        lookup(traced_view(first)) == lookup(traced_view(second)),
{
}

/// Two resolvers are equal exactly when the `[alias]` sections of their
/// snapshots hold the same mapping; what the snapshots hold elsewhere does not
/// count.
pub proof fn law_equality_reads_aliases_only(
    left: BuckConfigTargetAliasResolver,
    right: BuckConfigTargetAliasResolver,
)
    ensures
        left.eq_spec(&right) <==> left.config().section("alias"@) == right.config().section("alias"@),
{
}

/// A section under any other name than `alias` does not count: a resolver
/// over a snapshot equals the resolver over the same snapshot with such a
/// section added or replaced.
pub proof fn law_other_sections_do_not_count(
    left: BuckConfigTargetAliasResolver,
    right: BuckConfigTargetAliasResolver,
    name: Seq<char>,
    held: Map<Seq<char>, Seq<char>>,
)
    requires
        name != "alias"@,
        right.config()@ == left.config()@.insert(name, held),
    ensures
        left.eq_spec(&right),
{
}

/// Equal resolvers resolve every name alike.
pub proof fn law_equal_resolvers_agree(
    left: BuckConfigTargetAliasResolver,
    right: BuckConfigTargetAliasResolver,
    name: Seq<char>,
)
    requires
        left.eq_spec(&right),
    ensures
        resolution(left.aliases(), name) == resolution(right.aliases(), name),
{
}

/// The links of a chain: every name is an alias of the section and no target,
/// no name occurs twice, each name but the last stands for the next, and the
/// last stands for `target`.
pub open spec fn is_chain(section: Map<Seq<char>, Seq<char>>, names: Seq<Seq<char>>, target: Seq<char>) -> bool {
    &&& names.len() >= 1
    &&& names.no_duplicates()
    &&& forall|i: int|
        0 <= i < names.len() ==> section.dom().contains(#[trigger] names[i]) && !is_target(names[i])
    &&& forall|i: int| 0 <= i < names.len() - 1 ==> section[#[trigger] names[i]] == names[i + 1]
    &&& section[names.last()] == target
    &&& is_target(target)
}

proof fn lemma_chain_from(
    section: Map<Seq<char>, Seq<char>>,
    names: Seq<Seq<char>>,
    target: Seq<char>,
    at: int,
)
    requires
        section.dom().finite(),
        is_chain(section, names, target),
        0 <= at < names.len(),
    ensures
        follow(section, names.take(at), names[at]) == Ok::<_, AliasFailure>((target, names)),
    decreases names.len() - at,
{
    let chain = names.take(at);
    assert(chain_within(section, chain));
    if chain.contains(names[at]) {
        let i = choose|i: int| 0 <= i < chain.len() && chain[i] == names[at];
        assert(names[i] == names[at]);
    }
    assert(chain.push(names[at]) =~= names.take(at + 1));
    if at == names.len() - 1 {
        assert(names.take(at + 1) =~= names);
    } else {
        lemma_chain_from(section, names, target, at + 1);
    }
}

/// An acyclic chain of aliases that ends in a target resolves to that target,
/// and resolution looks up the names of the chain, each once and in order: one
/// lookup more than the chain has links.
pub proof fn law_chain_resolves(
    section: Map<Seq<char>, Seq<char>>,
    names: Seq<Seq<char>>,
    target: Seq<char>,
)
    requires
        section.dom().finite(),
        is_chain(section, names, target),
    ensures
        resolution(Some(section), names[0]) == Ok::<_, AliasFailure>((target, names)),
        resolution(Some(section), names[0])->Ok_0.1.len() == names.len(),
{
    lemma_chain_from(section, names, target, 0);
    assert(names.take(0) =~= Seq::<Seq<char>>::empty());
}

} // verus!
