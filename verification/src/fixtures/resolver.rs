//! On-demand resolution of fixtures.
use crate::fixtures::ground::{fixture_ends, has_unique_names, is_within, names_end};
use crate::fixtures::lookup::{self, Known, Resolution};
use crate::fixtures::model::{
    self, DiscoveredFixture, FixtureGraph, FixtureNode, FixtureView, NameView, NormalizedFixture,
};
use crate::text::{self, same_text};
use std::rc::Rc;
use vstd::hash_map::StringHashMap;
use vstd::prelude::*;

verus! {

impl FixtureNode {
    /// The first fixture of this node with the short name `name`.
    pub fn get_fixture(&self, name: &str) -> (found: Option<&DiscoveredFixture>)
        ensures
            match found {
                Some(f) => lookup::defined_in(self@, name@) == Some(f@),
                None => lookup::defined_in(self@, name@) is None,
            },
    {
        let mut i: usize = 0;
        assert(self@.skip(0) =~= self@);
        while i < self.fixtures.len()
            invariant
                i <= self.fixtures.len(),
                lookup::defined_in(self@, name@) == lookup::defined_in(self@.skip(i as int), name@),
            decreases self.fixtures.len() - i,
        {
            assert(self@.skip(i as int)[0] == self.fixtures@[i as int]@);
            if same_text(self.fixtures[i].name.function.as_str(), name) {
                return Some(&self.fixtures[i]);
            }
            assert(self@.skip(i as int).drop_first() =~= self@.skip(i + 1));
            i += 1;
        }
        None
    }
}

/// The name of the fixture that asks, if a fixture asks.
pub open spec fn asking(user: Option<&DiscoveredFixture>) -> Option<NameView> {
    match user {
        Some(fixture) => Some(fixture.name@),
        None => None,
    }
}

/// Whether `fixture` is the one that asks.
fn is_user(user: Option<&DiscoveredFixture>, fixture: &DiscoveredFixture) -> (same: bool)
    ensures
        same == (asking(user) == Some(fixture.name@)),
{
    match user {
        Some(me) => me.name.same_as(&fixture.name),
        None => false,
    }
}

/// The nodes of a lookup context, nearest first.
pub open spec fn context(current: FixtureNode, parents: Seq<FixtureNode>) -> Seq<Seq<FixtureView>> {
    seq![current@] + model::node_views(parents)
}

/// Finds a fixture by short name in the current node and then in the parents,
/// passing over `user` itself so that a fixture never resolves to itself.
pub fn find_fixture<'a>(
    user: Option<&DiscoveredFixture>,
    name: &str,
    parents: &'a [FixtureNode],
    current: &'a FixtureNode,
) -> (found: Option<&'a DiscoveredFixture>)
    ensures
        match found {
            Some(f) => lookup::nearest(context(*current, parents@), asking(user), name@) == Some(f@),
            None => lookup::nearest(context(*current, parents@), asking(user), name@) is None,
        },
{
    let ghost nodes = context(*current, parents@);
    if let Some(fixture) = current.get_fixture(name) {
        if !is_user(user, fixture) {
            return Some(fixture);
        }
    }
    assert(nodes.drop_first() =~= model::node_views(parents@));
    assert(model::node_views(parents@).skip(0) =~= model::node_views(parents@));
    let mut i: usize = 0;
    while i < parents.len()
        invariant
            i <= parents.len(),
            nodes == context(*current, parents@),
            lookup::nearest(nodes, asking(user), name@) == lookup::nearest(
                model::node_views(parents@).skip(i as int),
                asking(user),
                name@,
            ),
        decreases parents.len() - i,
    {
        assert(model::node_views(parents@).skip(i as int)[0] == parents@[i as int]@);
        if let Some(fixture) = parents[i].get_fixture(name) {
            if !is_user(user, fixture) {
                return Some(fixture);
            }
        }
        assert(model::node_views(parents@).skip(i as int).drop_first() =~= model::node_views(parents@).skip(
            i + 1,
        ));
        i += 1;
    }
    None
}

/// Run-wide store of fixture graphs, by qualified name.
///
/// It holds the static dependency graphs, not the values that fixtures produce.
pub struct NormalizedFixtureCache {
    table: StringHashMap<Rc<NormalizedFixture>>,
}

impl View for NormalizedFixtureCache {
    type V = Map<Seq<char>, FixtureGraph>;

    closed spec fn view(&self) -> Map<Seq<char>, FixtureGraph> {
        model::graph_table(self.table@)
    }
}

impl NormalizedFixtureCache {
    /// An empty store.
    pub fn new() -> (cache: Self)
        ensures
            cache@ == Map::<Seq<char>, FixtureGraph>::empty(),
    {
        let cache = NormalizedFixtureCache { table: StringHashMap::new() };
        assert(cache@ =~= Map::<Seq<char>, FixtureGraph>::empty());
        cache
    }

    /// The graph stored for the qualified name `key`.
    pub fn get(&self, key: &str) -> (found: Option<&Rc<NormalizedFixture>>)
        ensures
            match found {
                Some(fixture) => self@.contains_key(key@) && self@[key@] == fixture.graph(),
                None => !self@.contains_key(key@),
            },
    {
        self.table.get(key)
    }

    fn insert(&mut self, key: String, fixture: Rc<NormalizedFixture>)
        ensures
            final(self)@ == old(self)@.insert(key@, fixture.graph()),
    {
        self.table.insert(key, fixture);
        assert(self@ =~= old(self)@.insert(key@, fixture.graph()));
    }
}

/// `now` holds what was `known` and, beyond that, only what resolutions from
/// `known` yield, together with everything those resolutions passed through.
pub open spec fn consistent(nodes: Seq<Seq<FixtureView>>, known: Known, now: Known) -> bool {
    &&& forall|k: Seq<char>| #[trigger]
        known.by_key.contains_key(k) ==> now.by_key.contains_key(k) && now.by_key[k]
            == known.by_key[k]
    &&& forall|n: Seq<char>| #[trigger]
        known.by_name.contains_key(n) ==> now.by_name.contains_key(n) && now.by_name[n]
            == known.by_name[n]
    &&& forall|k: Seq<char>| #[trigger]
        now.by_key.contains_key(k) && !known.by_key.contains_key(k) ==> {
            &&& lookup::within(nodes, lookup::keyed(nodes, k))
            &&& lookup::keyed(nodes, k).name.key() == k
            &&& settled(nodes, known, now, lookup::keyed(nodes, k), now.by_key[k])
        }
    &&& forall|n: Seq<char>| #[trigger]
        now.by_name.contains_key(n) && !known.by_name.contains_key(n) ==> {
            &&& lookup::nearest(nodes, None, n) is Some
            &&& settled(nodes, known, now, lookup::nearest(nodes, None, n)->0, now.by_name[n])
        }
}

/// `graph` is the graph of `fixture`, and `now` holds all that its expansion passed through.
pub open spec fn settled(
    nodes: Seq<Seq<FixtureView>>,
    known: Known,
    now: Known,
    fixture: FixtureView,
    graph: FixtureGraph,
) -> bool {
    lookup::expansion(nodes, known, fixture) matches Some(found) && {
        &&& found.graphs == seq![graph]
        &&& found.keys.subset_of(now.by_key.dom())
        &&& found.names.subset_of(now.by_name.dom())
    }
}

/// `later` holds what `now` holds, and beyond that exactly what `found` passed through.
pub open spec fn grown(now: Known, later: Known, found: Resolution) -> bool {
    &&& later.by_key.dom() == now.by_key.dom().union(found.keys)
    &&& later.by_name.dom() == now.by_name.dom().union(found.names)
}

/// Resolves fixture names in one lookup context.
///
/// Graphs are shared with other contexts through the run-wide store; short names
/// are remembered per resolver, so that the first match of a name stands.
pub struct RuntimeFixtureResolver<'a> {
    parents: &'a [FixtureNode],
    current: &'a FixtureNode,
    local_by_name: StringHashMap<Rc<NormalizedFixture>>,
}

impl<'a> RuntimeFixtureResolver<'a> {
    /// The nodes that this resolver searches, nearest first.
    pub closed spec fn nodes(self) -> Seq<Seq<FixtureView>> {
        context(*self.current, self.parents@)
    }

    /// The graphs remembered by short name.
    pub closed spec fn local(self) -> Map<Seq<char>, FixtureGraph> {
        model::graph_table(self.local_by_name@)
    }

    /// What is known before a call: the run-wide store and this resolver's names.
    pub open spec fn known(self, cache: Map<Seq<char>, FixtureGraph>) -> Known {
        Known { by_key: cache, by_name: self.local() }
    }

    /// A resolver for `current` and its `parents`, nearest parent first.
    pub fn new(parents: &'a [FixtureNode], current: &'a FixtureNode) -> (resolver: Self)
        ensures
            resolver.nodes() == context(*current, parents@),
            resolver.local() == Map::<Seq<char>, FixtureGraph>::empty(),
    {
        let resolver = RuntimeFixtureResolver {
            parents,
            current,
            local_by_name: StringHashMap::new(),
        };
        assert(resolver.local() =~= Map::<Seq<char>, FixtureGraph>::empty());
        resolver
    }

    /// Whether qualified names tell the fixtures of this context apart.
    pub fn is_unambiguous(&self) -> (unambiguous: bool)
        ensures
            unambiguous == lookup::names_are_unique(self.nodes()),
    {
        has_unique_names(self.parents, self.current)
    }

    /// Whether `fixture` is what a node of this context defines under its short name.
    pub fn defines(&self, fixture: &DiscoveredFixture) -> (defined: bool)
        ensures
            defined == lookup::within(self.nodes(), fixture@),
    {
        is_within(self.parents, self.current, fixture)
    }

    /// Whether resolving `fixture_names` ends: no fixture among them, or among what
    /// they need, requires itself in a circle.
    pub fn can_resolve(&self, cache: &NormalizedFixtureCache, fixture_names: &[String]) -> (ends:
        bool)
        requires
            lookup::names_are_unique(self.nodes()),
        ensures
            ends == (lookup::requirements(
                self.nodes(),
                self.known(cache@),
                None,
                text::texts(fixture_names@),
            ) is Some),
    {
        names_end(self.parents, self.current, cache, &self.local_by_name, fixture_names)
    }

    /// Whether expanding `fixture` ends.
    pub fn can_expand(&self, cache: &NormalizedFixtureCache, fixture: &DiscoveredFixture) -> (ends:
        bool)
        requires
            lookup::names_are_unique(self.nodes()),
            lookup::within(self.nodes(), fixture@) || cache@.contains_key(fixture@.name.key()),
        ensures
            ends == (lookup::expansion(self.nodes(), self.known(cache@), fixture@) is Some),
    {
        fixture_ends(self.parents, self.current, cache, &self.local_by_name, fixture)
    }

    fn remember(&mut self, name: String, fixture: Rc<NormalizedFixture>)
        ensures
            final(self).nodes() == old(self).nodes(),
            final(self).local() == old(self).local().insert(name@, fixture.graph()),
    {
        self.local_by_name.insert(name, fixture);
        assert(self.local() =~= old(self).local().insert(name@, fixture.graph()));
    }

    fn recall(&self, name: &str) -> (found: Option<&Rc<NormalizedFixture>>)
        ensures
            match found {
                Some(fixture) => self.local().contains_key(name@) && self.local()[name@]
                    == fixture.graph(),
                None => !self.local().contains_key(name@),
            },
    {
        self.local_by_name.get(name)
    }

    /// Expands a fixture and, before it, everything it depends on.
    fn normalize_fixture(
        &mut self,
        cache: &mut NormalizedFixtureCache,
        fixture: &DiscoveredFixture,
        Ghost(known): Ghost<Known>,
        Ghost(depth): Ghost<nat>,
    ) -> (normalized: Rc<NormalizedFixture>)
        requires
            lookup::names_are_unique(old(self).nodes()),
            lookup::within(old(self).nodes(), fixture@) || known.by_key.contains_key(
                fixture@.name.key(),
            ),
            lookup::expand(old(self).nodes(), known, fixture@, depth) is Some,
            consistent(old(self).nodes(), known, old(self).known(old(cache)@)),
        ensures
            final(self).nodes() == old(self).nodes(),
            consistent(final(self).nodes(), known, final(self).known(final(cache)@)),
            grown(
                old(self).known(old(cache)@),
                final(self).known(final(cache)@),
                lookup::expansion(old(self).nodes(), known, fixture@)->0,
            ),
            lookup::expansion(old(self).nodes(), known, fixture@)->0.graphs == seq![normalized.graph()],
        decreases depth, 0nat,
    {
        let ghost nodes = self.nodes();
        let ghost before = self.known(cache@);
        proof {
            lookup::lemma_expansion(nodes, known, fixture@, depth);
        }
        let ghost found = lookup::expansion(nodes, known, fixture@)->0;
        let cache_key = fixture.name.key();
        if let Some(cached) = cache.get(cache_key.as_str()) {
            proof {
                if !known.by_key.contains_key(cache_key@) {
                    assert(before.by_key.contains_key(cache_key@));
                    assert(lookup::keyed(nodes, cache_key@) == fixture@);
                }
                assert(found.graphs =~= seq![cached.graph()]);
                assert(before.by_key.dom() =~= before.by_key.dom().union(found.keys));
                assert(before.by_name.dom() =~= before.by_name.dom().union(found.names));
            }
            return Rc::clone(cached);
        }
        assert(!known.by_key.contains_key(cache_key@));
        let ghost needs = lookup::require_all(
            nodes,
            known,
            Some(fixture.name@),
            fixture@.required,
            (depth - 1) as nat,
        )->0;
        let dependencies = self.get_dependent_fixtures(
            cache,
            Some(fixture),
            fixture.required.as_slice(),
            Ghost(known),
            Ghost((depth - 1) as nat),
        );
        let ghost middle = self.known(cache@);
        let result = Rc::new(
            NormalizedFixture {
                name: fixture.name.clone(),
                dependencies,
                scope: fixture.scope,
                is_generator: fixture.is_generator,
                definition: fixture.definition,
            },
        );
        assert(result.graph().dependencies =~= model::graphs(dependencies@));
        assert(found.graphs =~= seq![result.graph()]);
        cache.insert(cache_key, Rc::clone(&result));
        proof {
            let after = self.known(cache@);
            assert(after.by_key =~= middle.by_key.insert(cache_key@, result.graph()));
            assert(after.by_key.dom() =~= before.by_key.dom().union(found.keys));
            assert(after.by_name.dom() =~= before.by_name.dom().union(found.names));
            assert(lookup::keyed(nodes, cache_key@) == fixture@);
            assert(settled(nodes, known, after, fixture@, result.graph()));
            lemma_add_key(nodes, known, middle, cache_key@, result.graph());
        }
        result
    }

    /// Resolves a list of names for `user`.
    fn get_dependent_fixtures(
        &mut self,
        cache: &mut NormalizedFixtureCache,
        user: Option<&DiscoveredFixture>,
        fixture_names: &[String],
        Ghost(known): Ghost<Known>,
        Ghost(depth): Ghost<nat>,
    ) -> (normalized: Vec<Rc<NormalizedFixture>>)
        requires
            lookup::names_are_unique(old(self).nodes()),
            lookup::require_all(old(self).nodes(), known, asking(user), text::texts(fixture_names@), depth)
                is Some,
            consistent(old(self).nodes(), known, old(self).known(old(cache)@)),
        ensures
            final(self).nodes() == old(self).nodes(),
            consistent(final(self).nodes(), known, final(self).known(final(cache)@)),
            grown(
                old(self).known(old(cache)@),
                final(self).known(final(cache)@),
                lookup::require_all(old(self).nodes(), known, asking(user), text::texts(fixture_names@), depth)->0,
            ),
            model::graphs(normalized@) == lookup::require_all(
                old(self).nodes(),
                known,
                asking(user),
                text::texts(fixture_names@),
                depth,
            )->0.graphs,
        decreases depth, 1nat,
    {
        let ghost nodes = self.nodes();
        let ghost before = self.known(cache@);
        let ghost names = text::texts(fixture_names@);
        let ghost who = asking(user);
        let mut normalized: Vec<Rc<NormalizedFixture>> = Vec::new();
        let mut i: usize = 0;
        proof {
            assert(names.take(0).len() == 0);
            assert(model::graphs(normalized@) =~= Seq::<FixtureGraph>::empty());
            assert(before.by_key.dom() =~= before.by_key.dom().union(Set::empty()));
            assert(before.by_name.dom() =~= before.by_name.dom().union(Set::empty()));
        }
        while i < fixture_names.len()
            invariant
                i <= fixture_names.len(),
                nodes == self.nodes(),
                names == text::texts(fixture_names@),
                who == asking(user),
                lookup::names_are_unique(nodes),
                lookup::require_all(nodes, known, who, names, depth) is Some,
                lookup::require_all(nodes, known, who, names.take(i as int), depth) is Some,
                consistent(nodes, known, self.known(cache@)),
                grown(
                    before,
                    self.known(cache@),
                    lookup::require_all(nodes, known, who, names.take(i as int), depth)->0,
                ),
                model::graphs(normalized@) == lookup::require_all(
                    nodes,
                    known,
                    who,
                    names.take(i as int),
                    depth,
                )->0.graphs,
            decreases fixture_names.len() - i,
        {
            let dep_name = &fixture_names[i];
            let ghost now = self.known(cache@);
            let ghost earlier = lookup::require_all(nodes, known, who, names.take(i as int), depth)->0;
            proof {
                lemma_require_prefix(nodes, known, who, names, depth, i + 1);
                assert(names.take(i + 1).drop_last() =~= names.take(i as int));
                assert(names.take(i + 1).last() == dep_name@);
                lookup::lemma_nearest(nodes, who, dep_name@);
            }
            let ghost step = lookup::require(nodes, known, who, dep_name@, depth)->0;
            let is_self_ref = match user {
                Some(fixture) => fixture.name.function == *dep_name,
                None => false,
            };
            let cached = if is_self_ref {
                None
            } else {
                self.recall(dep_name.as_str())
            };
            if let Some(cached) = cached {
                let shared = Rc::clone(cached);
                proof {
                    if !known.by_name.contains_key(dep_name@) {
                        assert(now.by_name.contains_key(dep_name@));
                        let fixture = lookup::nearest(nodes, who, dep_name@)->0;
                        lookup::lemma_expansion(nodes, known, fixture, depth);
                    }
                    assert(step.graphs =~= seq![shared.graph()]);
                    assert(grown(now, now, step)) by {
                        assert(now.by_key.dom() =~= now.by_key.dom().union(step.keys));
                        assert(now.by_name.dom() =~= now.by_name.dom().union(step.names));
                    }
                }
                normalized.push(shared);
                proof {
                    lemma_grown_further(before, now, now, earlier, step);
                    assert(model::graphs(normalized@) =~= earlier.graphs + step.graphs);
                }
            } else if let Some(fixture) = find_fixture(
                user,
                dep_name.as_str(),
                self.parents,
                self.current,
            ) {
                let found = self.normalize_fixture(cache, fixture, Ghost(known), Ghost(depth));
                let ghost middle = self.known(cache@);
                proof {
                    lookup::lemma_expansion(nodes, known, fixture@, depth);
                }
                if !is_self_ref {
                    self.remember(dep_name.clone(), Rc::clone(&found));
                    proof {
                        let later = self.known(cache@);
                        assert(later.by_name =~= middle.by_name.insert(dep_name@, found.graph()));
                        assert(later.by_key.dom() =~= now.by_key.dom().union(step.keys));
                        assert(later.by_name.dom() =~= now.by_name.dom().union(step.names));
                        assert(settled(nodes, known, later, fixture@, found.graph()));
                        lemma_add_name(nodes, known, middle, dep_name@, found.graph());
                    }
                }
                proof {
                    assert(grown(now, self.known(cache@), step));
                    lemma_grown_further(before, now, self.known(cache@), earlier, step);
                }
                normalized.push(found);
                assert(model::graphs(normalized@) =~= earlier.graphs + step.graphs);
            } else {
                proof {
                    assert(step == Resolution::nothing());
                    assert(grown(now, now, step)) by {
                        assert(now.by_key.dom() =~= now.by_key.dom().union(step.keys));
                        assert(now.by_name.dom() =~= now.by_name.dom().union(step.names));
                    }
                    lemma_grown_further(before, now, now, earlier, step);
                    assert(model::graphs(normalized@) =~= earlier.graphs + step.graphs);
                }
            }
            i += 1;
        }
        assert(names.take(i as int) =~= names);
        normalized
    }
}

/// The names in `names` that are not in `left_out`.
pub open spec fn names_without(names: Seq<Seq<char>>, left_out: Seq<Seq<char>>) -> Seq<Seq<char>> {
    names.filter(|name: Seq<char>| !left_out.contains(name))
}

/// The fixtures that a list of references points to.
pub open spec fn fixture_views(fixtures: Seq<&DiscoveredFixture>) -> Seq<FixtureView> {
    Seq::new(fixtures.len(), |i: int| fixtures[i]@)
}

/// Whether `name` is one of `names`.
fn is_listed(name: &String, names: &[String]) -> (listed: bool)
    ensures
        listed == text::texts(names@).contains(name@),
{
    let mut i: usize = 0;
    while i < names.len()
        invariant
            i <= names.len(),
            forall|j: int| 0 <= j < i ==> text::texts(names@)[j] != name@,
        decreases names.len() - i,
    {
        if names[i] == *name {
            assert(text::texts(names@)[i as int] == name@);
            return true;
        }
        i += 1;
    }
    false
}

impl<'a> RuntimeFixtureResolver<'a> {
    /// Resolves the fixtures of a test, its parametrize parameters left out.
    pub fn resolve_test_fixtures(
        &mut self,
        cache: &mut NormalizedFixtureCache,
        fixture_names: &[String],
        parametrize_param_names: &[String],
    ) -> (normalized: Vec<Rc<NormalizedFixture>>)
        requires
            lookup::names_are_unique(old(self).nodes()),
            lookup::requirements(
                old(self).nodes(),
                old(self).known(old(cache)@),
                None,
                names_without(text::texts(fixture_names@), text::texts(parametrize_param_names@)),
            ) is Some,
        ensures
            final(self).nodes() == old(self).nodes(),
            model::graphs(normalized@) == lookup::requirements(
                old(self).nodes(),
                old(self).known(old(cache)@),
                None,
                names_without(text::texts(fixture_names@), text::texts(parametrize_param_names@)),
            )->0.graphs,
            final(self).known(final(cache)@) == lookup::learned(
                old(self).nodes(),
                old(self).known(old(cache)@),
                lookup::requirements(
                    old(self).nodes(),
                    old(self).known(old(cache)@),
                    None,
                    names_without(text::texts(fixture_names@), text::texts(parametrize_param_names@)),
                )->0,
            ),
    {
        let regular = regular_names(fixture_names, parametrize_param_names);
        self.resolve_use_fixtures(cache, regular.as_slice())
    }

    /// Resolves a list of fixture names.
    pub fn resolve_use_fixtures(
        &mut self,
        cache: &mut NormalizedFixtureCache,
        fixture_names: &[String],
    ) -> (normalized: Vec<Rc<NormalizedFixture>>)
        requires
            lookup::names_are_unique(old(self).nodes()),
            lookup::requirements(
                old(self).nodes(),
                old(self).known(old(cache)@),
                None,
                text::texts(fixture_names@),
            ) is Some,
        ensures
            final(self).nodes() == old(self).nodes(),
            model::graphs(normalized@) == lookup::requirements(
                old(self).nodes(),
                old(self).known(old(cache)@),
                None,
                text::texts(fixture_names@),
            )->0.graphs,
            final(self).known(final(cache)@) == lookup::learned(
                old(self).nodes(),
                old(self).known(old(cache)@),
                lookup::requirements(
                    old(self).nodes(),
                    old(self).known(old(cache)@),
                    None,
                    text::texts(fixture_names@),
                )->0,
            ),
    {
        let ghost nodes = self.nodes();
        let ghost known = self.known(cache@);
        let ghost names = text::texts(fixture_names@);
        let ghost depth = choose|depth: nat| lookup::require_all(nodes, known, None, names, depth) is Some;
        proof {
            lookup::lemma_requirements(nodes, known, None, names, depth);
        }
        let normalized = self.get_dependent_fixtures(
            cache,
            None,
            fixture_names,
            Ghost(known),
            Ghost(depth),
        );
        proof {
            lemma_learned(
                nodes,
                known,
                self.known(cache@),
                lookup::requirements(nodes, known, None, names)->0,
            );
        }
        normalized
    }

    /// Expands the auto-use fixtures of a scope, in the order given.
    pub fn get_normalized_auto_use_fixtures(
        &mut self,
        cache: &mut NormalizedFixtureCache,
        auto_use_fixtures: &[&DiscoveredFixture],
    ) -> (normalized: Vec<Rc<NormalizedFixture>>)
        requires
            lookup::names_are_unique(old(self).nodes()),
            forall|i: int|
                0 <= i < auto_use_fixtures@.len() ==> #[trigger] lookup::is_reachable(
                    old(self).nodes(),
                    old(self).known(old(cache)@),
                    fixture_views(auto_use_fixtures@),
                    i,
                ),
            lookup::activation(
                old(self).nodes(),
                old(self).known(old(cache)@),
                fixture_views(auto_use_fixtures@),
            ) is Some,
        ensures
            final(self).nodes() == old(self).nodes(),
            lookup::activation(
                old(self).nodes(),
                old(self).known(old(cache)@),
                fixture_views(auto_use_fixtures@),
            ) == Some((model::graphs(normalized@), final(self).known(final(cache)@))),
    {
        let ghost nodes = self.nodes();
        let ghost known = self.known(cache@);
        let ghost fixtures = fixture_views(auto_use_fixtures@);
        let mut normalized: Vec<Rc<NormalizedFixture>> = Vec::new();
        let mut i: usize = 0;
        assert(model::graphs(normalized@) =~= Seq::<FixtureGraph>::empty());
        while i < auto_use_fixtures.len()
            invariant
                i <= auto_use_fixtures.len(),
                nodes == self.nodes(),
                lookup::names_are_unique(nodes),
                fixtures == fixture_views(auto_use_fixtures@),
                forall|i: int|
                    0 <= i < auto_use_fixtures@.len() ==> #[trigger] lookup::is_reachable(
                        nodes,
                        known,
                        fixtures,
                        i,
                    ),
                lookup::activation(nodes, known, fixtures) is Some,
                lookup::activation(nodes, known, fixtures.take(i as int)) == Some(
                    (model::graphs(normalized@), self.known(cache@)),
                ),
            decreases auto_use_fixtures.len() - i,
        {
            let fixture = auto_use_fixtures[i];
            let ghost now = self.known(cache@);
            let ghost earlier = model::graphs(normalized@);
            proof {
                lemma_activation_prefix(nodes, known, fixtures, i + 1);
                assert(fixtures.take(i + 1).drop_last() =~= fixtures.take(i as int));
                assert(fixtures.take(i + 1).last() == fixture@);
                assert(lookup::is_reachable(nodes, known, fixtures, i as int));
            }
            let ghost depth = choose|depth: nat| lookup::expand(nodes, now, fixture@, depth) is Some;
            proof {
                lookup::lemma_expansion(nodes, now, fixture@, depth);
            }
            let found = self.normalize_fixture(cache, fixture, Ghost(now), Ghost(depth));
            proof {
                lemma_learned(nodes, now, self.known(cache@), lookup::expansion(nodes, now, fixture@)->0);
            }
            self.remember(fixture.name.function.clone(), Rc::clone(&found));
            normalized.push(found);
            assert(model::graphs(normalized@) =~= earlier + seq![found.graph()]);
            i += 1;
        }
        assert(fixtures.take(i as int) =~= fixtures);
        normalized
    }
}

/// The names in `names` that are not in `left_out`, in order.
pub fn regular_names(names: &[String], left_out: &[String]) -> (kept: Vec<String>)
    ensures
        text::texts(kept@) == names_without(text::texts(names@), text::texts(left_out@)),
{
    let ghost keep = |name: Seq<char>| !text::texts(left_out@).contains(name);
    let mut kept: Vec<String> = Vec::new();
    let mut i: usize = 0;
    proof {
        reveal(Seq::filter);
        assert(text::texts(kept@) =~= text::texts(names@).take(0).filter(keep));
    }
    while i < names.len()
        invariant
            i <= names.len(),
            keep == (|name: Seq<char>| !text::texts(left_out@).contains(name)),
            text::texts(kept@) == text::texts(names@).take(i as int).filter(keep),
        decreases names.len() - i,
    {
        let ghost before = text::texts(kept@);
        proof {
            assert(text::texts(names@).take(i + 1) =~= text::texts(names@).take(i as int).push(
                names@[i as int]@,
            ));
            text::texts(names@).take(i as int).lemma_filter_push(names@[i as int]@, keep);
        }
        if !is_listed(&names[i], left_out) {
            kept.push(names[i].clone());
            assert(text::texts(kept@) =~= before.push(names@[i as int]@));
        }
        i += 1;
    }
    assert(text::texts(names@).take(i as int) =~= text::texts(names@));
    kept
}

/// If a list of auto-use fixtures can be expanded, so can the beginning of the list.
proof fn lemma_activation_prefix(
    nodes: Seq<Seq<FixtureView>>,
    known: Known,
    fixtures: Seq<FixtureView>,
    n: int,
)
    requires
        0 <= n <= fixtures.len(),
        lookup::activation(nodes, known, fixtures) is Some,
    ensures
        lookup::activation(nodes, known, fixtures.take(n)) is Some,
    decreases fixtures.len(),
{
    if n == fixtures.len() {
        assert(fixtures.take(n) =~= fixtures);
    } else {
        lemma_activation_prefix(nodes, known, fixtures.drop_last(), n);
        assert(fixtures.drop_last().take(n) =~= fixtures.take(n));
    }
}

/// Consistent growth by a resolution ends in exactly what the resolution teaches.
proof fn lemma_learned(
    nodes: Seq<Seq<FixtureView>>,
    known: Known,
    now: Known,
    found: Resolution,
)
    requires
        consistent(nodes, known, now),
        grown(known, now, found),
    ensures
        now == lookup::learned(nodes, known, found),
{
    let taught = lookup::learned(nodes, known, found);
    assert forall|k: Seq<char>| #[trigger] now.by_key.contains_key(k) implies now.by_key[k]
        == taught.by_key[k] by {
        assert(now.by_key.dom().contains(k));
        if !known.by_key.contains_key(k) {
            assert(settled(nodes, known, now, lookup::keyed(nodes, k), now.by_key[k]));
        }
    }
    assert forall|n: Seq<char>| #[trigger] now.by_name.contains_key(n) implies now.by_name[n]
        == taught.by_name[n] by {
        assert(now.by_name.dom().contains(n));
        if !known.by_name.contains_key(n) {
            assert(settled(nodes, known, now, lookup::nearest(nodes, None, n)->0, now.by_name[n]));
        }
    }
    assert(now.by_key.dom() =~= taught.by_key.dom());
    assert(now.by_name.dom() =~= taught.by_name.dom());
    assert(now.by_key =~= taught.by_key);
    assert(now.by_name =~= taught.by_name);
}

/// Growing twice is growing by both resolutions.
proof fn lemma_grown_further(
    before: Known,
    now: Known,
    later: Known,
    earlier: Resolution,
    step: Resolution,
)
    requires
        grown(before, now, earlier),
        grown(now, later, step),
    ensures
        grown(before, later, earlier.followed_by(step)),
{
    let both = earlier.followed_by(step);
    assert(later.by_key.dom() =~= before.by_key.dom().union(both.keys));
    assert(later.by_name.dom() =~= before.by_name.dom().union(both.names));
}

/// If a list of names resolves, so does the beginning of the list.
proof fn lemma_require_prefix(
    nodes: Seq<Seq<FixtureView>>,
    known: Known,
    user: Option<NameView>,
    names: Seq<Seq<char>>,
    depth: nat,
    n: int,
)
    requires
        0 <= n <= names.len(),
        lookup::require_all(nodes, known, user, names, depth) is Some,
    ensures
        lookup::require_all(nodes, known, user, names.take(n), depth) is Some,
    decreases names.len(),
{
    if n == names.len() {
        assert(names.take(n) =~= names);
    } else {
        lemma_require_prefix(nodes, known, user, names.drop_last(), depth, n);
        assert(names.drop_last().take(n) =~= names.take(n));
    }
}

/// What was settled stays settled when more becomes known.
proof fn lemma_stays_settled(
    nodes: Seq<Seq<FixtureView>>,
    known: Known,
    now: Known,
    later: Known,
    fixture: FixtureView,
    graph: FixtureGraph,
)
    requires
        settled(nodes, known, now, fixture, graph),
        now.by_key.dom().subset_of(later.by_key.dom()),
        now.by_name.dom().subset_of(later.by_name.dom()),
    ensures
        settled(nodes, known, later, fixture, graph),
{
}

/// A settled graph may be stored by qualified name.
proof fn lemma_add_key(
    nodes: Seq<Seq<FixtureView>>,
    known: Known,
    now: Known,
    key: Seq<char>,
    graph: FixtureGraph,
)
    requires
        consistent(nodes, known, now),
        !known.by_key.contains_key(key),
        lookup::within(nodes, lookup::keyed(nodes, key)),
        lookup::keyed(nodes, key).name.key() == key,
        settled(
            nodes,
            known,
            (Known { by_key: now.by_key.insert(key, graph), by_name: now.by_name }),
            lookup::keyed(nodes, key),
            graph,
        ),
    ensures
        consistent(
            nodes,
            known,
            (Known { by_key: now.by_key.insert(key, graph), by_name: now.by_name }),
        ),
{
    let later = Known { by_key: now.by_key.insert(key, graph), by_name: now.by_name };
    assert forall|k: Seq<char>| #[trigger]
        later.by_key.contains_key(k) && !known.by_key.contains_key(k) implies {
        &&& lookup::within(nodes, lookup::keyed(nodes, k))
        &&& lookup::keyed(nodes, k).name.key() == k
        &&& settled(nodes, known, later, lookup::keyed(nodes, k), later.by_key[k])
    } by {
        if k != key {
            assert(now.by_key.contains_key(k));
            lemma_stays_settled(nodes, known, now, later, lookup::keyed(nodes, k), now.by_key[k]);
        }
    }
    assert forall|n: Seq<char>| #[trigger]
        later.by_name.contains_key(n) && !known.by_name.contains_key(n) implies {
        &&& lookup::nearest(nodes, None, n) is Some
        &&& settled(nodes, known, later, lookup::nearest(nodes, None, n)->0, later.by_name[n])
    } by {
        assert(now.by_name.contains_key(n));
        lemma_stays_settled(nodes, known, now, later, lookup::nearest(nodes, None, n)->0, now.by_name[n]);
    }
}

/// A settled graph may be remembered by short name.
proof fn lemma_add_name(
    nodes: Seq<Seq<FixtureView>>,
    known: Known,
    now: Known,
    name: Seq<char>,
    graph: FixtureGraph,
)
    requires
        consistent(nodes, known, now),
        !known.by_name.contains_key(name),
        lookup::nearest(nodes, None, name) is Some,
        settled(
            nodes,
            known,
            (Known { by_key: now.by_key, by_name: now.by_name.insert(name, graph) }),
            lookup::nearest(nodes, None, name)->0,
            graph,
        ),
    ensures
        consistent(
            nodes,
            known,
            (Known { by_key: now.by_key, by_name: now.by_name.insert(name, graph) }),
        ),
{
    let later = Known { by_key: now.by_key, by_name: now.by_name.insert(name, graph) };
    assert forall|k: Seq<char>| #[trigger]
        later.by_key.contains_key(k) && !known.by_key.contains_key(k) implies {
        &&& lookup::within(nodes, lookup::keyed(nodes, k))
        &&& lookup::keyed(nodes, k).name.key() == k
        &&& settled(nodes, known, later, lookup::keyed(nodes, k), later.by_key[k])
    } by {
        assert(now.by_key.contains_key(k));
        lemma_stays_settled(nodes, known, now, later, lookup::keyed(nodes, k), now.by_key[k]);
    }
    assert forall|n: Seq<char>| #[trigger]
        later.by_name.contains_key(n) && !known.by_name.contains_key(n) implies {
        &&& lookup::nearest(nodes, None, n) is Some
        &&& settled(nodes, known, later, lookup::nearest(nodes, None, n)->0, later.by_name[n])
    } by {
        if n != name {
            assert(now.by_name.contains_key(n));
            lemma_stays_settled(
                nodes,
                known,
                now,
                later,
                lookup::nearest(nodes, None, n)->0,
                now.by_name[n],
            );
        }
    }
}

} // verus!
