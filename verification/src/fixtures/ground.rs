//! Which resolutions end.
//!
//! A fixture is grounded when everything it requires is known, absent or
//! grounded itself. Exactly the grounded fixtures have a finite graph; fixtures
//! that require each other in a circle do not.
use crate::fixtures::lookup::{self, Known};
use crate::fixtures::model::{
    self, DiscoveredFixture, FixtureNode, FixtureView, NameView, NormalizedFixture,
};
use crate::fixtures::resolver::{self, find_fixture, NormalizedFixtureCache};
use crate::text;
use std::rc::Rc;
use vstd::hash_map::StringHashMap;
use vstd::hash_set::StringHashSet;
use vstd::prelude::*;

verus! {

/// The fixture with the qualified name `key` is known or grounded.
pub open spec fn holds(known: Known, grounded: Set<Seq<char>>, key: Seq<char>) -> bool {
    known.by_key.contains_key(key) || grounded.contains(key)
}

/// What `user` calls `name` is known, absent or grounded.
pub open spec fn name_is_ready(
    nodes: Seq<Seq<FixtureView>>,
    known: Known,
    grounded: Set<Seq<char>>,
    user: Option<NameView>,
    name: Seq<char>,
) -> bool {
    ||| !lookup::names_itself(user, name) && known.by_name.contains_key(name)
    ||| match lookup::nearest(nodes, user, name) {
        None => true,
        Some(fixture) => holds(known, grounded, fixture.name.key()),
    }
}

/// Every name in `names` is ready for `user`.
pub open spec fn names_are_ready(
    nodes: Seq<Seq<FixtureView>>,
    known: Known,
    grounded: Set<Seq<char>>,
    user: Option<NameView>,
    names: Seq<Seq<char>>,
) -> bool {
    forall|i: int|
        0 <= i < names.len() ==> #[trigger] name_is_ready(nodes, known, grounded, user, names[i])
}

/// Every grounded fixture has a graph.
pub open spec fn all_end(
    nodes: Seq<Seq<FixtureView>>,
    known: Known,
    grounded: Set<Seq<char>>,
) -> bool {
    forall|f: FixtureView| #[trigger]
        lookup::within(nodes, f) && grounded.contains(f.name.key()) ==> lookup::expansion(
            nodes,
            known,
            f,
        ) is Some
}

/// No further fixture can be grounded.
pub open spec fn is_closed(
    nodes: Seq<Seq<FixtureView>>,
    known: Known,
    grounded: Set<Seq<char>>,
) -> bool {
    forall|f: FixtureView| #[trigger]
        lookup::within(nodes, f) && names_are_ready(
            nodes,
            known,
            grounded,
            Some(f.name),
            f.required,
        ) ==> holds(known, grounded, f.name.key())
}

/// Ready names resolve.
proof fn lemma_ready_names_resolve(
    nodes: Seq<Seq<FixtureView>>,
    known: Known,
    grounded: Set<Seq<char>>,
    user: Option<NameView>,
    names: Seq<Seq<char>>,
) -> (depth: nat)
    requires
        all_end(nodes, known, grounded),
        names_are_ready(nodes, known, grounded, user, names),
    ensures
        lookup::require_all(nodes, known, user, names, depth) is Some,
    decreases names.len(),
{
    if names.len() == 0 {
        0
    } else {
        let name = names.last();
        assert(name_is_ready(nodes, known, grounded, user, names[names.len() - 1]));
        assert forall|i: int| 0 <= i < names.drop_last().len() implies #[trigger] name_is_ready(
            nodes,
            known,
            grounded,
            user,
            names.drop_last()[i],
        ) by {
            assert(name_is_ready(nodes, known, grounded, user, names[i]));
        }
        let earlier = lemma_ready_names_resolve(nodes, known, grounded, user, names.drop_last());
        lookup::lemma_nearest(nodes, user, name);
        let last: nat = match lookup::nearest(nodes, user, name) {
            None => 0,
            Some(fixture) => if known.by_key.contains_key(fixture.name.key()) {
                0
            } else {
                choose|d: nat| lookup::expand(nodes, known, fixture, d) is Some
            },
        };
        assert(lookup::require(nodes, known, user, name, last) is Some);
        let depth = if earlier <= last {
            last
        } else {
            earlier
        };
        lookup::lemma_require_all_deeper(nodes, known, user, names.drop_last(), earlier, depth);
        lookup::lemma_require_deeper(nodes, known, user, name, last, depth);
        depth
    }
}

/// A fixture whose requirements are ready has a graph.
proof fn lemma_ready_fixture_ends(
    nodes: Seq<Seq<FixtureView>>,
    known: Known,
    grounded: Set<Seq<char>>,
    fixture: FixtureView,
)
    requires
        all_end(nodes, known, grounded),
        names_are_ready(nodes, known, grounded, Some(fixture.name), fixture.required),
    ensures
        lookup::expansion(nodes, known, fixture) is Some,
{
    let depth = lemma_ready_names_resolve(
        nodes,
        known,
        grounded,
        Some(fixture.name),
        fixture.required,
    );
    assert(lookup::expand(nodes, known, fixture, depth + 1) is Some);
}

/// When no further fixture can be grounded, whatever ends is known or grounded.
proof fn lemma_ending_fixture_holds(
    nodes: Seq<Seq<FixtureView>>,
    known: Known,
    grounded: Set<Seq<char>>,
    fixture: FixtureView,
    depth: nat,
)
    requires
        is_closed(nodes, known, grounded),
        lookup::within(nodes, fixture),
        lookup::expand(nodes, known, fixture, depth) is Some,
    ensures
        holds(known, grounded, fixture.name.key()),
    decreases depth, 0nat,
{
    if !known.by_key.contains_key(fixture.name.key()) {
        lemma_resolving_names_are_ready(
            nodes,
            known,
            grounded,
            Some(fixture.name),
            fixture.required,
            (depth - 1) as nat,
        );
    }
}

/// When no further fixture can be grounded, names that resolve are ready.
proof fn lemma_resolving_names_are_ready(
    nodes: Seq<Seq<FixtureView>>,
    known: Known,
    grounded: Set<Seq<char>>,
    user: Option<NameView>,
    names: Seq<Seq<char>>,
    depth: nat,
)
    requires
        is_closed(nodes, known, grounded),
        lookup::require_all(nodes, known, user, names, depth) is Some,
    ensures
        names_are_ready(nodes, known, grounded, user, names),
    decreases depth, 1 + names.len(),
{
    if names.len() > 0 {
        let name = names.last();
        lemma_resolving_names_are_ready(nodes, known, grounded, user, names.drop_last(), depth);
        assert(lookup::require(nodes, known, user, name, depth) is Some);
        lookup::lemma_nearest(nodes, user, name);
        if lookup::names_itself(user, name) || !known.by_name.contains_key(name) {
            if let Some(fixture) = lookup::nearest(nodes, user, name) {
                lemma_ending_fixture_holds(nodes, known, grounded, fixture, depth);
            }
        }
        assert forall|i: int| 0 <= i < names.len() implies #[trigger] name_is_ready(
            nodes,
            known,
            grounded,
            user,
            names[i],
        ) by {
            if i < names.len() - 1 {
                assert(name_is_ready(nodes, known, grounded, user, names.drop_last()[i]));
            }
        }
    }
}

/// `list` holds every fixture that `node` defines under its short name, and holds
/// nothing else beyond its first `start` items.
spec fn covers(list: Seq<&DiscoveredFixture>, start: int, node: Seq<FixtureView>) -> bool {
    &&& 0 <= start <= list.len()
    &&& forall|i: int|
        start <= i < list.len() ==> lookup::defined_in(node, (#[trigger] list[i])@.name.function)
            == Some(list[i]@)
    &&& forall|f: FixtureView| #[trigger]
        lookup::defined_in(node, f.name.function) == Some(f) ==> exists|i: int|
            start <= i < list.len() && (#[trigger] list[i])@ == f
}

/// Adds the fixtures that `node` defines to `list`.
fn add_candidates<'a>(node: &'a FixtureNode, list: &mut Vec<&'a DiscoveredFixture>)
    ensures
        old(list)@.is_prefix_of(final(list)@),
        covers(final(list)@, old(list)@.len() as int, node@),
{
    let ghost start = list@.len() as int;
    let ghost before = list@;
    let mut i: usize = 0;
    while i < node.fixtures.len()
        invariant
            i <= node.fixtures.len(),
            start == before.len(),
            before.is_prefix_of(list@),
            list@.len() == start + i,
            forall|k: int|
                start <= k < list@.len() ==> lookup::defined_in(
                    node@,
                    (#[trigger] list@[k])@.name.function,
                ) == Some(list@[k]@),
            forall|j: int|
                0 <= j < i ==> Some((#[trigger] list@[start + j])@) == lookup::defined_in(
                    node@,
                    node.fixtures@[j].name.function@,
                ),
        decreases node.fixtures.len() - i,
    {
        proof {
            lookup::lemma_defined_in(node@, node.fixtures@[i as int].name.function@);
            assert(node@[i as int].name.function == node.fixtures@[i as int].name.function@);
        }
        if let Some(candidate) = node.get_fixture(node.fixtures[i].name.function.as_str()) {
            list.push(candidate);
        }
        i += 1;
    }
    assert forall|f: FixtureView| #[trigger]
        lookup::defined_in(node@, f.name.function) == Some(f) implies exists|k: int|
        start <= k < list@.len() && (#[trigger] list@[k])@ == f by {
        lookup::lemma_defined_in(node@, f.name.function);
        let j = choose|j: int| 0 <= j < node@.len() && node@[j] == f;
        assert(list@[start + j]@ == f);
    }
}

/// The fixtures that the nodes of a context define.
fn candidates<'a>(
    parents: &'a [FixtureNode],
    current: &'a FixtureNode,
) -> (list: Vec<&'a DiscoveredFixture>)
    ensures
        all_within(resolver::context(*current, parents@), list@),
        forall|f: FixtureView| #[trigger]
            lookup::within(resolver::context(*current, parents@), f) ==> listed(list@, 0, f),
{
    let ghost nodes = resolver::context(*current, parents@);
    let mut list: Vec<&'a DiscoveredFixture> = Vec::new();
    add_candidates(current, &mut list);
    let mut i: usize = 0;
    proof {
        lemma_covered(nodes, 0, list@, 0);
    }
    while i < parents.len()
        invariant
            i <= parents.len(),
            nodes == resolver::context(*current, parents@),
            forall|k: int| 0 <= k < list@.len() ==> lookup::within(nodes, (#[trigger] list@[k])@),
            forall|n: int, f: FixtureView|
                0 <= n <= i && #[trigger] lookup::defined_in(nodes[n], f.name.function) == Some(f)
                    ==> listed(list@, 0, f),
        decreases parents.len() - i,
    {
        let ghost before = list@;
        add_candidates(&parents[i], &mut list);
        proof {
            assert(nodes[i + 1] == parents@[i as int]@);
            lemma_covered(nodes, i + 1, list@, before.len() as int);
            assert forall|k: int| 0 <= k < list@.len() implies lookup::within(
                nodes,
                (#[trigger] list@[k])@,
            ) by {
                if k < before.len() {
                    assert(list@[k] == before[k]);
                }
            }
            assert forall|n: int, f: FixtureView|
                0 <= n <= i + 1 && #[trigger] lookup::defined_in(nodes[n], f.name.function) == Some(
                    f,
                ) implies listed(list@, 0, f) by {
                if n <= i {
                    assert(listed(before, 0, f));
                    let k = choose|k: int| 0 <= k < before.len() && (#[trigger] before[k])@ == f;
                    assert(list@[k] == before[k]);
                }
            }
        }
        i += 1;
    }
    list
}

/// `fixture` stands in `list` at `start` or later.
spec fn listed(list: Seq<&DiscoveredFixture>, start: int, fixture: FixtureView) -> bool {
    exists|i: int| start <= i < list.len() && (#[trigger] list[i])@ == fixture
}

/// A list that covers a node of a context holds fixtures of the context, all of that node.
proof fn lemma_covered(
    nodes: Seq<Seq<FixtureView>>,
    n: int,
    list: Seq<&DiscoveredFixture>,
    start: int,
)
    requires
        0 <= n < nodes.len(),
        covers(list, start, nodes[n]),
    ensures
        forall|k: int| start <= k < list.len() ==> lookup::within(nodes, (#[trigger] list[k])@),
        forall|f: FixtureView| #[trigger]
            lookup::defined_in(nodes[n], f.name.function) == Some(f) ==> listed(list, 0, f),
{
    assert forall|k: int| start <= k < list.len() implies lookup::within(
        nodes,
        (#[trigger] list[k])@,
    ) by {
        assert(lookup::defined_in(nodes[n], list[k]@.name.function) == Some(list[k]@));
    }
    assert forall|f: FixtureView| #[trigger]
        lookup::defined_in(nodes[n], f.name.function) == Some(f) implies listed(list, 0, f) by {
        let k = choose|k: int| start <= k < list.len() && (#[trigger] list[k])@ == f;
        assert(list[k]@ == f);
    }
}

/// Whether every name in `names` is ready for `user`.
fn check_names(
    parents: &[FixtureNode],
    current: &FixtureNode,
    cache: &NormalizedFixtureCache,
    local: &StringHashMap<Rc<NormalizedFixture>>,
    grounded: &StringHashSet,
    user: Option<&DiscoveredFixture>,
    names: &[String],
) -> (ready: bool)
    ensures
        ready == names_are_ready(
            resolver::context(*current, parents@),
            (Known { by_key: cache@, by_name: model::graph_table(local@) }),
            grounded@,
            resolver::asking(user),
            text::texts(names@),
        ),
{
    let ghost nodes = resolver::context(*current, parents@);
    let ghost known = Known { by_key: cache@, by_name: model::graph_table(local@) };
    let ghost who = resolver::asking(user);
    let ghost wanted = text::texts(names@);
    let mut i: usize = 0;
    while i < names.len()
        invariant
            i <= names.len(),
            nodes == resolver::context(*current, parents@),
            known == (Known { by_key: cache@, by_name: model::graph_table(local@) }),
            who == resolver::asking(user),
            wanted == text::texts(names@),
            forall|k: int|
                0 <= k < i ==> #[trigger] name_is_ready(nodes, known, grounded@, who, wanted[k]),
        decreases names.len() - i,
    {
        let is_self_ref = match user {
            Some(fixture) => fixture.name.function == names[i],
            None => false,
        };
        assert(wanted[i as int] == names@[i as int]@);
        let is_known = !is_self_ref && local.contains_key(names[i].as_str());
        if !is_known {
            if let Some(fixture) = find_fixture(user, names[i].as_str(), parents, current) {
                let key = fixture.name.key();
                if cache.get(key.as_str()).is_none() && !grounded.contains(key.as_str()) {
                    assert(!name_is_ready(nodes, known, grounded@, who, wanted[i as int]));
                    return false;
                }
            }
        }
        assert(name_is_ready(nodes, known, grounded@, who, wanted[i as int]));
        i += 1;
    }
    true
}

/// Every fixture of the context is known, grounded, or stands in `list` at `start` or later.
spec fn accounted(
    nodes: Seq<Seq<FixtureView>>,
    known: Known,
    grounded: Set<Seq<char>>,
    list: Seq<&DiscoveredFixture>,
    start: int,
    rest: Seq<&DiscoveredFixture>,
) -> bool {
    forall|f: FixtureView| #[trigger]
        lookup::within(nodes, f) ==> holds(known, grounded, f.name.key()) || listed(list, start, f)
            || listed(rest, 0, f)
}

/// Every fixture of `list` is one of the context.
spec fn all_within(nodes: Seq<Seq<FixtureView>>, list: Seq<&DiscoveredFixture>) -> bool {
    forall|k: int| 0 <= k < list.len() ==> lookup::within(nodes, (#[trigger] list[k])@)
}

/// No fixture among the first `n` of `list` is ready.
spec fn none_ready(
    nodes: Seq<Seq<FixtureView>>,
    known: Known,
    grounded: Set<Seq<char>>,
    list: Seq<&DiscoveredFixture>,
    n: int,
) -> bool {
    forall|k: int|
        0 <= k < n ==> !names_are_ready(
            nodes,
            known,
            grounded,
            Some((#[trigger] list[k])@.name),
            list[k]@.required,
        )
}

/// Moves each fixture of `pending` that is ready to `grounded` and returns the others.
fn ground_round<'a>(
    parents: &'a [FixtureNode],
    current: &'a FixtureNode,
    cache: &NormalizedFixtureCache,
    local: &StringHashMap<Rc<NormalizedFixture>>,
    grounded: &mut StringHashSet,
    pending: &Vec<&'a DiscoveredFixture>,
) -> (rest: Vec<&'a DiscoveredFixture>)
    requires
        lookup::names_are_unique(resolver::context(*current, parents@)),
        all_within(resolver::context(*current, parents@), pending@),
        all_end(
            resolver::context(*current, parents@),
            (Known { by_key: cache@, by_name: model::graph_table(local@) }),
            old(grounded)@,
        ),
        accounted(
            resolver::context(*current, parents@),
            (Known { by_key: cache@, by_name: model::graph_table(local@) }),
            old(grounded)@,
            pending@,
            0,
            Seq::empty(),
        ),
    ensures
        all_within(resolver::context(*current, parents@), rest@),
        all_end(
            resolver::context(*current, parents@),
            (Known { by_key: cache@, by_name: model::graph_table(local@) }),
            final(grounded)@,
        ),
        accounted(
            resolver::context(*current, parents@),
            (Known { by_key: cache@, by_name: model::graph_table(local@) }),
            final(grounded)@,
            rest@,
            0,
            Seq::empty(),
        ),
        rest@.len() <= pending@.len(),
        rest@.len() == pending@.len() ==> is_closed(
            resolver::context(*current, parents@),
            (Known { by_key: cache@, by_name: model::graph_table(local@) }),
            final(grounded)@,
        ),
{
    let ghost nodes = resolver::context(*current, parents@);
    let ghost known = Known { by_key: cache@, by_name: model::graph_table(local@) };
    let ghost start = grounded@;
    let mut rest: Vec<&'a DiscoveredFixture> = Vec::new();
    let mut i: usize = 0;
    while i < pending.len()
        invariant
            i <= pending.len(),
            nodes == resolver::context(*current, parents@),
            known == (Known { by_key: cache@, by_name: model::graph_table(local@) }),
            lookup::names_are_unique(nodes),
            all_within(nodes, pending@),
            all_within(nodes, rest@),
            all_end(nodes, known, grounded@),
            accounted(nodes, known, grounded@, pending@, i as int, rest@),
            rest@.len() <= i,
            rest@.len() == i ==> grounded@ == start && none_ready(
                nodes,
                known,
                start,
                pending@,
                i as int,
            ),
        decreases pending.len() - i,
    {
        let fixture = pending[i];
        let ghost before = grounded@;
        let ghost left = rest@;
        if check_names(
            parents,
            current,
            cache,
            local,
            &*grounded,
            Some(fixture),
            fixture.required.as_slice(),
        ) {
            proof {
                lemma_ready_fixture_ends(nodes, known, before, fixture@);
            }
            grounded.insert(fixture.name.key());
            proof {
                lemma_all_end_grows(nodes, known, before, fixture@);
            }
        } else {
            rest.push(fixture);
        }
        proof {
            assert forall|f: FixtureView| #[trigger] lookup::within(nodes, f) implies holds(
                known,
                grounded@,
                f.name.key(),
            ) || listed(pending@, i + 1, f) || listed(rest@, 0, f) by {
                if holds(known, before, f.name.key()) {
                } else if listed(left, 0, f) {
                    let k = choose|k: int| 0 <= k < left.len() && (#[trigger] left[k])@ == f;
                    assert(rest@[k]@ == f);
                } else {
                    let k = choose|k: int|
                        i <= k < pending@.len() && (#[trigger] pending@[k])@ == f;
                    if k > i {
                        assert(pending@[k]@ == f);
                    } else if rest@.len() > left.len() {
                        assert(rest@[rest@.len() - 1]@ == f);
                    }
                }
            }
        }
        i += 1;
    }
    proof {
        assert forall|f: FixtureView| #[trigger] lookup::within(nodes, f) implies holds(
            known,
            grounded@,
            f.name.key(),
        ) || listed(rest@, 0, f) || listed(Seq::empty(), 0, f) by {
            assert(!listed(pending@, i as int, f));
        }
        if rest@.len() == pending@.len() {
            assert forall|f: FixtureView| #[trigger]
                lookup::within(nodes, f) && names_are_ready(
                    nodes,
                    known,
                    start,
                    Some(f.name),
                    f.required,
                ) implies holds(known, start, f.name.key()) by {
                assert(!listed(Seq::empty(), 0, f));
                if listed(pending@, 0, f) {
                    let k = choose|k: int| 0 <= k < pending@.len() && (#[trigger] pending@[k])@ == f;
                    assert(pending@[k]@ == f);
                }
            }
        }
    }
    rest
}

/// Grounding a fixture that has a graph leaves only fixtures with graphs grounded.
proof fn lemma_all_end_grows(
    nodes: Seq<Seq<FixtureView>>,
    known: Known,
    grounded: Set<Seq<char>>,
    fixture: FixtureView,
)
    requires
        lookup::names_are_unique(nodes),
        all_end(nodes, known, grounded),
        lookup::within(nodes, fixture),
        lookup::expansion(nodes, known, fixture) is Some,
    ensures
        all_end(nodes, known, grounded.insert(fixture.name.key())),
{
}

/// Qualified names of fixtures of the context: together with the store they name exactly the
/// fixtures whose expansion ends.
fn grounded_keys(
    parents: &[FixtureNode],
    current: &FixtureNode,
    cache: &NormalizedFixtureCache,
    local: &StringHashMap<Rc<NormalizedFixture>>,
) -> (grounded: StringHashSet)
    requires
        lookup::names_are_unique(resolver::context(*current, parents@)),
    ensures
        all_end(
            resolver::context(*current, parents@),
            (Known { by_key: cache@, by_name: model::graph_table(local@) }),
            grounded@,
        ),
        is_closed(
            resolver::context(*current, parents@),
            (Known { by_key: cache@, by_name: model::graph_table(local@) }),
            grounded@,
        ),
{
    let mut grounded = StringHashSet::new();
    let mut pending = candidates(parents, current);
    loop
        invariant
            lookup::names_are_unique(resolver::context(*current, parents@)),
            all_within(resolver::context(*current, parents@), pending@),
            all_end(
                resolver::context(*current, parents@),
                (Known { by_key: cache@, by_name: model::graph_table(local@) }),
                grounded@,
            ),
            accounted(
                resolver::context(*current, parents@),
                (Known { by_key: cache@, by_name: model::graph_table(local@) }),
                grounded@,
                pending@,
                0,
                Seq::empty(),
            ),
        decreases pending@.len(),
    {
        let rest = ground_round(parents, current, cache, local, &mut grounded, &pending);
        if rest.len() == pending.len() {
            return grounded;
        }
        pending = rest;
    }
}

/// Whether the expansion of `fixture` ends.
pub(crate) fn fixture_ends(
    parents: &[FixtureNode],
    current: &FixtureNode,
    cache: &NormalizedFixtureCache,
    local: &StringHashMap<Rc<NormalizedFixture>>,
    fixture: &DiscoveredFixture,
) -> (ends: bool)
    requires
        lookup::names_are_unique(resolver::context(*current, parents@)),
        lookup::within(resolver::context(*current, parents@), fixture@) || cache@.contains_key(
            fixture@.name.key(),
        ),
    ensures
        ends == (lookup::expansion(
            resolver::context(*current, parents@),
            (Known { by_key: cache@, by_name: model::graph_table(local@) }),
            fixture@,
        ) is Some),
{
    let ghost nodes = resolver::context(*current, parents@);
    let ghost known = Known { by_key: cache@, by_name: model::graph_table(local@) };
    let key = fixture.name.key();
    if cache.get(key.as_str()).is_some() {
        assert(lookup::expand(nodes, known, fixture@, 0) is Some);
        return true;
    }
    let grounded = grounded_keys(parents, current, cache, local);
    proof {
        if lookup::expansion(nodes, known, fixture@) is Some {
            let depth = choose|depth: nat| lookup::expand(nodes, known, fixture@, depth) is Some;
            lemma_ending_fixture_holds(nodes, known, grounded@, fixture@, depth);
        }
    }
    grounded.contains(key.as_str())
}

/// Whether the resolution of `names` ends.
pub(crate) fn names_end(
    parents: &[FixtureNode],
    current: &FixtureNode,
    cache: &NormalizedFixtureCache,
    local: &StringHashMap<Rc<NormalizedFixture>>,
    names: &[String],
) -> (ends: bool)
    requires
        lookup::names_are_unique(resolver::context(*current, parents@)),
    ensures
        ends == (lookup::requirements(
            resolver::context(*current, parents@),
            (Known { by_key: cache@, by_name: model::graph_table(local@) }),
            None,
            text::texts(names@),
        ) is Some),
{
    let ghost nodes = resolver::context(*current, parents@);
    let ghost known = Known { by_key: cache@, by_name: model::graph_table(local@) };
    let ghost wanted = text::texts(names@);
    let grounded = grounded_keys(parents, current, cache, local);
    let ready = check_names(parents, current, cache, local, &grounded, None, names);
    proof {
        if ready {
            let depth = lemma_ready_names_resolve(nodes, known, grounded@, None, wanted);
            lookup::lemma_requirements(nodes, known, None, wanted, depth);
        }
        if lookup::requirements(nodes, known, None, wanted) is Some {
            let depth = choose|depth: nat|
                lookup::require_all(nodes, known, None, wanted, depth) is Some;
            lemma_resolving_names_are_ready(nodes, known, grounded@, None, wanted, depth);
        }
    }
    ready
}

/// Whether two lists hold the same texts.
fn same_names(a: &Vec<String>, b: &Vec<String>) -> (same: bool)
    ensures
        same == (text::texts(a@) == text::texts(b@)),
{
    if a.len() != b.len() {
        assert(text::texts(a@).len() != text::texts(b@).len());
        return false;
    }
    let mut i: usize = 0;
    while i < a.len()
        invariant
            i <= a.len(),
            a@.len() == b@.len(),
            forall|k: int| 0 <= k < i ==> #[trigger] text::texts(a@)[k] == text::texts(b@)[k],
        decreases a.len() - i,
    {
        if a[i] != b[i] {
            assert(text::texts(a@)[i as int] != text::texts(b@)[i as int]);
            return false;
        }
        i += 1;
    }
    assert(text::texts(a@) =~= text::texts(b@));
    true
}

/// Whether two fixtures say the same.
fn same_fixture(a: &DiscoveredFixture, b: &DiscoveredFixture) -> (same: bool)
    ensures
        same == (a@ == b@),
{
    a.name.same_as(&b.name) && same_names(&a.required, &b.required) && a.scope == b.scope
        && a.is_generator == b.is_generator && a.definition == b.definition
}

/// Whether `fixture` is what a node of the context defines under its short name.
pub(crate) fn is_within(
    parents: &[FixtureNode],
    current: &FixtureNode,
    fixture: &DiscoveredFixture,
) -> (inside: bool)
    ensures
        inside == lookup::within(resolver::context(*current, parents@), fixture@),
{
    let ghost nodes = resolver::context(*current, parents@);
    let list = candidates(parents, current);
    let mut i: usize = 0;
    while i < list.len()
        invariant
            i <= list.len(),
            nodes == resolver::context(*current, parents@),
            all_within(nodes, list@),
            forall|k: int| 0 <= k < i ==> (#[trigger] list@[k])@ != fixture@,
        decreases list.len() - i,
    {
        if same_fixture(list[i], fixture) {
            assert(lookup::within(nodes, list@[i as int]@));
            return true;
        }
        i += 1;
    }
    assert(!listed(list@, 0, fixture@));
    false
}

/// Whether qualified names tell the fixtures of the context apart.
pub(crate) fn has_unique_names(parents: &[FixtureNode], current: &FixtureNode) -> (unique: bool)
    ensures
        unique == lookup::names_are_unique(resolver::context(*current, parents@)),
{
    let ghost nodes = resolver::context(*current, parents@);
    let list = candidates(parents, current);
    let mut i: usize = 0;
    while i < list.len()
        invariant
            i <= list.len(),
            nodes == resolver::context(*current, parents@),
            all_within(nodes, list@),
            forall|a: int, b: int|
                0 <= a < i && 0 <= b < list@.len() && (#[trigger] list@[a])@.name.key() == (
                #[trigger] list@[b])@.name.key() ==> list@[a]@ == list@[b]@,
        decreases list.len() - i,
    {
        let key = list[i].name.key();
        let mut j: usize = 0;
        while j < list.len()
            invariant
                i < list.len(),
                j <= list.len(),
                key@ == list@[i as int]@.name.key(),
                nodes == resolver::context(*current, parents@),
                all_within(nodes, list@),
                forall|b: int|
                    0 <= b < j && key@ == (#[trigger] list@[b])@.name.key() ==> list@[i as int]@
                        == list@[b]@,
            decreases list.len() - j,
        {
            if list[j].name.key() == key && !same_fixture(list[i], list[j]) {
                assert(lookup::within(nodes, list@[i as int]@));
                assert(lookup::within(nodes, list@[j as int]@));
                return false;
            }
            j += 1;
        }
        i += 1;
    }
    assert forall|f: FixtureView, g: FixtureView|
        #[trigger] lookup::within(nodes, f) && #[trigger] lookup::within(nodes, g) && f.name.key()
            == g.name.key() implies f == g by {
        assert(listed(list@, 0, f));
        assert(listed(list@, 0, g));
        let a = choose|a: int| 0 <= a < list@.len() && (#[trigger] list@[a])@ == f;
        let b = choose|b: int| 0 <= b < list@.len() && (#[trigger] list@[b])@ == g;
        assert(list@[a]@ == list@[b]@);
    }
    true
}

} // verus!
