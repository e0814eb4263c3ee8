//! Laws of fixture resolution.
use crate::fixtures::lookup::{self, Known, Resolution};
use crate::fixtures::model::{
    self, DiscoveredFixture, FixtureNode, FixtureView, NameView, NormalizedFixture,
};
use crate::fixtures::resolver;
use std::rc::Rc;
use vstd::prelude::*;

verus! {

/// The nearest definition of a name wins: a lookup finds the definition in the first
/// node that defines the name, definitions by the asking fixture itself passed over.
pub proof fn law_nearest_definition_wins(
    nodes: Seq<Seq<FixtureView>>,
    user: Option<NameView>,
    name: Seq<char>,
    i: int,
)
    requires
        0 <= i < nodes.len(),
        lookup::defined_in(nodes[i], name) is Some,
        user != Some(lookup::defined_in(nodes[i], name)->0.name),
        forall|j: int|
            0 <= j < i ==> (#[trigger] lookup::defined_in(nodes[j], name) matches Some(f)
                ==> user == Some(f.name)),
    ensures
        lookup::nearest(nodes, user, name) == lookup::defined_in(nodes[i], name),
    decreases i,
{
    if i > 0 {
        assert(lookup::defined_in(nodes[0], name) matches Some(f) ==> user == Some(f.name));
        assert(nodes.drop_first()[i - 1] == nodes[i]);
        assert forall|j: int|
            0 <= j < i - 1 implies (#[trigger] lookup::defined_in(
            nodes.drop_first()[j],
            name,
        ) matches Some(f) ==> user == Some(f.name)) by {
            assert(lookup::defined_in(nodes[j + 1], name) matches Some(f) ==> user == Some(f.name));
        }
        law_nearest_definition_wins(nodes.drop_first(), user, name, i - 1);
    }
}

/// A fixture never resolves to itself, whatever it names.
pub proof fn law_no_fixture_resolves_to_itself(
    nodes: Seq<Seq<FixtureView>>,
    me: NameView,
    name: Seq<char>,
)
    ensures
        lookup::nearest(nodes, Some(me), name) matches Some(found) ==> found.name != me
            && found.name.function == name,
{
    lookup::lemma_nearest(nodes, Some(me), name);
}

/// What is known stays known, and stays what it was.
pub proof fn law_known_graphs_are_kept(
    nodes: Seq<Seq<FixtureView>>,
    known: Known,
    found: Resolution,
    name: Seq<char>,
)
    ensures
        known.by_key.contains_key(name) ==> lookup::learned(nodes, known, found).by_key.contains_key(
            name,
        ) && lookup::learned(nodes, known, found).by_key[name] == known.by_key[name],
        known.by_name.contains_key(name) ==> lookup::learned(
            nodes,
            known,
            found,
        ).by_name.contains_key(name) && lookup::learned(nodes, known, found).by_name[name]
            == known.by_name[name],
{
}

/// Resolving the same names again gives the same graphs and teaches nothing new.
pub proof fn law_resolving_again_changes_nothing(
    nodes: Seq<Seq<FixtureView>>,
    known: Known,
    names: Seq<Seq<char>>,
)
    requires
        lookup::requirements(nodes, known, None, names) is Some,
    ensures
        ({
            let found = lookup::requirements(nodes, known, None, names)->0;
            let after = lookup::learned(nodes, known, found);
            let again = lookup::requirements(nodes, after, None, names);
            &&& again is Some
            &&& again->0.graphs == found.graphs
            &&& lookup::learned(nodes, after, again->0) == after
        }),
{
    let depth = choose|d: nat| lookup::require_all(nodes, known, None, names, d) is Some;
    let found = lookup::requirements(nodes, known, None, names)->0;
    let after = lookup::learned(nodes, known, found);
    lookup::lemma_requirements(nodes, known, None, names, depth);
    lemma_names_are_defined(nodes, known, None, names, depth);
    lemma_again(nodes, known, names, depth, after, found);
    lookup::lemma_requirements(nodes, after, None, names, 0);
    let again = lookup::requirements(nodes, after, None, names)->0;
    let later = lookup::learned(nodes, after, again);
    assert(later.by_key =~= after.by_key);
    assert(later.by_name =~= after.by_name);
}

/// A resolution only remembers names that some node defines.
proof fn lemma_names_are_defined(
    nodes: Seq<Seq<FixtureView>>,
    known: Known,
    user: Option<NameView>,
    names: Seq<Seq<char>>,
    depth: nat,
)
    requires
        lookup::require_all(nodes, known, user, names, depth) is Some,
    ensures
        forall|n: Seq<char>| #[trigger]
            lookup::require_all(nodes, known, user, names, depth)->0.names.contains(n)
                ==> lookup::nearest(nodes, None, n) is Some,
    decreases depth, names.len(),
{
    if names.len() > 0 {
        let name = names.last();
        lemma_names_are_defined(nodes, known, user, names.drop_last(), depth);
        lookup::lemma_nearest(nodes, user, name);
        if lookup::names_itself(user, name) || !known.by_name.contains_key(name) {
            if let Some(fixture) = lookup::nearest(nodes, user, name) {
                if !known.by_key.contains_key(fixture.name.key()) {
                    assert(lookup::expand(nodes, known, fixture, depth) is Some);
                    lemma_names_are_defined(
                        nodes,
                        known,
                        Some(fixture.name),
                        fixture.required,
                        (depth - 1) as nat,
                    );
                }
            }
        }
        let earlier = lookup::require_all(nodes, known, user, names.drop_last(), depth)->0;
        let last = lookup::require(nodes, known, user, name, depth)->0;
        assert forall|n: Seq<char>| #[trigger]
            lookup::require_all(nodes, known, user, names, depth)->0.names.contains(n) implies lookup::nearest(
        nodes, None, n) is Some by {
            assert(earlier.names.contains(n) || last.names.contains(n));
        }
    }
}

/// Names whose resolution was learned resolve at once, to the same graphs.
proof fn lemma_again(
    nodes: Seq<Seq<FixtureView>>,
    known: Known,
    names: Seq<Seq<char>>,
    depth: nat,
    after: Known,
    all: Resolution,
)
    requires
        lookup::require_all(nodes, known, None, names, depth) is Some,
        lookup::require_all(nodes, known, None, names, depth)->0.names.subset_of(all.names),
        forall|n: Seq<char>| #[trigger]
            all.names.contains(n) ==> lookup::nearest(nodes, None, n) is Some,
        after == lookup::learned(nodes, known, all),
    ensures
        lookup::require_all(nodes, after, None, names, 0) matches Some(again) && again.graphs
            == lookup::require_all(nodes, known, None, names, depth)->0.graphs && again.keys
            == Set::<Seq<char>>::empty() && again.names == Set::<Seq<char>>::empty(),
    decreases names.len(),
{
    if names.len() > 0 {
        let name = names.last();
        let earlier = lookup::require_all(nodes, known, None, names.drop_last(), depth)->0;
        let last = lookup::require(nodes, known, None, name, depth)->0;
        lemma_again(nodes, known, names.drop_last(), depth, after, all);
        if !known.by_name.contains_key(name) {
            if let Some(fixture) = lookup::nearest(nodes, None, name) {
                lookup::lemma_expansion(nodes, known, fixture, depth);
                assert(last.names.contains(name));
                assert(after.by_name.contains_key(name));
                assert(last.graphs =~= seq![after.by_name[name]]);
            }
        }
        let again = lookup::require(nodes, after, None, name, 0)->0;
        assert(again.graphs =~= last.graphs);
        let both = lookup::require_all(nodes, after, None, names, 0)->0;
        assert(both.keys =~= Set::<Seq<char>>::empty());
        assert(both.names =~= Set::<Seq<char>>::empty());
    }
}

/// Expanding auto-use fixtures in one go is the same as expanding the first ones and going on
/// with the others from what is known by then.
pub proof fn law_auto_use_fixtures_can_be_split_up(
    nodes: Seq<Seq<FixtureView>>,
    known: Known,
    first: Seq<FixtureView>,
    others: Seq<FixtureView>,
)
    requires
        lookup::activation(nodes, known, first) is Some,
    ensures
        lookup::activation(nodes, known, first + others) == match lookup::activation(
            nodes,
            (lookup::activation(nodes, known, first)->0).1,
            others,
        ) {
            Some((graphs, after)) => Some(
                ((lookup::activation(nodes, known, first)->0).0 + graphs, after),
            ),
            None => None,
        },
    decreases others.len(),
{
    let (graphs, middle) = lookup::activation(nodes, known, first)->0;
    if others.len() == 0 {
        assert(first + others =~= first);
        assert(graphs + Seq::empty() =~= graphs);
    } else {
        law_auto_use_fixtures_can_be_split_up(nodes, known, first, others.drop_last());
        assert((first + others).drop_last() =~= first + others.drop_last());
        assert((first + others).last() == others.last());
        if let Some((more, then_known)) = lookup::activation(nodes, middle, others.drop_last()) {
            if let Some(found) = lookup::expansion(nodes, then_known, others.last()) {
                assert((graphs + more) + found.graphs =~= graphs + (more + found.graphs));
            }
        }
    }
}

/// One auto-use fixture can be expanded exactly when its expansion ends.
pub proof fn law_one_auto_use_fixture(
    nodes: Seq<Seq<FixtureView>>,
    known: Known,
    fixture: FixtureView,
)
    ensures
        lookup::activation(nodes, known, seq![fixture]) is Some <==> lookup::expansion(
            nodes,
            known,
            fixture,
        ) is Some,
{
    let one = seq![fixture];
    assert(one.drop_last() =~= Seq::empty());
    assert(lookup::activation(nodes, known, one.drop_last()) is Some);
}

/// A node answers a name with the first fixture that it lists under it, and with nothing when
/// it lists none.
pub proof fn law_first_definition_in_a_node_wins(
    node: Seq<FixtureView>,
    name: Seq<char>,
    i: int,
)
    requires
        0 <= i <= node.len(),
        forall|j: int| 0 <= j < i ==> (#[trigger] node[j]).name.function != name,
        i < node.len() ==> node[i].name.function == name,
    ensures
        lookup::defined_in(node, name) == if i < node.len() {
            Some(node[i])
        } else {
            None
        },
    decreases i,
{
    if i > 0 {
        let rest = node.drop_first();
        assert(node[0].name.function != name);
        assert forall|j: int| 0 <= j < i - 1 implies (#[trigger] rest[j]).name.function != name by {
            assert(node[j + 1].name.function != name);
        }
        law_first_definition_in_a_node_wins(rest, name, i - 1);
    }
}

/// A lookup finds nothing exactly when every node that defines the name defines only the
/// fixture that asks.
pub proof fn law_undefined_names_are_not_found(
    nodes: Seq<Seq<FixtureView>>,
    user: Option<NameView>,
    name: Seq<char>,
)
    ensures
        lookup::nearest(nodes, user, name) is None <==> forall|j: int|
            0 <= j < nodes.len() ==> (#[trigger] lookup::defined_in(nodes[j], name) matches Some(f)
                ==> user == Some(f.name)),
    decreases nodes.len(),
{
    if nodes.len() > 0 {
        let rest = nodes.drop_first();
        law_undefined_names_are_not_found(rest, user, name);
        if lookup::nearest(nodes, user, name) is None {
            assert forall|j: int| 0 <= j < nodes.len() implies (#[trigger] lookup::defined_in(
                nodes[j],
                name,
            ) matches Some(f) ==> user == Some(f.name)) by {
                if j > 0 {
                    assert(lookup::defined_in(rest[j - 1], name) matches Some(f) ==> user == Some(
                        f.name,
                    ));
                }
            }
        }
        if forall|j: int|
            0 <= j < nodes.len() ==> (#[trigger] lookup::defined_in(nodes[j], name) matches Some(f)
                ==> user == Some(f.name)) {
            assert(lookup::defined_in(nodes[0], name) matches Some(f) ==> user == Some(f.name));
            assert forall|j: int| 0 <= j < rest.len() implies (#[trigger] lookup::defined_in(
                rest[j],
                name,
            ) matches Some(f) ==> user == Some(f.name)) by {
                assert(lookup::defined_in(nodes[j + 1], name) matches Some(f) ==> user == Some(
                    f.name,
                ));
            }
        }
    }
}

/// The graph of a fixture that was not known carries the name, the scope, the kind and the
/// definition that the fixture was discovered with, and below it the graphs of what the
/// fixture requires, in that order. It has one whenever its requirements have.
pub proof fn law_graphs_describe_their_fixtures(
    nodes: Seq<Seq<FixtureView>>,
    known: Known,
    fixture: FixtureView,
)
    requires
        !known.by_key.contains_key(fixture.name.key()),
    ensures
        ({
            let needs = lookup::requirements(nodes, known, Some(fixture.name), fixture.required);
            let found = lookup::expansion(nodes, known, fixture);
            &&& found is Some <==> needs is Some
            &&& found is Some ==> {
                &&& found->0.graphs.len() == 1
                &&& found->0.graphs[0].name == fixture.name
                &&& found->0.graphs[0].scope == fixture.scope
                &&& found->0.graphs[0].is_generator == fixture.is_generator
                &&& found->0.graphs[0].definition == fixture.definition
                &&& found->0.graphs[0].dependencies == needs->0.graphs
                &&& found->0.keys == needs->0.keys.insert(fixture.name.key())
                &&& found->0.names == needs->0.names
            }
        }),
{
    let user = Some(fixture.name);
    if lookup::expansion(nodes, known, fixture) is Some {
        let depth = choose|d: nat| lookup::expand(nodes, known, fixture, d) is Some;
        lookup::lemma_expansion(nodes, known, fixture, depth);
        lookup::lemma_requirements(nodes, known, user, fixture.required, (depth - 1) as nat);
    }
    if lookup::requirements(nodes, known, user, fixture.required) is Some {
        let depth = choose|d: nat|
            lookup::require_all(nodes, known, user, fixture.required, d) is Some;
        lookup::lemma_requirements(nodes, known, user, fixture.required, depth);
        assert(lookup::expand(nodes, known, fixture, depth + 1) is Some);
        lookup::lemma_expansion(nodes, known, fixture, depth + 1);
    }
}

/// A fixture whose qualified name is known is answered with the graph that is known, and
/// nothing is learned.
pub proof fn law_known_fixtures_are_taken_as_they_are(
    nodes: Seq<Seq<FixtureView>>,
    known: Known,
    fixture: FixtureView,
)
    requires
        known.by_key.contains_key(fixture.name.key()),
    ensures
        lookup::expansion(nodes, known, fixture) matches Some(found) && found.graphs == seq![
            known.by_key[fixture.name.key()],
        ] && found.keys == Set::<Seq<char>>::empty() && found.names == Set::<Seq<char>>::empty(),
{
    assert(lookup::expand(nodes, known, fixture, 0) is Some);
    lookup::lemma_expansion(nodes, known, fixture, 0);
}

/// Names that stand one behind the other, at one depth.
proof fn lemma_require_concat(
    nodes: Seq<Seq<FixtureView>>,
    known: Known,
    user: Option<NameView>,
    a: Seq<Seq<char>>,
    b: Seq<Seq<char>>,
    depth: nat,
)
    ensures
        ({
            let first = lookup::require_all(nodes, known, user, a, depth);
            let second = lookup::require_all(nodes, known, user, b, depth);
            let both = lookup::require_all(nodes, known, user, a + b, depth);
            &&& both is Some <==> first is Some && second is Some
            &&& both is Some ==> {
                &&& both->0.graphs == first->0.graphs + second->0.graphs
                &&& both->0.keys == first->0.keys.union(second->0.keys)
                &&& both->0.names == first->0.names.union(second->0.names)
            }
        }),
    decreases b.len(),
{
    let first = lookup::require_all(nodes, known, user, a, depth);
    if b.len() == 0 {
        assert(a + b =~= a);
        if first is Some {
            assert(first->0.graphs + Seq::empty() =~= first->0.graphs);
            assert(first->0.keys.union(Set::empty()) =~= first->0.keys);
            assert(first->0.names.union(Set::empty()) =~= first->0.names);
        }
    } else {
        lemma_require_concat(nodes, known, user, a, b.drop_last(), depth);
        assert((a + b).drop_last() =~= a + b.drop_last());
        assert((a + b).last() == b.last());
        let second = lookup::require_all(nodes, known, user, b, depth);
        let both = lookup::require_all(nodes, known, user, a + b, depth);
        if both is Some {
            assert(both->0.graphs =~= first->0.graphs + second->0.graphs);
            assert(both->0.keys =~= first->0.keys.union(second->0.keys));
            assert(both->0.names =~= first->0.names.union(second->0.names));
        }
    }
}

/// Names are resolved in the order they are given, each for itself: resolving two lists
/// behind each other gives the graphs of the first and then those of the second.
pub proof fn law_names_are_resolved_in_order(
    nodes: Seq<Seq<FixtureView>>,
    known: Known,
    user: Option<NameView>,
    a: Seq<Seq<char>>,
    b: Seq<Seq<char>>,
)
    ensures
        ({
            let first = lookup::requirements(nodes, known, user, a);
            let second = lookup::requirements(nodes, known, user, b);
            let both = lookup::requirements(nodes, known, user, a + b);
            &&& both is Some <==> first is Some && second is Some
            &&& both is Some ==> {
                &&& both->0.graphs == first->0.graphs + second->0.graphs
                &&& both->0.keys == first->0.keys.union(second->0.keys)
                &&& both->0.names == first->0.names.union(second->0.names)
            }
        }),
{
    if lookup::requirements(nodes, known, user, a + b) is Some {
        let depth = choose|d: nat| lookup::require_all(nodes, known, user, a + b, d) is Some;
        lemma_require_concat(nodes, known, user, a, b, depth);
        lookup::lemma_requirements(nodes, known, user, a + b, depth);
        lookup::lemma_requirements(nodes, known, user, a, depth);
        lookup::lemma_requirements(nodes, known, user, b, depth);
    }
    if lookup::requirements(nodes, known, user, a) is Some && lookup::requirements(
        nodes,
        known,
        user,
        b,
    ) is Some {
        let d1 = choose|d: nat| lookup::require_all(nodes, known, user, a, d) is Some;
        let d2 = choose|d: nat| lookup::require_all(nodes, known, user, b, d) is Some;
        let depth = d1 + d2;
        lookup::lemma_require_all_deeper(nodes, known, user, a, d1, depth);
        lookup::lemma_require_all_deeper(nodes, known, user, b, d2, depth);
        lemma_require_concat(nodes, known, user, a, b, depth);
        lookup::lemma_requirements(nodes, known, user, a + b, depth);
        lookup::lemma_requirements(nodes, known, user, a, depth);
        lookup::lemma_requirements(nodes, known, user, b, depth);
    }
}

/// No names give no graphs.
pub proof fn law_no_names_give_no_graphs(
    nodes: Seq<Seq<FixtureView>>,
    known: Known,
    user: Option<NameView>,
)
    ensures
        lookup::requirements(nodes, known, user, Seq::empty()) matches Some(found) && found.graphs
            == Seq::<crate::fixtures::model::FixtureGraph>::empty() && found.keys == Set::<
            Seq<char>,
        >::empty() && found.names == Set::<Seq<char>>::empty(),
{
    assert(lookup::require_all(nodes, known, user, Seq::empty(), 0) is Some);
    lookup::lemma_requirements(nodes, known, user, Seq::empty(), 0);
}

/// A name is answered with the graph that is remembered for it, unless a fixture asks for
/// its own name; otherwise with the graph of the nearest fixture of that name, which is then
/// remembered; a name that nothing defines is left out.
pub proof fn law_a_name_is_the_nearest_fixture(
    nodes: Seq<Seq<FixtureView>>,
    known: Known,
    user: Option<NameView>,
    name: Seq<char>,
)
    ensures
        ({
            let own = user is Some && user->0.function == name;
            let found = lookup::requirements(nodes, known, user, seq![name]);
            &&& !own && known.by_name.contains_key(name) ==> found is Some && found->0.graphs
                == seq![known.by_name[name]] && found->0.keys == Set::<Seq<char>>::empty()
                && found->0.names == Set::<Seq<char>>::empty()
            &&& own || !known.by_name.contains_key(name) ==> match lookup::nearest(
                nodes,
                user,
                name,
            ) {
                None => found is Some && found->0.graphs.len() == 0 && found->0.keys == Set::<
                    Seq<char>,
                >::empty() && found->0.names == Set::<Seq<char>>::empty(),
                Some(fixture) => {
                    let graph = lookup::expansion(nodes, known, fixture);
                    &&& found is Some <==> graph is Some
                    &&& found is Some ==> {
                        &&& found->0.graphs == graph->0.graphs
                        &&& found->0.keys == graph->0.keys
                        &&& found->0.names == if own {
                            graph->0.names
                        } else {
                            graph->0.names.insert(name)
                        }
                    }
                },
            }
        }),
{
    let one = seq![name];
    assert(one.drop_last() =~= Seq::empty());
    assert(one.last() == name);
    let own = user is Some && user->0.function == name;
    assert forall|d: nat| true implies {
        let all = #[trigger] lookup::require_all(nodes, known, user, one, d);
        let last = lookup::require(nodes, known, user, name, d);
        &&& all is Some <==> last is Some
        &&& all is Some ==> all->0.graphs == last->0.graphs && all->0.keys == last->0.keys
            && all->0.names == last->0.names
    } by {
        assert(lookup::require_all(nodes, known, user, one.drop_last(), d) is Some);
        let last = lookup::require(nodes, known, user, name, d);
        if last is Some {
            assert(Seq::empty() + last->0.graphs =~= last->0.graphs);
            assert(Set::empty().union(last->0.keys) =~= last->0.keys);
            assert(Set::empty().union(last->0.names) =~= last->0.names);
        }
    }
    let found = lookup::requirements(nodes, known, user, one);
    if !own && known.by_name.contains_key(name) {
        assert(lookup::require_all(nodes, known, user, one, 0) is Some);
        lookup::lemma_requirements(nodes, known, user, one, 0);
    } else {
        match lookup::nearest(nodes, user, name) {
            None => {
                assert(lookup::require_all(nodes, known, user, one, 0) is Some);
                lookup::lemma_requirements(nodes, known, user, one, 0);
            },
            Some(fixture) => {
                if found is Some {
                    let d = choose|d: nat|
                        lookup::require_all(nodes, known, user, one, d) is Some;
                    lookup::lemma_requirements(nodes, known, user, one, d);
                    lookup::lemma_expansion(nodes, known, fixture, d);
                }
                if lookup::expansion(nodes, known, fixture) is Some {
                    let d = choose|d: nat| lookup::expand(nodes, known, fixture, d) is Some;
                    lookup::lemma_expansion(nodes, known, fixture, d);
                    assert(lookup::require_all(nodes, known, user, one, d) is Some);
                    lookup::lemma_requirements(nodes, known, user, one, d);
                }
            },
        }
    }
}

/// What a resolution learns: every fixture that it expanded, under its qualified name, and
/// every name that it looked up, with the graph of the nearest fixture of that name.
pub proof fn law_resolutions_are_remembered(
    nodes: Seq<Seq<FixtureView>>,
    known: Known,
    found: Resolution,
    fixture: FixtureView,
    name: Seq<char>,
)
    requires
        lookup::names_are_unique(nodes),
        lookup::within(nodes, fixture),
    ensures
        ({
            let after = lookup::learned(nodes, known, found);
            let key = fixture.name.key();
            &&& after.by_key.contains_key(key) <==> known.by_key.contains_key(key)
                || found.keys.contains(key)
            &&& found.keys.contains(key) && !known.by_key.contains_key(key) ==> after.by_key[key]
                == lookup::expansion(nodes, known, fixture)->0.graphs[0]
            &&& after.by_name.contains_key(name) <==> known.by_name.contains_key(name)
                || found.names.contains(name)
            &&& found.names.contains(name) && !known.by_name.contains_key(name)
                ==> after.by_name[name] == lookup::expansion(
                nodes,
                known,
                lookup::nearest(nodes, None, name)->0,
            )->0.graphs[0]
        }),
{
    let key = fixture.name.key();
    let keyed = lookup::keyed(nodes, key);
    assert(lookup::within(nodes, keyed) && keyed.name.key() == key);
    assert(keyed == fixture);
}

/// Expanding one auto-use fixture gives its graph and remembers it by its short name, in
/// place of whatever was remembered there.
pub proof fn law_auto_use_fixtures_are_remembered(
    nodes: Seq<Seq<FixtureView>>,
    known: Known,
    fixture: FixtureView,
)
    requires
        lookup::expansion(nodes, known, fixture) is Some,
    ensures
        ({
            let found = lookup::expansion(nodes, known, fixture)->0;
            let done = lookup::activation(nodes, known, seq![fixture]);
            &&& done is Some
            &&& (done->0).0 == found.graphs
            &&& (done->0).0.len() == 1
            &&& (done->0).1.by_key == lookup::learned(nodes, known, found).by_key
            &&& (done->0).1.by_name.contains_key(fixture.name.function)
            &&& (done->0).1.by_name[fixture.name.function] == found.graphs[0]
            &&& forall|n: Seq<char>|
                n != fixture.name.function ==> (#[trigger] (done->0).1.by_name.contains_key(n)
                    <==> lookup::learned(nodes, known, found).by_name.contains_key(n)) && (
                lookup::learned(nodes, known, found).by_name.contains_key(n) ==> (
                done->0).1.by_name[n] == lookup::learned(nodes, known, found).by_name[n])
        }),
{
    let one = seq![fixture];
    assert(one.drop_last() =~= Seq::empty());
    assert(lookup::activation(nodes, known, one.drop_last()) is Some);
    let found = lookup::expansion(nodes, known, fixture)->0;
    assert(Seq::empty() + found.graphs =~= found.graphs);
    let depth = choose|d: nat| lookup::expand(nodes, known, fixture, d) is Some;
    lookup::lemma_expansion(nodes, known, fixture, depth);
}

/// No auto-use fixtures change nothing.
pub proof fn law_no_auto_use_fixtures_change_nothing(nodes: Seq<Seq<FixtureView>>, known: Known)
    ensures
        lookup::activation(nodes, known, Seq::empty()) matches Some((graphs, after)) && graphs.len()
            == 0 && after == known,
{
}

/// What is left of a test's parameters when the parametrize parameters are taken out: those
/// names, and only those, that are no parametrize parameters, in their order.
pub proof fn law_parametrize_parameters_are_left_out(
    a: Seq<Seq<char>>,
    b: Seq<Seq<char>>,
    left_out: Seq<Seq<char>>,
    name: Seq<char>,
)
    ensures
        resolver::names_without(a + b, left_out) == resolver::names_without(a, left_out)
            + resolver::names_without(b, left_out),
        resolver::names_without(seq![name], left_out) == if left_out.contains(name) {
            Seq::empty()
        } else {
            seq![name]
        },
        resolver::names_without(a, left_out).contains(name) <==> a.contains(name)
            && !left_out.contains(name),
    decreases b.len(),
{
    let keep = |name: Seq<char>| !left_out.contains(name);
    Seq::filter_distributes_over_add(a, b, keep);
    reveal(Seq::filter);
    let one = seq![name];
    assert(one.drop_last() =~= Seq::empty());
    assert(one.drop_last().filter(keep) =~= Seq::<Seq<char>>::empty());
    assert(one.filter(keep) =~= if left_out.contains(name) {
        Seq::empty()
    } else {
        seq![name]
    });
    lemma_filter_contains(a, keep, name);
}

/// A filtered list holds what the list holds and the filter keeps.
proof fn lemma_filter_contains(
    list: Seq<Seq<char>>,
    keep: spec_fn(Seq<char>) -> bool,
    name: Seq<char>,
)
    ensures
        list.filter(keep).contains(name) <==> list.contains(name) && keep(name),
    decreases list.len(),
{
    reveal(Seq::filter);
    if list.len() > 0 {
        let rest = list.drop_last();
        lemma_filter_contains(rest, keep, name);
        if rest.contains(name) {
            let k = choose|k: int| 0 <= k < rest.len() && rest[k] == name;
            assert(list[k] == name);
        }
        if list.contains(name) && list.last() != name {
            let k = choose|k: int| 0 <= k < list.len() && list[k] == name;
            assert(rest[k] == name);
        }
        if list.last() == name {
            assert(list[list.len() - 1] == name);
        }
        let kept = rest.filter(keep);
        let all = list.filter(keep);
        if kept.contains(name) {
            let k = choose|k: int| 0 <= k < kept.len() && kept[k] == name;
            assert(all[k] == name);
        }
        if keep(list.last()) && list.last() == name {
            assert(all[all.len() - 1] == name);
        }
        if all.contains(name) && !kept.contains(name) {
            let k = choose|k: int| 0 <= k < all.len() && all[k] == name;
            if k < kept.len() {
                assert(kept[k] == name);
            }
        }
    }
}

/// The current node comes first in a lookup, then the parents in their order.
pub proof fn law_the_current_node_comes_first(
    current: FixtureNode,
    parents: Seq<FixtureNode>,
    i: int,
)
    requires
        0 <= i < parents.len(),
    ensures
        resolver::context(current, parents).len() == parents.len() + 1,
        resolver::context(current, parents)[0] == current@,
        resolver::context(current, parents)[i + 1] == parents[i]@,
{
}

/// The views of fixtures hide nothing that a resolution hands on: a view has the name, the
/// required names in order, the scope, the kind and the definition of the fixture.
pub proof fn law_views_tell_everything(fixture: DiscoveredFixture, node: FixtureNode, i: int)
    ensures
        fixture@.name.module == fixture.name.module@,
        fixture@.name.function == fixture.name.function@,
        fixture@.scope == fixture.scope,
        fixture@.is_generator == fixture.is_generator,
        fixture@.definition == fixture.definition,
        fixture@.required.len() == fixture.required@.len(),
        0 <= i < fixture.required@.len() ==> fixture@.required[i] == fixture.required@[i]@,
        node@.len() == node.fixtures@.len(),
        0 <= i < node.fixtures@.len() ==> node@[i] == node.fixtures@[i]@,
{
}

/// The graph of a normalized fixture has its name, scope, kind and definition, and the graphs
/// of its dependencies in order.
pub proof fn law_graphs_tell_everything(fixture: NormalizedFixture, i: int)
    ensures
        fixture.graph().name.module == fixture.name.module@,
        fixture.graph().name.function == fixture.name.function@,
        fixture.graph().scope == fixture.scope,
        fixture.graph().is_generator == fixture.is_generator,
        fixture.graph().definition == fixture.definition,
        fixture.graph().dependencies.len() == fixture.dependencies@.len(),
        0 <= i < fixture.dependencies@.len() ==> fixture.graph().dependencies[i]
            == fixture.dependencies@[i].graph(),
{
}

/// A qualified name is the module, two colons and the function.
pub proof fn law_qualified_names_are_spelled_out(name: NameView)
    ensures
        name.key().len() == name.module.len() + 2 + name.function.len(),
        name.module.is_prefix_of(name.key()),
        name.key()[name.module.len() as int] == ':',
        name.key()[(name.module.len() + 1) as int] == ':',
        name.function.is_suffix_of(name.key()),
{
    reveal_strlit("::");
    assert(name.key().take(name.module.len() as int) =~= name.module);
}

/// Lists and tables of fixtures say what their fixtures say, one for one.
pub proof fn law_lists_tell_their_fixtures(
    fixtures: Seq<&DiscoveredFixture>,
    list: Seq<Rc<NormalizedFixture>>,
    table: Map<Seq<char>, Rc<NormalizedFixture>>,
    i: int,
    name: Seq<char>,
)
    ensures
        resolver::fixture_views(fixtures).len() == fixtures.len(),
        0 <= i < fixtures.len() ==> resolver::fixture_views(fixtures)[i] == fixtures[i]@,
        model::graphs(list).len() == list.len(),
        0 <= i < list.len() ==> model::graphs(list)[i] == list[i].graph(),
        model::graph_table(table).contains_key(name) <==> table.contains_key(name),
        table.contains_key(name) ==> model::graph_table(table)[name] == table[name].graph(),
{
}

/// A fixture that asks does so under its own name, and a test under none.
pub proof fn law_fixtures_ask_under_their_names(user: &DiscoveredFixture)
    ensures
        resolver::asking(Some(user)) == Some(user@.name),
        resolver::asking(None) is None,
{
}

} // verus!
