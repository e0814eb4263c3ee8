//! What resolving a fixture name means.
//!
//! A lookup context is a list of nodes, nearest first. Fixtures already known
//! by qualified name or by short name are taken as they are; everything else is
//! found in the nodes and expanded, dependencies first.
use crate::fixtures::model::{FixtureGraph, FixtureView, NameView};
use vstd::prelude::*;

verus! {

/// The first fixture in `node` with the short name `name`.
pub open spec fn defined_in(node: Seq<FixtureView>, name: Seq<char>) -> Option<FixtureView>
    decreases node.len(),
{
    if node.len() == 0 {
        None
    } else if node[0].name.function == name {
        Some(node[0])
    } else {
        defined_in(node.drop_first(), name)
    }
}

/// The nearest fixture with the short name `name` that is not `user` itself.
pub open spec fn nearest(
    nodes: Seq<Seq<FixtureView>>,
    user: Option<NameView>,
    name: Seq<char>,
) -> Option<FixtureView>
    decreases nodes.len(),
{
    if nodes.len() == 0 {
        None
    } else {
        match defined_in(nodes[0], name) {
            Some(found) if user != Some(found.name) => Some(found),
            _ => nearest(nodes.drop_first(), user, name),
        }
    }
}

/// The fixtures whose graphs are known before a resolution starts.
pub struct Known {
    /// By qualified name.
    pub by_key: Map<Seq<char>, FixtureGraph>,
    /// By short name.
    pub by_name: Map<Seq<char>, FixtureGraph>,
}

/// What a resolution yields.
pub struct Resolution {
    /// The graphs asked for, in order.
    pub graphs: Seq<FixtureGraph>,
    /// The qualified names of the fixtures that were expanded.
    pub keys: Set<Seq<char>>,
    /// The short names that were looked up in the nodes and found.
    pub names: Set<Seq<char>>,
}

impl Resolution {
    /// The resolution of nothing.
    pub open spec fn nothing() -> Resolution {
        Resolution { graphs: Seq::empty(), keys: Set::empty(), names: Set::empty() }
    }

    /// A graph that was known already.
    pub open spec fn known(graph: FixtureGraph) -> Resolution {
        Resolution { graphs: seq![graph], keys: Set::empty(), names: Set::empty() }
    }

    /// This resolution followed by another.
    pub open spec fn followed_by(self, next: Resolution) -> Resolution {
        Resolution {
            graphs: self.graphs + next.graphs,
            keys: self.keys.union(next.keys),
            names: self.names.union(next.names),
        }
    }
}

/// The graph of `fixture`, if its expansion is at most `depth` levels deep.
pub open spec fn expand(
    nodes: Seq<Seq<FixtureView>>,
    known: Known,
    fixture: FixtureView,
    depth: nat,
) -> Option<Resolution>
    decreases depth, 0nat, 0nat,
{
    let key = fixture.name.key();
    if known.by_key.contains_key(key) {
        Some(Resolution::known(known.by_key[key]))
    } else if depth == 0 {
        None
    } else {
        match require_all(nodes, known, Some(fixture.name), fixture.required, (depth - 1) as nat) {
            None => None,
            Some(needs) => Some(
                Resolution {
                    graphs: seq![
                        FixtureGraph {
                            name: fixture.name,
                            dependencies: needs.graphs,
                            scope: fixture.scope,
                            is_generator: fixture.is_generator,
                            definition: fixture.definition,
                        },
                    ],
                    keys: needs.keys.insert(key),
                    names: needs.names,
                },
            ),
        }
    }
}

/// The graphs of the fixtures that `user` names, names that nothing defines left out.
pub open spec fn require_all(
    nodes: Seq<Seq<FixtureView>>,
    known: Known,
    user: Option<NameView>,
    names: Seq<Seq<char>>,
    depth: nat,
) -> Option<Resolution>
    decreases depth, 1nat, names.len(),
{
    if names.len() == 0 {
        Some(Resolution::nothing())
    } else {
        match (
            require_all(nodes, known, user, names.drop_last(), depth),
            require(nodes, known, user, names.last(), depth),
        ) {
            (Some(earlier), Some(last)) => Some(earlier.followed_by(last)),
            _ => None,
        }
    }
}

/// `user` names itself: the name must resolve to another fixture.
pub open spec fn names_itself(user: Option<NameView>, name: Seq<char>) -> bool {
    user matches Some(me) && me.function == name
}

/// The graph of the fixture that `user` calls `name`, or nothing if there is none.
pub open spec fn require(
    nodes: Seq<Seq<FixtureView>>,
    known: Known,
    user: Option<NameView>,
    name: Seq<char>,
    depth: nat,
) -> Option<Resolution>
    decreases depth, 1nat, 0nat,
{
    if !names_itself(user, name) && known.by_name.contains_key(name) {
        Some(Resolution::known(known.by_name[name]))
    } else {
        match nearest(nodes, user, name) {
            None => Some(Resolution::nothing()),
            Some(fixture) => match expand(nodes, known, fixture, depth) {
                None => None,
                Some(found) => Some(
                    Resolution {
                        names: if names_itself(user, name) {
                            found.names
                        } else {
                            found.names.insert(name)
                        },
                        ..found
                    },
                ),
            },
        }
    }
}

/// The graph of `fixture`; `None` when its expansion never ends.
pub open spec fn expansion(
    nodes: Seq<Seq<FixtureView>>,
    known: Known,
    fixture: FixtureView,
) -> Option<Resolution> {
    if exists|depth: nat| expand(nodes, known, fixture, depth) is Some {
        expand(nodes, known, fixture, choose|depth: nat| expand(nodes, known, fixture, depth) is Some)
    } else {
        None
    }
}

/// The graphs of the fixtures that `user` names; `None` when an expansion never ends.
pub open spec fn requirements(
    nodes: Seq<Seq<FixtureView>>,
    known: Known,
    user: Option<NameView>,
    names: Seq<Seq<char>>,
) -> Option<Resolution> {
    if exists|depth: nat| require_all(nodes, known, user, names, depth) is Some {
        require_all(
            nodes,
            known,
            user,
            names,
            choose|depth: nat| require_all(nodes, known, user, names, depth) is Some,
        )
    } else {
        None
    }
}

/// `fixture` is what one of the nodes defines under its short name.
pub open spec fn within(nodes: Seq<Seq<FixtureView>>, fixture: FixtureView) -> bool {
    exists|i: int|
        0 <= i < nodes.len() && #[trigger] defined_in(nodes[i], fixture.name.function) == Some(
            fixture,
        )
}

/// Qualified names tell fixtures apart.
pub open spec fn names_are_unique(nodes: Seq<Seq<FixtureView>>) -> bool {
    forall|f: FixtureView, g: FixtureView|
        #[trigger] within(nodes, f) && #[trigger] within(nodes, g) && f.name.key() == g.name.key()
            ==> f == g
}

/// The fixture with the qualified name `key`.
pub open spec fn keyed(nodes: Seq<Seq<FixtureView>>, key: Seq<char>) -> FixtureView {
    choose|f: FixtureView| #[trigger] within(nodes, f) && f.name.key() == key
}

/// What is known once `found` has been resolved.
pub open spec fn learned(nodes: Seq<Seq<FixtureView>>, known: Known, found: Resolution) -> Known {
    Known {
        by_key: Map::new(
            |k: Seq<char>| known.by_key.contains_key(k) || found.keys.contains(k),
            |k: Seq<char>|
                if known.by_key.contains_key(k) {
                    known.by_key[k]
                } else {
                    expansion(nodes, known, keyed(nodes, k))->0.graphs[0]
                },
        ),
        by_name: Map::new(
            |n: Seq<char>| known.by_name.contains_key(n) || found.names.contains(n),
            |n: Seq<char>|
                if known.by_name.contains_key(n) {
                    known.by_name[n]
                } else {
                    expansion(nodes, known, nearest(nodes, None, n)->0)->0.graphs[0]
                },
        ),
    }
}

/// The auto-use `fixtures` expanded one after the other: their graphs, and what is
/// known afterwards. Each one is remembered by its short name before the next is
/// expanded, in place of any other fixture of that name.
pub open spec fn activation(
    nodes: Seq<Seq<FixtureView>>,
    known: Known,
    fixtures: Seq<FixtureView>,
) -> Option<(Seq<FixtureGraph>, Known)>
    decreases fixtures.len(),
{
    if fixtures.len() == 0 {
        Some((Seq::empty(), known))
    } else {
        match activation(nodes, known, fixtures.drop_last()) {
            None => None,
            Some((earlier, then_known)) => {
                let fixture = fixtures.last();
                match expansion(nodes, then_known, fixture) {
                    None => None,
                    Some(found) => Some(
                        (
                            earlier + found.graphs,
                            Known {
                                by_key: learned(nodes, then_known, found).by_key,
                                by_name: learned(nodes, then_known, found).by_name.insert(
                                    fixture.name.function,
                                    found.graphs[0],
                                ),
                            },
                        ),
                    ),
                }
            },
        }
    }
}

/// The `i`th of the auto-use `fixtures` can be expanded in its turn: a node defines it under
/// its short name, or its qualified name is known by then.
pub open spec fn is_reachable(
    nodes: Seq<Seq<FixtureView>>,
    known: Known,
    fixtures: Seq<FixtureView>,
    i: int,
) -> bool {
    ||| within(nodes, fixtures[i])
    ||| activation(nodes, known, fixtures.take(i)) matches Some((_, then_known))
        && then_known.by_key.contains_key(fixtures[i].name.key())
}

/// Allowing more depth does not change an expansion that ended.
pub proof fn lemma_expand_deeper(
    nodes: Seq<Seq<FixtureView>>,
    known: Known,
    fixture: FixtureView,
    depth: nat,
    deeper: nat,
)
    requires
        depth <= deeper,
        expand(nodes, known, fixture, depth) is Some,
    ensures
        expand(nodes, known, fixture, deeper) == expand(nodes, known, fixture, depth),
        expand(nodes, known, fixture, depth)->0.graphs.len() == 1,
    decreases depth, 0nat, 0nat,
{
    if !known.by_key.contains_key(fixture.name.key()) {
        lemma_require_all_deeper(
            nodes,
            known,
            Some(fixture.name),
            fixture.required,
            (depth - 1) as nat,
            (deeper - 1) as nat,
        );
    }
}

/// Allowing more depth does not change a list of expansions that ended.
pub proof fn lemma_require_all_deeper(
    nodes: Seq<Seq<FixtureView>>,
    known: Known,
    user: Option<NameView>,
    names: Seq<Seq<char>>,
    depth: nat,
    deeper: nat,
)
    requires
        depth <= deeper,
        require_all(nodes, known, user, names, depth) is Some,
    ensures
        require_all(nodes, known, user, names, deeper) == require_all(
            nodes,
            known,
            user,
            names,
            depth,
        ),
    decreases depth, 1nat, names.len(),
{
    if names.len() > 0 {
        lemma_require_all_deeper(nodes, known, user, names.drop_last(), depth, deeper);
        lemma_require_deeper(nodes, known, user, names.last(), depth, deeper);
    }
}

/// Allowing more depth does not change what a name resolves to.
pub proof fn lemma_require_deeper(
    nodes: Seq<Seq<FixtureView>>,
    known: Known,
    user: Option<NameView>,
    name: Seq<char>,
    depth: nat,
    deeper: nat,
)
    requires
        depth <= deeper,
        require(nodes, known, user, name, depth) is Some,
    ensures
        require(nodes, known, user, name, deeper) == require(nodes, known, user, name, depth),
    decreases depth, 1nat, 0nat,
{
    if names_itself(user, name) || !known.by_name.contains_key(name) {
        if let Some(fixture) = nearest(nodes, user, name) {
            lemma_expand_deeper(nodes, known, fixture, depth, deeper);
        }
    }
}

/// An expansion that ends within some depth is the expansion.
pub proof fn lemma_expansion(
    nodes: Seq<Seq<FixtureView>>,
    known: Known,
    fixture: FixtureView,
    depth: nat,
)
    requires
        expand(nodes, known, fixture, depth) is Some,
    ensures
        expansion(nodes, known, fixture) == expand(nodes, known, fixture, depth),
        expansion(nodes, known, fixture)->0.graphs.len() == 1,
{
    let other = choose|d: nat| expand(nodes, known, fixture, d) is Some;
    if depth <= other {
        lemma_expand_deeper(nodes, known, fixture, depth, other);
    } else {
        lemma_expand_deeper(nodes, known, fixture, other, depth);
    }
}

/// A list of expansions that end within some depth is the list of expansions.
pub proof fn lemma_requirements(
    nodes: Seq<Seq<FixtureView>>,
    known: Known,
    user: Option<NameView>,
    names: Seq<Seq<char>>,
    depth: nat,
)
    requires
        require_all(nodes, known, user, names, depth) is Some,
    ensures
        requirements(nodes, known, user, names) == require_all(nodes, known, user, names, depth),
{
    let other = choose|d: nat| require_all(nodes, known, user, names, d) is Some;
    if depth <= other {
        lemma_require_all_deeper(nodes, known, user, names, depth, other);
    } else {
        lemma_require_all_deeper(nodes, known, user, names, other, depth);
    }
}

/// What a node defines under a name is one of its fixtures and has that name.
pub proof fn lemma_defined_in(node: Seq<FixtureView>, name: Seq<char>)
    ensures
        defined_in(node, name) matches Some(f) ==> node.contains(f) && f.name.function == name,
        (exists|i: int| 0 <= i < node.len() && node[i].name.function == name) ==> defined_in(
            node,
            name,
        ) is Some,
    decreases node.len(),
{
    if node.len() > 0 && node[0].name.function != name {
        lemma_defined_in(node.drop_first(), name);
        if let Some(f) = defined_in(node.drop_first(), name) {
            let i = choose|i: int| 0 <= i < node.drop_first().len() && node.drop_first()[i] == f;
            assert(node[i + 1] == f);
        }
        if exists|i: int| 0 <= i < node.len() && node[i].name.function == name {
            let i = choose|i: int| 0 <= i < node.len() && node[i].name.function == name;
            assert(node.drop_first()[i - 1].name.function == name);
        }
    }
}

/// The nearest fixture with a name is one of the nodes' fixtures, has that name, and is the
/// same for every user that does not have the name itself.
pub proof fn lemma_nearest(nodes: Seq<Seq<FixtureView>>, user: Option<NameView>, name: Seq<char>)
    ensures
        nearest(nodes, user, name) matches Some(f) ==> within(nodes, f) && f.name.function == name
            && user != Some(f.name),
        !names_itself(user, name) ==> nearest(nodes, user, name) == nearest(nodes, None, name),
    decreases nodes.len(),
{
    if nodes.len() > 0 {
        lemma_defined_in(nodes[0], name);
        lemma_nearest(nodes.drop_first(), user, name);
        if let Some(f) = nearest(nodes, user, name) {
            if defined_in(nodes[0], name) == Some(f) && user != Some(f.name) {
            } else {
                let i = choose|i: int|
                    0 <= i < nodes.drop_first().len() && #[trigger] defined_in(
                        nodes.drop_first()[i],
                        f.name.function,
                    ) == Some(f);
                assert(defined_in(nodes[i + 1], f.name.function) == Some(f));
            }
        }
    }
}

} // verus!
