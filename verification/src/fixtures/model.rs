//! Fixtures as discovery finds them, and as dependency graphs.
use crate::text;
use std::rc::Rc;
use vstd::prelude::*;

verus! {

/// How long a fixture value lives.
#[derive(Debug, Clone, Copy, PartialEq, Eq, Structural)]
pub enum FixtureScope {
    Session,
    Package,
    Module,
    Function,
}

/// The fully qualified name of a fixture.
#[derive(Debug)]
pub struct FixtureName {
    pub module: String,
    pub function: String,
}

/// What a [`FixtureName`] says.
pub struct NameView {
    pub module: Seq<char>,
    pub function: Seq<char>,
}

impl NameView {
    /// The name as one text, `module::function`.
    pub open spec fn key(self) -> Seq<char> {
        self.module + "::"@ + self.function
    }
}

impl View for FixtureName {
    type V = NameView;

    open spec fn view(&self) -> NameView {
        NameView { module: self.module@, function: self.function@ }
    }
}

impl Clone for FixtureName {
    fn clone(&self) -> (copy: Self)
        ensures
            copy == *self,
    {
        FixtureName { module: self.module.clone(), function: self.function.clone() }
    }
}

impl FixtureName {
    /// Names the fixture `function` of `module`.
    pub fn new(module: &str, function: &str) -> (name: Self)
        ensures
            name@ == (NameView { module: module@, function: function@ }),
    {
        FixtureName { module: module.to_owned(), function: function.to_owned() }
    }

    /// The name as one text, `module::function`.
    pub fn key(&self) -> (key: String)
        ensures
            key@ == self@.key(),
    {
        self.module.clone().concat("::").concat(self.function.as_str())
    }

    /// Whether both names name the same fixture.
    pub fn same_as(&self, other: &FixtureName) -> (same: bool)
        ensures
            same == (self@ == other@),
    {
        self.module == other.module && self.function == other.function
    }
}

/// A fixture as discovery found it.
#[derive(Debug)]
pub struct DiscoveredFixture {
    pub name: FixtureName,
    /// The names that the fixture function takes as parameters, in order.
    pub required: Vec<String>,
    pub scope: FixtureScope,
    pub is_generator: bool,
    /// Where the embedder keeps the Python function, its syntax node and its
    /// source file.
    pub definition: usize,
}

/// What a [`DiscoveredFixture`] says.
pub struct FixtureView {
    pub name: NameView,
    pub required: Seq<Seq<char>>,
    pub scope: FixtureScope,
    pub is_generator: bool,
    pub definition: usize,
}

impl View for DiscoveredFixture {
    type V = FixtureView;

    open spec fn view(&self) -> FixtureView {
        FixtureView {
            name: self.name@,
            required: text::texts(self.required@),
            scope: self.scope,
            is_generator: self.is_generator,
            definition: self.definition,
        }
    }
}

/// A module or package that can define fixtures.
#[derive(Debug)]
pub struct FixtureNode {
    pub fixtures: Vec<DiscoveredFixture>,
}

impl View for FixtureNode {
    type V = Seq<FixtureView>;

    open spec fn view(&self) -> Seq<FixtureView> {
        Seq::new(self.fixtures@.len(), |i: int| self.fixtures@[i]@)
    }
}

/// What the nodes of a list define.
pub open spec fn node_views(nodes: Seq<FixtureNode>) -> Seq<Seq<FixtureView>> {
    Seq::new(nodes.len(), |i: int| nodes[i]@)
}

/// A fixture together with the graphs of everything it depends on.
#[derive(Debug)]
pub struct NormalizedFixture {
    pub name: FixtureName,
    pub dependencies: Vec<Rc<NormalizedFixture>>,
    pub scope: FixtureScope,
    pub is_generator: bool,
    pub definition: usize,
}

/// What a [`NormalizedFixture`] says.
pub struct FixtureGraph {
    pub name: NameView,
    pub dependencies: Seq<FixtureGraph>,
    pub scope: FixtureScope,
    pub is_generator: bool,
    pub definition: usize,
}

impl NormalizedFixture {
    /// The graph that this fixture is the root of.
    pub open spec fn graph(&self) -> FixtureGraph
        decreases self,
    {
        FixtureGraph {
            name: self.name@,
            dependencies: Seq::new(
                self.dependencies@.len(),
                |i: int|
                    if 0 <= i < self.dependencies@.len() {
                        self.dependencies@[i].graph()
                    } else {
                        arbitrary()
                    },
            ),
            scope: self.scope,
            is_generator: self.is_generator,
            definition: self.definition,
        }
    }
}

/// The graphs that a list of normalized fixtures holds.
pub open spec fn graphs(list: Seq<Rc<NormalizedFixture>>) -> Seq<FixtureGraph> {
    Seq::new(list.len(), |i: int| list[i].graph())
}

/// The graphs that a table of normalized fixtures holds.
pub open spec fn graph_table(table: Map<Seq<char>, Rc<NormalizedFixture>>) -> Map<
    Seq<char>,
    FixtureGraph,
> {
    Map::new(|k: Seq<char>| table.contains_key(k), |k: Seq<char>| table[k].graph())
}

} // verus!
