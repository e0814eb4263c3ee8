use karva::fixtures::model::{DiscoveredFixture, FixtureName, FixtureNode, FixtureScope};
use karva::fixtures::resolver::{find_fixture, NormalizedFixtureCache, RuntimeFixtureResolver};

fn fixture(module: &str, function: &str, required: &[&str], definition: usize) -> DiscoveredFixture {
    DiscoveredFixture {
        name: FixtureName::new(module, function),
        required: required.iter().map(|r| r.to_string()).collect(),
        scope: FixtureScope::Function,
        is_generator: false,
        definition,
    }
}

fn strings(names: &[&str]) -> Vec<String> {
    names.iter().map(|n| n.to_string()).collect()
}

#[test]
fn nearest_definition_wins() {
    let current = FixtureNode {
        fixtures: vec![fixture("m", "a", &[], 0)],
    };
    let parents = [
        FixtureNode {
            fixtures: vec![fixture("p", "b", &[], 1)],
        },
        FixtureNode {
            fixtures: vec![fixture("q", "a", &[], 2), fixture("q", "b", &[], 3)],
        },
    ];
    let found = |name: &str| find_fixture(None, name, &parents, &current).map(|f| f.definition);
    assert_eq!(found("a"), Some(0));
    assert_eq!(found("b"), Some(1));
    assert_eq!(found("c"), None);
}

#[test]
fn a_fixture_that_names_itself_finds_its_parent() {
    let current = FixtureNode {
        fixtures: vec![fixture("m", "a", &["a"], 0)],
    };
    let parents = [FixtureNode {
        fixtures: vec![fixture("p", "a", &[], 1)],
    }];
    let mut cache = NormalizedFixtureCache::new();
    let mut resolver = RuntimeFixtureResolver::new(&parents, &current);
    assert!(resolver.is_unambiguous());
    assert!(resolver.can_resolve(&cache, &strings(&["a"])));
    let graphs = resolver.resolve_use_fixtures(&mut cache, &strings(&["a"]));
    assert_eq!(graphs.len(), 1);
    assert_eq!(graphs[0].definition, 0);
    assert_eq!(graphs[0].dependencies.len(), 1);
    assert_eq!(graphs[0].dependencies[0].definition, 1);
}

#[test]
fn two_fixtures_that_name_themselves_find_each_other() {
    let current = FixtureNode {
        fixtures: vec![fixture("m", "a", &["a"], 0)],
    };
    let parents = [FixtureNode {
        fixtures: vec![fixture("p", "a", &["a"], 1)],
    }];
    let cache = NormalizedFixtureCache::new();
    let resolver = RuntimeFixtureResolver::new(&parents, &current);
    assert!(!resolver.can_resolve(&cache, &strings(&["a"])));
}

#[test]
fn dependencies_come_in_the_order_they_are_required() {
    let current = FixtureNode {
        fixtures: vec![
            fixture("m", "top", &["left", "missing", "right"], 0),
            fixture("m", "left", &["base"], 1),
            fixture("m", "right", &["base"], 2),
        ],
    };
    let parents = [FixtureNode {
        fixtures: vec![fixture("p", "base", &[], 3)],
    }];
    let mut cache = NormalizedFixtureCache::new();
    let mut resolver = RuntimeFixtureResolver::new(&parents, &current);
    let graphs = resolver.resolve_use_fixtures(&mut cache, &strings(&["top"]));
    let top = &graphs[0];
    let order: Vec<usize> = top.dependencies.iter().map(|d| d.definition).collect();
    assert_eq!(order, vec![1, 2]);
    assert!(std::rc::Rc::ptr_eq(
        &top.dependencies[0].dependencies[0],
        &top.dependencies[1].dependencies[0]
    ));
    assert!(cache.get("p::base").is_some());
    assert!(cache.get("m::top").is_some());
    assert!(cache.get("m::missing").is_none());
    let again = resolver.resolve_use_fixtures(&mut cache, &strings(&["top"]));
    assert!(std::rc::Rc::ptr_eq(&graphs[0], &again[0]));
}

#[test]
fn parametrize_parameters_are_no_fixtures() {
    let current = FixtureNode {
        fixtures: vec![fixture("m", "x", &[], 0), fixture("m", "y", &[], 1)],
    };
    let mut cache = NormalizedFixtureCache::new();
    let mut resolver = RuntimeFixtureResolver::new(&[], &current);
    let graphs = resolver.resolve_test_fixtures(
        &mut cache,
        &strings(&["x", "y", "z"]),
        &strings(&["x"]),
    );
    let found: Vec<usize> = graphs.iter().map(|g| g.definition).collect();
    assert_eq!(found, vec![1]);
    assert!(cache.get("m::x").is_none());
}

#[test]
fn auto_use_fixtures_are_remembered_by_short_name() {
    let current = FixtureNode {
        fixtures: vec![fixture("m", "auto", &["dep"], 0), fixture("m", "dep", &[], 1)],
    };
    let mut cache = NormalizedFixtureCache::new();
    let mut resolver = RuntimeFixtureResolver::new(&[], &current);
    let auto = &current.fixtures[0];
    assert!(resolver.defines(auto));
    assert!(resolver.can_expand(&cache, auto));
    let graphs = resolver.get_normalized_auto_use_fixtures(&mut cache, &[auto]);
    assert_eq!(graphs.len(), 1);
    assert_eq!(graphs[0].dependencies[0].definition, 1);
    let again = resolver.resolve_use_fixtures(&mut cache, &strings(&["auto"]));
    assert!(std::rc::Rc::ptr_eq(&graphs[0], &again[0]));
}

#[test]
fn circles_are_noticed() {
    let current = FixtureNode {
        fixtures: vec![
            fixture("m", "a", &["b"], 0),
            fixture("m", "b", &["a"], 1),
            fixture("m", "c", &["d"], 2),
            fixture("m", "d", &[], 3),
            fixture("m", "own", &["own"], 4),
        ],
    };
    let cache = NormalizedFixtureCache::new();
    let resolver = RuntimeFixtureResolver::new(&[], &current);
    assert!(!resolver.can_resolve(&cache, &strings(&["a"])));
    assert!(!resolver.can_resolve(&cache, &strings(&["c", "b"])));
    assert!(resolver.can_resolve(&cache, &strings(&["c", "unknown"])));
    assert!(resolver.can_resolve(&cache, &strings(&["own"])));
    assert!(!resolver.can_expand(&cache, &current.fixtures[0]));
    assert!(resolver.can_expand(&cache, &current.fixtures[2]));
}

#[test]
fn names_must_tell_fixtures_apart() {
    let current = FixtureNode {
        fixtures: vec![fixture("m", "a", &[], 0)],
    };
    let same = [FixtureNode {
        fixtures: vec![fixture("m", "a", &[], 0)],
    }];
    assert!(RuntimeFixtureResolver::new(&same, &current).is_unambiguous());
    let other = [FixtureNode {
        fixtures: vec![fixture("m", "a", &["b"], 0)],
    }];
    assert!(!RuntimeFixtureResolver::new(&other, &current).is_unambiguous());
    let stranger = fixture("m", "a", &[], 7);
    assert!(!RuntimeFixtureResolver::new(&same, &current).defines(&stranger));
}

#[test]
fn graphs_are_shared_between_contexts() {
    let conftest = [FixtureNode {
        fixtures: vec![fixture("conftest", "base", &[], 0)],
    }];
    let first = FixtureNode { fixtures: vec![] };
    let second = FixtureNode { fixtures: vec![] };
    let mut cache = NormalizedFixtureCache::new();
    let a = RuntimeFixtureResolver::new(&conftest, &first)
        .resolve_use_fixtures(&mut cache, &strings(&["base"]));
    let b = RuntimeFixtureResolver::new(&conftest, &second)
        .resolve_use_fixtures(&mut cache, &strings(&["base"]));
    assert!(std::rc::Rc::ptr_eq(&a[0], &b[0]));
}

#[test]
fn auto_use_fixtures_can_be_split_up() {
    let current = FixtureNode {
        fixtures: vec![
            fixture("m", "a", &["c"], 0),
            fixture("m", "b", &["a", "c"], 1),
            fixture("m", "c", &[], 2),
        ],
    };
    let (a, b) = (&current.fixtures[0], &current.fixtures[1]);
    let mut cache = NormalizedFixtureCache::new();
    let mut resolver = RuntimeFixtureResolver::new(&[], &current);
    let together = resolver.get_normalized_auto_use_fixtures(&mut cache, &[a, b]);
    let mut cache = NormalizedFixtureCache::new();
    let mut resolver = RuntimeFixtureResolver::new(&[], &current);
    let mut apart = resolver.get_normalized_auto_use_fixtures(&mut cache, &[a]);
    apart.extend(resolver.get_normalized_auto_use_fixtures(&mut cache, &[b]));
    assert_eq!(format!("{together:?}"), format!("{apart:?}"));
}

#[test]
fn known_graphs_are_kept() {
    let conftest = [FixtureNode {
        fixtures: vec![fixture("conftest", "base", &[], 0)],
    }];
    let current = FixtureNode {
        fixtures: vec![fixture("m", "top", &["base"], 1)],
    };
    let mut cache = NormalizedFixtureCache::new();
    let mut resolver = RuntimeFixtureResolver::new(&conftest, &current);
    let base = resolver.resolve_use_fixtures(&mut cache, &strings(&["base"]));
    resolver.resolve_use_fixtures(&mut cache, &strings(&["top"]));
    assert!(std::rc::Rc::ptr_eq(
        &base[0],
        cache.get("conftest::base").unwrap()
    ));
}

#[test]
fn a_second_auto_use_fixture_of_a_name_is_answered_from_the_store() {
    let current = FixtureNode {
        fixtures: vec![fixture("m", "a", &[], 0), fixture("m", "a", &["b"], 1)],
    };
    let (first, second) = (&current.fixtures[0], &current.fixtures[1]);
    let mut cache = NormalizedFixtureCache::new();
    let mut resolver = RuntimeFixtureResolver::new(&[], &current);
    assert!(resolver.is_unambiguous());
    assert!(!resolver.defines(second));
    let graphs = resolver.get_normalized_auto_use_fixtures(&mut cache, &[first, second]);
    assert_eq!(graphs.len(), 2);
    assert!(std::rc::Rc::ptr_eq(&graphs[0], &graphs[1]));
    assert_eq!(graphs[1].definition, 0);
    assert!(resolver.can_expand(&cache, second));
}
