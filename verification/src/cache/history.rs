//! Cross-run outcome history, and which histories are flaky.
use crate::result::quarantine::{StoredOutcome, TestOutcomeRecord};
use crate::text;
use vstd::hash_map::StringHashMap;
use vstd::prelude::*;

verus! {

/// Maximum number of recent outcomes retained per test.
pub const HISTORY_LIMIT: usize = 20;

/// Minimum number of recorded outcomes before history-flip detection runs.
pub const MIN_OUTCOMES_FOR_FLIP: usize = 3;

/// Minimum pass/fail transitions required to treat a history as flaky.
pub const MIN_TRANSITIONS_FOR_FLIP: usize = 2;

/// The number of places where a pass and a failure stand side by side.
pub open spec fn transitions(outcomes: Seq<StoredOutcome>) -> nat
    decreases outcomes.len(),
{
    if outcomes.len() < 2 {
        0
    } else {
        transitions(outcomes.drop_last()) + if outcomes[outcomes.len() - 2].passes()
            != outcomes.last().passes() {
            1nat
        } else {
            0nat
        }
    }
}

/// The history oscillates between pass and fail.
pub open spec fn flips(outcomes: Seq<StoredOutcome>) -> bool {
    &&& outcomes.len() >= MIN_OUTCOMES_FOR_FLIP
    &&& exists|i: int| 0 <= i < outcomes.len() && (#[trigger] outcomes[i]).passes()
    &&& exists|i: int| 0 <= i < outcomes.len() && (#[trigger] outcomes[i]) is Failed
    &&& transitions(outcomes) >= MIN_TRANSITIONS_FOR_FLIP
}

/// The last outcomes, as many as are retained.
pub open spec fn recent(outcomes: Seq<StoredOutcome>) -> Seq<StoredOutcome> {
    if outcomes.len() > HISTORY_LIMIT {
        outcomes.skip(outcomes.len() - HISTORY_LIMIT)
    } else {
        outcomes
    }
}

/// What `history` holds of the test `name`, oldest first.
pub open spec fn outcomes_of(
    history: Map<Seq<char>, Seq<StoredOutcome>>,
    name: Seq<char>,
) -> Seq<StoredOutcome> {
    if history.contains_key(name) {
        history[name]
    } else {
        Seq::empty()
    }
}

/// `history` with one more outcome of the test `name`.
pub open spec fn with_outcome(
    history: Map<Seq<char>, Seq<StoredOutcome>>,
    name: Seq<char>,
    outcome: StoredOutcome,
) -> Map<Seq<char>, Seq<StoredOutcome>> {
    history.insert(name, recent(outcomes_of(history, name).push(outcome)))
}

/// `history` with the outcomes of a run.
pub open spec fn with_outcomes(
    history: Map<Seq<char>, Seq<StoredOutcome>>,
    run: Seq<TestOutcomeRecord>,
) -> Map<Seq<char>, Seq<StoredOutcome>>
    decreases run.len(),
{
    if run.len() == 0 {
        history
    } else {
        with_outcome(with_outcomes(history, run.drop_last()), run.last().name@, run.last().outcome)
    }
}

/// The recorded outcomes of one test.
#[derive(Debug)]
pub struct TestHistoryEntry {
    pub name: String,
    /// Oldest first.
    pub outcomes: Vec<StoredOutcome>,
}

impl TestHistoryEntry {
    /// Whether the history oscillates between pass and fail.
    pub fn is_history_flip(&self) -> (flip: bool)
        ensures
            flip == flips(self.outcomes@),
    {
        let ghost all = self.outcomes@;
        if self.outcomes.len() < MIN_OUTCOMES_FOR_FLIP {
            return false;
        }
        let mut has_pass = false;
        let mut has_fail = false;
        let mut count: usize = 0;
        let mut i: usize = 0;
        while i < self.outcomes.len()
            invariant
                all == self.outcomes@,
                i <= all.len(),
                count <= i,
                count == transitions(all.take(i as int)),
                has_pass == exists|k: int| 0 <= k < i && (#[trigger] all[k]).passes(),
                has_fail == exists|k: int| 0 <= k < i && (#[trigger] all[k]) is Failed,
            decreases all.len() - i,
        {
            let outcome = self.outcomes[i];
            proof {
                assert(all.take(i + 1).drop_last() =~= all.take(i as int));
                assert(all[i as int] == outcome);
            }
            if outcome.is_pass() {
                has_pass = true;
            }
            if outcome.is_fail() {
                has_fail = true;
            }
            if i > 0 && self.outcomes[i - 1].is_pass() != outcome.is_pass() {
                count += 1;
            }
            i += 1;
        }
        assert(all.take(i as int) =~= all);
        has_pass && has_fail && count >= MIN_TRANSITIONS_FOR_FLIP
    }
}

/// The histories that a list of entries holds.
pub open spec fn entries_table(entries: Seq<TestHistoryEntry>) -> Map<
    Seq<char>,
    Seq<StoredOutcome>,
>
    decreases entries.len(),
{
    if entries.len() == 0 {
        Map::empty()
    } else {
        entries_table(entries.drop_last()).insert(
            entries.last().name@,
            entries.last().outcomes@,
        )
    }
}

/// No two entries are of the same test.
pub open spec fn entries_are_distinct(entries: Seq<TestHistoryEntry>) -> bool {
    forall|i: int, j: int|
        0 <= i < j < entries.len() ==> (#[trigger] entries[i]).name@ != (
        #[trigger] entries[j]).name@
}

/// The table of distinct entries holds each entry, and nothing else.
pub proof fn lemma_entries_table(entries: Seq<TestHistoryEntry>)
    requires
        entries_are_distinct(entries),
    ensures
        forall|i: int|
            0 <= i < entries.len() ==> entries_table(entries).contains_key(
                (#[trigger] entries[i]).name@,
            ) && entries_table(entries)[entries[i].name@] == entries[i].outcomes@,
        forall|n: Seq<char>| #[trigger]
            entries_table(entries).contains_key(n) ==> exists|i: int|
                0 <= i < entries.len() && (#[trigger] entries[i]).name@ == n,
    decreases entries.len(),
{
    if entries.len() > 0 {
        let rest = entries.drop_last();
        lemma_entries_table(rest);
        assert forall|i: int| 0 <= i < entries.len() implies entries_table(entries).contains_key(
            (#[trigger] entries[i]).name@,
        ) && entries_table(entries)[entries[i].name@] == entries[i].outcomes@ by {
            if i < rest.len() {
                assert(rest[i] == entries[i]);
            }
        }
        assert forall|n: Seq<char>| #[trigger] entries_table(entries).contains_key(n) implies exists|
            i: int,
        | 0 <= i < entries.len() && (#[trigger] entries[i]).name@ == n by {
            if n != entries.last().name@ {
                assert(entries_table(rest).contains_key(n));
                let i = choose|i: int| 0 <= i < rest.len() && (#[trigger] rest[i]).name@ == n;
                assert(entries[i] == rest[i]);
            } else {
                assert(entries[entries.len() - 1].name@ == n);
            }
        }
    }
}

/// Cross-run outcome history for every observed test.
pub struct TestHistory {
    entries: Vec<TestHistoryEntry>,
    /// Where the entry of a test stands.
    index: StringHashMap<usize>,
}

impl View for TestHistory {
    type V = Map<Seq<char>, Seq<StoredOutcome>>;

    closed spec fn view(&self) -> Map<Seq<char>, Seq<StoredOutcome>> {
        entries_table(self.entries@)
    }
}

impl TestHistory {
    /// Every test has one entry, and the index knows where it stands.
    pub closed spec fn is_indexed(self) -> bool {
        &&& forall|i: int|
            0 <= i < self.entries@.len() ==> self.index@.contains_key(
                (#[trigger] self.entries@[i]).name@,
            ) && self.index@[self.entries@[i].name@] == i
        &&& forall|n: Seq<char>| #[trigger]
            self.index@.contains_key(n) ==> self.index@[n] < self.entries@.len()
                && self.entries@[self.index@[n] as int].name@ == n
    }

    /// An empty history.
    pub fn new() -> (history: Self)
        ensures
            history.is_indexed(),
            history@ == Map::<Seq<char>, Seq<StoredOutcome>>::empty(),
    {
        TestHistory { entries: Vec::new(), index: StringHashMap::new() }
    }

    /// The recorded outcomes of every observed test.
    pub fn entries(&self) -> (entries: &[TestHistoryEntry])
        requires
            self.is_indexed(),
        ensures
            entries_are_distinct(entries@),
            entries_table(entries@) == self@,
    {
        self.entries.as_slice()
    }

    /// Sets the recorded outcomes of one test.
    pub fn restore(&mut self, name: &str, outcomes: Vec<StoredOutcome>)
        requires
            old(self).is_indexed(),
        ensures
            final(self).is_indexed(),
            final(self)@ == old(self)@.insert(name@, outcomes@),
    {
        let ghost before = self.entries@;
        let ghost values = outcomes@;
        proof {
            lemma_entries_table(before);
        }
        let place = match self.index.get(name) {
            Some(place) => Some(*place),
            None => None,
        };
        match place {
            Some(place) => {
                self.entries.set(place, TestHistoryEntry { name: name.to_owned(), outcomes });
            },
            None => {
                let place: usize = self.entries.len();
                self.index.insert(name.to_owned(), place);
                self.entries.push(TestHistoryEntry { name: name.to_owned(), outcomes });
            },
        }
        proof {
            let after = self.entries@;
            lemma_entries_table(after);
            assert forall|n: Seq<char>| #[trigger] entries_table(after).contains_key(n) implies (
            n == name@ || entries_table(before).contains_key(n)) && entries_table(after)[n]
                == entries_table(before).insert(name@, values)[n] by {
                let i = choose|i: int| 0 <= i < after.len() && (#[trigger] after[i]).name@ == n;
                if n != name@ {
                    assert(after[i] == before[i]);
                }
            }
            assert forall|n: Seq<char>| #[trigger]
                entries_table(before).contains_key(n) implies entries_table(after).contains_key(
                n,
            ) by {
                let i = choose|i: int| 0 <= i < before.len() && (#[trigger] before[i]).name@ == n;
                assert(after[i].name@ == before[i].name@);
            }
            let own: int = match place {
                Some(place) => place as int,
                None => before.len() as int,
            };
            assert(after[own].name@ == name@);
            assert(entries_table(after) =~= entries_table(before).insert(name@, values));
        }
    }

    /// Adds one outcome of the test `name`, the oldest one making room where needed.
    pub fn record(&mut self, name: &str, outcome: StoredOutcome)
        requires
            old(self).is_indexed(),
        ensures
            final(self).is_indexed(),
            final(self)@ == with_outcome(old(self)@, name@, outcome),
    {
        proof {
            lemma_entries_table(self.entries@);
        }
        let mut outcomes: Vec<StoredOutcome> = Vec::new();
        if let Some(place) = self.index.get(name) {
            let known = &self.entries[*place].outcomes;
            let mut i: usize = if known.len() >= HISTORY_LIMIT {
                known.len() - (HISTORY_LIMIT - 1)
            } else {
                0
            };
            let ghost start = i as int;
            while i < known.len()
                invariant
                    0 <= start <= i <= known.len(),
                    outcomes@ == known@.subrange(start, i as int),
                decreases known.len() - i,
            {
                outcomes.push(known[i]);
                i += 1;
                assert(outcomes@ =~= known@.subrange(start, i as int));
            }
            assert(outcomes@.push(outcome) =~= recent(known@.push(outcome)));
        }
        assert(outcomes@.push(outcome) =~= recent(outcomes_of(self@, name@).push(outcome)));
        outcomes.push(outcome);
        self.restore(name, outcomes);
    }

    /// The tests whose recent history oscillates between pass and fail, in no
    /// particular order.
    pub fn flaky_by_history(&self) -> (names: Vec<String>)
        requires
            self.is_indexed(),
        ensures
            text::texts(names@).no_duplicates(),
            forall|n: Seq<char>|
                text::texts(names@).contains(n) <==> #[trigger] self@.contains_key(n) && flips(
                    self@[n],
                ),
    {
        proof {
            lemma_entries_table(self.entries@);
        }
        let mut names: Vec<String> = Vec::new();
        let ghost mut places: Seq<int> = Seq::empty();
        let mut i: usize = 0;
        while i < self.entries.len()
            invariant
                i <= self.entries@.len(),
                self.is_indexed(),
                places.len() == names@.len(),
                forall|k: int|
                    0 <= k < names@.len() ==> 0 <= #[trigger] places[k] < i
                        && self.entries@[places[k]].name@ == names@[k]@ && flips(
                        self.entries@[places[k]].outcomes@,
                    ),
                forall|a: int, b: int| 0 <= a < b < places.len() ==> places[a] < places[b],
                forall|k: int|
                    0 <= k < i && flips((#[trigger] self.entries@[k]).outcomes@)
                        ==> places.contains(k),
            decreases self.entries@.len() - i,
        {
            let ghost before = places;
            if self.entries[i].is_history_flip() {
                names.push(self.entries[i].name.clone());
                proof {
                    places = places.push(i as int);
                    assert(places[places.len() - 1] == i);
                }
            }
            proof {
                assert forall|k: int|
                    0 <= k < i + 1 && flips(
                        (#[trigger] self.entries@[k]).outcomes@,
                    ) implies places.contains(k) by {
                    if k < i {
                        let j = choose|j: int| 0 <= j < before.len() && before[j] == k;
                        assert(places[j] == k);
                    }
                }
            }
            i += 1;
        }
        proof {
            let listed = text::texts(names@);
            assert forall|a: int, b: int| 0 <= a < b < listed.len() implies listed[a]
                != listed[b] by {
                let x = self.entries@[places[a]];
                let y = self.entries@[places[b]];
                assert(self.index@[x.name@] == places[a]);
                assert(self.index@[y.name@] == places[b]);
            }
            assert forall|n: Seq<char>|
                listed.contains(n) <==> #[trigger] self@.contains_key(n) && flips(self@[n]) by {
                if listed.contains(n) {
                    let k = choose|k: int| 0 <= k < listed.len() && listed[k] == n;
                    assert(self.entries@[places[k]].name@ == n);
                }
                if self@.contains_key(n) && flips(self@[n]) {
                    let i = choose|i: int|
                        0 <= i < self.entries@.len() && (#[trigger] self.entries@[i]).name@ == n;
                    assert(places.contains(i));
                    let k = choose|k: int| 0 <= k < places.len() && places[k] == i;
                    assert(listed[k] == n);
                }
            }
        }
        names
    }
}

impl Default for TestHistory {
    fn default() -> (history: Self)
        ensures
            history.is_indexed(),
            history@ == Map::<Seq<char>, Seq<StoredOutcome>>::empty(),
    {
        TestHistory::new()
    }
}

/// Where a history turns: no turn, one turn for good, or back and forth.
proof fn lemma_turns(s: Seq<StoredOutcome>)
    requires
        s.len() > 0,
    ensures
        transitions(s) == 0 ==> forall|i: int|
            0 <= i < s.len() ==> (#[trigger] s[i]).passes() == s[0].passes(),
        transitions(s) == 1 ==> s.last().passes() != s[0].passes() && forall|i: int, j: int|
            0 <= i < j < s.len() && (#[trigger] s[i]).passes() != s[0].passes() ==> (
            #[trigger] s[j]).passes() != s[0].passes(),
        transitions(s) >= 2 ==> exists|i: int, j: int, k: int|
            0 <= i < j < k < s.len() && (#[trigger] s[i]).passes() == (
            #[trigger] s[k]).passes() && s[i].passes() != (#[trigger] s[j]).passes(),
    decreases s.len(),
{
    if s.len() > 1 {
        let p = s.drop_last();
        lemma_turns(p);
        let n = s.len() - 1;
        assert(p.last() == s[n - 1]);
        assert(forall|i: int| 0 <= i < n ==> p[i] == s[i]);
        if transitions(p) == 1 && s[n - 1].passes() != s[n].passes() {
            assert(s[0].passes() == s[n].passes() && s[0].passes() != s[n - 1].passes());
        }
        if transitions(p) >= 2 {
            let (i, j, k) = choose|i: int, j: int, k: int|
                0 <= i < j < k < p.len() && (#[trigger] p[i]).passes() == (
                #[trigger] p[k]).passes() && p[i].passes() != (#[trigger] p[j]).passes();
            assert(s[i].passes() == s[k].passes() && s[i].passes() != s[j].passes());
        }
    }
}

/// A history is flaky exactly when the test changed and changed back: two equal outcomes
/// with a different one between them. A single change for good is no flake.
pub proof fn law_flips_are_changes_and_back(outcomes: Seq<StoredOutcome>)
    ensures
        flips(outcomes) <==> exists|i: int, j: int, k: int|
            0 <= i < j < k < outcomes.len() && (#[trigger] outcomes[i]).passes() == (
            #[trigger] outcomes[k]).passes() && outcomes[i].passes() != (
            #[trigger] outcomes[j]).passes(),
{
    if outcomes.len() > 0 {
        lemma_turns(outcomes);
    }
    if exists|i: int, j: int, k: int|
        0 <= i < j < k < outcomes.len() && (#[trigger] outcomes[i]).passes() == (
        #[trigger] outcomes[k]).passes() && outcomes[i].passes() != (
        #[trigger] outcomes[j]).passes() {
        let (i, j, k) = choose|i: int, j: int, k: int|
            0 <= i < j < k < outcomes.len() && (#[trigger] outcomes[i]).passes() == (
            #[trigger] outcomes[k]).passes() && outcomes[i].passes() != (
            #[trigger] outcomes[j]).passes();
        if outcomes[i].passes() {
            assert(outcomes[j] is Failed);
        } else {
            assert(outcomes[i] is Failed);
        }
        assert(transitions(outcomes) >= 2);
    }
    if flips(outcomes) {
        assert(transitions(outcomes) >= 2);
    }
}

/// At most the retained number of outcomes is kept, and the newest one is always kept.
pub proof fn law_histories_are_bounded(
    history: Map<Seq<char>, Seq<StoredOutcome>>,
    name: Seq<char>,
    outcome: StoredOutcome,
)
    ensures
        0 < with_outcome(history, name, outcome)[name].len() <= HISTORY_LIMIT,
        with_outcome(history, name, outcome)[name].last() == outcome,
{
}

/// Recording one test's outcome leaves every other test's history as it was.
pub proof fn law_histories_are_separate(
    history: Map<Seq<char>, Seq<StoredOutcome>>,
    name: Seq<char>,
    outcome: StoredOutcome,
    other: Seq<char>,
)
    requires
        other != name,
    ensures
        with_outcome(history, name, outcome).contains_key(other) == history.contains_key(other),
        outcomes_of(with_outcome(history, name, outcome), other) == outcomes_of(history, other),
{
}

/// The outcomes of the test `name` in a run, in order.
pub open spec fn outcomes_in(run: Seq<TestOutcomeRecord>, name: Seq<char>) -> Seq<StoredOutcome>
    decreases run.len(),
{
    if run.len() == 0 {
        Seq::empty()
    } else if run.last().name@ == name {
        outcomes_in(run.drop_last(), name).push(run.last().outcome)
    } else {
        outcomes_in(run.drop_last(), name)
    }
}

/// After a run, the history of a test is what it was, followed by the outcomes of the run,
/// cut to the last ones; a test that the run did not touch keeps its history whole.
pub proof fn law_runs_extend_histories(
    history: Map<Seq<char>, Seq<StoredOutcome>>,
    run: Seq<TestOutcomeRecord>,
    name: Seq<char>,
)
    ensures
        outcomes_of(with_outcomes(history, run), name) == if outcomes_in(run, name).len() == 0 {
            outcomes_of(history, name)
        } else {
            recent(outcomes_of(history, name) + outcomes_in(run, name))
        },
    decreases run.len(),
{
    if run.len() > 0 {
        law_runs_extend_histories(history, run.drop_last(), name);
        if run.last().name@ == name {
            let before = outcomes_of(history, name);
            let earlier = outcomes_in(run.drop_last(), name);
            let outcome = run.last().outcome;
            assert(before + earlier.push(outcome) =~= (before + earlier).push(outcome));
            if earlier.len() == 0 {
                assert(before + earlier =~= before);
            } else {
                assert(recent(recent(before + earlier).push(outcome)) =~= recent(
                    (before + earlier).push(outcome),
                ));
            }
        }
    }
}

/// Both lists hold the same histories of the same tests, in any order.
pub open spec fn same_entries(a: Seq<TestHistoryEntry>, b: Seq<TestHistoryEntry>) -> bool {
    &&& forall|i: int|
        0 <= i < a.len() ==> exists|j: int|
            0 <= j < b.len() && (#[trigger] b[j]).name@ == (#[trigger] a[i]).name@ && b[j].outcomes@
                == a[i].outcomes@
    &&& forall|j: int|
        0 <= j < b.len() ==> exists|i: int|
            0 <= i < a.len() && (#[trigger] a[i]).name@ == (#[trigger] b[j]).name@ && a[i].outcomes@
                == b[j].outcomes@
}

/// A history whose entries are written out and restored one by one is the history that it
/// was, whatever order its entries come back in.
pub proof fn law_restored_histories_are_the_same(
    a: Seq<TestHistoryEntry>,
    b: Seq<TestHistoryEntry>,
)
    requires
        entries_are_distinct(a),
        entries_are_distinct(b),
        same_entries(a, b),
    ensures
        entries_table(a) == entries_table(b),
{
    lemma_entries_table(a);
    lemma_entries_table(b);
    assert forall|n: Seq<char>| #[trigger] entries_table(a).contains_key(n) implies entries_table(
        b,
    ).contains_key(n) && entries_table(b)[n] == entries_table(a)[n] by {
        let i = choose|i: int| 0 <= i < a.len() && (#[trigger] a[i]).name@ == n;
        assert(a[i].name@ == n);
        let j = choose|j: int|
            0 <= j < b.len() && (#[trigger] b[j]).name@ == a[i].name@ && b[j].outcomes@
                == a[i].outcomes@;
        assert(b[j].name@ == n);
    }
    assert forall|n: Seq<char>| #[trigger] entries_table(b).contains_key(n) implies entries_table(
        a,
    ).contains_key(n) by {
        let j = choose|j: int| 0 <= j < b.len() && (#[trigger] b[j]).name@ == n;
        assert(b[j].name@ == n);
        let i = choose|i: int|
            0 <= i < a.len() && (#[trigger] a[i]).name@ == b[j].name@ && a[i].outcomes@
                == b[j].outcomes@;
        assert(a[i].name@ == n);
    }
    assert(entries_table(a) =~= entries_table(b));
}

/// Of every history the last twenty outcomes are kept, all of them where there are no more.
pub proof fn law_the_last_twenty_outcomes_are_kept(outcomes: Seq<StoredOutcome>)
    ensures
        recent(outcomes).is_suffix_of(outcomes),
        recent(outcomes).len() == if outcomes.len() <= 20 {
            outcomes.len()
        } else {
            20
        },
{
    assert(recent(outcomes) =~= outcomes.subrange(
        outcomes.len() - recent(outcomes).len(),
        outcomes.len() as int,
    ));
}

/// The outcomes of a test in a run are those that were recorded under its name, in order.
pub proof fn law_outcomes_in_a_run_are_in_order(
    a: Seq<TestOutcomeRecord>,
    b: Seq<TestOutcomeRecord>,
    record: TestOutcomeRecord,
    name: Seq<char>,
)
    ensures
        outcomes_in(a + b, name) == outcomes_in(a, name) + outcomes_in(b, name),
        outcomes_in(seq![record], name) == if record.name@ == name {
            seq![record.outcome]
        } else {
            Seq::empty()
        },
        outcomes_in(Seq::empty(), name) == Seq::<StoredOutcome>::empty(),
    decreases b.len(),
{
    let one = seq![record];
    assert(one.drop_last() =~= Seq::empty());
    assert(outcomes_in(one.drop_last(), name) =~= Seq::<StoredOutcome>::empty());
    assert(Seq::<StoredOutcome>::empty().push(record.outcome) =~= seq![record.outcome]);
    if b.len() == 0 {
        assert(a + b =~= a);
        assert(outcomes_in(a, name) + Seq::empty() =~= outcomes_in(a, name));
    } else {
        law_outcomes_in_a_run_are_in_order(a, b.drop_last(), record, name);
        assert((a + b).drop_last() =~= a + b.drop_last());
        assert((a + b).last() == b.last());
        assert(outcomes_in(a + b, name) =~= outcomes_in(a, name) + outcomes_in(b, name));
    }
}

/// A test without history has no outcomes yet; the history of any other is what is stored.
pub proof fn law_unknown_tests_have_no_outcomes(
    history: Map<Seq<char>, Seq<StoredOutcome>>,
    name: Seq<char>,
)
    ensures
        !history.contains_key(name) ==> outcomes_of(history, name).len() == 0,
        history.contains_key(name) ==> outcomes_of(history, name) == history[name],
{
}

/// One more outcome goes to the end of the test's history, of which the last twenty are kept.
pub proof fn law_outcomes_go_to_the_end(
    history: Map<Seq<char>, Seq<StoredOutcome>>,
    name: Seq<char>,
    outcome: StoredOutcome,
)
    ensures
        with_outcome(history, name, outcome).contains_key(name),
        with_outcome(history, name, outcome)[name].is_suffix_of(
            outcomes_of(history, name).push(outcome),
        ),
        with_outcome(history, name, outcome)[name].len() == if outcomes_of(history, name).len()
            < 20 {
            outcomes_of(history, name).len() + 1
        } else {
            20
        },
{
    law_the_last_twenty_outcomes_are_kept(outcomes_of(history, name).push(outcome));
}

/// A run brings exactly the tests it ran into the history.
pub proof fn law_runs_add_the_tests_they_ran(
    history: Map<Seq<char>, Seq<StoredOutcome>>,
    run: Seq<TestOutcomeRecord>,
    name: Seq<char>,
)
    ensures
        with_outcomes(history, run).contains_key(name) <==> history.contains_key(name) || exists|
            i: int,
        | 0 <= i < run.len() && (#[trigger] run[i]).name@ == name,
    decreases run.len(),
{
    if run.len() > 0 {
        let rest = run.drop_last();
        law_runs_add_the_tests_they_ran(history, rest, name);
        if exists|i: int| 0 <= i < rest.len() && (#[trigger] rest[i]).name@ == name {
            let i = choose|i: int| 0 <= i < rest.len() && (#[trigger] rest[i]).name@ == name;
            assert(run[i].name@ == name);
        }
        if run.last().name@ == name {
            assert(run[run.len() - 1].name@ == name);
        } else if exists|i: int| 0 <= i < run.len() && (#[trigger] run[i]).name@ == name {
            let i = choose|i: int| 0 <= i < run.len() && (#[trigger] run[i]).name@ == name;
            assert(rest[i].name@ == name);
        }
    }
}

} // verus!
