//! The quarantine set, and how a run adds to it.
use crate::cache::history::{self, TestHistory};
use crate::result::flaky::FlakyTest;
use crate::result::quarantine::{
    QuarantineEntry, QuarantineReason, QuarantinedTest, StoredOutcome, TestOutcomeRecord,
};
use crate::text::{self, comes_before};
use vstd::hash_set::StringHashSet;
use vstd::prelude::*;

verus! {

/// What the tests of a list say.
pub open spec fn entries(tests: Seq<QuarantinedTest>) -> Seq<QuarantineEntry> {
    Seq::new(tests.len(), |i: int| tests[i]@)
}

/// `list` quarantines the test `name`.
pub open spec fn lists(list: Seq<QuarantineEntry>, name: Seq<char>) -> bool {
    exists|i: int| 0 <= i < list.len() && (#[trigger] list[i]).name == name
}

/// The entries of `list` for the test `name`, in order.
pub open spec fn named(list: Seq<QuarantineEntry>, name: Seq<char>) -> Seq<QuarantineEntry>
    decreases list.len(),
{
    if list.len() == 0 {
        Seq::empty()
    } else if list.last().name == name {
        named(list.drop_last(), name).push(list.last())
    } else {
        named(list.drop_last(), name)
    }
}

/// The entries of `list` stand in the order of their names.
pub open spec fn is_sorted(list: Seq<QuarantineEntry>) -> bool {
    forall|i: int, j: int|
        0 <= i < j < list.len() ==> text::not_after(
            (#[trigger] list[i]).name,
            (#[trigger] list[j]).name,
        )
}

/// `sorted` is `list` in the order of names, entries of the same name in the order they had.
pub open spec fn is_stable_sort(
    list: Seq<QuarantineEntry>,
    sorted: Seq<QuarantineEntry>,
) -> bool {
    &&& is_sorted(sorted)
    &&& forall|name: Seq<char>| #[trigger] named(sorted, name) == named(list, name)
}

/// The entries for a name in two lists, one behind the other.
proof fn lemma_named_concat(a: Seq<QuarantineEntry>, b: Seq<QuarantineEntry>, name: Seq<char>)
    ensures
        named(a + b, name) == named(a, name) + named(b, name),
    decreases b.len(),
{
    if b.len() == 0 {
        assert(a + b =~= a);
        assert(named(a, name) + named(b, name) =~= named(a, name));
    } else {
        lemma_named_concat(a, b.drop_last(), name);
        assert((a + b).drop_last() =~= a + b.drop_last());
        assert((a + b).last() == b.last());
        assert(named(a + b, name) =~= named(a, name) + named(b, name));
    }
}

/// A list has entries for a name exactly when it lists the name.
pub proof fn lemma_named_nonempty(list: Seq<QuarantineEntry>, name: Seq<char>)
    ensures
        named(list, name).len() > 0 <==> lists(list, name),
    decreases list.len(),
{
    if list.len() > 0 {
        let rest = list.drop_last();
        lemma_named_nonempty(rest, name);
        if lists(rest, name) {
            let i = choose|i: int| 0 <= i < rest.len() && (#[trigger] rest[i]).name == name;
            assert(list[i].name == name);
        }
        if lists(list, name) && list.last().name != name {
            let i = choose|i: int| 0 <= i < list.len() && (#[trigger] list[i]).name == name;
            assert(rest[i].name == name);
        }
        if list.last().name == name {
            assert(list[list.len() - 1].name == name);
        }
    }
}

/// Entries moved behind a list whose names all differ from theirs keep their order.
proof fn lemma_insert_keeps_named(
    left: Seq<QuarantineEntry>,
    right: Seq<QuarantineEntry>,
    entry: QuarantineEntry,
    name: Seq<char>,
)
    requires
        !lists(right, entry.name),
    ensures
        named(left.push(entry) + right, name) == named((left + right).push(entry), name),
{
    lemma_named_concat(left.push(entry), right, name);
    lemma_named_concat(left, right, name);
    lemma_named_nonempty(right, name);
    assert((left + right).push(entry).drop_last() =~= left + right);
    assert(left.push(entry).drop_last() =~= left);
    if name == entry.name {
        assert(named(right, name) =~= Seq::empty());
        assert(named(left.push(entry), name) + named(right, name) =~= named(left, name).push(entry));
        assert(named(left, name) + named(right, name) =~= named(left, name));
    }
}

/// Puts `test` into the sorted `list`, behind every test that does not come after it.
fn insert_by_name(list: &mut Vec<QuarantinedTest>, test: QuarantinedTest)
    requires
        is_sorted(entries(old(list)@)),
    ensures
        is_stable_sort(entries(old(list)@).push(test@), entries(final(list)@)),
{
    let ghost before = entries(list@);
    let mut place: usize = list.len();
    while place > 0 && comes_before(test.name.as_str(), list[place - 1].name.as_str())
        invariant
            before == entries(list@),
            place <= list@.len(),
            forall|k: int|
                place <= k < before.len() ==> text::before(
                    test@.name,
                    (#[trigger] before[k]).name,
                ),
        decreases place,
    {
        place -= 1;
        assert(before[place as int] == list@[place as int]@);
    }
    let ghost entry = test@;
    list.insert(place, test);
    proof {
        let after = entries(list@);
        let left = before.take(place as int);
        let right = before.skip(place as int);
        assert(left + right =~= before);
        assert(after =~= left.push(entry) + right);
        if lists(right, entry.name) {
            let k = choose|k: int| 0 <= k < right.len() && (#[trigger] right[k]).name == entry.name;
            assert(before[place + k].name == entry.name);
            text::lemma_before_irreflexive(entry.name);
        }
        assert forall|name: Seq<char>| #[trigger] named(after, name) == named(
            before.push(entry),
            name,
        ) by {
            lemma_insert_keeps_named(left, right, entry, name);
        }
        assert forall|i: int, j: int| 0 <= i < j < after.len() implies text::not_after(
            (#[trigger] after[i]).name,
            (#[trigger] after[j]).name,
        ) by {
            if i < place && j < place {
                assert(after[i] == before[i] && after[j] == before[j]);
            } else if i < place && j == place {
                assert(after[i] == before[i]);
                assert(text::not_after(before[place - 1].name, entry.name));
                if i < place - 1 {
                    text::lemma_not_after_transitive(
                        before[i].name,
                        before[place - 1].name,
                        entry.name,
                    );
                }
            } else if i < place {
                assert(after[i] == before[i] && after[j] == before[j - 1]);
            } else if i == place {
                assert(after[j] == before[j - 1]);
                if text::before(before[j - 1].name, entry.name) {
                    text::lemma_before_transitive(before[j - 1].name, entry.name, before[j - 1].name);
                    text::lemma_before_irreflexive(before[j - 1].name);
                }
            } else {
                assert(after[i] == before[i - 1] && after[j] == before[j - 1]);
            }
        }
    }
}

/// The tests in the order of their names, tests of the same name in the order they had.
pub fn sorted_by_name(tests: &[QuarantinedTest]) -> (sorted: Vec<QuarantinedTest>)
    ensures
        is_stable_sort(entries(tests@), entries(sorted@)),
{
    let ghost all = entries(tests@);
    let mut sorted: Vec<QuarantinedTest> = Vec::new();
    let mut i: usize = 0;
    assert(entries(sorted@) =~= all.take(0));
    while i < tests.len()
        invariant
            i <= tests@.len(),
            all == entries(tests@),
            is_stable_sort(all.take(i as int), entries(sorted@)),
        decreases tests@.len() - i,
    {
        let ghost middle = entries(sorted@);
        insert_by_name(&mut sorted, tests[i].clone());
        proof {
            let entry = all[i as int];
            assert(all.take(i + 1).drop_last() =~= all.take(i as int));
            assert(middle.push(entry).drop_last() =~= middle);
            assert forall|name: Seq<char>| #[trigger] named(entries(sorted@), name) == named(
                all.take(i + 1),
                name,
            ) by {
                assert(named(entries(sorted@), name) == named(middle.push(entry), name));
                assert(named(middle, name) == named(all.take(i as int), name));
            }
        }
        i += 1;
    }
    assert(all.take(i as int) =~= all);
    sorted
}

/// The set of quarantined tests.
#[derive(Debug)]
pub struct QuarantineList {
    tests: Vec<QuarantinedTest>,
}

impl View for QuarantineList {
    type V = Seq<QuarantineEntry>;

    closed spec fn view(&self) -> Seq<QuarantineEntry> {
        entries(self.tests@)
    }
}

impl Default for QuarantineList {
    fn default() -> (list: Self)
        ensures
            list@ == Seq::<QuarantineEntry>::empty(),
    {
        let list = QuarantineList { tests: Vec::new() };
        assert(list@ =~= Seq::<QuarantineEntry>::empty());
        list
    }
}

/// `list` with the test `name` added, unless it is listed already.
pub open spec fn with_test(
    list: Seq<QuarantineEntry>,
    name: Seq<char>,
    reason: QuarantineReason,
) -> Seq<QuarantineEntry> {
    if lists(list, name) {
        list
    } else {
        list.push(QuarantineEntry { name, reason })
    }
}

impl QuarantineList {
    /// A list of the given tests.
    pub fn from_tests(tests: Vec<QuarantinedTest>) -> (list: Self)
        ensures
            list@ == entries(tests@),
    {
        QuarantineList { tests }
    }

    /// The quarantined tests, in the order of the list.
    pub fn tests(&self) -> (tests: &[QuarantinedTest])
        ensures
            entries(tests@) == self@,
    {
        self.tests.as_slice()
    }

    /// The names of the quarantined tests.
    pub fn names(&self) -> (names: StringHashSet)
        ensures
            forall|name: Seq<char>| #[trigger] names@.contains(name) == lists(self@, name),
    {
        let mut names = StringHashSet::new();
        let mut i: usize = 0;
        while i < self.tests.len()
            invariant
                i <= self.tests@.len(),
                forall|name: Seq<char>| #[trigger]
                    names@.contains(name) == lists(self@.take(i as int), name),
            decreases self.tests@.len() - i,
        {
            let ghost before = names@;
            names.insert(self.tests[i].name.clone());
            proof {
                assert(self@.take(i + 1) =~= self@.take(i as int).push(self@[i as int]));
                assert forall|name: Seq<char>| #[trigger] names@.contains(name) == lists(
                    self@.take(i + 1),
                    name,
                ) by {
                    assert(names@.contains(name) == (before.contains(name) || name
                        == self@[i as int].name));
                    lemma_lists_push(self@.take(i as int), self@[i as int], name);
                }
            }
            i += 1;
        }
        assert(self@.take(i as int) =~= self@);
        names
    }

    /// Whether the test `name` is quarantined.
    pub fn contains(&self, name: &str) -> (listed: bool)
        ensures
            listed == lists(self@, name@),
    {
        let wanted = name.to_owned();
        let mut i: usize = 0;
        while i < self.tests.len()
            invariant
                i <= self.tests@.len(),
                wanted@ == name@,
                forall|k: int| 0 <= k < i ==> (#[trigger] self@[k]).name != name@,
            decreases self.tests@.len() - i,
        {
            assert(self@[i as int].name == self.tests@[i as int].name@);
            if self.tests[i].name == wanted {
                return true;
            }
            i += 1;
        }
        false
    }

    /// Quarantines the test `name` if it is not quarantined already. Returns whether it is new.
    pub fn add(&mut self, name: &str, reason: QuarantineReason) -> (new: bool)
        ensures
            new == !lists(old(self)@, name@),
            final(self)@ == with_test(old(self)@, name@, reason),
    {
        if self.contains(name) {
            return false;
        }
        self.tests.push(QuarantinedTest::new(name, reason));
        assert(self@ =~= old(self)@.push(QuarantineEntry { name: name@, reason }));
        true
    }

    /// Whether no test is quarantined.
    pub fn is_empty(&self) -> (empty: bool)
        ensures
            empty == (self@.len() == 0),
    {
        self.tests.len() == 0
    }

    /// The number of entries.
    pub fn len(&self) -> (len: usize)
        ensures
            len == self@.len(),
    {
        self.tests.len()
    }

    /// Brings the list into the order of the names, keeping the order of equal names.
    pub fn sort(&mut self)
        ensures
            is_stable_sort(old(self)@, final(self)@),
    {
        self.tests = sorted_by_name(self.tests.as_slice());
    }

    /// The list as it is stored: in the order of the names.
    pub fn to_stored(&self) -> (stored: Self)
        ensures
            is_stable_sort(self@, stored@),
    {
        QuarantineList { tests: sorted_by_name(self.tests.as_slice()) }
    }

    /// The list that was read back: an empty one where none is stored.
    pub fn from_stored(stored: Option<QuarantineList>) -> (list: Self)
        ensures
            list@ == match stored {
                Some(stored) => stored@,
                None => Seq::<QuarantineEntry>::empty(),
            },
    {
        match stored {
            Some(stored) => stored,
            None => QuarantineList::default(),
        }
    }
}

/// What a list names after one more entry.
proof fn lemma_lists_push(list: Seq<QuarantineEntry>, entry: QuarantineEntry, name: Seq<char>)
    ensures
        lists(list.push(entry), name) == (lists(list, name) || name == entry.name),
{
    let longer = list.push(entry);
    if lists(list, name) {
        let i = choose|i: int| 0 <= i < list.len() && (#[trigger] list[i]).name == name;
        assert(longer[i].name == name);
    }
    if name == entry.name {
        assert(longer[list.len() as int].name == name);
    }
    if lists(longer, name) && name != entry.name {
        let i = choose|i: int| 0 <= i < longer.len() && (#[trigger] longer[i]).name == name;
        assert(list[i].name == name);
    }
}

/// `list` with each of `names` added in turn, unless it is listed already.
pub open spec fn with_tests(
    list: Seq<QuarantineEntry>,
    names: Seq<Seq<char>>,
    reason: QuarantineReason,
) -> Seq<QuarantineEntry>
    decreases names.len(),
{
    if names.len() == 0 {
        list
    } else {
        with_test(with_tests(list, names.drop_last(), reason), names.last(), reason)
    }
}

/// The names that flaky tests go by.
pub open spec fn flaky_names(tests: Seq<FlakyTest>) -> Seq<Seq<char>> {
    Seq::new(tests.len(), |i: int| tests[i].identity())
}

/// `names` are the tests of `history` that oscillate, each once, in some order.
pub open spec fn are_flips(
    history: Map<Seq<char>, Seq<StoredOutcome>>,
    names: Seq<Seq<char>>,
) -> bool {
    &&& names.no_duplicates()
    &&& forall|n: Seq<char>|
        names.contains(n) <==> #[trigger] history.contains_key(n) && history::flips(history[n])
}

/// How the outcomes of a run change the history and the quarantine set.
///
/// The outcomes go into the history. Tests that passed only after a retry are
/// quarantined first, in the order given, then the tests whose history oscillates,
/// in some order. `newly` is what was added, in the order of names.
pub open spec fn is_update(
    old_history: Map<Seq<char>, Seq<StoredOutcome>>,
    old_list: Seq<QuarantineEntry>,
    outcomes: Seq<TestOutcomeRecord>,
    flaky: Seq<FlakyTest>,
    new_history: Map<Seq<char>, Seq<StoredOutcome>>,
    new_list: Seq<QuarantineEntry>,
    newly: Seq<QuarantineEntry>,
) -> bool {
    let retried = with_tests(old_list, flaky_names(flaky), QuarantineReason::RetryFlaky);
    &&& new_history == history::with_outcomes(old_history, outcomes)
    &&& exists|flips: Seq<Seq<char>>|
        are_flips(new_history, flips) && new_list == #[trigger] with_tests(
            retried,
            flips,
            QuarantineReason::HistoryFlip,
        )
    &&& is_stable_sort(new_list.skip(old_list.len() as int), newly)
}

/// Applies the outcomes of a run to the history and quarantines newly detected flakes.
///
/// Returns the tests that were newly quarantined, in the order of their names.
pub fn update_history_and_quarantine(
    history: &mut TestHistory,
    quarantine: &mut QuarantineList,
    outcomes: &[TestOutcomeRecord],
    flaky_tests: &[FlakyTest],
) -> (newly: Vec<QuarantinedTest>)
    requires
        old(history).is_indexed(),
    ensures
        final(history).is_indexed(),
        is_update(
            old(history)@,
            old(quarantine)@,
            outcomes@,
            flaky_tests@,
            final(history)@,
            final(quarantine)@,
            entries(newly@),
        ),
{
    let ghost old_history = history@;
    let ghost old_list = quarantine@;
    let mut i: usize = 0;
    while i < outcomes.len()
        invariant
            i <= outcomes@.len(),
            history.is_indexed(),
            history@ == history::with_outcomes(old_history, outcomes@.take(i as int)),
        decreases outcomes@.len() - i,
    {
        history.record(outcomes[i].name.as_str(), outcomes[i].outcome);
        assert(outcomes@.take(i + 1).drop_last() =~= outcomes@.take(i as int));
        i += 1;
    }
    assert(outcomes@.take(i as int) =~= outcomes@);

    let mut newly: Vec<QuarantinedTest> = Vec::new();
    let ghost retry_names = flaky_names(flaky_tests@);
    assert(old_list + entries(newly@) =~= old_list);
    let mut j: usize = 0;
    while j < flaky_tests.len()
        invariant
            j <= flaky_tests@.len(),
            retry_names == flaky_names(flaky_tests@),
            quarantine@ == with_tests(
                old_list,
                retry_names.take(j as int),
                QuarantineReason::RetryFlaky,
            ),
            quarantine@ == old_list + entries(newly@),
        decreases flaky_tests@.len() - j,
    {
        let ghost before = quarantine@;
        let ghost added = entries(newly@);
        let name = flaky_tests[j].full_name();
        proof {
            assert(retry_names.take(j + 1).drop_last() =~= retry_names.take(j as int));
            assert(retry_names.take(j + 1).last() == name@);
        }
        if quarantine.add(name.as_str(), QuarantineReason::RetryFlaky) {
            newly.push(QuarantinedTest::new(name.as_str(), QuarantineReason::RetryFlaky));
            assert(entries(newly@) =~= added.push(quarantine@.last()));
            assert(quarantine@ =~= old_list + entries(newly@));
        }
        j += 1;
    }
    assert(retry_names.take(j as int) =~= retry_names);

    let ghost retried = quarantine@;
    let flipped = history.flaky_by_history();
    let ghost flips = text::texts(flipped@);
    let mut k: usize = 0;
    while k < flipped.len()
        invariant
            k <= flipped@.len(),
            flips == text::texts(flipped@),
            quarantine@ == with_tests(retried, flips.take(k as int), QuarantineReason::HistoryFlip),
            quarantine@ == old_list + entries(newly@),
        decreases flipped@.len() - k,
    {
        let ghost added = entries(newly@);
        let name = &flipped[k];
        proof {
            assert(flips.take(k + 1).drop_last() =~= flips.take(k as int));
            assert(flips.take(k + 1).last() == name@);
        }
        if quarantine.add(name.as_str(), QuarantineReason::HistoryFlip) {
            newly.push(QuarantinedTest::new(name.as_str(), QuarantineReason::HistoryFlip));
            assert(entries(newly@) =~= added.push(quarantine@.last()));
            assert(quarantine@ =~= old_list + entries(newly@));
        }
        k += 1;
    }
    let sorted = sorted_by_name(newly.as_slice());
    proof {
        assert(flips.take(k as int) =~= flips);
        assert(are_flips(history@, flips));
        assert(quarantine@ == with_tests(retried, flips, QuarantineReason::HistoryFlip));
        assert(quarantine@.skip(old_list.len() as int) =~= entries(newly@));
    }
    sorted
}

} // verus!
