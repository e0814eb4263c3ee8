//! Laws of the quarantine set.
use crate::cache::history;
use crate::cache::quarantine;
use crate::result::flaky::FlakyTest;
use crate::result::quarantine::{
    QuarantineEntry, QuarantineReason, QuarantinedTest, StoredOutcome, TestOutcomeRecord,
};
use crate::text;
use vstd::prelude::*;

verus! {

/// No test is listed twice.
pub open spec fn names_are_unique(list: Seq<QuarantineEntry>) -> bool {
    forall|i: int, j: int|
        0 <= i < j < list.len() ==> (#[trigger] list[i]).name != (#[trigger] list[j]).name
}

/// The entries for a name, told from the first entry of a list.
proof fn lemma_named_first(list: Seq<QuarantineEntry>, name: Seq<char>)
    requires
        list.len() > 0,
    ensures
        quarantine::named(list, name) == if list[0].name == name {
            seq![list[0]] + quarantine::named(list.drop_first(), name)
        } else {
            quarantine::named(list.drop_first(), name)
        },
    decreases list.len(),
{
    if list.len() == 1 {
        assert(list.drop_last() =~= Seq::empty());
        assert(list.drop_first() =~= Seq::empty());
        assert(quarantine::named(list.drop_last(), name) =~= Seq::empty());
        assert(quarantine::named(list, name) =~= if list[0].name == name {
            seq![list[0]] + quarantine::named(list.drop_first(), name)
        } else {
            quarantine::named(list.drop_first(), name)
        });
    } else {
        lemma_named_first(list.drop_last(), name);
        assert(list.drop_last().drop_first() =~= list.drop_first().drop_last());
        assert(quarantine::named(list, name) =~= if list[0].name == name {
            seq![list[0]] + quarantine::named(list.drop_first(), name)
        } else {
            quarantine::named(list.drop_first(), name)
        });
    }
}

/// Two lists in the order of names that agree on every name are the same list.
proof fn lemma_sorted_lists_agree(a: Seq<QuarantineEntry>, b: Seq<QuarantineEntry>)
    requires
        quarantine::is_sorted(a),
        quarantine::is_sorted(b),
        forall|name: Seq<char>| #[trigger]
            quarantine::named(a, name) == quarantine::named(b, name),
    ensures
        a == b,
    decreases a.len(),
{
    if a.len() == 0 {
        if b.len() > 0 {
            assert(b[0].name == b[0].name);
            quarantine::lemma_named_nonempty(b, b[0].name);
            assert(quarantine::named(a, b[0].name) == quarantine::named(b, b[0].name));
        }
        assert(a =~= b);
    } else {
        let x = a[0].name;
        quarantine::lemma_named_nonempty(a, x);
        quarantine::lemma_named_nonempty(b, x);
        assert(quarantine::named(a, x) == quarantine::named(b, x));
        assert(quarantine::lists(b, x));
        let y = b[0].name;
        quarantine::lemma_named_nonempty(b, y);
        quarantine::lemma_named_nonempty(a, y);
        assert(quarantine::named(a, y) == quarantine::named(b, y));
        assert(quarantine::lists(a, y));
        let i = choose|i: int| 0 <= i < b.len() && (#[trigger] b[i]).name == x;
        let j = choose|j: int| 0 <= j < a.len() && (#[trigger] a[j]).name == y;
        text::lemma_before_irreflexive(x);
        text::lemma_before_irreflexive(y);
        assert(text::not_after(y, x)) by {
            if i > 0 {
                assert(text::not_after(b[0].name, b[i].name));
            }
        }
        assert(text::not_after(x, y)) by {
            if j > 0 {
                assert(text::not_after(a[0].name, a[j].name));
            }
        }
        text::lemma_before_total(x, y);
        lemma_named_first(a, x);
        lemma_named_first(b, x);
        assert(quarantine::named(a, x)[0] == a[0]);
        assert(quarantine::named(b, x)[0] == b[0]);
        assert forall|name: Seq<char>| #[trigger]
            quarantine::named(a.drop_first(), name) == quarantine::named(b.drop_first(), name) by {
            lemma_named_first(a, name);
            lemma_named_first(b, name);
            assert(quarantine::named(a, name) == quarantine::named(b, name));
            if name == x {
                assert((seq![a[0]] + quarantine::named(a.drop_first(), name)).skip(1)
                    =~= quarantine::named(a.drop_first(), name));
                assert((seq![b[0]] + quarantine::named(b.drop_first(), name)).skip(1)
                    =~= quarantine::named(b.drop_first(), name));
            }
        }
        lemma_sorted_lists_agree(a.drop_first(), b.drop_first());
        assert(a =~= seq![a[0]] + a.drop_first());
        assert(b =~= seq![b[0]] + b.drop_first());
    }
}

/// Sorting is deterministic: a list has one sorted form only.
pub proof fn law_sorting_is_deterministic(
    list: Seq<QuarantineEntry>,
    a: Seq<QuarantineEntry>,
    b: Seq<QuarantineEntry>,
)
    requires
        quarantine::is_stable_sort(list, a),
        quarantine::is_stable_sort(list, b),
    ensures
        a == b,
{
    assert forall|name: Seq<char>| #[trigger]
        quarantine::named(a, name) == quarantine::named(b, name) by {
        assert(quarantine::named(a, name) == quarantine::named(list, name));
        assert(quarantine::named(b, name) == quarantine::named(list, name));
    }
    lemma_sorted_lists_agree(a, b);
}

/// Sorting a sorted list changes nothing.
pub proof fn law_sorting_again_changes_nothing(
    list: Seq<QuarantineEntry>,
    sorted: Seq<QuarantineEntry>,
    again: Seq<QuarantineEntry>,
)
    requires
        quarantine::is_stable_sort(list, sorted),
        quarantine::is_stable_sort(sorted, again),
    ensures
        again == sorted,
{
    assert forall|name: Seq<char>| #[trigger]
        quarantine::named(again, name) == quarantine::named(sorted, name) by {}
    lemma_sorted_lists_agree(again, sorted);
}

/// How often an entry occurs, told from the entries of its name.
proof fn lemma_occurrences(list: Seq<QuarantineEntry>, entry: QuarantineEntry)
    ensures
        list.to_multiset().count(entry) == quarantine::named(list, entry.name).to_multiset().count(
            entry,
        ),
    decreases list.len(),
{
    broadcast use vstd::seq_lib::group_to_multiset_ensures;

    if list.len() > 0 {
        lemma_occurrences(list.drop_last(), entry);
        assert(list =~= list.drop_last().push(list.last()));
    }
}

/// Sorting neither loses nor invents entries: a stored list quarantines the tests that
/// the list did.
pub proof fn law_sorting_keeps_the_entries(
    list: Seq<QuarantineEntry>,
    sorted: Seq<QuarantineEntry>,
)
    requires
        quarantine::is_stable_sort(list, sorted),
    ensures
        sorted.to_multiset() == list.to_multiset(),
        sorted.len() == list.len(),
        forall|name: Seq<char>| #[trigger]
            quarantine::lists(sorted, name) == quarantine::lists(list, name),
{
    broadcast use vstd::seq_lib::group_to_multiset_ensures;

    assert forall|entry: QuarantineEntry| #[trigger] sorted.to_multiset().count(entry)
        == list.to_multiset().count(entry) by {
        lemma_occurrences(sorted, entry);
        lemma_occurrences(list, entry);
        assert(quarantine::named(sorted, entry.name) == quarantine::named(list, entry.name));
    }
    assert(sorted.to_multiset() =~= list.to_multiset());
    assert(sorted.to_multiset().len() == sorted.len());
    assert(list.to_multiset().len() == list.len());
    assert forall|name: Seq<char>| #[trigger]
        quarantine::lists(sorted, name) == quarantine::lists(list, name) by {
        quarantine::lemma_named_nonempty(sorted, name);
        quarantine::lemma_named_nonempty(list, name);
        assert(quarantine::named(sorted, name) == quarantine::named(list, name));
    }
}

/// What adding tests does to a list.
proof fn lemma_with_tests(
    list: Seq<QuarantineEntry>,
    names: Seq<Seq<char>>,
    reason: QuarantineReason,
)
    ensures
        list.is_prefix_of(quarantine::with_tests(list, names, reason)),
        forall|n: Seq<char>| #[trigger]
            quarantine::lists(quarantine::with_tests(list, names, reason), n) <==> (
            quarantine::lists(list, n) || names.contains(n)),
        forall|i: int|
            list.len() <= i < quarantine::with_tests(list, names, reason).len() ==> {
                let entry = #[trigger] quarantine::with_tests(list, names, reason)[i];
                entry.reason == reason && names.contains(entry.name) && !quarantine::lists(
                    list,
                    entry.name,
                )
            },
        names_are_unique(list) ==> names_are_unique(
            quarantine::with_tests(list, names, reason),
        ),
    decreases names.len(),
{
    if names.len() > 0 {
        let earlier = names.drop_last();
        let name = names.last();
        lemma_with_tests(list, earlier, reason);
        let before = quarantine::with_tests(list, earlier, reason);
        let after = quarantine::with_tests(list, names, reason);
        assert forall|n: Seq<char>| names.contains(n) <==> earlier.contains(n) || n == name by {
            if names.contains(n) && n != name {
                let i = choose|i: int| 0 <= i < names.len() && names[i] == n;
                assert(earlier[i] == n);
            }
            if earlier.contains(n) {
                let i = choose|i: int| 0 <= i < earlier.len() && earlier[i] == n;
                assert(names[i] == n);
            }
            if n == name {
                assert(names[names.len() - 1] == n);
            }
        }
        if !quarantine::lists(before, name) {
            let entry = QuarantineEntry { name, reason };
            assert(after == before.push(entry));
            assert(after[before.len() as int] == entry);
            assert(!quarantine::lists(list, name));
            assert forall|n: Seq<char>| #[trigger] quarantine::lists(after, n) <==> (
            quarantine::lists(list, n) || names.contains(n)) by {
                assert(quarantine::lists(before, n) <==> (quarantine::lists(list, n)
                    || earlier.contains(n)));
                if quarantine::lists(before, n) {
                    let i = choose|i: int|
                        0 <= i < before.len() && (#[trigger] before[i]).name == n;
                    assert(after[i].name == n);
                }
                if quarantine::lists(after, n) && n != name {
                    let i = choose|i: int| 0 <= i < after.len() && (#[trigger] after[i]).name == n;
                    assert(before[i].name == n);
                }
            }
            assert forall|i: int| list.len() <= i < after.len() implies {
                let entry = #[trigger] after[i];
                entry.reason == reason && names.contains(entry.name) && !quarantine::lists(
                    list,
                    entry.name,
                )
            } by {
                if i < before.len() {
                    assert(after[i] == before[i]);
                }
            }
            if names_are_unique(list) {
                assert forall|i: int, j: int| 0 <= i < j < after.len() implies (
                #[trigger] after[i]).name != (#[trigger] after[j]).name by {
                    assert(after[i] == before[i]);
                    if j < before.len() {
                        assert(after[j] == before[j]);
                    } else {
                        assert(before[i].name != name);
                    }
                }
            }
        } else {
            assert(after == before);
        }
    }
}

/// What an update adds to the list.
proof fn lemma_update(
    old_history: Map<Seq<char>, Seq<StoredOutcome>>,
    old_list: Seq<QuarantineEntry>,
    outcomes: Seq<TestOutcomeRecord>,
    flaky: Seq<FlakyTest>,
    new_history: Map<Seq<char>, Seq<StoredOutcome>>,
    new_list: Seq<QuarantineEntry>,
    newly: Seq<QuarantineEntry>,
)
    requires
        quarantine::is_update(
            old_history,
            old_list,
            outcomes,
            flaky,
            new_history,
            new_list,
            newly,
        ),
    ensures
        old_list.is_prefix_of(new_list),
        names_are_unique(old_list) ==> names_are_unique(new_list),
        forall|n: Seq<char>| #[trigger]
            quarantine::lists(new_list, n) <==> (quarantine::lists(old_list, n)
                || quarantine::flaky_names(flaky).contains(n) || (new_history.contains_key(n)
                && history::flips(new_history[n]))),
        forall|i: int|
            old_list.len() <= i < new_list.len() ==> {
                let entry = #[trigger] new_list[i];
                &&& !quarantine::lists(old_list, entry.name)
                &&& entry.reason == if quarantine::flaky_names(flaky).contains(entry.name) {
                    QuarantineReason::RetryFlaky
                } else {
                    QuarantineReason::HistoryFlip
                }
            },
{
    let retry = quarantine::flaky_names(flaky);
    let retried = quarantine::with_tests(old_list, retry, QuarantineReason::RetryFlaky);
    let flips = choose|flips: Seq<Seq<char>>|
        quarantine::are_flips(new_history, flips) && new_list == #[trigger] quarantine::with_tests(
            retried,
            flips,
            QuarantineReason::HistoryFlip,
        );
    lemma_with_tests(old_list, retry, QuarantineReason::RetryFlaky);
    lemma_with_tests(retried, flips, QuarantineReason::HistoryFlip);
    assert forall|n: Seq<char>| #[trigger] quarantine::lists(new_list, n) <==> (
    quarantine::lists(old_list, n) || retry.contains(n) || (new_history.contains_key(n)
        && history::flips(new_history[n]))) by {
        assert(quarantine::lists(retried, n) <==> (quarantine::lists(old_list, n)
            || retry.contains(n)));
        assert(flips.contains(n) <==> new_history.contains_key(n) && history::flips(
            new_history[n],
        ));
    }
    assert forall|i: int| old_list.len() <= i < new_list.len() implies {
        let entry = #[trigger] new_list[i];
        &&& !quarantine::lists(old_list, entry.name)
        &&& entry.reason == if retry.contains(entry.name) {
            QuarantineReason::RetryFlaky
        } else {
            QuarantineReason::HistoryFlip
        }
    } by {
        let entry = new_list[i];
        if i < retried.len() {
            assert(entry == retried[i]);
        } else {
            assert(!quarantine::lists(retried, entry.name));
            assert(quarantine::lists(retried, entry.name) <==> (quarantine::lists(
                old_list,
                entry.name,
            ) || retry.contains(entry.name)));
        }
    }
}

/// Exactly the detected flakes join the quarantine set, and nothing ever leaves it: after
/// an update a test is quarantined when it was before, when it passed only after a
/// retry, or when its history oscillates.
pub proof fn law_detected_flakes_are_quarantined(
    old_history: Map<Seq<char>, Seq<StoredOutcome>>,
    old_list: Seq<QuarantineEntry>,
    outcomes: Seq<TestOutcomeRecord>,
    flaky: Seq<FlakyTest>,
    new_history: Map<Seq<char>, Seq<StoredOutcome>>,
    new_list: Seq<QuarantineEntry>,
    newly: Seq<QuarantineEntry>,
)
    requires
        quarantine::is_update(
            old_history,
            old_list,
            outcomes,
            flaky,
            new_history,
            new_list,
            newly,
        ),
    ensures
        old_list.is_prefix_of(new_list),
        forall|n: Seq<char>| #[trigger]
            quarantine::lists(new_list, n) <==> (quarantine::lists(old_list, n)
                || quarantine::flaky_names(flaky).contains(n) || (new_history.contains_key(n)
                && history::flips(new_history[n]))),
{
    lemma_update(old_history, old_list, outcomes, flaky, new_history, new_list, newly);
}

/// What an update returns is exactly what it added: tests that are quarantined now and
/// were not before, those that passed after a retry for that reason and the others for
/// their history.
pub proof fn law_newly_quarantined_are_new(
    old_history: Map<Seq<char>, Seq<StoredOutcome>>,
    old_list: Seq<QuarantineEntry>,
    outcomes: Seq<TestOutcomeRecord>,
    flaky: Seq<FlakyTest>,
    new_history: Map<Seq<char>, Seq<StoredOutcome>>,
    new_list: Seq<QuarantineEntry>,
    newly: Seq<QuarantineEntry>,
)
    requires
        quarantine::is_update(
            old_history,
            old_list,
            outcomes,
            flaky,
            new_history,
            new_list,
            newly,
        ),
    ensures
        newly.len() == new_list.len() - old_list.len(),
        forall|n: Seq<char>| #[trigger]
            quarantine::lists(newly, n) <==> (quarantine::lists(new_list, n)
                && !quarantine::lists(old_list, n)),
        forall|i: int|
            0 <= i < newly.len() ==> (#[trigger] newly[i]).reason == if quarantine::flaky_names(
                flaky,
            ).contains(newly[i].name) {
                QuarantineReason::RetryFlaky
            } else {
                QuarantineReason::HistoryFlip
            },
{
    broadcast use vstd::seq_lib::group_to_multiset_ensures;

    lemma_update(old_history, old_list, outcomes, flaky, new_history, new_list, newly);
    let added = new_list.skip(old_list.len() as int);
    law_sorting_keeps_the_entries(added, newly);
    assert forall|n: Seq<char>| #[trigger] quarantine::lists(newly, n) <==> (quarantine::lists(
        new_list,
        n,
    ) && !quarantine::lists(old_list, n)) by {
        if quarantine::lists(added, n) {
            let i = choose|i: int| 0 <= i < added.len() && (#[trigger] added[i]).name == n;
            assert(new_list[old_list.len() + i].name == n);
        }
        if quarantine::lists(new_list, n) && !quarantine::lists(old_list, n) {
            let i = choose|i: int| 0 <= i < new_list.len() && (#[trigger] new_list[i]).name == n;
            if i < old_list.len() {
                assert(old_list[i] == new_list[i]);
            }
            assert(added[i - old_list.len()].name == n);
        }
    }
    assert forall|i: int| 0 <= i < newly.len() implies (#[trigger] newly[i]).reason
        == if quarantine::flaky_names(flaky).contains(newly[i].name) {
        QuarantineReason::RetryFlaky
    } else {
        QuarantineReason::HistoryFlip
    } by {
        let entry = newly[i];
        assert(newly.contains(entry));
        assert(newly.to_multiset().count(entry) > 0);
        assert(added.contains(entry));
        let k = choose|k: int| 0 <= k < added.len() && added[k] == entry;
        assert(new_list[old_list.len() + k] == entry);
    }
}

/// A set without double entries stays without double entries.
pub proof fn law_updates_keep_names_unique(
    old_history: Map<Seq<char>, Seq<StoredOutcome>>,
    old_list: Seq<QuarantineEntry>,
    outcomes: Seq<TestOutcomeRecord>,
    flaky: Seq<FlakyTest>,
    new_history: Map<Seq<char>, Seq<StoredOutcome>>,
    new_list: Seq<QuarantineEntry>,
    newly: Seq<QuarantineEntry>,
)
    requires
        quarantine::is_update(
            old_history,
            old_list,
            outcomes,
            flaky,
            new_history,
            new_list,
            newly,
        ),
        names_are_unique(old_list),
    ensures
        names_are_unique(new_list),
{
    lemma_update(old_history, old_list, outcomes, flaky, new_history, new_list, newly);
}

/// Adding a test keeps a set without double entries that way.
pub proof fn law_adding_keeps_names_unique(
    list: Seq<QuarantineEntry>,
    name: Seq<char>,
    reason: QuarantineReason,
)
    requires
        names_are_unique(list),
    ensures
        names_are_unique(quarantine::with_test(list, name, reason)),
        quarantine::lists(quarantine::with_test(list, name, reason), name),
{
    let names = seq![name];
    lemma_with_tests(list, names, reason);
    assert(names.drop_last() =~= Seq::empty());
    assert(quarantine::with_tests(list, names.drop_last(), reason) == list);
    assert(names[0] == name);
    assert(names.contains(name));
    assert(quarantine::with_tests(list, names, reason) == quarantine::with_test(list, name, reason));
}

/// An update without new outcomes adds nothing when its flaky tests are those of the update
/// before it, or some of them.
proof fn lemma_known_flakes_are_not_added(
    first_history: Map<Seq<char>, Seq<StoredOutcome>>,
    first_list: Seq<QuarantineEntry>,
    outcomes: Seq<TestOutcomeRecord>,
    flaky: Seq<FlakyTest>,
    history: Map<Seq<char>, Seq<StoredOutcome>>,
    list: Seq<QuarantineEntry>,
    newly: Seq<QuarantineEntry>,
    again: Seq<FlakyTest>,
    last_history: Map<Seq<char>, Seq<StoredOutcome>>,
    last_list: Seq<QuarantineEntry>,
    last_newly: Seq<QuarantineEntry>,
)
    requires
        quarantine::is_update(first_history, first_list, outcomes, flaky, history, list, newly),
        quarantine::is_update(
            history,
            list,
            Seq::empty(),
            again,
            last_history,
            last_list,
            last_newly,
        ),
        forall|n: Seq<char>| #[trigger]
            quarantine::flaky_names(again).contains(n) ==> quarantine::flaky_names(flaky).contains(
                n,
            ),
    ensures
        last_history == history,
        last_list == list,
        last_newly == Seq::<QuarantineEntry>::empty(),
{
    lemma_update(first_history, first_list, outcomes, flaky, history, list, newly);
    lemma_update(history, list, Seq::empty(), again, last_history, last_list, last_newly);
    law_newly_quarantined_are_new(
        history,
        list,
        Seq::empty(),
        again,
        last_history,
        last_list,
        last_newly,
    );
    if last_list.len() > list.len() {
        let entry = last_list[list.len() as int];
        assert(last_list[list.len() as int].name == entry.name);
        assert(quarantine::lists(last_list, entry.name));
        assert(quarantine::lists(list, entry.name));
    }
    assert(last_list =~= list);
    assert(last_newly =~= Seq::<QuarantineEntry>::empty());
}

/// Right after an update, an update without new outcomes and flaky tests finds nothing to add.
pub proof fn law_empty_update_adds_nothing(
    first_history: Map<Seq<char>, Seq<StoredOutcome>>,
    first_list: Seq<QuarantineEntry>,
    outcomes: Seq<TestOutcomeRecord>,
    flaky: Seq<FlakyTest>,
    history: Map<Seq<char>, Seq<StoredOutcome>>,
    list: Seq<QuarantineEntry>,
    newly: Seq<QuarantineEntry>,
    last_history: Map<Seq<char>, Seq<StoredOutcome>>,
    last_list: Seq<QuarantineEntry>,
    last_newly: Seq<QuarantineEntry>,
)
    requires
        quarantine::is_update(first_history, first_list, outcomes, flaky, history, list, newly),
        quarantine::is_update(
            history,
            list,
            Seq::empty(),
            Seq::empty(),
            last_history,
            last_list,
            last_newly,
        ),
    ensures
        last_history == history,
        last_list == list,
        last_newly == Seq::<QuarantineEntry>::empty(),
{
    lemma_known_flakes_are_not_added(
        first_history,
        first_list,
        outcomes,
        flaky,
        history,
        list,
        newly,
        Seq::empty(),
        last_history,
        last_list,
        last_newly,
    );
}

/// Reporting the same flaky tests once more, without new outcomes, adds nothing.
pub proof fn law_same_flakes_are_not_added_again(
    first_history: Map<Seq<char>, Seq<StoredOutcome>>,
    first_list: Seq<QuarantineEntry>,
    outcomes: Seq<TestOutcomeRecord>,
    flaky: Seq<FlakyTest>,
    history: Map<Seq<char>, Seq<StoredOutcome>>,
    list: Seq<QuarantineEntry>,
    newly: Seq<QuarantineEntry>,
    last_history: Map<Seq<char>, Seq<StoredOutcome>>,
    last_list: Seq<QuarantineEntry>,
    last_newly: Seq<QuarantineEntry>,
)
    requires
        quarantine::is_update(first_history, first_list, outcomes, flaky, history, list, newly),
        quarantine::is_update(
            history,
            list,
            Seq::empty(),
            flaky,
            last_history,
            last_list,
            last_newly,
        ),
    ensures
        last_history == history,
        last_list == list,
        last_newly == Seq::<QuarantineEntry>::empty(),
{
    lemma_known_flakes_are_not_added(
        first_history,
        first_list,
        outcomes,
        flaky,
        history,
        list,
        newly,
        flaky,
        last_history,
        last_list,
        last_newly,
    );
}

/// A list quarantines a test exactly when one of its entries has the name of the test.
pub proof fn law_listed_tests_have_an_entry(list: Seq<QuarantineEntry>, name: Seq<char>)
    ensures
        quarantine::lists(list, name) <==> exists|i: int|
            0 <= i < list.len() && (#[trigger] list[i]).name == name,
{
}

/// Adding a test that is not listed puts one entry with its name and reason at the end; adding
/// a listed test changes nothing.
pub proof fn law_added_tests_come_last(
    list: Seq<QuarantineEntry>,
    name: Seq<char>,
    reason: QuarantineReason,
)
    ensures
        ({
            let after = quarantine::with_test(list, name, reason);
            let listed = exists|i: int| 0 <= i < list.len() && (#[trigger] list[i]).name == name;
            &&& listed ==> after == list
            &&& !listed ==> after.len() == list.len() + 1 && list.is_prefix_of(after)
                && after.last().name == name && after.last().reason == reason
        }),
{
    let after = quarantine::with_test(list, name, reason);
    if !quarantine::lists(list, name) {
        assert(after.take(list.len() as int) =~= list);
    }
}

/// The entries of one test in a list are exactly those with its name, in order.
pub proof fn law_entries_of_a_test_keep_their_order(
    a: Seq<QuarantineEntry>,
    b: Seq<QuarantineEntry>,
    entry: QuarantineEntry,
    name: Seq<char>,
)
    ensures
        quarantine::named(a + b, name) == quarantine::named(a, name) + quarantine::named(b, name),
        quarantine::named(seq![entry], name) == if entry.name == name {
            seq![entry]
        } else {
            Seq::empty()
        },
    decreases b.len(),
{
    let one = seq![entry];
    assert(one.drop_last() =~= Seq::empty());
    assert(quarantine::named(one.drop_last(), name) =~= Seq::<QuarantineEntry>::empty());
    assert(quarantine::named(one, name) =~= if entry.name == name {
        seq![entry]
    } else {
        Seq::empty()
    });
    if b.len() == 0 {
        assert(a + b =~= a);
        assert(quarantine::named(a, name) + Seq::empty() =~= quarantine::named(a, name));
    } else {
        law_entries_of_a_test_keep_their_order(a, b.drop_last(), entry, name);
        assert((a + b).drop_last() =~= a + b.drop_last());
        assert((a + b).last() == b.last());
        assert(quarantine::named(a + b, name) =~= quarantine::named(a, name) + quarantine::named(
            b,
            name,
        ));
    }
}

/// A sorted list is in dictionary order: no entry has a name that comes before the name of an
/// entry ahead of it.
pub proof fn law_sorted_lists_are_in_dictionary_order(
    list: Seq<QuarantineEntry>,
    sorted: Seq<QuarantineEntry>,
    i: int,
    j: int,
)
    requires
        quarantine::is_stable_sort(list, sorted),
        0 <= i < j < sorted.len(),
    ensures
        !text::before(sorted[j].name, sorted[i].name),
        quarantine::named(sorted, sorted[i].name) == quarantine::named(list, sorted[i].name),
{
}

/// Every test that is reported as flaky is quarantined after an update, whatever its attempts,
/// and every test that an update quarantines for a retry was reported as flaky.
pub proof fn law_reported_flakes_are_quarantined(
    old_history: Map<Seq<char>, Seq<StoredOutcome>>,
    old_list: Seq<QuarantineEntry>,
    outcomes: Seq<TestOutcomeRecord>,
    flaky: Seq<FlakyTest>,
    new_history: Map<Seq<char>, Seq<StoredOutcome>>,
    new_list: Seq<QuarantineEntry>,
    newly: Seq<QuarantineEntry>,
)
    requires
        quarantine::is_update(
            old_history,
            old_list,
            outcomes,
            flaky,
            new_history,
            new_list,
            newly,
        ),
    ensures
        forall|i: int|
            0 <= i < flaky.len() ==> quarantine::lists(
                new_list,
                (#[trigger] flaky[i]).identity(),
            ),
        forall|k: int|
            0 <= k < newly.len() ==> ((#[trigger] newly[k]).reason == QuarantineReason::RetryFlaky
                <==> exists|i: int|
                0 <= i < flaky.len() && (#[trigger] flaky[i]).identity() == newly[k].name),
        forall|k: int|
            old_list.len() <= k < new_list.len() ==> ((#[trigger] new_list[k]).reason
                == QuarantineReason::RetryFlaky <==> exists|i: int|
                0 <= i < flaky.len() && (#[trigger] flaky[i]).identity() == new_list[k].name),
{
    lemma_update(old_history, old_list, outcomes, flaky, new_history, new_list, newly);
    law_newly_quarantined_are_new(
        old_history,
        old_list,
        outcomes,
        flaky,
        new_history,
        new_list,
        newly,
    );
    let names = quarantine::flaky_names(flaky);
    assert forall|i: int| 0 <= i < flaky.len() implies quarantine::lists(
        new_list,
        (#[trigger] flaky[i]).identity(),
    ) by {
        assert(names[i] == flaky[i].identity());
        assert(names.contains(flaky[i].identity()));
    }
    assert forall|n: Seq<char>| #[trigger] names.contains(n) <==> exists|i: int|
        0 <= i < flaky.len() && (#[trigger] flaky[i]).identity() == n by {
        if names.contains(n) {
            let i = choose|i: int| 0 <= i < names.len() && names[i] == n;
            assert(flaky[i].identity() == n);
        }
        if exists|i: int| 0 <= i < flaky.len() && (#[trigger] flaky[i]).identity() == n {
            let i = choose|i: int| 0 <= i < flaky.len() && (#[trigger] flaky[i]).identity() == n;
            assert(names[i] == n);
        }
    }
    assert forall|k: int| 0 <= k < newly.len() implies ((#[trigger] newly[k]).reason
        == QuarantineReason::RetryFlaky <==> exists|i: int|
        0 <= i < flaky.len() && (#[trigger] flaky[i]).identity() == newly[k].name) by {
        assert(names.contains(newly[k].name) <==> exists|i: int|
            0 <= i < flaky.len() && (#[trigger] flaky[i]).identity() == newly[k].name);
    }
    assert forall|k: int| old_list.len() <= k < new_list.len() implies ((
    #[trigger] new_list[k]).reason == QuarantineReason::RetryFlaky <==> exists|i: int|
        0 <= i < flaky.len() && (#[trigger] flaky[i]).identity() == new_list[k].name) by {
        assert(names.contains(new_list[k].name) <==> exists|i: int|
            0 <= i < flaky.len() && (#[trigger] flaky[i]).identity() == new_list[k].name);
    }
}

/// Every test whose history oscillates after the run is quarantined: it changed and changed
/// back. Every test that an update quarantines for its history did so.
pub proof fn law_oscillating_tests_are_quarantined(
    old_history: Map<Seq<char>, Seq<StoredOutcome>>,
    old_list: Seq<QuarantineEntry>,
    outcomes: Seq<TestOutcomeRecord>,
    flaky: Seq<FlakyTest>,
    new_history: Map<Seq<char>, Seq<StoredOutcome>>,
    new_list: Seq<QuarantineEntry>,
    newly: Seq<QuarantineEntry>,
    name: Seq<char>,
)
    requires
        quarantine::is_update(
            old_history,
            old_list,
            outcomes,
            flaky,
            new_history,
            new_list,
            newly,
        ),
    ensures
        oscillates(new_history, name) ==> quarantine::lists(new_list, name),
        forall|k: int|
            old_list.len() <= k < new_list.len() && (#[trigger] new_list[k]).reason
                == QuarantineReason::HistoryFlip ==> oscillates(new_history, new_list[k].name),
{
    lemma_update(old_history, old_list, outcomes, flaky, new_history, new_list, newly);
    if oscillates(new_history, name) {
        history::law_flips_are_changes_and_back(new_history[name]);
        assert(history::flips(new_history[name]));
        assert(quarantine::lists(new_list, name));
    }
    assert forall|k: int|
        old_list.len() <= k < new_list.len() && (#[trigger] new_list[k]).reason
            == QuarantineReason::HistoryFlip implies oscillates(new_history, new_list[k].name) by {
        let entry = new_list[k];
        assert(quarantine::lists(new_list, entry.name));
        assert(new_history.contains_key(entry.name) && history::flips(new_history[entry.name]));
        history::law_flips_are_changes_and_back(new_history[entry.name]);
    }
}

/// The history of a test holds two equal outcomes with a different one between them, failures
/// on one side and every other outcome on the other.
pub open spec fn oscillates(
    history: Map<Seq<char>, Seq<StoredOutcome>>,
    name: Seq<char>,
) -> bool {
    history.contains_key(name) && exists|i: int, j: int, k: int|
        0 <= i < j < k < history[name].len() && ((#[trigger] history[name][i]) is Failed) == ((
        #[trigger] history[name][k]) is Failed) && (history[name][i] is Failed) != ((
        #[trigger] history[name][j]) is Failed)
}

/// An update records the run: the history of every test is the last twenty of what it was and
/// what the run brought, and tests that the run did not touch keep theirs whole.
pub proof fn law_updates_record_the_run(
    old_history: Map<Seq<char>, Seq<StoredOutcome>>,
    old_list: Seq<QuarantineEntry>,
    outcomes: Seq<TestOutcomeRecord>,
    flaky: Seq<FlakyTest>,
    new_history: Map<Seq<char>, Seq<StoredOutcome>>,
    new_list: Seq<QuarantineEntry>,
    newly: Seq<QuarantineEntry>,
    name: Seq<char>,
)
    requires
        quarantine::is_update(
            old_history,
            old_list,
            outcomes,
            flaky,
            new_history,
            new_list,
            newly,
        ),
    ensures
        ({
            let before = history::outcomes_of(old_history, name);
            let after = history::outcomes_of(new_history, name);
            let run = history::outcomes_in(outcomes, name);
            &&& run.len() == 0 ==> after == before
            &&& run.len() > 0 ==> after.is_suffix_of(before + run) && after.len() == if before.len()
                + run.len() <= 20 {
                before.len() + run.len()
            } else {
                20
            }
        }),
        new_history.contains_key(name) <==> old_history.contains_key(name) || exists|i: int|
            0 <= i < outcomes.len() && (#[trigger] outcomes[i]).name@ == name,
{
    history::law_runs_extend_histories(old_history, outcomes, name);
    history::law_runs_add_the_tests_they_ran(old_history, outcomes, name);
    history::law_the_last_twenty_outcomes_are_kept(
        history::outcomes_of(old_history, name) + history::outcomes_in(outcomes, name),
    );
}

/// What an update returns is in dictionary order.
pub proof fn law_newly_quarantined_are_in_order(
    old_history: Map<Seq<char>, Seq<StoredOutcome>>,
    old_list: Seq<QuarantineEntry>,
    outcomes: Seq<TestOutcomeRecord>,
    flaky: Seq<FlakyTest>,
    new_history: Map<Seq<char>, Seq<StoredOutcome>>,
    new_list: Seq<QuarantineEntry>,
    newly: Seq<QuarantineEntry>,
    i: int,
    j: int,
)
    requires
        quarantine::is_update(
            old_history,
            old_list,
            outcomes,
            flaky,
            new_history,
            new_list,
            newly,
        ),
        0 <= i < j < newly.len(),
    ensures
        !text::before(newly[j].name, newly[i].name),
{
}

/// What a list of tests says is what its tests say, in order.
pub proof fn law_lists_say_what_their_tests_say(tests: Seq<QuarantinedTest>, i: int)
    ensures
        quarantine::entries(tests).len() == tests.len(),
        0 <= i < tests.len() ==> quarantine::entries(tests)[i].name == tests[i].name@
            && quarantine::entries(tests)[i].reason == tests[i].reason,
{
}

/// Tests are added in the order of their names in the list that adds them, each once.
proof fn lemma_added_in_order(
    list: Seq<QuarantineEntry>,
    names: Seq<Seq<char>>,
    reason: QuarantineReason,
    a: int,
    b: int,
    i: int,
    j: int,
)
    requires
        list.len() <= a < b < quarantine::with_tests(list, names, reason).len(),
        0 <= i < names.len(),
        0 <= j < names.len(),
        names[i] == quarantine::with_tests(list, names, reason)[a].name,
        names[j] == quarantine::with_tests(list, names, reason)[b].name,
        forall|k: int| 0 <= k < i ==> #[trigger] names[k] != names[i],
    ensures
        i < j,
    decreases names.len(),
{
    let earlier = names.drop_last();
    let before = quarantine::with_tests(list, earlier, reason);
    let after = quarantine::with_tests(list, names, reason);
    lemma_with_tests(list, earlier, reason);
    assert(after == before || after == before.push(
        QuarantineEntry { name: names.last(), reason },
    ));
    assert(after[a] == before[a]);
    assert(earlier.contains(before[a].name));
    let first = choose|k: int| 0 <= k < earlier.len() && earlier[k] == before[a].name;
    assert(names[first] == names[i]);
    assert(i <= first);
    if j < earlier.len() {
        assert(earlier[j] == names[j]);
        assert(earlier.contains(names[j]));
        assert(quarantine::lists(before, names[j]));
        if b == before.len() {
            assert(names[j] == names.last());
            assert(after == before);
        }
        assert(after[b] == before[b]);
        assert forall|k: int| 0 <= k < i implies #[trigger] earlier[k] != earlier[i] by {
            assert(names[k] != names[i]);
        }
        lemma_added_in_order(list, earlier, reason, a, b, i, j);
    }
}

/// An update adds the tests that were reported as flaky first, in the order of the report, and
/// those whose history oscillates behind them; it adds none of them twice.
pub proof fn law_reported_flakes_are_added_in_order(
    old_history: Map<Seq<char>, Seq<StoredOutcome>>,
    old_list: Seq<QuarantineEntry>,
    outcomes: Seq<TestOutcomeRecord>,
    flaky: Seq<FlakyTest>,
    new_history: Map<Seq<char>, Seq<StoredOutcome>>,
    new_list: Seq<QuarantineEntry>,
    newly: Seq<QuarantineEntry>,
    a: int,
    b: int,
    i: int,
    j: int,
)
    requires
        quarantine::is_update(
            old_history,
            old_list,
            outcomes,
            flaky,
            new_history,
            new_list,
            newly,
        ),
        old_list.len() <= a < b < new_list.len(),
    ensures
        new_list[a].name != new_list[b].name,
        new_list[b].reason == QuarantineReason::RetryFlaky ==> new_list[a].reason
            == QuarantineReason::RetryFlaky,
        0 <= i < flaky.len() && 0 <= j < flaky.len() && flaky[i].identity() == new_list[a].name
            && flaky[j].identity() == new_list[b].name && (forall|k: int|
            0 <= k < i ==> (#[trigger] flaky[k]).identity() != flaky[i].identity()) ==> i < j,
{
    let names = quarantine::flaky_names(flaky);
    let retried = quarantine::with_tests(old_list, names, QuarantineReason::RetryFlaky);
    let flips = choose|flips: Seq<Seq<char>>|
        quarantine::are_flips(new_history, flips) && new_list == #[trigger] quarantine::with_tests(
            retried,
            flips,
            QuarantineReason::HistoryFlip,
        );
    lemma_with_tests(old_list, names, QuarantineReason::RetryFlaky);
    lemma_with_tests(retried, flips, QuarantineReason::HistoryFlip);
    assert forall|k: int| 0 <= k < retried.len() implies #[trigger] new_list[k] == retried[k] by {
        assert(retried == new_list.take(retried.len() as int));
    }
    if b < retried.len() {
        assert(new_list[a] == retried[a] && new_list[b] == retried[b]);
        if names.contains(retried[a].name) {
            lemma_first_occurrence(names, retried[a].name);
            let first = choose|k: int|
                0 <= k < names.len() && names[k] == retried[a].name && forall|m: int|
                    0 <= m < k ==> #[trigger] names[m] != retried[a].name;
            if retried[a].name == retried[b].name {
                lemma_added_in_order(
                    old_list,
                    names,
                    QuarantineReason::RetryFlaky,
                    a,
                    b,
                    first,
                    first,
                );
            }
        }
        if 0 <= i < flaky.len() && 0 <= j < flaky.len() && flaky[i].identity() == new_list[a].name
            && flaky[j].identity() == new_list[b].name && (forall|k: int|
            0 <= k < i ==> (#[trigger] flaky[k]).identity() != flaky[i].identity()) {
            assert forall|k: int| 0 <= k < i implies #[trigger] names[k] != names[i] by {
                assert(flaky[k].identity() != flaky[i].identity());
            }
            lemma_added_in_order(old_list, names, QuarantineReason::RetryFlaky, a, b, i, j);
        }
    } else {
        assert(!quarantine::lists(retried, new_list[b].name));
        if a < retried.len() {
            assert(retried[a].name == new_list[a].name);
        } else if new_list[a].name == new_list[b].name {
            lemma_first_occurrence(flips, new_list[a].name);
            let first = choose|k: int|
                0 <= k < flips.len() && flips[k] == new_list[a].name && forall|m: int|
                    0 <= m < k ==> #[trigger] flips[m] != new_list[a].name;
            lemma_added_in_order(
                retried,
                flips,
                QuarantineReason::HistoryFlip,
                a,
                b,
                first,
                first,
            );
        }
        if 0 <= j < flaky.len() && flaky[j].identity() == new_list[b].name {
            assert(names[j] == new_list[b].name);
            assert(names.contains(new_list[b].name));
            assert(quarantine::lists(retried, new_list[b].name));
        }
    }
}

/// A name in a list occurs there for a first time.
proof fn lemma_first_occurrence(names: Seq<Seq<char>>, name: Seq<char>)
    requires
        names.contains(name),
    ensures
        exists|k: int|
            0 <= k < names.len() && names[k] == name && forall|m: int|
                0 <= m < k ==> #[trigger] names[m] != name,
    decreases names.len(),
{
    let rest = names.drop_last();
    if rest.contains(name) {
        lemma_first_occurrence(rest, name);
        let k = choose|k: int|
            0 <= k < rest.len() && rest[k] == name && forall|m: int|
                0 <= m < k ==> #[trigger] rest[m] != name;
        assert(names[k] == name);
        assert forall|m: int| 0 <= m < k implies #[trigger] names[m] != name by {
            assert(rest[m] != name);
        }
    } else {
        let k = names.len() - 1;
        let at = choose|at: int| 0 <= at < names.len() && names[at] == name;
        assert forall|m: int| 0 <= m < k implies #[trigger] names[m] != name by {
            assert(rest[m] == names[m]);
        }
        assert(names[k] == name);
    }
}

} // verus!
