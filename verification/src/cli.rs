//! The `quarantine` command.
use crate::cache::quarantine::{self, QuarantineList};
use crate::exit::ExitStatus;
use crate::result::quarantine::QuarantineEntry;
use vstd::prelude::*;

verus! {

/// The `quarantine` command.
#[derive(Debug)]
pub struct QuarantineCommand {
    pub action: QuarantineAction,
}

/// What to do with the quarantine set.
#[derive(Debug, Clone, Copy, PartialEq, Eq, Structural)]
pub enum QuarantineAction {
    /// List tests currently in the quarantine set.
    List,
}

/// The line that lists a quarantined test.
pub open spec fn entry_line(entry: QuarantineEntry) -> Seq<char> {
    entry.name + " ("@ + entry.reason.word() + ")\n"@
}

/// The lines that list quarantined tests.
pub open spec fn entry_lines(entries: Seq<QuarantineEntry>) -> Seq<char>
    decreases entries.len(),
{
    if entries.len() == 0 {
        Seq::empty()
    } else {
        entry_lines(entries.drop_last()) + entry_line(entries.last())
    }
}

/// What the `list` action writes.
pub open spec fn listing(entries: Seq<QuarantineEntry>) -> Seq<char> {
    if entries.len() == 0 {
        "No quarantined tests.\n"@
    } else {
        entry_lines(entries)
    }
}

/// Lists the quarantined tests, one line each, in the order of the list.
pub fn list(stored: &QuarantineList) -> (output: String)
    ensures
        output@ == listing(stored@),
{
    if stored.is_empty() {
        return "No quarantined tests.\n".to_owned();
    }
    let tests = stored.tests();
    let mut output = String::new();
    let mut i: usize = 0;
    assert(output@ =~= entry_lines(stored@.take(0)));
    while i < tests.len()
        invariant
            i <= tests@.len(),
            quarantine::entries(tests@) == stored@,
            output@ == entry_lines(stored@.take(i as int)),
        decreases tests@.len() - i,
    {
        let ghost before = output@;
        output.append(tests[i].name.as_str());
        output.append(" (");
        output.append(tests[i].reason.as_str());
        output.append(")\n");
        proof {
            assert(stored@[i as int] == tests@[i as int]@);
            assert(stored@.take(i + 1).drop_last() =~= stored@.take(i as int));
            assert(output@ =~= before + entry_line(stored@[i as int]));
        }
        i += 1;
    }
    assert(stored@.take(i as int) =~= stored@);
    output
}

/// Carries out the `quarantine` command on the stored set: what it writes, and the status it
/// ends in.
pub fn quarantine(args: &QuarantineCommand, stored: &QuarantineList) -> (result: (
    String,
    ExitStatus,
))
    ensures
        result.0@ == listing(stored@),
        result.1 == ExitStatus::Success,
{
    match args.action {
        QuarantineAction::List => (list(stored), ExitStatus::Success),
    }
}

/// The lines of two lists, one behind the other, are the lines of the first and then those of
/// the second; no tests have no lines, and one test has its own line.
pub proof fn law_every_test_has_its_line(
    a: Seq<QuarantineEntry>,
    b: Seq<QuarantineEntry>,
    entry: QuarantineEntry,
)
    ensures
        entry_lines(a + b) == entry_lines(a) + entry_lines(b),
        entry_lines(seq![entry]) == entry_line(entry),
        entry_lines(Seq::empty()) == Seq::<char>::empty(),
    decreases b.len(),
{
    let one = seq![entry];
    assert(one.drop_last() =~= Seq::empty());
    assert(entry_lines(one.drop_last()) =~= Seq::<char>::empty());
    assert(Seq::<char>::empty() + entry_line(entry) =~= entry_line(entry));
    if b.len() == 0 {
        assert(a + b =~= a);
        assert(entry_lines(a) + Seq::empty() =~= entry_lines(a));
    } else {
        law_every_test_has_its_line(a, b.drop_last(), entry);
        assert((a + b).drop_last() =~= a + b.drop_last());
        assert((a + b).last() == b.last());
        assert(entry_lines(a + b) =~= entry_lines(a) + entry_lines(b));
    }
}

/// The listing of a set holds the line of each of its tests, with the lines of the tests before
/// it ahead and those of the tests after it behind.
pub proof fn law_listings_hold_every_test(entries: Seq<QuarantineEntry>, i: int)
    requires
        0 <= i < entries.len(),
    ensures
        listing(entries) == entry_lines(entries.take(i)) + entry_line(entries[i]) + entry_lines(
            entries.skip(i + 1),
        ),
{
    let one = seq![entries[i]];
    let rest = entries.skip(i + 1);
    assert(entries =~= entries.take(i) + (one + rest));
    law_every_test_has_its_line(entries.take(i), one + rest, entries[i]);
    law_every_test_has_its_line(one, rest, entries[i]);
    assert(entry_lines(entries.take(i)) + (entry_line(entries[i]) + entry_lines(rest))
        =~= entry_lines(entries.take(i)) + entry_line(entries[i]) + entry_lines(rest));
}

/// The line of a test is its name, its reason in brackets and a line end.
pub proof fn law_lines_name_test_and_reason(entry: QuarantineEntry)
    ensures
        entry_line(entry) == entry.name + seq![' ', '('] + entry.reason.word() + seq![')', '\n'],
{
    reveal_strlit(" (");
    reveal_strlit(")\n");
    assert(" ("@ =~= seq![' ', '(']);
    assert(")\n"@ =~= seq![')', '\n']);
}

/// A set without tests is listed as such, and only such a set.
pub proof fn law_empty_sets_say_so(entries: Seq<QuarantineEntry>)
    ensures
        entries.len() == 0 ==> listing(entries) == "No quarantined tests.\n"@,
        entries.len() > 0 ==> listing(entries) == entry_lines(entries),
{
}

} // verus!
