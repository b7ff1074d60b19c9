//! The short status format: one line per changed path, each line starting
//! with a two-character code.

use vstd::prelude::*;
use crate::git::{Status, Statuses};

verus! {

/// The pieces of `text` between its newline characters, in order. A text
/// with `n` newlines has `n + 1` lines, some of which may be empty.
pub open spec fn lines_of(text: Seq<char>) -> Seq<Seq<char>>
    decreases text.len(),
{
    if text.len() == 0 {
        seq![Seq::<char>::empty()]
    } else {
        let before = lines_of(text.drop_last());
        if text.last() == '\n' {
            before.push(Seq::<char>::empty())
        } else {
            before.drop_last().push(before.last().push(text.last()))
        }
    }
}

/// The code of a line: its first two characters. A line shorter than that
/// has the empty code.
pub open spec fn code_of(line: Seq<char>) -> Seq<char> {
    if line.len() >= 2 {
        line.take(2)
    } else {
        Seq::<char>::empty()
    }
}

/// Whether the code character `c` reports a change of `kind`. Copies,
/// renames and unmerged paths count as modifications.
pub open spec fn spec_signals(c: char, kind: Status) -> bool {
    match kind {
        Status::Modified => c == 'M' || c == 'C' || c == 'R' || c == 'U',
        Status::Added => c == 'A',
        Status::Deleted => c == 'D',
        Status::Untracked => c == '?',
    }
}

/// The kinds that some character of `code` reports.
pub open spec fn code_kinds(code: Seq<char>) -> Set<Status> {
    Set::new(
        |kind: Status| exists|i: int| 0 <= i < code.len() && spec_signals(#[trigger] code[i], kind),
    )
}

/// The kinds that one line contributes.
pub open spec fn line_kinds(line: Seq<char>) -> Set<Status> {
    code_kinds(code_of(line))
}

/// The kinds that at least one of `lines` contributes.
pub open spec fn statuses_of_lines(lines: Seq<Seq<char>>) -> Set<Status> {
    Set::new(
        |kind: Status|
            exists|i: int| 0 <= i < lines.len() && (#[trigger] line_kinds(lines[i])).contains(kind),
    )
}

/// The kinds that a status report shows.
pub open spec fn statuses_of(text: Seq<char>) -> Set<Status> {
    statuses_of_lines(lines_of(text))
}

/// Whether the code character `c` reports a change of `kind`.
#[verifier::when_used_as_spec(spec_signals)]
pub fn signals(c: char, kind: Status) -> (b: bool)
    ensures
        b == spec_signals(c, kind),
{
    match kind {
        Status::Modified => c == 'M' || c == 'C' || c == 'R' || c == 'U',
        Status::Added => c == 'A',
        Status::Deleted => c == 'D',
        Status::Untracked => c == '?',
    }
}

/// Appending a character either opens a new line or extends the last one.
pub proof fn lemma_lines_of_push(text: Seq<char>, c: char)
    ensures
        lines_of(text).len() >= 1,
        c == '\n' ==> lines_of(text.push(c)) == lines_of(text).push(Seq::<char>::empty()),
        c != '\n' ==> lines_of(text.push(c)) == lines_of(text).drop_last().push(
            lines_of(text).last().push(c),
        ),
    decreases text.len(),
{
    if text.len() > 0 {
        lemma_lines_of_push(text.drop_last(), text.last());
    }
    assert(text.push(c).drop_last() =~= text);
}

/// One more line adds what that line contributes, and nothing else.
pub proof fn lemma_statuses_of_lines_push(lines: Seq<Seq<char>>, line: Seq<char>)
    ensures
        statuses_of_lines(lines.push(line)) == statuses_of_lines(lines).union(line_kinds(line)),
{
    let longer = lines.push(line);
    assert forall|kind: Status|
        statuses_of_lines(longer).contains(kind) <==> statuses_of_lines(lines).union(
            line_kinds(line),
        ).contains(kind) by {
        if statuses_of_lines(longer).contains(kind) {
            let i = choose|i: int|
                0 <= i < longer.len() && (#[trigger] line_kinds(longer[i])).contains(kind);
            if i < lines.len() {
                assert(longer[i] == lines[i]);
            }
        }
        if statuses_of_lines(lines).contains(kind) {
            let i = choose|i: int|
                0 <= i < lines.len() && (#[trigger] line_kinds(lines[i])).contains(kind);
            assert(longer[i] == lines[i]);
        }
        if line_kinds(line).contains(kind) {
            assert(longer[lines.len() as int] == line);
        }
    }
    assert(statuses_of_lines(longer) =~= statuses_of_lines(lines).union(line_kinds(line)));
}

/// Whether `line` holds no newline character.
pub open spec fn newline_free(line: Seq<char>) -> bool {
    forall|i: int| 0 <= i < line.len() ==> line[i] != '\n'
}

/// The text made of `lines` with one newline between each two of them.
pub open spec fn join_lines(lines: Seq<Seq<char>>) -> Seq<char>
    decreases lines.len(),
{
    if lines.len() == 0 {
        Seq::<char>::empty()
    } else if lines.len() == 1 {
        lines[0]
    } else {
        join_lines(lines.drop_last()).push('\n') + lines.last()
    }
}

/// Text without a newline, appended to a report, extends its last line.
pub proof fn lemma_lines_of_append(text: Seq<char>, tail: Seq<char>)
    requires
        newline_free(tail),
    ensures
        lines_of(text).len() >= 1,
        lines_of(text + tail) == lines_of(text).drop_last().push(lines_of(text).last() + tail),
    decreases tail.len(),
{
    let lines = lines_of(text);
    lemma_lines_of_push(text, '\n');
    if tail.len() == 0 {
        assert(text + tail =~= text);
        assert(lines.last() + tail =~= lines.last());
        assert(lines.drop_last().push(lines.last()) =~= lines);
    } else {
        let init = tail.drop_last();
        let c = tail.last();
        lemma_lines_of_append(text, init);
        lemma_lines_of_push(text + init, c);
        assert(text + tail =~= (text + init).push(c));
        let shorter = lines_of(text + init);
        assert(shorter.drop_last() =~= lines.drop_last());
        assert(shorter.last().push(c) =~= lines.last() + tail);
    }
}

/// Splitting undoes joining: a text joined from lines that hold no newline
/// has exactly those lines.
pub proof fn lemma_lines_of_join(lines: Seq<Seq<char>>)
    requires
        lines.len() >= 1,
        forall|i: int| 0 <= i < lines.len() ==> newline_free(#[trigger] lines[i]),
    ensures
        lines_of(join_lines(lines)) == lines,
    decreases lines.len(),
{
    let blank = Seq::<char>::empty();
    if lines.len() == 1 {
        lemma_lines_of_append(blank, lines[0]);
        assert(blank + lines[0] =~= lines[0]);
        assert(lines_of(blank) =~= seq![blank]);
        assert(lines_of(blank).drop_last().push(blank + lines[0]) =~= lines);
    } else {
        let init = lines.drop_last();
        let joined = join_lines(init);
        lemma_lines_of_join(init);
        lemma_lines_of_push(joined, '\n');
        lemma_lines_of_append(joined.push('\n'), lines.last());
        assert(init.push(blank).drop_last().push(blank + lines.last()) =~= lines);
    }
}

/// Joining undoes splitting: the lines of a text hold no newline, and
/// joined again they give the text back.
pub proof fn lemma_join_lines_of(text: Seq<char>)
    ensures
        lines_of(text).len() >= 1,
        forall|i: int| 0 <= i < lines_of(text).len() ==> newline_free(#[trigger] lines_of(text)[i]),
        join_lines(lines_of(text)) == text,
    decreases text.len(),
{
    let blank = Seq::<char>::empty();
    if text.len() == 0 {
        assert(lines_of(text) =~= seq![blank]);
        assert(join_lines(lines_of(text)) =~= text);
    } else {
        let init = text.drop_last();
        let c = text.last();
        lemma_join_lines_of(init);
        lemma_lines_of_push(init, c);
        assert(init.push(c) =~= text);
        let before = lines_of(init);
        let lines = lines_of(text);
        if c == '\n' {
            assert(lines.drop_last() =~= before);
            assert(join_lines(lines) =~= join_lines(before).push('\n') + blank);
            assert(join_lines(lines) =~= text);
        } else {
            let grown = before.last().push(c);
            assert(lines.last() == grown);
            assert(lines.drop_last() =~= before.drop_last());
            if before.len() == 1 {
                assert(join_lines(before) == before[0]);
                assert(join_lines(lines) == lines[0]);
                assert(join_lines(lines) =~= text);
            } else {
                let head = join_lines(before.drop_last()).push('\n');
                assert(join_lines(before) == head + before.last());
                assert(join_lines(lines) == head + grown);
                assert(head + grown =~= (head + before.last()).push(c));
            }
        }
    }
}

/// Two lists with the same elements, counted, have the same members.
proof fn lemma_permutation_keeps_members(
    lines: Seq<Seq<char>>,
    permuted: Seq<Seq<char>>,
    line: Seq<char>,
)
    requires
        lines.to_multiset() == permuted.to_multiset(),
        lines.contains(line),
    ensures
        permuted.contains(line),
{
    vstd::seq_lib::to_multiset_contains(lines, line);
    vstd::seq_lib::to_multiset_contains(permuted, line);
}

/// The kinds that a list of lines shows depend only on which lines occur in
/// it, not on where they stand.
pub proof fn lemma_statuses_of_permuted_lines(lines: Seq<Seq<char>>, permuted: Seq<Seq<char>>)
    requires
        lines.to_multiset() == permuted.to_multiset(),
    ensures
        statuses_of_lines(lines) == statuses_of_lines(permuted),
{
    assert forall|kind: Status|
        statuses_of_lines(lines).contains(kind) <==> statuses_of_lines(permuted).contains(
            kind,
        ) by {
        if statuses_of_lines(lines).contains(kind) {
            let i = choose|i: int|
                0 <= i < lines.len() && (#[trigger] line_kinds(lines[i])).contains(kind);
            assert(lines.contains(lines[i]));
            lemma_permutation_keeps_members(lines, permuted, lines[i]);
            let j = choose|j: int| 0 <= j < permuted.len() && permuted[j] == lines[i];
            assert(line_kinds(permuted[j]).contains(kind));
        }
        if statuses_of_lines(permuted).contains(kind) {
            let i = choose|i: int|
                0 <= i < permuted.len() && (#[trigger] line_kinds(permuted[i])).contains(kind);
            assert(permuted.contains(permuted[i]));
            lemma_permutation_keeps_members(permuted, lines, permuted[i]);
            let j = choose|j: int| 0 <= j < lines.len() && lines[j] == permuted[i];
            assert(line_kinds(lines[j]).contains(kind));
        }
    }
    assert(statuses_of_lines(lines) =~= statuses_of_lines(permuted));
}

/// The order of the lines of a report does not matter: two reports with the
/// same lines, in whatever order, show the same kinds.
pub proof fn lemma_statuses_ignore_line_order(report: Seq<char>, permuted: Seq<char>)
    requires
        lines_of(report).to_multiset() == lines_of(permuted).to_multiset(),
    ensures
        statuses_of(report) == statuses_of(permuted),
{
    lemma_statuses_of_permuted_lines(lines_of(report), lines_of(permuted));
}

/// Lines written out in two different orders give reports that show the
/// same kinds.
pub proof fn lemma_statuses_of_joined_permutation(lines: Seq<Seq<char>>, permuted: Seq<Seq<char>>)
    requires
        forall|i: int| 0 <= i < lines.len() ==> newline_free(#[trigger] lines[i]),
        lines.to_multiset() == permuted.to_multiset(),
    ensures
        statuses_of(join_lines(lines)) == statuses_of(join_lines(permuted)),
{
    lines.to_multiset_ensures();
    permuted.to_multiset_ensures();
    if lines.len() == 0 {
        assert(permuted.len() == 0);
        assert(lines =~= permuted);
    } else {
        assert forall|j: int| 0 <= j < permuted.len() implies newline_free(
            #[trigger] permuted[j],
        ) by {
            assert(permuted.contains(permuted[j]));
            lemma_permutation_keeps_members(permuted, lines, permuted[j]);
            let i = choose|i: int| 0 <= i < lines.len() && lines[i] == permuted[j];
            assert(newline_free(lines[i]));
        }
        lemma_lines_of_join(lines);
        lemma_lines_of_join(permuted);
        lemma_statuses_of_permuted_lines(lines, permuted);
    }
}

/// What a left-to-right scan knows after reading `prefix`: the kinds found
/// so far, how far into the current line it is (counting to two at most),
/// and the first character of that line while it waits for the second.
spec fn scanned(prefix: Seq<char>, found: Set<Status>, column: u8, first: char) -> bool {
    let current = lines_of(prefix).last();
    &&& found == statuses_of(prefix)
    &&& column as int == if current.len() < 2 {
        current.len() as int
    } else {
        2
    }
    &&& column == 1 ==> current[0] == first
}

proof fn lemma_scan_start()
    ensures
        scanned(Seq::<char>::empty(), Set::<Status>::empty(), 0, '\n'),
{
    let lines = lines_of(Seq::<char>::empty());
    assert(lines =~= seq![Seq::<char>::empty()]);
    assert forall|kind: Status| !statuses_of_lines(lines).contains(kind) by {
        assert(code_of(lines[0]).len() == 0);
    }
    assert(statuses_of_lines(lines) =~= Set::<Status>::empty());
}

proof fn lemma_scan_step(prefix: Seq<char>, found: Set<Status>, column: u8, first: char, c: char)
    requires
        scanned(prefix, found, column, first),
    ensures
        c == '\n' ==> scanned(prefix.push(c), found, 0, first),
        c != '\n' && column == 0 ==> scanned(prefix.push(c), found, 1, c),
        c != '\n' && column == 1 ==> scanned(
            prefix.push(c),
            found.union(code_kinds(seq![first, c])),
            2,
            first,
        ),
        c != '\n' && column == 2 ==> scanned(prefix.push(c), found, 2, first),
{
    lemma_lines_of_push(prefix, c);
    let lines = lines_of(prefix);
    let closed = lines.drop_last();
    let current = lines.last();
    assert(lines =~= closed.push(current));
    lemma_statuses_of_lines_push(closed, current);
    if c == '\n' {
        let blank = Seq::<char>::empty();
        lemma_statuses_of_lines_push(lines, blank);
        assert(line_kinds(blank) =~= Set::<Status>::empty());
        assert(found.union(line_kinds(blank)) =~= found);
    } else {
        let grown = current.push(c);
        lemma_statuses_of_lines_push(closed, grown);
        let rest = statuses_of_lines(closed);
        if column == 0 {
            assert(line_kinds(current) =~= Set::<Status>::empty());
            assert(line_kinds(grown) =~= Set::<Status>::empty());
        } else if column == 1 {
            assert(line_kinds(current) =~= Set::<Status>::empty());
            assert(code_of(grown) =~= seq![first, c]);
            assert(rest.union(line_kinds(grown)) =~= rest.union(Set::<Status>::empty()).union(
                code_kinds(seq![first, c]),
            ));
        } else {
            assert(code_of(grown) =~= code_of(current));
        }
    }
}

impl Statuses {
    /// The kinds that the two characters of a code report.
    pub fn from_code(first: char, second: char) -> (found: Statuses)
        ensures
            found@ == code_kinds(seq![first, second]),
    {
        let mut found = Statuses::new();
        if signals(first, Status::Modified) || signals(second, Status::Modified) {
            found.insert(Status::Modified);
        }
        if signals(first, Status::Added) || signals(second, Status::Added) {
            found.insert(Status::Added);
        }
        if signals(first, Status::Deleted) || signals(second, Status::Deleted) {
            found.insert(Status::Deleted);
        }
        if signals(first, Status::Untracked) || signals(second, Status::Untracked) {
            found.insert(Status::Untracked);
        }
        proof {
            let code = seq![first, second];
            assert forall|kind: Status| found@.contains(kind) <==> code_kinds(code).contains(
                kind,
            ) by {
                assert(code[0] == first && code[1] == second);
            }
            assert(found@ =~= code_kinds(code));
        }
        found
    }

    /// Reads a status report in the short format and collects the kinds of
    /// change that its lines show.
    pub fn from_porcelain(text: &str) -> (found: Statuses)
        ensures
            found@ == statuses_of(text@),
    {
        let mut found = Statuses::new();
        let mut column: u8 = 0;
        let mut first: char = '\n';
        proof {
            lemma_scan_start();
            assert(text@.take(0) =~= Seq::<char>::empty());
        }
        for c in it: text.chars()
            invariant
                it.seq() == text@,
                scanned(text@.take(it.index() as int), found@, column, first),
        {
            proof {
                let n = it.index() as int;
                lemma_scan_step(text@.take(n), found@, column, first, c);
                assert(text@.take(n + 1) =~= text@.take(n).push(c));
            }
            if c == '\n' {
                column = 0;
            } else if column == 0 {
                first = c;
                column = 1;
            } else if column == 1 {
                found = found.union(Statuses::from_code(first, c));
                column = 2;
            }
        }
        assert(text@.take(text@.len() as int) =~= text@);
        found
    }
}

} // verus!
