//! Repository location and working-tree status.

use vstd::prelude::*;
use vstd::utf8::{decode_utf8, valid_utf8};
use vstd::string::StringSliceAdditionalSpecFns;
use crate::paths::{relative_to, spec_relative_to, trim, trimmed};
use crate::porcelain::statuses_of;

verus! {

/// One kind of working-tree change.
///
/// The variants are declared in display order, so the derived ordering is
/// `Modified < Added < Deleted < Untracked`.
#[derive(Debug, Clone, Copy, PartialEq, Eq, Structural, Hash, PartialOrd, Ord)]
pub enum Status {
    Modified,
    Added,
    Deleted,
    Untracked,
}

impl Status {
    /// Position of the kind in the fixed display order.
    pub open spec fn rank(self) -> nat {
        match self {
            Status::Modified => 0,
            Status::Added => 1,
            Status::Deleted => 2,
            Status::Untracked => 3,
        }
    }

    /// The character that stands for the kind in a prompt.
    pub open spec fn spec_glyph(self) -> char {
        match self {
            Status::Modified => '*',
            Status::Added => '+',
            Status::Deleted => '-',
            Status::Untracked => '?',
        }
    }

    /// The character that stands for the kind in a prompt.
    #[verifier::when_used_as_spec(spec_glyph)]
    pub fn glyph(self) -> (c: char)
        ensures
            c == self.spec_glyph(),
    {
        match self {
            Status::Modified => '*',
            Status::Added => '+',
            Status::Deleted => '-',
            Status::Untracked => '?',
        }
    }

    /// The glyph as an owned string.
    pub fn to_string(&self) -> (s: String)
        ensures
            s@ == seq![self.spec_glyph()],
    {
        proof {
            reveal_strlit("*");
            reveal_strlit("+");
            reveal_strlit("-");
            reveal_strlit("?");
        }
        let text = match self {
            Status::Modified => "*",
            Status::Added => "+",
            Status::Deleted => "-",
            Status::Untracked => "?",
        };
        assert(text@ =~= seq![self.spec_glyph()]);
        String::from_str(text)
    }
}

/// `kind` alone if it is a member of `kinds`, nothing otherwise.
pub open spec fn shown_if(kinds: Set<Status>, kind: Status) -> Seq<Status> {
    if kinds.contains(kind) {
        seq![kind]
    } else {
        Seq::<Status>::empty()
    }
}

/// The members of `kinds` listed in display order, each once.
pub open spec fn display_order(kinds: Set<Status>) -> Seq<Status> {
    shown_if(kinds, Status::Modified) + shown_if(kinds, Status::Added) + shown_if(
        kinds,
        Status::Deleted,
    ) + shown_if(kinds, Status::Untracked)
}

/// The glyphs of the members of `kinds`, in display order.
pub open spec fn glyphs(kinds: Set<Status>) -> Seq<char> {
    display_order(kinds).map_values(|kind: Status| kind.spec_glyph())
}

/// The display order lists exactly the members, by strictly ascending rank,
/// and the glyphs follow it one for one. So the glyphs always come in the
/// order `*`, `+`, `-`, `?`, and none comes twice.
pub proof fn lemma_display_order(kinds: Set<Status>)
    ensures
        forall|kind: Status| display_order(kinds).contains(kind) <==> kinds.contains(kind),
        forall|i: int, j: int|
            0 <= i < j < display_order(kinds).len() ==> display_order(kinds)[i].rank()
                < display_order(kinds)[j].rank(),
        glyphs(kinds).len() == display_order(kinds).len(),
        forall|i: int|
            0 <= i < glyphs(kinds).len() ==> glyphs(kinds)[i] == display_order(
                kinds,
            )[i].spec_glyph(),
{
    let listed = display_order(kinds);
    assert forall|kind: Status| kinds.contains(kind) implies listed.contains(kind) by {
        let at = lower_members(kinds, kind.rank());
        assert(listed[at] == kind);
    }
    assert forall|kind: Status| listed.contains(kind) implies kinds.contains(kind) by {
        let i = choose|i: int| 0 <= i < listed.len() && listed[i] == kind;
        lemma_display_order_at(kinds, i);
    }
    assert forall|i: int, j: int| 0 <= i < j < listed.len() implies listed[i].rank()
        < listed[j].rank() by {
        lemma_display_order_at(kinds, i);
        lemma_display_order_at(kinds, j);
    }
}

/// Where a kind stands in the display order: after the members of lower
/// rank, and nowhere else.
proof fn lemma_display_order_at(kinds: Set<Status>, i: int)
    requires
        0 <= i < display_order(kinds).len(),
    ensures
        kinds.contains(display_order(kinds)[i]),
        i == lower_members(kinds, display_order(kinds)[i].rank()),
{
}

/// How many members of `kinds` have a rank below `rank`.
spec fn lower_members(kinds: Set<Status>, rank: nat) -> int {
    (if rank > 0 && kinds.contains(Status::Modified) {
        1int
    } else {
        0
    }) + (if rank > 1 && kinds.contains(Status::Added) {
        1int
    } else {
        0
    }) + (if rank > 2 && kinds.contains(Status::Deleted) {
        1int
    } else {
        0
    })
}

/// The glyphs do not depend on the order in which the kinds were found, nor
/// on how often each was found.
pub proof fn lemma_glyphs_ignore_discovery_order(found: Seq<Status>, other: Seq<Status>)
    requires
        forall|kind: Status| found.contains(kind) <==> other.contains(kind),
    ensures
        glyphs(found.to_set()) == glyphs(other.to_set()),
{
    assert(found.to_set() =~= other.to_set());
}

/// A set of status kinds.
#[derive(Debug, Clone, Copy, PartialEq, Eq, Structural, Hash)]
pub struct Statuses {
    modified: bool,
    added: bool,
    deleted: bool,
    untracked: bool,
}

impl View for Statuses {
    type V = Set<Status>;

    closed spec fn view(&self) -> Set<Status> {
        Set::new(|k: Status| self.holds(k))
    }
}

impl DeepView for Statuses {
    type V = Set<Status>;

    open spec fn deep_view(&self) -> Set<Status> {
        self@
    }
}

impl Statuses {
    spec fn holds(self, kind: Status) -> bool {
        match kind {
            Status::Modified => self.modified,
            Status::Added => self.added,
            Status::Deleted => self.deleted,
            Status::Untracked => self.untracked,
        }
    }

    /// The empty set.
    pub fn new() -> (s: Statuses)
        ensures
            s@ == Set::<Status>::empty(),
    {
        let s = Statuses { modified: false, added: false, deleted: false, untracked: false };
        assert(s@ =~= Set::<Status>::empty());
        s
    }

    /// Adds `kind`; adding a member again changes nothing.
    pub fn insert(&mut self, kind: Status)
        ensures
            final(self)@ == old(self)@.insert(kind),
    {
        match kind {
            Status::Modified => {
                self.modified = true;
            },
            Status::Added => {
                self.added = true;
            },
            Status::Deleted => {
                self.deleted = true;
            },
            Status::Untracked => {
                self.untracked = true;
            },
        }
        assert(self@ =~= old(self)@.insert(kind));
    }

    /// Whether `kind` is a member.
    pub fn contains(&self, kind: Status) -> (b: bool)
        ensures
            b == self@.contains(kind),
    {
        match kind {
            Status::Modified => self.modified,
            Status::Added => self.added,
            Status::Deleted => self.deleted,
            Status::Untracked => self.untracked,
        }
    }

    /// The set of the kinds listed in `kinds`, in whatever order and however
    /// often they are listed.
    pub fn from_kinds(kinds: &[Status]) -> (s: Statuses)
        ensures
            s@ == kinds@.to_set(),
    {
        let mut s = Statuses::new();
        let mut i: usize = 0;
        while i < kinds.len()
            invariant
                i <= kinds.len(),
                s@ == kinds@.take(i as int).to_set(),
            decreases kinds.len() - i,
        {
            s.insert(kinds[i]);
            proof {
                let before = kinds@.take(i as int);
                let after = kinds@.take(i + 1);
                assert(after =~= before.push(kinds@[i as int]));
                assert(after.to_set() =~= before.to_set().insert(kinds@[i as int])) by {
                    assert forall|kind: Status| after.contains(kind) <==> before.contains(kind)
                        || kind == kinds@[i as int] by {
                        if before.contains(kind) {
                            let j = choose|j: int| 0 <= j < before.len() && before[j] == kind;
                            assert(after[j] == kind);
                        }
                        if kind == kinds@[i as int] {
                            assert(after[i as int] == kind);
                        }
                    }
                }
            }
            i += 1;
        }
        assert(kinds@.take(kinds@.len() as int) =~= kinds@);
        s
    }

    /// The members in display order.
    pub fn to_vec(&self) -> (listed: Vec<Status>)
        ensures
            listed@ == display_order(self@),
    {
        let mut listed: Vec<Status> = Vec::new();
        if self.modified {
            listed.push(Status::Modified);
        }
        if self.added {
            listed.push(Status::Added);
        }
        if self.deleted {
            listed.push(Status::Deleted);
        }
        if self.untracked {
            listed.push(Status::Untracked);
        }
        assert(listed@ =~= display_order(self@));
        listed
    }

    /// The glyphs of the members in display order.
    pub fn to_string(&self) -> (shown: String)
        ensures
            shown@ == glyphs(self@),
    {
        proof {
            reveal_strlit("*");
            reveal_strlit("+");
            reveal_strlit("-");
            reveal_strlit("?");
        }
        let mut shown = String::new();
        if self.modified {
            shown.append("*");
        }
        if self.added {
            shown.append("+");
        }
        if self.deleted {
            shown.append("-");
        }
        if self.untracked {
            shown.append("?");
        }
        assert(shown@ =~= glyphs(self@));
        shown
    }

    /// The members of either set.
    pub fn union(self, other: Statuses) -> (both: Statuses)
        ensures
            both@ == self@.union(other@),
    {
        let both = Statuses {
            modified: self.modified || other.modified,
            added: self.added || other.added,
            deleted: self.deleted || other.deleted,
            untracked: self.untracked || other.untracked,
        };
        assert(both@ =~= self@.union(other@));
        both
    }

    /// Whether the set has no member.
    pub fn is_empty(&self) -> (b: bool)
        ensures
            b == (self@ == Set::<Status>::empty()),
    {
        let b = !self.modified && !self.added && !self.deleted && !self.untracked;
        proof {
            if b {
                assert(self@ =~= Set::<Status>::empty());
            } else {
                let k = if self.modified {
                    Status::Modified
                } else if self.added {
                    Status::Added
                } else if self.deleted {
                    Status::Deleted
                } else {
                    Status::Untracked
                };
                assert(self@.contains(k));
            }
        }
        b
    }
}

/// How a query of git ended, as far as this library looks at it.
#[derive(Debug, PartialEq, Eq)]
pub enum QueryOutcome {
    /// There is no outcome: the process could not be started, or was not
    /// started at all.
    NotRun,
    /// The process ran to its end.
    Exited {
        /// Whether it left with exit status zero.
        success: bool,
        /// What it wrote to its standard output.
        stdout: Vec<u8>,
    },
}

impl QueryOutcome {
    /// The report of a query that succeeded: what it wrote, read as UTF-8.
    /// A query that was not run, failed, or wrote bytes that are no UTF-8
    /// has no report.
    pub open spec fn spec_report(self) -> Option<Seq<char>> {
        match self {
            QueryOutcome::Exited { success, stdout } => if success && valid_utf8(stdout@) {
                Some(decode_utf8(stdout@))
            } else {
                None
            },
            QueryOutcome::NotRun => None,
        }
    }

    /// The report of a query that succeeded.
    pub fn report(&self) -> (text: Option<&str>)
        ensures
            text.deep_view() == self.spec_report(),
    {
        match self {
            QueryOutcome::Exited { success, stdout } => {
                if *success {
                    let text = utf8_text(stdout.as_slice());
                    proof {
                        if let Some(t) = text {
                            vstd::utf8::encode_utf8_decode_utf8(t@);
                        }
                    }
                    text
                } else {
                    None
                }
            },
            QueryOutcome::NotRun => None,
        }
    }
}

/// The text that `bytes` encode, if they are well-formed UTF-8.
///
/// Not proved: this calls `core::str::from_utf8`, and the contract restates
/// what its documentation says. It returns a string slice exactly when the
/// bytes are valid UTF-8, and that slice consists of the very bytes given.
#[verifier::external_body]
fn utf8_text(bytes: &[u8]) -> (text: Option<&str>)
    ensures
        text is Some <==> valid_utf8(bytes@),
        text matches Some(t) ==> t.spec_bytes() == bytes@,
{
    match core::str::from_utf8(bytes) {
        Ok(text) => Some(text),
        Err(_) => None,
    }
}

/// A path relative to the root of a repository; empty for the root itself.
#[derive(Debug, PartialEq, Eq)]
pub struct Directory(String);

impl View for Directory {
    type V = Seq<char>;

    closed spec fn view(&self) -> Seq<char> {
        self.0@
    }
}

impl DeepView for Directory {
    type V = Seq<char>;

    open spec fn deep_view(&self) -> Seq<char> {
        self@
    }
}

impl Directory {
    /// The directory at `path`.
    pub fn new(path: &str) -> (dir: Directory)
        ensures
            dir@ == path@,
    {
        Directory(String::from_str(path))
    }

    /// The path as text.
    pub fn as_str(&self) -> (path: &str)
        ensures
            path@ == self@,
    {
        self.0.as_str()
    }

    /// The path as an owned string.
    pub fn to_string(&self) -> (path: String)
        ensures
            path@ == self@,
    {
        self.0.clone()
    }
}

/// Where the prompt is: inside a repository, with the directory and the
/// state of the working tree, or not. There is nothing in between.
#[derive(Debug, PartialEq, Eq)]
pub enum PathAndInfo {
    /// Inside a repository: the directory below its root, and the kinds of
    /// change in its working tree.
    Git(Directory, Statuses),
    /// Not inside a repository, as far as could be found out.
    Fallback,
}

impl View for PathAndInfo {
    type V = Option<(Seq<char>, Set<Status>)>;

    open spec fn view(&self) -> Option<(Seq<char>, Set<Status>)> {
        match self {
            PathAndInfo::Git(dir, statuses) => Some((dir@, statuses@)),
            PathAndInfo::Fallback => None,
        }
    }
}

/// The two findings put together: both, or nothing.
pub open spec fn assembled(dir: Option<Seq<char>>, statuses: Option<Set<Status>>) -> Option<
    (Seq<char>, Set<Status>),
> {
    match (dir, statuses) {
        (Some(d), Some(s)) => Some((d, s)),
        _ => None,
    }
}

/// The working directory relative to the repository root that the root
/// query reported. The report is trimmed first. There is no result if the
/// working directory is unknown, if the query has no report, or if the
/// working directory is not the root or below it.
pub open spec fn located(cwd: Option<Seq<char>>, root_query: QueryOutcome) -> Option<Seq<char>> {
    match (cwd, root_query.spec_report()) {
        (Some(dir), Some(report)) => spec_relative_to(dir, trimmed(report)),
        _ => None,
    }
}

/// The kinds of change that the status query reported, if it has a report.
pub open spec fn detected(status_query: QueryOutcome) -> Option<Set<Status>> {
    match status_query.spec_report() {
        Some(report) => Some(statuses_of(report)),
        None => None,
    }
}

impl PathAndInfo {
    /// Puts the two findings together. If either is missing the other is
    /// dropped.
    pub fn from_parts(dir: Option<Directory>, statuses: Option<Statuses>) -> (state: PathAndInfo)
        ensures
            state@ == assembled(dir.deep_view(), statuses.deep_view()),
    {
        match dir {
            Some(d) => match statuses {
                Some(s) => PathAndInfo::Git(d, s),
                None => PathAndInfo::Fallback,
            },
            None => PathAndInfo::Fallback,
        }
    }
}

/// The kinds of change in the working tree, from the outcome of
/// `git status --porcelain`.
pub fn git_statuses(query: &QueryOutcome) -> (found: Option<Statuses>)
    ensures
        found.deep_view() == detected(*query),
{
    match query.report() {
        Some(report) => Some(Statuses::from_porcelain(report)),
        None => None,
    }
}

/// The working directory relative to the repository root, from the working
/// directory and the outcome of `git rev-parse --show-toplevel`.
pub fn relative_git_dir(cwd: Option<&str>, query: &QueryOutcome) -> (dir: Option<Directory>)
    ensures
        dir.deep_view() == located(cwd.deep_view(), *query),
{
    match cwd {
        Some(current) => match query.report() {
            Some(report) => match relative_to(current, trim(report)) {
                Some(rest) => Some(Directory::new(rest)),
                None => None,
            },
            None => None,
        },
        None => None,
    }
}

/// Where the prompt is, from the working directory and the outcomes of the
/// two queries. The status query is looked at only once the directory is
/// known.
pub fn path_and_info(
    cwd: Option<&str>,
    root_query: &QueryOutcome,
    status_query: &QueryOutcome,
) -> (state: PathAndInfo)
    ensures
        state@ == assembled(located(cwd.deep_view(), *root_query), detected(*status_query)),
{
    match relative_git_dir(cwd, root_query) {
        Some(dir) => PathAndInfo::from_parts(Some(dir), git_statuses(status_query)),
        None => PathAndInfo::Fallback,
    }
}

/// Inside a repository means that both findings are there, and they are the
/// ones shown; one finding alone gives nothing.
pub proof fn lemma_all_or_nothing(dir: Option<Seq<char>>, statuses: Option<Set<Status>>)
    ensures
        assembled(dir, statuses) is Some <==> dir is Some && statuses is Some,
        assembled(dir, statuses) matches Some(both) ==> dir == Some(both.0) && statuses == Some(
            both.1,
        ),
{
}

/// A query that was not run, that failed, or whose output is no UTF-8
/// leaves the prompt outside a repository, whatever the other query gave.
pub proof fn lemma_failed_query_falls_back(
    cwd: Option<Seq<char>>,
    root_query: QueryOutcome,
    status_query: QueryOutcome,
)
    requires
        root_query.spec_report() is None || status_query.spec_report() is None,
    ensures
        assembled(located(cwd, root_query), detected(status_query)) is None,
{
}

} // verus!
