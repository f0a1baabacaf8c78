//! The line statistics of a diff.
use vstd::prelude::*;

verus! {

/// A line of a hunk.
#[derive(Debug, Clone, Copy, PartialEq, Eq, Structural)]
pub enum LineDiff {
    Addition,
    Deletion,
    Context,
}

/// A hunk of a file diff: its lines.
#[derive(Debug, Clone)]
pub struct Hunk {
    pub lines: Vec<LineDiff>,
}

/// The diff of one file: binary, or plain text in hunks.
#[derive(Debug, Clone)]
pub enum FileDiff {
    Binary,
    Plain(Vec<Hunk>),
}

/// A diff between two revisions, by what happened to each file.
#[derive(Debug, Clone)]
pub struct Diff {
    pub created: Vec<FileDiff>,
    pub deleted: Vec<FileDiff>,
    pub modified: Vec<FileDiff>,
}

/// Added and deleted lines.
#[derive(Debug, Clone, Copy, PartialEq, Eq)]
pub struct Stats {
    pub additions: usize,
    pub deletions: usize,
}

/// The number of lines of kind `k`.
pub open spec fn lines_of(lines: Seq<LineDiff>, k: LineDiff) -> nat
    decreases lines.len(),
{
    if lines.len() == 0 {
        0
    } else {
        lines_of(lines.drop_last(), k) + if lines.last() == k {
            1nat
        } else {
            0nat
        }
    }
}

/// The number of lines of kind `k` in a list of hunks.
pub open spec fn hunks_lines_of(hunks: Seq<Hunk>, k: LineDiff) -> nat
    decreases hunks.len(),
{
    if hunks.len() == 0 {
        0
    } else {
        hunks_lines_of(hunks.drop_last(), k) + lines_of(hunks.last().lines@, k)
    }
}

/// The number of lines of kind `k` in the plain file diffs of a list.
pub open spec fn files_lines_of(files: Seq<FileDiff>, k: LineDiff) -> nat
    decreases files.len(),
{
    if files.len() == 0 {
        0
    } else {
        files_lines_of(files.drop_last(), k) + match files.last() {
            FileDiff::Plain(hunks) => hunks_lines_of(hunks@, k),
            FileDiff::Binary => 0,
        }
    }
}

/// Lines added by a diff: in modified and created files.
pub open spec fn additions_of(d: Diff) -> nat {
    files_lines_of(d.modified@, LineDiff::Addition) + files_lines_of(d.created@, LineDiff::Addition)
}

/// Lines deleted by a diff: in modified and deleted files.
pub open spec fn deletions_of(d: Diff) -> nat {
    files_lines_of(d.modified@, LineDiff::Deletion) + files_lines_of(d.deleted@, LineDiff::Deletion)
}

proof fn lemma_lines_prefix(lines: Seq<LineDiff>, k: LineDiff, i: int)
    requires
        0 <= i <= lines.len(),
    ensures
        lines_of(lines.take(i), k) <= lines_of(lines, k),
    decreases lines.len() - i,
{
    if i < lines.len() {
        lemma_lines_prefix(lines, k, i + 1);
        assert(lines.take(i + 1).drop_last() =~= lines.take(i));
    } else {
        assert(lines.take(i) =~= lines);
    }
}

proof fn lemma_hunks_prefix(hunks: Seq<Hunk>, k: LineDiff, i: int)
    requires
        0 <= i <= hunks.len(),
    ensures
        hunks_lines_of(hunks.take(i), k) <= hunks_lines_of(hunks, k),
    decreases hunks.len() - i,
{
    if i < hunks.len() {
        lemma_hunks_prefix(hunks, k, i + 1);
        assert(hunks.take(i + 1).drop_last() =~= hunks.take(i));
    } else {
        assert(hunks.take(i) =~= hunks);
    }
}

proof fn lemma_files_prefix(files: Seq<FileDiff>, k: LineDiff, i: int)
    requires
        0 <= i <= files.len(),
    ensures
        files_lines_of(files.take(i), k) <= files_lines_of(files, k),
    decreases files.len() - i,
{
    if i < files.len() {
        lemma_files_prefix(files, k, i + 1);
        assert(files.take(i + 1).drop_last() =~= files.take(i));
    } else {
        assert(files.take(i) =~= files);
    }
}

/// Counts the lines of kind `k`.
fn count_lines(lines: &[LineDiff], k: LineDiff) -> (n: usize)
    requires
        lines_of(lines@, k) <= usize::MAX,
    ensures
        n == lines_of(lines@, k),
{
    let mut n: usize = 0;
    let mut i: usize = 0;
    while i < lines.len()
        invariant
            i <= lines@.len(),
            lines_of(lines@, k) <= usize::MAX,
            n == lines_of(lines@.take(i as int), k),
        decreases lines@.len() - i,
    {
        assert(lines@.take(i + 1).drop_last() =~= lines@.take(i as int));
        proof {
            lemma_lines_prefix(lines@, k, i + 1);
        }
        if lines[i] == k {
            n = n + 1;
        }
        i = i + 1;
    }
    assert(lines@.take(i as int) =~= lines@);
    n
}

/// Counts the lines of kind `k` in a list of hunks.
fn count_hunks(hunks: &[Hunk], k: LineDiff) -> (n: usize)
    requires
        hunks_lines_of(hunks@, k) <= usize::MAX,
    ensures
        n == hunks_lines_of(hunks@, k),
{
    let mut n: usize = 0;
    let mut i: usize = 0;
    while i < hunks.len()
        invariant
            i <= hunks@.len(),
            hunks_lines_of(hunks@, k) <= usize::MAX,
            n == hunks_lines_of(hunks@.take(i as int), k),
        decreases hunks@.len() - i,
    {
        assert(hunks@.take(i + 1).drop_last() =~= hunks@.take(i as int));
        proof {
            lemma_hunks_prefix(hunks@, k, i + 1);
        }
        let c = count_lines(hunks[i].lines.as_slice(), k);
        n = n + c;
        i = i + 1;
    }
    assert(hunks@.take(i as int) =~= hunks@);
    n
}

/// Counts the lines of kind `k` in the plain file diffs of a list.
fn count_files(files: &[FileDiff], k: LineDiff) -> (n: usize)
    requires
        files_lines_of(files@, k) <= usize::MAX,
    ensures
        n == files_lines_of(files@, k),
{
    let mut n: usize = 0;
    let mut i: usize = 0;
    while i < files.len()
        invariant
            i <= files@.len(),
            files_lines_of(files@, k) <= usize::MAX,
            n == files_lines_of(files@.take(i as int), k),
        decreases files@.len() - i,
    {
        assert(files@.take(i + 1).drop_last() =~= files@.take(i as int));
        proof {
            lemma_files_prefix(files@, k, i + 1);
        }
        match &files[i] {
            FileDiff::Plain(hunks) => {
                let c = count_hunks(hunks.as_slice(), k);
                n = n + c;
            },
            FileDiff::Binary => {},
        }
        i = i + 1;
    }
    assert(files@.take(i as int) =~= files@);
    n
}

impl Stats {
    /// The lines added and deleted by a diff: additions in modified and
    /// created files, deletions in modified and deleted files; binary files
    /// count for nothing.
    pub fn of_diff(diff: &Diff) -> (s: Stats)
        requires
            additions_of(*diff) <= usize::MAX,
            deletions_of(*diff) <= usize::MAX,
        ensures
            s.additions == additions_of(*diff),
            s.deletions == deletions_of(*diff),
    {
        let added_modified = count_files(diff.modified.as_slice(), LineDiff::Addition);
        let added_created = count_files(diff.created.as_slice(), LineDiff::Addition);
        let deleted_modified = count_files(diff.modified.as_slice(), LineDiff::Deletion);
        let deleted_deleted = count_files(diff.deleted.as_slice(), LineDiff::Deletion);
        Stats { additions: added_modified + added_created, deletions: deleted_modified + deleted_deleted }
    }
}

/// The commits of a patch revision: the commit headers from the revision
/// down to, and without, the base of the revision.
pub fn commits_until_base(shas: &[crate::oid::Oid], base: &crate::oid::Oid) -> (r: usize)
    ensures
        r <= shas@.len(),
        forall|i: int| 0 <= i < r ==> shas@[i].bytes@ != base.bytes@,
        r < shas@.len() ==> shas@[r as int].bytes@ == base.bytes@,
{
    let mut i: usize = 0;
    while i < shas.len()
        invariant
            i <= shas@.len(),
            forall|j: int| 0 <= j < i ==> shas@[j].bytes@ != base.bytes@,
        decreases shas@.len() - i,
    {
        if shas[i].same(base) {
            return i;
        }
        i = i + 1;
    }
    i
}

/// Counting lines of a kind: no line counts nothing, one line counts one when
/// it is of that kind, and the count of two runs of lines put together is the
/// sum of their counts.
pub proof fn law_line_count_adds_up(a: Seq<LineDiff>, b: Seq<LineDiff>, x: LineDiff, k: LineDiff)
    ensures
        lines_of(Seq::empty(), k) == 0,
        lines_of(seq![x], k) == (if x == k { 1nat } else { 0nat }),
        lines_of(a + b, k) == lines_of(a, k) + lines_of(b, k),
    decreases b.len(),
{
    assert(seq![x].drop_last() =~= Seq::<LineDiff>::empty());
    assert(lines_of(seq![x].drop_last(), k) == 0);
    assert(seq![x].last() == x);
    if b.len() == 0 {
        assert(a + b =~= a);
    } else {
        law_line_count_adds_up(a, b.drop_last(), x, k);
        assert((a + b).drop_last() =~= a + b.drop_last());
        assert((a + b).last() == b.last());
    }
}

/// Counting lines over hunks: no hunk counts nothing, one hunk counts its own
/// lines, and every hunk of two lists put together counts: the count is the
/// sum of the two lists' counts.
pub proof fn law_hunk_count_adds_up(a: Seq<Hunk>, b: Seq<Hunk>, h: Hunk, k: LineDiff)
    ensures
        hunks_lines_of(Seq::empty(), k) == 0,
        hunks_lines_of(seq![h], k) == lines_of(h.lines@, k),
        hunks_lines_of(a.push(h), k) == hunks_lines_of(a, k) + lines_of(h.lines@, k),
        hunks_lines_of(a + b, k) == hunks_lines_of(a, k) + hunks_lines_of(b, k),
    decreases b.len(),
{
    assert(seq![h].drop_last() =~= Seq::<Hunk>::empty());
    assert(hunks_lines_of(seq![h].drop_last(), k) == 0);
    assert(seq![h].last() == h);
    assert(a.push(h).drop_last() =~= a);
    if b.len() == 0 {
        assert(a + b =~= a);
    } else {
        law_hunk_count_adds_up(a, b.drop_last(), h, k);
        assert((a + b).drop_last() =~= a + b.drop_last());
        assert((a + b).last() == b.last());
    }
}

/// Counting lines over files: no file counts nothing, a plain file counts the
/// lines of all its hunks, a binary file counts none, and the count of two
/// lists of files put together is the sum of their counts.
pub proof fn law_file_count_adds_up(a: Seq<FileDiff>, b: Seq<FileDiff>, f: FileDiff, k: LineDiff)
    ensures
        files_lines_of(Seq::empty(), k) == 0,
        files_lines_of(seq![f], k) == match f {
            FileDiff::Plain(hunks) => hunks_lines_of(hunks@, k),
            FileDiff::Binary => 0nat,
        },
        files_lines_of(a + b, k) == files_lines_of(a, k) + files_lines_of(b, k),
    decreases b.len(),
{
    assert(seq![f].drop_last() =~= Seq::<FileDiff>::empty());
    assert(files_lines_of(seq![f].drop_last(), k) == 0);
    assert(seq![f].last() == f);
    if b.len() == 0 {
        assert(a + b =~= a);
    } else {
        law_file_count_adds_up(a, b.drop_last(), f, k);
        assert((a + b).drop_last() =~= a + b.drop_last());
        assert((a + b).last() == b.last());
    }
}

/// The statistics of a diff count the added lines of its modified and
/// created files and the deleted lines of its modified and deleted files; a
/// diff with one modified plain file counts the lines of every hunk of it.
pub proof fn law_stats_count_every_hunk(hunks: Seq<Hunk>, h: Hunk, d: Diff)
    requires
        d.created@.len() == 0,
        d.deleted@.len() == 0,
        d.modified@.len() == 1,
        d.modified@[0] matches FileDiff::Plain(hs) && hs@ == hunks.push(h),
    ensures
        additions_of(d) == hunks_lines_of(hunks, LineDiff::Addition) + lines_of(h.lines@, LineDiff::Addition),
        deletions_of(d) == hunks_lines_of(hunks, LineDiff::Deletion) + lines_of(h.lines@, LineDiff::Deletion),
{
    law_hunk_count_adds_up(hunks, Seq::empty(), h, LineDiff::Addition);
    law_hunk_count_adds_up(hunks, Seq::empty(), h, LineDiff::Deletion);
    assert(d.modified@ =~= seq![d.modified@[0]]);
    law_file_count_adds_up(Seq::empty(), Seq::empty(), d.modified@[0], LineDiff::Addition);
    law_file_count_adds_up(Seq::empty(), Seq::empty(), d.modified@[0], LineDiff::Deletion);
    assert(d.created@ =~= Seq::<FileDiff>::empty());
    assert(d.deleted@ =~= Seq::<FileDiff>::empty());
}

} // verus!
