//! The report: the findings gathered file by file, and what they add up to.

use vstd::prelude::*;
use crate::model::{
    contributor_file, contributor_path, repo_file, repo_path, team_file, team_path, Contributor,
    EntityKey, EntityStore, Finding, Repo, Team, ValidationError, ValidationWarning,
};
use crate::text::texts;

verus! {

/// The errors and warnings on one file.
#[derive(Debug, PartialEq, Eq)]
pub struct FileValidationMessages {
    pub errors: Vec<ValidationError>,
    pub warnings: Vec<ValidationWarning>,
}

impl Default for FileValidationMessages {
    fn default() -> (messages: Self)
        ensures
            messages.errors@.len() == 0,
            messages.warnings@.len() == 0,
    {
        FileValidationMessages { errors: Vec::new(), warnings: Vec::new() }
    }
}

/// What a list of errors says.
pub open spec fn error_views(errors: Seq<ValidationError>) -> Seq<Finding> {
    Seq::new(errors.len(), |i: int| errors[i]@)
}

/// What a list of warnings says.
pub open spec fn warning_views(warnings: Seq<ValidationWarning>) -> Seq<Finding> {
    Seq::new(warnings.len(), |i: int| warnings[i]@)
}

/// The number of errors in a list of files.
pub open spec fn error_count(files: Seq<(String, FileValidationMessages)>) -> nat
    decreases files.len(),
{
    if files.len() == 0 {
        0
    } else {
        error_count(files.drop_last()) + files.last().1.errors@.len()
    }
}

/// The number of warnings in a list of files.
pub open spec fn warning_count(files: Seq<(String, FileValidationMessages)>) -> nat
    decreases files.len(),
{
    if files.len() == 0 {
        0
    } else {
        warning_count(files.drop_last()) + files.last().1.warnings@.len()
    }
}

/// The number of files with at least one error.
pub open spec fn invalid_count(files: Seq<(String, FileValidationMessages)>) -> nat
    decreases files.len(),
{
    if files.len() == 0 {
        0
    } else if files.last().1.errors@.len() > 0 {
        invalid_count(files.drop_last()) + 1
    } else {
        invalid_count(files.drop_last())
    }
}

/// The findings of a run, file by file. A file is valid when it has no
/// error; its warnings do not count.
///
/// This is a map from paths to findings, kept as a list that is searched by
/// path, for the reason given at `EntityStore`: its keys are texts. That no
/// path occurs twice is the invariant `wf`.
#[derive(Debug)]
pub struct FileLedger {
    pub entries: Vec<(String, FileValidationMessages)>,
}

impl View for FileLedger {
    type V = Seq<(String, FileValidationMessages)>;

    open spec fn view(&self) -> Seq<(String, FileValidationMessages)> {
        self.entries@
    }
}

impl FileLedger {
    /// Whether the ledger has an entry for `path`.
    pub open spec fn has_path(self, path: Seq<char>) -> bool {
        exists|i: int| 0 <= i < self@.len() && #[trigger] self@[i].0@ == path
    }

    /// No path has two entries.
    pub open spec fn wf(self) -> bool {
        forall|i: int, j: int|
            0 <= i < j < self@.len() ==> #[trigger] self@[i].0@ != #[trigger] self@[j].0@
    }

    /// The position of the entry for `path`, where there is one.
    pub open spec fn position(self, path: Seq<char>) -> int {
        choose|i: int| 0 <= i < self@.len() && #[trigger] self@[i].0@ == path
    }

    /// What the errors on `path` say, in the order in which they came in;
    /// nothing where the ledger has no entry for it.
    pub open spec fn errors_of(self, path: Seq<char>) -> Seq<Finding> {
        if self.has_path(path) {
            error_views(self@[self.position(path)].1.errors@)
        } else {
            Seq::empty()
        }
    }

    /// What the warnings on `path` say, in the order in which they came in;
    /// nothing where the ledger has no entry for it.
    pub open spec fn warnings_of(self, path: Seq<char>) -> Seq<Finding> {
        if self.has_path(path) {
            warning_views(self@[self.position(path)].1.warnings@)
        } else {
            Seq::empty()
        }
    }

    /// A ledger without entries.
    pub fn new() -> (ledger: Self)
        ensures
            ledger@.len() == 0,
            ledger.wf(),
    {
        FileLedger { entries: Vec::new() }
    }

    /// The number of files.
    pub fn len(&self) -> (count: usize)
        ensures
            count == self@.len(),
    {
        self.entries.len()
    }

    /// The position of the entry for `path`, if there is one.
    pub fn find(&self, path: &String) -> (found: Option<usize>)
        ensures
            found is Some <==> self.has_path(path@),
            found matches Some(at) ==> at < self@.len() && self@[at as int].0@ == path@,
    {
        let mut i: usize = 0;
        while i < self.entries.len()
            invariant
                i <= self@.len(),
                forall|j: int| 0 <= j < i ==> #[trigger] self@[j].0@ != path@,
            decreases self@.len() - i,
        {
            if self.entries[i].0 == *path {
                return Some(i);
            }
            i += 1;
        }
        None
    }

    /// Makes sure that the ledger has an entry for `path`: where it has none,
    /// one without findings is added at the end.
    pub fn track(&mut self, path: String)
        requires
            old(self).wf(),
        ensures
            final(self).wf(),
            old(self).has_path(path@) ==> final(self)@ == old(self)@,
            !old(self).has_path(path@) ==> final(self)@.len() == old(self)@.len() + 1
                && final(self)@.drop_last() == old(self)@ && final(self)@.last().0@ == path@
                && final(self)@.last().1.errors@.len() == 0
                && final(self)@.last().1.warnings@.len() == 0,
            forall|other: Seq<char>| #[trigger]
                final(self).has_path(other) <==> old(self).has_path(other) || other == path@,
    {
        if self.find(&path).is_none() {
            let ghost before = *self;
            self.entries.push((path, FileValidationMessages::default()));
            proof {
                assert(self@.drop_last() =~= before@);
                lemma_added_last(before, *self);
            }
        }
    }
}

/// Where a ledger without double entries has an entry for `path` at `at`,
/// that is the position of `path`.
pub proof fn lemma_position(ledger: FileLedger, path: Seq<char>, at: int)
    requires
        ledger.wf(),
        0 <= at < ledger@.len(),
        ledger@[at].0@ == path,
    ensures
        ledger.has_path(path),
        ledger.position(path) == at,
{
    let chosen = ledger.position(path);
    if chosen < at {
        assert(ledger@[chosen].0@ != ledger@[at].0@);
    } else if at < chosen {
        assert(ledger@[at].0@ != ledger@[chosen].0@);
    }
}

/// Whether `after` is `before` with the findings of the entry at `at`
/// replaced and everything else as it was.
pub open spec fn changed_at(before: FileLedger, after: FileLedger, at: int) -> bool {
    &&& 0 <= at < before@.len()
    &&& after@.len() == before@.len()
    &&& after@[at].0@ == before@[at].0@
    &&& forall|j: int| 0 <= j < before@.len() && j != at ==> #[trigger] after@[j] == before@[j]
}

/// Whether `after` is `before` with one entry added at the end, for a path
/// that `before` does not have.
pub open spec fn added_last(before: FileLedger, after: FileLedger) -> bool {
    &&& after@.len() == before@.len() + 1
    &&& after@.drop_last() == before@
    &&& !before.has_path(after@.last().0@)
}

/// A change to the findings of one entry leaves the paths and the findings
/// of every other entry as they were.
proof fn lemma_changed_at(before: FileLedger, after: FileLedger, at: int)
    requires
        before.wf(),
        changed_at(before, after, at),
    ensures
        after.wf(),
        forall|path: Seq<char>| #[trigger] after.has_path(path) <==> before.has_path(path),
        after.position(before@[at].0@) == at,
        before.position(before@[at].0@) == at,
        forall|path: Seq<char>|
            path != before@[at].0@ ==> #[trigger] after.errors_of(path) == before.errors_of(path),
        forall|path: Seq<char>|
            path != before@[at].0@ ==> #[trigger] after.warnings_of(path) == before.warnings_of(
                path,
            ),
{
    assert forall|j: int| 0 <= j < before@.len() implies #[trigger] after@[j].0@
        == before@[j].0@ by {}
    assert(after.wf());
    assert forall|path: Seq<char>| #[trigger] after.has_path(path) <==> before.has_path(path) by {
        if after.has_path(path) {
            let i = after.position(path);
            assert(before@[i].0@ == path);
        }
        if before.has_path(path) {
            let i = before.position(path);
            assert(after@[i].0@ == path);
        }
    }
    lemma_position(after, before@[at].0@, at);
    lemma_position(before, before@[at].0@, at);
    assert forall|path: Seq<char>| path != before@[at].0@ implies #[trigger] after.errors_of(path)
        == before.errors_of(path) && #[trigger] after.warnings_of(path) == before.warnings_of(
        path,
    ) by {
        if before.has_path(path) {
            let i = before.position(path);
            assert(after@[i].0@ == path);
            lemma_position(after, path, i);
        }
    }
}

/// A new entry at the end leaves the findings of every other path as they
/// were.
proof fn lemma_added_last(before: FileLedger, after: FileLedger)
    requires
        before.wf(),
        added_last(before, after),
    ensures
        after.wf(),
        forall|path: Seq<char>| #[trigger]
            after.has_path(path) <==> before.has_path(path) || path == after@.last().0@,
        after.position(after@.last().0@) == before@.len(),
        forall|path: Seq<char>|
            path != after@.last().0@ ==> #[trigger] after.errors_of(path) == before.errors_of(path),
        forall|path: Seq<char>|
            path != after@.last().0@ ==> #[trigger] after.warnings_of(path) == before.warnings_of(
                path,
            ),
{
    let new_path = after@.last().0@;
    assert forall|j: int| 0 <= j < before@.len() implies #[trigger] after@[j] == before@[j] by {
        assert(after@.drop_last()[j] == after@[j]);
    }
    assert forall|i: int, j: int| 0 <= i < j < after@.len() implies #[trigger] after@[i].0@
        != #[trigger] after@[j].0@ by {
        if j == before@.len() {
            assert(before@[i].0@ != new_path);
        } else {
            assert(before@[i].0@ != before@[j].0@);
        }
    }
    assert forall|path: Seq<char>| #[trigger]
        after.has_path(path) <==> before.has_path(path) || path == new_path by {
        if after.has_path(path) {
            let i = after.position(path);
            if i < before@.len() {
                assert(before@[i].0@ == path);
            }
        }
        if before.has_path(path) {
            let i = before.position(path);
            assert(after@[i].0@ == path);
        }
        if path == new_path {
            assert(after@[before@.len() as int].0@ == path);
        }
    }
    lemma_position(after, new_path, before@.len() as int);
    assert forall|path: Seq<char>| path != new_path implies #[trigger] after.errors_of(path)
        == before.errors_of(path) && #[trigger] after.warnings_of(path) == before.warnings_of(
        path,
    ) by {
        if before.has_path(path) {
            let i = before.position(path);
            assert(after@[i].0@ == path);
            lemma_position(after, path, i);
        }
    }
}

/// What a change to one entry does to the counts.
proof fn lemma_counts_changed_at(
    before: Seq<(String, FileValidationMessages)>,
    after: Seq<(String, FileValidationMessages)>,
    at: int,
)
    requires
        0 <= at < before.len(),
        after.len() == before.len(),
        forall|j: int| 0 <= j < before.len() && j != at ==> #[trigger] after[j] == before[j],
    ensures
        error_count(after) - after[at].1.errors@.len() == error_count(before)
            - before[at].1.errors@.len(),
        warning_count(after) - after[at].1.warnings@.len() == warning_count(before)
            - before[at].1.warnings@.len(),
        invalid_count(after) - (if after[at].1.errors@.len() > 0 {
            1int
        } else {
            0int
        }) == invalid_count(before) - (if before[at].1.errors@.len() > 0 {
            1int
        } else {
            0int
        }),
    decreases before.len(),
{
    if at == before.len() - 1 {
        assert(after.drop_last() =~= before.drop_last());
    } else {
        assert(after.last() == before.last());
        lemma_counts_changed_at(before.drop_last(), after.drop_last(), at);
    }
}

/// Files the error under its path: at the end of the errors of that file's
/// entry, which is added where the ledger has none. Everything else stays as
/// it was.
pub fn insert_error(files: &mut FileLedger, error: ValidationError)
    requires
        old(files).wf(),
    ensures
        final(files).wf(),
        forall|path: Seq<char>| #[trigger]
            final(files).has_path(path) <==> old(files).has_path(path) || path == error.file@,
        forall|path: Seq<char>| #[trigger]
            final(files).errors_of(path) == if path == error.file@ {
                old(files).errors_of(path).push(error@)
            } else {
                old(files).errors_of(path)
            },
        forall|path: Seq<char>| #[trigger]
            final(files).warnings_of(path) == old(files).warnings_of(path),
        error_count(final(files)@) == error_count(old(files)@) + 1,
        warning_count(final(files)@) == warning_count(old(files)@),
        invalid_count(final(files)@) == invalid_count(old(files)@) + if old(files).errors_of(
            error.file@,
        ).len() == 0 {
            1nat
        } else {
            0nat
        },
        final(files)@.len() == old(files)@.len() + if old(files).has_path(error.file@) {
            0nat
        } else {
            1nat
        },
{
    let ghost before = *files;
    let ghost said = error@;
    match files.find(&error.file) {
        Some(at) => {
            files.entries[at].1.errors.push(error);
            proof {
                let after = *files;
                assert(changed_at(before, after, at as int));
                lemma_changed_at(before, after, at as int);
                lemma_counts_changed_at(before@, after@, at as int);
                assert(error_views(after@[at as int].1.errors@) =~= error_views(
                    before@[at as int].1.errors@,
                ).push(said));
                assert(warning_views(after@[at as int].1.warnings@) =~= warning_views(
                    before@[at as int].1.warnings@,
                ));
            }
        },
        None => {
            let path = error.file.clone();
            let mut messages = FileValidationMessages::default();
            messages.errors.push(error);
            files.entries.push((path, messages));
            proof {
                let after = *files;
                assert(after@.drop_last() =~= before@);
                lemma_added_last(before, after);
                assert(error_views(after@.last().1.errors@) =~= Seq::<Finding>::empty().push(said));
                assert(warning_views(after@.last().1.warnings@) =~= Seq::<Finding>::empty());
            }
        },
    }
}

/// Files the warning under its path: at the end of the warnings of that
/// file's entry, which is added where the ledger has none. Everything else
/// stays as it was; in particular no file becomes invalid.
pub fn insert_warning(files: &mut FileLedger, warning: ValidationWarning)
    requires
        old(files).wf(),
    ensures
        final(files).wf(),
        forall|path: Seq<char>| #[trigger]
            final(files).has_path(path) <==> old(files).has_path(path) || path == warning.file@,
        forall|path: Seq<char>| #[trigger]
            final(files).warnings_of(path) == if path == warning.file@ {
                old(files).warnings_of(path).push(warning@)
            } else {
                old(files).warnings_of(path)
            },
        forall|path: Seq<char>| #[trigger]
            final(files).errors_of(path) == old(files).errors_of(path),
        warning_count(final(files)@) == warning_count(old(files)@) + 1,
        error_count(final(files)@) == error_count(old(files)@),
        invalid_count(final(files)@) == invalid_count(old(files)@),
        final(files)@.len() == old(files)@.len() + if old(files).has_path(warning.file@) {
            0nat
        } else {
            1nat
        },
{
    let ghost before = *files;
    let ghost said = warning@;
    match files.find(&warning.file) {
        Some(at) => {
            files.entries[at].1.warnings.push(warning);
            proof {
                let after = *files;
                assert(changed_at(before, after, at as int));
                lemma_changed_at(before, after, at as int);
                lemma_counts_changed_at(before@, after@, at as int);
                assert(warning_views(after@[at as int].1.warnings@) =~= warning_views(
                    before@[at as int].1.warnings@,
                ).push(said));
                assert(error_views(after@[at as int].1.errors@) =~= error_views(
                    before@[at as int].1.errors@,
                ));
            }
        },
        None => {
            let path = warning.file.clone();
            let mut messages = FileValidationMessages::default();
            messages.warnings.push(warning);
            files.entries.push((path, messages));
            proof {
                let after = *files;
                assert(after@.drop_last() =~= before@);
                lemma_added_last(before, after);
                assert(warning_views(after@.last().1.warnings@) =~= Seq::<Finding>::empty().push(
                    said,
                ));
                assert(error_views(after@.last().1.errors@) =~= Seq::<Finding>::empty());
            }
        },
    }
}

/// The findings of `findings` that are filed under `path`, in order.
pub open spec fn filed_under(findings: Seq<Finding>, path: Seq<char>) -> Seq<Finding> {
    findings.filter(|finding: Finding| finding.file == path)
}

/// Whether one of `findings` is filed under `path`.
pub open spec fn mentions(findings: Seq<Finding>, path: Seq<char>) -> bool {
    exists|k: int| 0 <= k < findings.len() && (#[trigger] findings[k]).file == path
}

/// What one more finding adds to those filed under a path.
proof fn lemma_filed_under_step(findings: Seq<Finding>, i: int, path: Seq<char>)
    requires
        0 <= i < findings.len(),
    ensures
        filed_under(findings.take(i + 1), path) == if findings[i].file == path {
            filed_under(findings.take(i), path).push(findings[i])
        } else {
            filed_under(findings.take(i), path)
        },
        mentions(findings.take(i + 1), path) <==> mentions(findings.take(i), path)
            || findings[i].file == path,
{
    assert(findings.take(i + 1) =~= findings.take(i).push(findings[i]));
    findings.take(i).lemma_filter_push(findings[i], |finding: Finding| finding.file == path);
    if mentions(findings.take(i + 1), path) {
        let k = choose|k: int|
            0 <= k < findings.take(i + 1).len() && (#[trigger] findings.take(i + 1)[k]).file
                == path;
        if k < i {
            assert(findings.take(i)[k].file == path);
        }
    }
    if mentions(findings.take(i), path) {
        let k = choose|k: int|
            0 <= k < findings.take(i).len() && (#[trigger] findings.take(i)[k]).file == path;
        assert(findings.take(i + 1)[k].file == path);
    }
    if findings[i].file == path {
        assert(findings.take(i + 1)[i].file == path);
    }
}

/// Among no findings none is filed under any path.
proof fn lemma_filed_under_nothing(findings: Seq<Finding>, path: Seq<char>)
    ensures
        filed_under(findings.take(0), path) == Seq::<Finding>::empty(),
        !mentions(findings.take(0), path),
        findings.take(findings.len() as int) == findings,
{
    findings.take(0).lemma_filter_len(|finding: Finding| finding.file == path);
    assert(filed_under(findings.take(0), path) =~= Seq::<Finding>::empty());
    assert(findings.take(findings.len() as int) =~= findings);
}

/// Files every error of `errors` and every warning of `warnings` under its
/// path, each list in its order. Entries are added for the paths that the
/// ledger does not have yet.
pub fn file_findings(
    files: &mut FileLedger,
    errors: &Vec<ValidationError>,
    warnings: &Vec<ValidationWarning>,
)
    requires
        old(files).wf(),
    ensures
        final(files).wf(),
        forall|path: Seq<char>| #[trigger]
            final(files).has_path(path) <==> old(files).has_path(path) || mentions(
                error_views(errors@),
                path,
            ) || mentions(warning_views(warnings@), path),
        forall|path: Seq<char>| #[trigger]
            final(files).errors_of(path) == old(files).errors_of(path) + filed_under(
                error_views(errors@),
                path,
            ),
        forall|path: Seq<char>| #[trigger]
            final(files).warnings_of(path) == old(files).warnings_of(path) + filed_under(
                warning_views(warnings@),
                path,
            ),
        error_count(final(files)@) == error_count(old(files)@) + errors@.len(),
        warning_count(final(files)@) == warning_count(old(files)@) + warnings@.len(),
{
    let ghost before = *files;
    let ghost said = error_views(errors@);
    let ghost warned = warning_views(warnings@);
    let mut i: usize = 0;
    proof {
        assert forall|path: Seq<char>| #[trigger]
            files.errors_of(path) == before.errors_of(path) + filed_under(said.take(0), path) by {
            lemma_filed_under_nothing(said, path);
            assert(before.errors_of(path) + Seq::<Finding>::empty() =~= before.errors_of(path));
        }
        assert forall|path: Seq<char>| !#[trigger] mentions(said.take(0), path) by {
            lemma_filed_under_nothing(said, path);
        }
    }
    while i < errors.len()
        invariant
            i <= errors@.len(),
            said == error_views(errors@),
            files.wf(),
            forall|path: Seq<char>| #[trigger]
                files.has_path(path) <==> before.has_path(path) || mentions(
                    said.take(i as int),
                    path,
                ),
            forall|path: Seq<char>| #[trigger]
                files.errors_of(path) == before.errors_of(path) + filed_under(
                    said.take(i as int),
                    path,
                ),
            forall|path: Seq<char>| #[trigger] files.warnings_of(path) == before.warnings_of(path),
            error_count(files@) == error_count(before@) + i,
            warning_count(files@) == warning_count(before@),
        decreases errors@.len() - i,
    {
        let ghost previous = *files;
        let error = ValidationError {
            file: errors[i].file.clone(),
            message: errors[i].message.clone(),
        };
        assert(error@ == said[i as int]);
        insert_error(files, error);
        proof {
            assert forall|path: Seq<char>| #[trigger]
                files.has_path(path) <==> before.has_path(path) || mentions(
                    said.take(i + 1),
                    path,
                ) by {
                lemma_filed_under_step(said, i as int, path);
                assert(previous.has_path(path) <==> before.has_path(path) || mentions(
                    said.take(i as int),
                    path,
                ));
            }
            assert forall|path: Seq<char>| #[trigger]
                files.errors_of(path) == before.errors_of(path) + filed_under(
                    said.take(i + 1),
                    path,
                ) by {
                lemma_filed_under_step(said, i as int, path);
                assert(previous.errors_of(path) == before.errors_of(path) + filed_under(
                    said.take(i as int),
                    path,
                ));
                if said[i as int].file == path {
                    assert(files.errors_of(path) =~= before.errors_of(path) + filed_under(
                        said.take(i + 1),
                        path,
                    ));
                }
            }
        }
        i += 1;
    }
    let ghost midway = *files;
    let mut j: usize = 0;
    proof {
        assert forall|path: Seq<char>| #[trigger]
            files.warnings_of(path) == before.warnings_of(path) + filed_under(
                warned.take(0),
                path,
            ) by {
            lemma_filed_under_nothing(warned, path);
            assert(before.warnings_of(path) + Seq::<Finding>::empty() =~= before.warnings_of(path));
        }
        assert forall|path: Seq<char>| !#[trigger] mentions(warned.take(0), path) by {
            lemma_filed_under_nothing(warned, path);
        }
        assert(said.take(said.len() as int) =~= said);
    }
    while j < warnings.len()
        invariant
            j <= warnings@.len(),
            warned == warning_views(warnings@),
            files.wf(),
            forall|path: Seq<char>| #[trigger]
                files.has_path(path) <==> midway.has_path(path) || mentions(
                    warned.take(j as int),
                    path,
                ),
            forall|path: Seq<char>| #[trigger]
                files.warnings_of(path) == before.warnings_of(path) + filed_under(
                    warned.take(j as int),
                    path,
                ),
            forall|path: Seq<char>| #[trigger] files.errors_of(path) == midway.errors_of(path),
            error_count(files@) == error_count(midway@),
            warning_count(files@) == warning_count(before@) + j,
        decreases warnings@.len() - j,
    {
        let ghost previous = *files;
        let warning = ValidationWarning {
            file: warnings[j].file.clone(),
            message: warnings[j].message.clone(),
        };
        assert(warning@ == warned[j as int]);
        insert_warning(files, warning);
        proof {
            assert forall|path: Seq<char>| #[trigger]
                files.has_path(path) <==> midway.has_path(path) || mentions(
                    warned.take(j + 1),
                    path,
                ) by {
                lemma_filed_under_step(warned, j as int, path);
                assert(previous.has_path(path) <==> midway.has_path(path) || mentions(
                    warned.take(j as int),
                    path,
                ));
            }
            assert forall|path: Seq<char>| #[trigger]
                files.warnings_of(path) == before.warnings_of(path) + filed_under(
                    warned.take(j + 1),
                    path,
                ) by {
                lemma_filed_under_step(warned, j as int, path);
                assert(previous.warnings_of(path) == before.warnings_of(path) + filed_under(
                    warned.take(j as int),
                    path,
                ));
                if warned[j as int].file == path {
                    assert(files.warnings_of(path) =~= before.warnings_of(path) + filed_under(
                        warned.take(j + 1),
                        path,
                    ));
                }
            }
        }
        j += 1;
    }
    proof {
        assert(warned.take(warned.len() as int) =~= warned);
    }
}

/// Whether no file of `files` has a finding.
pub open spec fn blank(files: Seq<(String, FileValidationMessages)>) -> bool {
    forall|i: int|
        0 <= i < files.len() ==> (#[trigger] files[i]).1.errors@.len() == 0
            && files[i].1.warnings@.len() == 0
}

/// Files without findings count no error, no warning and no invalid file.
proof fn lemma_blank_counts(files: Seq<(String, FileValidationMessages)>)
    requires
        blank(files),
    ensures
        error_count(files) == 0,
        warning_count(files) == 0,
        invalid_count(files) == 0,
    decreases files.len(),
{
    if files.len() > 0 {
        assert(files.last() == files[files.len() - 1]);
        assert forall|i: int| 0 <= i < files.drop_last().len() implies (
        #[trigger] files.drop_last()[i]).1.errors@.len() == 0
            && files.drop_last()[i].1.warnings@.len() == 0 by {
            assert(files.drop_last()[i] == files[i]);
        }
        lemma_blank_counts(files.drop_last());
    }
}

/// The paths of the files of all records: the contributors' first, then the
/// teams', then the repositories', each in the order of its store.
pub open spec fn record_paths(
    contributors: Seq<(EntityKey, Contributor)>,
    teams: Seq<(EntityKey, Team)>,
    repos: Seq<(EntityKey, Repo)>,
) -> Seq<Seq<char>> {
    Seq::new(contributors.len(), |i: int| contributor_path(contributors[i].0.name@)) + Seq::new(
        teams.len(),
        |i: int| team_path(teams[i].0.name@),
    ) + Seq::new(repos.len(), |i: int| repo_path(repos[i].0.name@))
}

fn paths_of_records(
    contributors: &EntityStore<Contributor>,
    teams: &EntityStore<Team>,
    repos: &EntityStore<Repo>,
) -> (paths: Vec<String>)
    ensures
        texts(paths@) == record_paths(contributors@, teams@, repos@),
{
    let mut paths: Vec<String> = Vec::new();
    let ghost of_contributors = Seq::new(
        contributors@.len(),
        |i: int| contributor_path(contributors@[i].0.name@),
    );
    let ghost of_teams = Seq::new(teams@.len(), |i: int| team_path(teams@[i].0.name@));
    let ghost of_repos = Seq::new(repos@.len(), |i: int| repo_path(repos@[i].0.name@));
    let mut i: usize = 0;
    while i < contributors.entries.len()
        invariant
            i <= contributors@.len(),
            of_contributors == Seq::new(
                contributors@.len(),
                |i: int| contributor_path(contributors@[i].0.name@),
            ),
            texts(paths@) =~= of_contributors.take(i as int),
        decreases contributors@.len() - i,
    {
        let ghost so_far = texts(paths@);
        paths.push(contributor_file(&contributors.entries[i].0));
        proof {
            assert(texts(paths@) =~= so_far.push(of_contributors[i as int]));
            assert(of_contributors.take(i + 1) =~= of_contributors.take(i as int).push(of_contributors[i as int]));
        }
        i += 1;
    }
    let mut j: usize = 0;
    while j < teams.entries.len()
        invariant
            j <= teams@.len(),
            of_teams == Seq::new(teams@.len(), |i: int| team_path(teams@[i].0.name@)),
            texts(paths@) =~= of_contributors + of_teams.take(j as int),
        decreases teams@.len() - j,
    {
        let ghost so_far = texts(paths@);
        paths.push(team_file(&teams.entries[j].0));
        proof {
            assert(texts(paths@) =~= so_far.push(of_teams[j as int]));
            assert(of_teams.take(j + 1) =~= of_teams.take(j as int).push(of_teams[j as int]));
        }
        j += 1;
    }
    let mut k: usize = 0;
    while k < repos.entries.len()
        invariant
            k <= repos@.len(),
            of_repos == Seq::new(repos@.len(), |i: int| repo_path(repos@[i].0.name@)),
            texts(paths@) =~= of_contributors + of_teams + of_repos.take(k as int),
        decreases repos@.len() - k,
    {
        let ghost so_far = texts(paths@);
        paths.push(repo_file(&repos.entries[k].0));
        proof {
            assert(texts(paths@) =~= so_far.push(of_repos[k as int]));
            assert(of_repos.take(k + 1) =~= of_repos.take(k as int).push(of_repos[k as int]));
        }
        k += 1;
    }
    assert(texts(paths@) =~= record_paths(contributors@, teams@, repos@));
    paths
}

/// The ledger before any check: one entry for the file of each record, none
/// of them with a finding.
pub fn record_ledger(
    contributors: &EntityStore<Contributor>,
    teams: &EntityStore<Team>,
    repos: &EntityStore<Repo>,
) -> (ledger: FileLedger)
    ensures
        ledger.wf(),
        blank(ledger@),
        forall|path: Seq<char>| #[trigger]
            ledger.has_path(path) <==> record_paths(contributors@, teams@, repos@).contains(path),
{
    let paths = paths_of_records(contributors, teams, repos);
    let ghost wanted = texts(paths@);
    let mut ledger = FileLedger::new();
    let mut i: usize = 0;
    while i < paths.len()
        invariant
            i <= paths@.len(),
            wanted == texts(paths@),
            ledger.wf(),
            blank(ledger@),
            forall|path: Seq<char>| #[trigger]
                ledger.has_path(path) <==> wanted.take(i as int).contains(path),
        decreases paths@.len() - i,
    {
        let ghost previous = ledger;
        ledger.track(paths[i].clone());
        proof {
            assert forall|n: int| 0 <= n < ledger@.len() implies (#[trigger] ledger@[n]).1.errors@.len()
                == 0 && ledger@[n].1.warnings@.len() == 0 by {
                if n < previous@.len() && ledger@.len() > previous@.len() {
                    assert(ledger@.drop_last()[n] == ledger@[n]);
                }
            }
            assert(wanted.take(i + 1) =~= wanted.take(i as int).push(wanted[i as int]));
            assert forall|path: Seq<char>| #[trigger]
                ledger.has_path(path) <==> wanted.take(i + 1).contains(path) by {
                assert(previous.has_path(path) <==> wanted.take(i as int).contains(path));
                if wanted.take(i as int).contains(path) {
                    let n = choose|n: int|
                        0 <= n < wanted.take(i as int).len() && wanted.take(i as int)[n] == path;
                    assert(wanted.take(i + 1)[n] == path);
                }
                if path == wanted[i as int] {
                    assert(wanted.take(i + 1)[i as int] == path);
                }
            }
        }
        i += 1;
    }
    assert(wanted.take(wanted.len() as int) =~= wanted);
    ledger
}

/// In a ledger whose files have no finding, nothing is filed under any path.
proof fn lemma_blank_paths(ledger: FileLedger, path: Seq<char>)
    requires
        blank(ledger@),
    ensures
        ledger.errors_of(path) == Seq::<Finding>::empty(),
        ledger.warnings_of(path) == Seq::<Finding>::empty(),
{
    if ledger.has_path(path) {
        let at = ledger.position(path);
        assert(ledger@[at].1.errors@.len() == 0);
        assert(ledger.errors_of(path) =~= Seq::<Finding>::empty());
        assert(ledger.warnings_of(path) =~= Seq::<Finding>::empty());
    }
}

/// The counts of the first `i` files, and what the next file adds to them.
proof fn lemma_counts_prefix(files: Seq<(String, FileValidationMessages)>, i: int)
    requires
        0 <= i <= files.len(),
    ensures
        error_count(files.take(i)) <= error_count(files),
        warning_count(files.take(i)) <= warning_count(files),
        invalid_count(files.take(i)) <= i,
        i < files.len() ==> error_count(files.take(i + 1)) == error_count(files.take(i))
            + files[i].1.errors@.len(),
        i < files.len() ==> warning_count(files.take(i + 1)) == warning_count(files.take(i))
            + files[i].1.warnings@.len(),
        i < files.len() ==> invalid_count(files.take(i + 1)) == invalid_count(files.take(i)) + if files[i].1.errors@.len()
            > 0 {
            1nat
        } else {
            0nat
        },
    decreases files.len() - i,
{
    if i < files.len() {
        assert(files.take(i + 1).drop_last() =~= files.take(i));
        assert(files.take(i + 1).last() == files[i]);
        lemma_counts_prefix(files, i + 1);
        lemma_invalid_bound(files.take(i));
    } else {
        assert(files.take(i) =~= files);
        lemma_invalid_bound(files);
    }
}

/// There are no more invalid files than files.
proof fn lemma_invalid_bound(files: Seq<(String, FileValidationMessages)>)
    ensures
        invalid_count(files) <= files.len(),
    decreases files.len(),
{
    if files.len() > 0 {
        lemma_invalid_bound(files.drop_last());
    }
}

/// No file is invalid exactly when there is no error at all. Warnings play
/// no part in it.
pub proof fn lemma_valid_iff_no_error(files: Seq<(String, FileValidationMessages)>)
    ensures
        invalid_count(files) == 0 <==> error_count(files) == 0,
    decreases files.len(),
{
    if files.len() > 0 {
        lemma_valid_iff_no_error(files.drop_last());
    }
}

/// The numbers that sum a run up.
#[derive(Debug, PartialEq, Eq)]
pub struct ValidationStatistics {
    pub contributors_count: usize,
    pub teams_count: usize,
    pub repos_count: usize,
    pub valid_files_count: usize,
    pub invalid_files_count: usize,
    pub total_errors: usize,
    pub total_warnings: usize,
}

/// The result of a run: whether the records are valid, the numbers, and the
/// findings file by file.
#[derive(Debug)]
pub struct ValidationReport {
    pub valid: bool,
    pub stats: ValidationStatistics,
    pub files: FileLedger,
}

impl ValidationReport {
    /// The numbers agree with the ledger, and the report is valid exactly
    /// when no file has an error.
    pub open spec fn wf(self) -> bool {
        &&& self.files.wf()
        &&& self.stats.total_errors == error_count(self.files@)
        &&& self.stats.total_warnings == warning_count(self.files@)
        &&& self.stats.invalid_files_count == invalid_count(self.files@)
        &&& self.stats.valid_files_count + self.stats.invalid_files_count == self.files@.len()
        &&& self.valid == (self.stats.invalid_files_count == 0)
    }
}

/// A report is valid exactly when it counts no error, however many warnings
/// it counts.
pub proof fn lemma_valid_means_no_error(report: ValidationReport)
    requires
        report.wf(),
    ensures
        report.valid <==> report.stats.total_errors == 0,
        report.valid <==> report.stats.valid_files_count == report.files@.len(),
{
    lemma_valid_iff_no_error(report.files@);
}

/// Sums the ledger up into a report.
pub fn summarize(
    contributors_count: usize,
    teams_count: usize,
    repos_count: usize,
    files: FileLedger,
) -> (report: ValidationReport)
    requires
        files.wf(),
        error_count(files@) <= usize::MAX,
        warning_count(files@) <= usize::MAX,
    ensures
        report.wf(),
        report.files == files,
        report.stats.contributors_count == contributors_count,
        report.stats.teams_count == teams_count,
        report.stats.repos_count == repos_count,
        report.valid <==> error_count(files@) == 0,
{
    let mut total_errors: usize = 0;
    let mut total_warnings: usize = 0;
    let mut valid_files_count: usize = 0;
    let mut invalid_files_count: usize = 0;
    let mut i: usize = 0;
    proof {
        lemma_counts_prefix(files@, 0);
        assert(files@.take(0).len() == 0);
    }
    while i < files.entries.len()
        invariant
            i <= files@.len(),
            error_count(files@) <= usize::MAX,
            warning_count(files@) <= usize::MAX,
            total_errors == error_count(files@.take(i as int)),
            total_warnings == warning_count(files@.take(i as int)),
            invalid_files_count == invalid_count(files@.take(i as int)),
            valid_files_count + invalid_files_count == i,
        decreases files@.len() - i,
    {
        proof {
            lemma_counts_prefix(files@, i as int);
            lemma_counts_prefix(files@, i + 1);
        }
        let messages = &files.entries[i].1;
        total_errors = total_errors + messages.errors.len();
        total_warnings = total_warnings + messages.warnings.len();
        if messages.errors.len() == 0 {
            valid_files_count = valid_files_count + 1;
        } else {
            invalid_files_count = invalid_files_count + 1;
        }
        i += 1;
    }
    proof {
        assert(files@.take(files@.len() as int) =~= files@);
        lemma_valid_iff_no_error(files@);
    }
    let stats = ValidationStatistics {
        contributors_count,
        teams_count,
        repos_count,
        valid_files_count,
        invalid_files_count,
        total_errors,
        total_warnings,
    };
    ValidationReport { valid: stats.invalid_files_count == 0, stats, files }
}

/// Whether `files` is the ledger of a run on the records with the paths
/// `records` that found `errors` and `warnings`: it has an entry for each
/// record's path and for each path that a finding names, and under each path
/// the findings filed under it, in the order in which they were found.
pub open spec fn ledger_holds(
    files: FileLedger,
    records: Seq<Seq<char>>,
    errors: Seq<ValidationError>,
    warnings: Seq<ValidationWarning>,
) -> bool {
    &&& forall|path: Seq<char>| #[trigger]
        files.has_path(path) <==> records.contains(path) || mentions(error_views(errors), path)
            || mentions(warning_views(warnings), path)
    &&& forall|path: Seq<char>| #[trigger]
        files.errors_of(path) == filed_under(error_views(errors), path)
    &&& forall|path: Seq<char>| #[trigger]
        files.warnings_of(path) == filed_under(warning_views(warnings), path)
}

/// Gathers the findings of a run into its report. The ledger gets an entry
/// for the file of each record and for each file that a finding names; the
/// findings on a file keep the order in which they were handed in.
pub fn generate_report(
    contributors: &EntityStore<Contributor>,
    teams: &EntityStore<Team>,
    repos: &EntityStore<Repo>,
    errors: &Vec<ValidationError>,
    warnings: &Vec<ValidationWarning>,
) -> (report: ValidationReport)
    ensures
        report.wf(),
        report.stats.contributors_count == contributors@.len(),
        report.stats.teams_count == teams@.len(),
        report.stats.repos_count == repos@.len(),
        report.stats.total_errors == errors@.len(),
        report.stats.total_warnings == warnings@.len(),
        report.valid <==> errors@.len() == 0,
        ledger_holds(
            report.files,
            record_paths(contributors@, teams@, repos@),
            errors@,
            warnings@,
        ),
{
    let mut files = record_ledger(contributors, teams, repos);
    let ghost before = files;
    proof {
        lemma_blank_counts(files@);
    }
    file_findings(&mut files, errors, warnings);
    let error_total: usize = errors.len();
    let warning_total: usize = warnings.len();
    proof {
        assert(error_count(files@) == error_total);
        assert(warning_count(files@) == warning_total);
        assert forall|path: Seq<char>| #[trigger]
            files.errors_of(path) == filed_under(error_views(errors@), path) by {
            lemma_blank_paths(before, path);
            assert(Seq::<Finding>::empty() + filed_under(error_views(errors@), path)
                =~= filed_under(error_views(errors@), path));
        }
        assert forall|path: Seq<char>| #[trigger]
            files.warnings_of(path) == filed_under(warning_views(warnings@), path) by {
            lemma_blank_paths(before, path);
            assert(Seq::<Finding>::empty() + filed_under(warning_views(warnings@), path)
                =~= filed_under(warning_views(warnings@), path));
        }
    }
    summarize(contributors.len(), teams.len(), repos.len(), files)
}

} // verus!
