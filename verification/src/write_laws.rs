//! What an atomic write of the Registry leaves on disk, from its beginning to its end.

use vstd::prelude::*;

use crate::atomic_write;
use crate::atomic_write::{AtomicWriteView, WriteFailureView, WriteRequest, WriteStage};
use crate::environment::EnvironmentView;
use crate::host::{FileReadView, IoErrorKind, IoErrorView};
use crate::model::{MutationBoundary, RegistrationView};
use crate::registry;
use crate::registry::{RegistryErrorView, RegistryFileView};
use crate::text;
use crate::value_laws;

verus! {

/// The Registry file as it would be read, and whether a temporary file may lie beside it.
#[verifier::ext_equal]
pub struct DiskView {
    pub file: FileReadView<RegistryFileView>,
    pub temporary: bool,
    /// The temporary file could not be removed, though it was there.
    pub stuck: bool,
}

impl DiskView {
    /// The disk once a request was carried out with this outcome. An attempt to write a temporary
    /// file may leave one whatever came of it. A removal that finds no file leaves none.
    pub open spec fn after(
        self,
        request: WriteRequest,
        outcome: Result<(), IoErrorView>,
        new: RegistryFileView,
    ) -> Self {
        match request {
            WriteRequest::WriteTemporary => DiskView { temporary: true, ..self },
            WriteRequest::Rename => if outcome is Ok {
                DiskView { file: FileReadView::Parsed(new), temporary: false, ..self }
            } else {
                self
            },
            WriteRequest::RemoveTemporary => match outcome {
                Ok(_) => DiskView { temporary: false, ..self },
                Err(source) => if source.kind == IoErrorKind::NotFound {
                    DiskView { temporary: false, ..self }
                } else {
                    DiskView { stuck: true, ..self }
                },
            },
            _ => self,
        }
    }
}

/// Where a write has come, after some outcomes: its state, the disk, and the boundaries it passed.
#[verifier::ext_equal]
pub struct CourseView {
    pub state: AtomicWriteView,
    pub disk: DiskView,
    pub passed: Seq<MutationBoundary>,
}

/// The course of a write of `new` over a Registry file that read as `before`.
pub open spec fn course(
    before: FileReadView<RegistryFileView>,
    new: RegistryFileView,
    outcomes: Seq<Result<(), IoErrorView>>,
) -> CourseView
    decreases outcomes.len(),
{
    if outcomes.len() == 0 {
        CourseView {
            state: AtomicWriteView::Writing,
            disk: DiskView { file: before, temporary: false, stuck: false },
            passed: Seq::empty(),
        }
    } else {
        let so_far = course(before, new, outcomes.drop_last());
        let request = so_far.state.request();
        CourseView {
            state: so_far.state.advance(outcomes.last()),
            disk: so_far.disk.after(request, outcomes.last(), new),
            passed: match request.boundary_of() {
                Some(boundary) => so_far.passed.push(boundary),
                None => so_far.passed,
            },
        }
    }
}

/// The boundaries of a write, in the order in which it passes them.
pub open spec fn boundaries() -> Seq<MutationBoundary> {
    seq![
        MutationBoundary::TemporaryRegistryWrite,
        MutationBoundary::RegistrySync,
        MutationBoundary::AtomicRegistryReplacement,
        MutationBoundary::RegistryDirectorySync,
    ]
}

/// How many boundaries a write has passed that failed at a stage.
pub open spec fn passed_before(stage: WriteStage) -> int {
    match stage {
        WriteStage::Write => 1,
        WriteStage::Sync => 2,
        WriteStage::Replace => 3,
        WriteStage::Directory => 4,
    }
}

/// What a course has done by the time it is in its state.
spec fn in_course(
    c: CourseView,
    before: FileReadView<RegistryFileView>,
    new: RegistryFileView,
) -> bool {
    let old = c.disk.file == before;
    let replaced = c.disk.file == FileReadView::Parsed(new) && !c.disk.temporary;
    let failed = |failure: WriteFailureView|
        c.passed == boundaries().take(passed_before(failure.stage)) && if failure.stage
            == WriteStage::Directory {
            replaced
        } else {
            old
        };
    match c.state {
        AtomicWriteView::Writing => old && !c.disk.temporary && c.passed == boundaries().take(0),
        AtomicWriteView::Syncing => old && c.passed == boundaries().take(1),
        AtomicWriteView::Replacing => old && c.passed == boundaries().take(2),
        AtomicWriteView::SyncingDirectory => replaced && c.passed == boundaries().take(3),
        AtomicWriteView::CleaningUp(failure) => failed(failure),
        AtomicWriteView::Finished(Ok(_)) => replaced && c.passed == boundaries(),
        AtomicWriteView::Finished(Err(failure)) => failed(failure) && (c.disk.temporary
            ==> c.disk.stuck),
    }
}

proof fn courses_keep_to_it(
    before: FileReadView<RegistryFileView>,
    new: RegistryFileView,
    outcomes: Seq<Result<(), IoErrorView>>,
)
    ensures
        in_course(course(before, new, outcomes), before, new),
    decreases outcomes.len(),
{
    let all = boundaries();
    assert(all.take(0) =~= Seq::empty());
    assert(all.take(1) =~= all.take(0).push(all[0]));
    assert(all.take(2) =~= all.take(1).push(all[1]));
    assert(all.take(3) =~= all.take(2).push(all[2]));
    assert(all.take(4) =~= all.take(3).push(all[3]));
    assert(all.take(4) =~= all);
    if outcomes.len() > 0 {
        courses_keep_to_it(before, new, outcomes.drop_last());
    }
}

/// A write passes its boundaries in order and stops at the first that fails. It ends well exactly
/// where it has passed all of them; the Registry file then holds what was written. Where it fails
/// to sync the directory at last, the file holds that too, and before that it is as it was. No
/// temporary file is left unless one was there and could not be removed.
pub proof fn a_write_from_beginning_to_end(
    before: FileReadView<RegistryFileView>,
    new: RegistryFileView,
    outcomes: Seq<Result<(), IoErrorView>>,
)
    requires
        course(before, new, outcomes).state is Finished,
    ensures
        ({
            let end = course(before, new, outcomes);
            match end.state->Finished_0 {
                Ok(_) => {
                    &&& end.passed == boundaries()
                    &&& end.disk.file == FileReadView::Parsed(new)
                    &&& !end.disk.temporary
                },
                Err(failure) => {
                    &&& end.passed == boundaries().take(passed_before(failure.stage))
                    &&& end.disk.file == if failure.stage == WriteStage::Directory {
                        FileReadView::Parsed(new)
                    } else {
                        before
                    }
                    &&& end.disk.temporary ==> end.disk.stuck
                },
            }
        }),
{
    courses_keep_to_it(before, new, outcomes);
}

/// A write that is over has left a temporary file only where the attempt to remove it failed in
/// another way than by finding none.
pub proof fn no_temporary_file_is_left(
    before: FileReadView<RegistryFileView>,
    new: RegistryFileView,
    outcomes: Seq<Result<(), IoErrorView>>,
)
    requires
        course(before, new, outcomes).state is Finished,
        forall|i: int|
            0 <= i < outcomes.len() && course(
                before,
                new,
                #[trigger] outcomes.take(i),
            ).state.request() == WriteRequest::RemoveTemporary ==> (outcomes[i] is Ok
                || outcomes[i]->Err_0.kind == IoErrorKind::NotFound),
    ensures
        !course(before, new, outcomes).disk.temporary,
{
    courses_keep_to_it(before, new, outcomes);
    nothing_gets_stuck(before, new, outcomes);
}

proof fn nothing_gets_stuck(
    before: FileReadView<RegistryFileView>,
    new: RegistryFileView,
    outcomes: Seq<Result<(), IoErrorView>>,
)
    requires
        forall|i: int|
            0 <= i < outcomes.len() && course(
                before,
                new,
                #[trigger] outcomes.take(i),
            ).state.request() == WriteRequest::RemoveTemporary ==> (outcomes[i] is Ok
                || outcomes[i]->Err_0.kind == IoErrorKind::NotFound),
    ensures
        !course(before, new, outcomes).disk.stuck,
    decreases outcomes.len(),
{
    if outcomes.len() > 0 {
        let earlier = outcomes.drop_last();
        assert forall|i: int|
            0 <= i < earlier.len() && course(
                before,
                new,
                #[trigger] earlier.take(i),
            ).state.request() == WriteRequest::RemoveTemporary implies (earlier[i] is Ok
            || earlier[i]->Err_0.kind == IoErrorKind::NotFound) by {
            assert(earlier.take(i) =~= outcomes.take(i));
        }
        nothing_gets_stuck(before, new, earlier);
        assert(outcomes.take(outcomes.len() - 1) =~= earlier);
    }
}

/// A failed replacement counts as committed exactly where the write has replaced the file: then the
/// file holds the new contents, and else it is as it was.
pub proof fn a_committed_failure_has_replaced_the_file(
    before: FileReadView<RegistryFileView>,
    new: RegistryFileView,
    outcomes: Seq<Result<(), IoErrorView>>,
    failure: WriteFailureView,
    temporary: Seq<u8>,
    path: Seq<u8>,
)
    requires
        course(before, new, outcomes).state == AtomicWriteView::Finished(Err(failure)),
    ensures
        ({
            let end = course(before, new, outcomes);
            let committed = registry::write_error(failure, temporary, path).committed();
            &&& committed == end.state.committed()
            &&& end.disk.file == if committed {
                FileReadView::Parsed(new)
            } else {
                before
            }
            &&& before != FileReadView::Parsed(new) ==> (committed <==> end.disk.file
                == FileReadView::Parsed(new))
        }),
{
    courses_keep_to_it(before, new, outcomes);
}

/// Registrations that are sound and can be spelled are read back from where a write has put them,
/// whether it ended well or failed after the file was replaced.
pub proof fn written_registrations_read_back(
    registrations: Seq<RegistrationView>,
    environment: EnvironmentView,
    before: FileReadView<RegistryFileView>,
    outcomes: Seq<Result<(), IoErrorView>>,
)
    requires
        registry::sound(registrations),
        forall|i: int|
            0 <= i < registrations.len() ==> registry::spellable(
                (#[trigger] registrations[i]).target,
                environment.home,
            ),
    ensures
        registry::stored(registrations, environment) matches Ok(new) && {
            let end = course(before, new, outcomes);
            end.state is Finished && end.state.committed() ==> registry::loaded(
                environment,
                end.disk.file,
            ) == Ok::<Seq<RegistrationView>, RegistryErrorView>(registrations)
        },
{
    registry::a_stored_registry_reads_back(registrations, environment);
    let new = registry::stored(registrations, environment)->Ok_0;
    courses_keep_to_it(before, new, outcomes);
}

proof fn parted_at_the_first_dot(a: Seq<char>, b: Seq<char>, x: Seq<char>, y: Seq<char>)
    requires
        !a.contains('.'),
        !b.contains('.'),
        a + seq!['.'] + x == b + seq!['.'] + y,
    ensures
        a == b,
        x == y,
{
    let s = a + seq!['.'] + x;
    let t = b + seq!['.'] + y;
    if a.len() < b.len() {
        assert(s[a.len() as int] == '.');
        assert(t[a.len() as int] == b[a.len() as int]);
        assert(b.contains('.'));
    }
    if b.len() < a.len() {
        assert(t[b.len() as int] == '.');
        assert(s[b.len() as int] == a[b.len() as int]);
        assert(a.contains('.'));
    }
    assert forall|i: int| 0 <= i < a.len() implies a[i] == b[i] by {
        assert(s[i] == a[i] && t[i] == b[i]);
    }
    assert(a =~= b);
    assert(s.len() == t.len());
    assert forall|i: int| 0 <= i < x.len() implies x[i] == y[i] by {
        assert(s[a.len() + 1 + i] == x[i] && t[a.len() + 1 + i] == y[i]);
    }
    assert(x =~= y);
}

proof fn digits_hold_no_dot(n: nat)
    ensures
        !text::decimal(n).contains('.'),
{
    value_laws::what_a_decimal_number_is(n);
    let digits = text::decimal(n);
    if digits.contains('.') {
        let i = choose|i: int| 0 <= i < digits.len() && digits[i] == '.';
        assert('0' <= digits[i] <= '9');
    }
}

/// No two processes use the same temporary file, and no process uses one twice: the names differ
/// where the processes or the times do. Each of them is hidden.
pub proof fn temporary_files_are_distinct(label: Seq<char>, p: nat, q: nat, m: nat, n: nat)
    requires
        atomic_write::temporary_name(label, p, m) == atomic_write::temporary_name(label, q, n),
    ensures
        p == q,
        m == n,
        atomic_write::temporary_name(label, p, m)[0] == '.',
{
    reveal_strlit(".");
    reveal_strlit(".tmp");
    assert("."@ =~= seq!['.']);
    let a = text::decimal(p);
    let b = text::decimal(q);
    let tmp = seq!['t', 'm', 'p'];
    assert(".tmp"@ =~= seq!['.'] + tmp);
    let x = text::decimal(m);
    let y = text::decimal(n);
    let head = seq!['.'] + label + seq!['.'];
    let left = a + seq!['.'] + (x + seq!['.'] + tmp);
    let right = b + seq!['.'] + (y + seq!['.'] + tmp);
    assert(atomic_write::temporary_name(label, p, m) =~= head + left);
    assert(atomic_write::temporary_name(label, q, n) =~= head + right);
    assert(left =~= (head + left).skip(head.len() as int));
    assert(right =~= (head + right).skip(head.len() as int));
    digits_hold_no_dot(p);
    digits_hold_no_dot(q);
    digits_hold_no_dot(m);
    digits_hold_no_dot(n);
    parted_at_the_first_dot(a, b, x + seq!['.'] + tmp, y + seq!['.'] + tmp);
    parted_at_the_first_dot(x, y, tmp, tmp);
    value_laws::what_a_decimal_number_is(p);
    value_laws::what_a_decimal_number_is(q);
    value_laws::what_a_decimal_number_is(m);
    value_laws::what_a_decimal_number_is(n);
}

} // verus!
