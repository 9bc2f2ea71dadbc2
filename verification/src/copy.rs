//! Bulk copy as a worklist: the operation decides what is looked at,
//! copied or created next, and keeps the progress account; whoever
//! drives it touches the disk and reports back.

use vstd::prelude::*;
use crate::file_manager::IoFault;
use crate::paths::{file_name, file_name_of, join, joined};

verus! {

/// Why a copy was abandoned.
#[derive(Clone, Copy, Debug, PartialEq, Eq, Structural)]
pub enum CopyError {
    AlreadyExists,
    PermissionDenied,
    IoError,
    InvalidSource,
    OutOfTurn,
}

/// One report of work done, sent after each file.
#[derive(Clone, Debug)]
pub struct CopyProgress {
    pub current_file: String,
    pub total_files: usize,
    pub completed_files: usize,
    pub bytes_copied: u64,
    pub total_bytes: u64,
}

/// One entry met on the first walk over the sources.
#[derive(Clone, Copy, Debug)]
pub struct WorkItem {
    pub is_file: bool,
    pub size: u64,
}

/// A source that still has to be copied into a directory.
#[derive(Debug)]
pub struct PendingCopy {
    pub source: String,
    pub dest_dir: String,
}

/// What a source turned out to be.
#[derive(Debug)]
pub enum SourceKind {
    File { size: u64 },
    Directory { children: Vec<String> },
    Other,
}

/// What the driver reports back.
#[derive(Debug)]
pub enum CopyEvent {
    /// The answer to an inspection.
    Found { kind: SourceKind, target_exists: bool },
    /// The requested copy or creation was carried out.
    Performed,
    /// The request could not be carried out.
    Failed(IoFault),
}

/// What the driver is to do next.
#[derive(Debug)]
pub enum CopyAction {
    /// Find out what `source` is and whether `target` exists.
    Inspect { source: String, target: String },
    /// Copy the bytes of `source` to `target`.
    CopyFile { source: String, target: String },
    /// Create the directory `target` and what leads to it.
    CreateDirectory { target: String },
    /// Nothing: the operation is over, with this result.
    Finish(Result<(), CopyError>),
}

/// Where the operation stands.
#[derive(Debug)]
pub enum CopyPhase {
    Ready,
    Inspecting { source: String, target: String },
    Copying { source: String, size: u64 },
    Creating { target: String, children: Vec<String> },
    Finished(Result<(), CopyError>),
}

pub struct CopyOperation {
    pub source_paths: Vec<String>,
    pub destination: String,
    pub overwrite: bool,
    pub pending: Vec<PendingCopy>,
    pub phase: CopyPhase,
    pub total_files: usize,
    pub total_bytes: u64,
    pub completed_files: usize,
    pub bytes_copied: u64,
}

/// The number of files among the first `n` entries of a walk.
pub open spec fn files_among(work: Seq<WorkItem>, n: int) -> int
    decreases n,
{
    if n <= 0 {
        0
    } else {
        files_among(work, n - 1) + (if work[n - 1].is_file { 1int } else { 0int })
    }
}

/// The bytes held by the files among the first `n` entries of a
/// walk.
pub open spec fn bytes_among(work: Seq<WorkItem>, n: int) -> int
    decreases n,
{
    if n <= 0 {
        0
    } else {
        bytes_among(work, n - 1) + (if work[n - 1].is_file { work[n - 1].size as int } else { 0int })
    }
}

/// `x`, or the largest `u64` where `x` is beyond it.
pub open spec fn capped(x: int) -> int {
    if x > u64::MAX { u64::MAX as int } else { x }
}

/// `x`, or the largest `usize` where `x` is beyond it.
pub open spec fn capped_count(x: int) -> int {
    if x > usize::MAX { usize::MAX as int } else { x }
}

/// The error that a failed disk operation is reported as.
pub open spec fn copy_fault(f: IoFault) -> CopyError {
    match f {
        IoFault::PermissionDenied => CopyError::PermissionDenied,
        IoFault::Other => CopyError::IoError,
    }
}

/// The worklist as plain text: sources with the directories they go
/// into, the next one last.
pub open spec fn worklist(pending: Seq<PendingCopy>) -> Seq<(Seq<char>, Seq<char>)> {
    Seq::new(pending.len(), |i: int| (pending[i].source@, pending[i].dest_dir@))
}

/// The entries that `sources` add to a worklist when all of them go
/// into `dest_dir`: in reverse, so that the first source is taken up
/// first.
pub open spec fn queued_for(sources: Seq<String>, dest_dir: Seq<char>) -> Seq<
    (Seq<char>, Seq<char>),
> {
    Seq::new(sources.len(), |i: int| (sources[sources.len() - 1 - i]@, dest_dir))
}

/// Whether `action` and the state `after` are what taking up the
/// next entry of the worklist `before` leads to: the end of the
/// operation where nothing is left, or where the source has no name
/// to copy under; else the inspection of the source and of the place
/// it is to go to, which lies under its own name in its destination.
pub open spec fn takes_up_next(
    before: Seq<(Seq<char>, Seq<char>)>,
    after: CopyOperation,
    action: CopyAction,
) -> bool {
    if before.len() == 0 {
        &&& worklist(after.pending@) == before
        &&& after.phase == CopyPhase::Finished(Ok(()))
        &&& action == CopyAction::Finish(Ok(()))
    } else {
        let (source, dest_dir) = before.last();
        &&& worklist(after.pending@) == before.drop_last()
        &&& match file_name_of(source) {
            None => {
                &&& after.phase == CopyPhase::Finished(Err(CopyError::InvalidSource))
                &&& action == CopyAction::Finish(Err(CopyError::InvalidSource))
            },
            Some(name) => {
                &&& after.phase matches CopyPhase::Inspecting { source: s, target: t }
                &&& s@ == source
                &&& t@ == joined(dest_dir, name)
                &&& action matches CopyAction::Inspect { source: s2, target: t2 }
                &&& s2@ == source
                &&& t2@ == joined(dest_dir, name)
            },
        }
    }
}

/// Whether the account of `after` is that of `before`.
pub open spec fn same_account(before: CopyOperation, after: CopyOperation) -> bool {
    &&& after.completed_files == before.completed_files
    &&& after.bytes_copied == before.bytes_copied
}

/// Whether `after` and `action` are how the operation ends with
/// `result`, the worklist left as it was.
pub open spec fn ends_with(
    before: CopyOperation,
    after: CopyOperation,
    action: CopyAction,
    result: Result<(), CopyError>,
) -> bool {
    &&& after.phase == CopyPhase::Finished(result)
    &&& action == CopyAction::Finish(result)
    &&& after.pending == before.pending
    &&& same_account(before, after)
}

/// Whether `report` is the progress report owed once the file
/// `source` is copied and the account stands as in `after`.
pub open spec fn reports_file(report: Option<CopyProgress>, source: Seq<char>, after: CopyOperation) -> bool {
    &&& report.is_some()
    &&& report.unwrap().current_file@ == source
    &&& report.unwrap().total_files == after.total_files
    &&& report.unwrap().total_bytes == after.total_bytes
    &&& report.unwrap().completed_files == after.completed_files
    &&& report.unwrap().bytes_copied == after.bytes_copied
}

/// The rule of the operation: what the state becomes, what is to be
/// done next and what is reported, for each place the operation can
/// stand at and each thing the driver can say.
///
/// An inspected file that may be written is to be copied; one whose
/// target exists while nothing may be overwritten ends the operation
/// with `AlreadyExists`. An inspected directory is to be created. A
/// copied file is counted and reported. A created directory puts its
/// children on the worklist, to go into it. A failure ends the
/// operation with its error, and so does an event that answers no
/// request, with `OutOfTurn`. An operation that is over stays so.
pub open spec fn step_rule(
    before: CopyOperation,
    event: CopyEvent,
    after: CopyOperation,
    action: CopyAction,
    report: Option<CopyProgress>,
) -> bool {
    match (before.phase, event) {
        (CopyPhase::Finished(result), _) => {
            &&& ends_with(before, after, action, result)
            &&& report.is_none()
        },
        (CopyPhase::Ready, _) => {
            &&& ends_with(before, after, action, Err(CopyError::OutOfTurn))
            &&& report.is_none()
        },
        (_, CopyEvent::Failed(f)) => {
            &&& ends_with(before, after, action, Err(copy_fault(f)))
            &&& report.is_none()
        },
        (
            CopyPhase::Inspecting { source, target },
            CopyEvent::Found { kind: SourceKind::File { size }, target_exists },
        ) => {
            &&& report.is_none()
            &&& if target_exists && !before.overwrite {
                ends_with(before, after, action, Err(CopyError::AlreadyExists))
            } else {
                &&& after.phase == (CopyPhase::Copying { source, size })
                &&& action matches CopyAction::CopyFile { source: s, target: t }
                &&& s@ == source@
                &&& t@ == target@
                &&& after.pending == before.pending
                &&& same_account(before, after)
            }
        },
        (
            CopyPhase::Inspecting { source, target },
            CopyEvent::Found { kind: SourceKind::Directory { children }, target_exists },
        ) => {
            &&& report.is_none()
            &&& after.phase == (CopyPhase::Creating { target, children })
            &&& action matches CopyAction::CreateDirectory { target: t }
            &&& t@ == target@
            &&& after.pending == before.pending
            &&& same_account(before, after)
        },
        (
            CopyPhase::Inspecting { source, target },
            CopyEvent::Found { kind: SourceKind::Other, target_exists },
        ) => {
            &&& report.is_none()
            &&& same_account(before, after)
            &&& takes_up_next(worklist(before.pending@), after, action)
        },
        (CopyPhase::Copying { source, size }, CopyEvent::Performed) => {
            &&& after.completed_files == capped_count(before.completed_files + 1)
            &&& after.bytes_copied == capped(before.bytes_copied + size)
            &&& reports_file(report, source@, after)
            &&& takes_up_next(worklist(before.pending@), after, action)
        },
        (CopyPhase::Creating { target, children }, CopyEvent::Performed) => {
            &&& report.is_none()
            &&& same_account(before, after)
            &&& takes_up_next(
                worklist(before.pending@) + queued_for(children@, target@),
                after,
                action,
            )
        },
        _ => {
            &&& ends_with(before, after, action, Err(CopyError::OutOfTurn))
            &&& report.is_none()
        },
    }
}

fn copy_error(f: IoFault) -> (e: CopyError)
    ensures
        e == copy_fault(f),
{
    match f {
        IoFault::PermissionDenied => CopyError::PermissionDenied,
        IoFault::Other => CopyError::IoError,
    }
}

/// Adds up the work that a first walk over the sources found: the
/// number of files and the bytes they hold. A sum beyond the range
/// of its type stays at the largest value.
pub fn calculate_work(work: &Vec<WorkItem>) -> (totals: (usize, u64))
    ensures
        totals.0 == capped_count(files_among(work@, work@.len() as int)),
        totals.1 == capped(bytes_among(work@, work@.len() as int)),
{
    let n: usize = work.len();
    let mut files: usize = 0;
    let mut bytes: u64 = 0;
    let mut i: usize = 0;
    while i < n
        invariant
            n == work@.len(),
            i <= n,
            0 <= files_among(work@, i as int),
            0 <= bytes_among(work@, i as int),
            files == capped_count(files_among(work@, i as int)),
            bytes == capped(bytes_among(work@, i as int)),
        decreases n - i,
    {
        if work[i].is_file {
            files = files.saturating_add(1);
            bytes = bytes.saturating_add(work[i].size);
        }
        i += 1;
    }
    (files, bytes)
}

/// Adds `children`, all bound for `dest_dir`, to the worklist, the
/// first child to be taken up first.
fn queue_children(pending: &mut Vec<PendingCopy>, children: &Vec<String>, dest_dir: &String)
    ensures
        worklist(final(pending)@) == worklist(old(pending)@) + queued_for(children@, dest_dir@),
{
    let n: usize = children.len();
    let mut i: usize = n;
    let ghost start = worklist(pending@);
    assert(worklist(pending@) =~= start + queued_for(children@, dest_dir@).subrange(0, 0));
    while i > 0
        invariant
            n == children@.len(),
            i <= n,
            worklist(pending@) == start + queued_for(children@, dest_dir@).subrange(0, n - i),
        decreases i,
    {
        i -= 1;
        let ghost before = worklist(pending@);
        pending.push(PendingCopy { source: children[i].clone(), dest_dir: dest_dir.clone() });
        assert(worklist(pending@) =~= before.push((children@[i as int]@, dest_dir@)));
        assert(worklist(pending@) =~= start + queued_for(children@, dest_dir@).subrange(
            0,
            n - i,
        ));
    }
    assert(queued_for(children@, dest_dir@).subrange(0, n as int) =~= queued_for(
        children@,
        dest_dir@,
    ));
}

impl CopyOperation {
    /// A copy of `source_paths` into `destination` that overwrites
    /// nothing and has not begun.
    pub fn new(source_paths: Vec<String>, destination: String) -> (op: CopyOperation)
        ensures
            op.source_paths == source_paths,
            op.destination == destination,
            !op.overwrite,
            op.pending@.len() == 0,
            op.phase == CopyPhase::Ready,
            op.total_files == 0,
            op.total_bytes == 0,
            op.completed_files == 0,
            op.bytes_copied == 0,
    {
        CopyOperation {
            source_paths,
            destination,
            overwrite: false,
            pending: Vec::new(),
            phase: CopyPhase::Ready,
            total_files: 0,
            total_bytes: 0,
            completed_files: 0,
            bytes_copied: 0,
        }
    }

    /// The same operation with the overwrite policy set.
    pub fn with_overwrite(self, overwrite: bool) -> (op: CopyOperation)
        ensures
            op == (CopyOperation { overwrite, ..self }),
    {
        let mut op = self;
        op.overwrite = overwrite;
        op
    }

    /// Takes up the next entry of the worklist.
    fn take_up_next(&mut self) -> (action: CopyAction)
        ensures
            takes_up_next(worklist(old(self).pending@), *final(self), action),
            final(self).source_paths == old(self).source_paths,
            final(self).destination == old(self).destination,
            final(self).overwrite == old(self).overwrite,
            final(self).total_files == old(self).total_files,
            final(self).total_bytes == old(self).total_bytes,
            same_account(*old(self), *final(self)),
    {
        let ghost before = worklist(self.pending@);
        match self.pending.pop() {
            None => {
                self.phase = CopyPhase::Finished(Ok(()));
                assert(worklist(self.pending@) =~= before);
                CopyAction::Finish(Ok(()))
            },
            Some(next) => {
                assert(worklist(self.pending@) =~= before.drop_last());
                assert(before.last() == (next.source@, next.dest_dir@));
                match file_name(next.source.as_str()) {
                    None => {
                        self.phase = CopyPhase::Finished(Err(CopyError::InvalidSource));
                        CopyAction::Finish(Err(CopyError::InvalidSource))
                    },
                    Some(name) => {
                        let target = join(next.dest_dir.as_str(), name.as_str());
                        let action = CopyAction::Inspect {
                            source: next.source.clone(),
                            target: target.clone(),
                        };
                        self.phase = CopyPhase::Inspecting { source: next.source, target };
                        action
                    },
                }
            },
        }
    }

    /// Ends the operation with `result`.
    fn end(&mut self, result: Result<(), CopyError>) -> (action: CopyAction)
        ensures
            ends_with(*old(self), *final(self), action, result),
            final(self).source_paths == old(self).source_paths,
            final(self).destination == old(self).destination,
            final(self).overwrite == old(self).overwrite,
            final(self).total_files == old(self).total_files,
            final(self).total_bytes == old(self).total_bytes,
    {
        self.phase = CopyPhase::Finished(result);
        CopyAction::Finish(result)
    }

    /// Begins the copy. `work` is what a first walk over all sources
    /// met; it fixes the totals that every progress report carries.
    /// The account starts at nothing, and the destination is to be
    /// created, with what leads to it, as the directory that the
    /// sources go into. An operation that has begun before ends with
    /// `OutOfTurn`.
    pub fn execute(&mut self, work: &Vec<WorkItem>) -> (action: CopyAction)
        ensures
            final(self).source_paths == old(self).source_paths,
            final(self).destination == old(self).destination,
            final(self).overwrite == old(self).overwrite,
            old(self).phase != CopyPhase::Ready ==> {
                &&& ends_with(*old(self), *final(self), action, Err(CopyError::OutOfTurn))
                &&& final(self).total_files == old(self).total_files
                &&& final(self).total_bytes == old(self).total_bytes
            },
            old(self).phase == CopyPhase::Ready ==> {
                &&& final(self).total_files == capped_count(
                    files_among(work@, work@.len() as int),
                )
                &&& final(self).total_bytes == capped(bytes_among(work@, work@.len() as int))
                &&& final(self).completed_files == 0
                &&& final(self).bytes_copied == 0
                &&& final(self).pending@.len() == 0
                &&& final(self).phase matches CopyPhase::Creating { target, children }
                &&& target == old(self).destination
                &&& children@ == old(self).source_paths@
                &&& action matches CopyAction::CreateDirectory { target: asked }
                &&& asked == old(self).destination
            },
    {
        match &self.phase {
            CopyPhase::Ready => {},
            _ => {
                return self.end(Err(CopyError::OutOfTurn));
            },
        }
        let totals = calculate_work(work);
        self.total_files = totals.0;
        self.total_bytes = totals.1;
        self.completed_files = 0;
        self.bytes_copied = 0;
        self.pending = Vec::new();
        let n: usize = self.source_paths.len();
        let mut children: Vec<String> = Vec::new();
        let mut i: usize = 0;
        while i < n
            invariant
                n == self.source_paths@.len(),
                i <= n,
                children@ == self.source_paths@.subrange(0, i as int),
            decreases n - i,
        {
            children.push(self.source_paths[i].clone());
            i += 1;
            assert(children@ =~= self.source_paths@.subrange(0, i as int));
        }
        assert(self.source_paths@.subrange(0, n as int) =~= self.source_paths@);
        self.phase = CopyPhase::Creating { target: self.destination.clone(), children };
        CopyAction::CreateDirectory { target: self.destination.clone() }
    }

    /// Takes the driver's report and says what is to be done next,
    /// with the progress report where a file was just copied. The
    /// totals never change; the account never goes down.
    pub fn step(&mut self, event: CopyEvent) -> (next: (CopyAction, Option<CopyProgress>))
        ensures
            step_rule(*old(self), event, *final(self), next.0, next.1),
            final(self).source_paths == old(self).source_paths,
            final(self).destination == old(self).destination,
            final(self).overwrite == old(self).overwrite,
            final(self).total_files == old(self).total_files,
            final(self).total_bytes == old(self).total_bytes,
            final(self).completed_files >= old(self).completed_files,
            final(self).bytes_copied >= old(self).bytes_copied,
    {
        let mut phase = CopyPhase::Ready;
        std::mem::swap(&mut self.phase, &mut phase);
        match (phase, event) {
            (CopyPhase::Finished(result), _) => {
                let action = self.end(result);
                (action, None)
            },
            (CopyPhase::Ready, _) => {
                let action = self.end(Err(CopyError::OutOfTurn));
                (action, None)
            },
            (_, CopyEvent::Failed(f)) => {
                let action = self.end(Err(copy_error(f)));
                (action, None)
            },
            (
                CopyPhase::Inspecting { source, target },
                CopyEvent::Found { kind: SourceKind::File { size }, target_exists },
            ) => {
                if target_exists && !self.overwrite {
                    let action = self.end(Err(CopyError::AlreadyExists));
                    (action, None)
                } else {
                    let action = CopyAction::CopyFile { source: source.clone(), target };
                    self.phase = CopyPhase::Copying { source, size };
                    (action, None)
                }
            },
            (
                CopyPhase::Inspecting { source, target },
                CopyEvent::Found { kind: SourceKind::Directory { children }, target_exists },
            ) => {
                let action = CopyAction::CreateDirectory { target: target.clone() };
                self.phase = CopyPhase::Creating { target, children };
                (action, None)
            },
            (
                CopyPhase::Inspecting { source, target },
                CopyEvent::Found { kind: SourceKind::Other, target_exists },
            ) => {
                let action = self.take_up_next();
                (action, None)
            },
            (CopyPhase::Copying { source, size }, CopyEvent::Performed) => {
                self.completed_files = self.completed_files.saturating_add(1);
                self.bytes_copied = self.bytes_copied.saturating_add(size);
                let report = CopyProgress {
                    current_file: source,
                    total_files: self.total_files,
                    completed_files: self.completed_files,
                    bytes_copied: self.bytes_copied,
                    total_bytes: self.total_bytes,
                };
                let action = self.take_up_next();
                (action, Some(report))
            },
            (CopyPhase::Creating { target, children }, CopyEvent::Performed) => {
                queue_children(&mut self.pending, &children, &target);
                let action = self.take_up_next();
                (action, None)
            },
            _ => {
                let action = self.end(Err(CopyError::OutOfTurn));
                (action, None)
            },
        }
    }
}

} // verus!
