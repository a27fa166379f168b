//! Planning and conflict resolution for one batch of files.
//!
//! The planner turns each input file into a proposed copy/move action whose
//! destination is derived from the capture timestamp and the date-folder
//! pattern. The resolver splits the proposed actions into a clean group and
//! a colliding group: an action collides when an earlier action in the batch
//! already claimed its destination, or when the destination is among the
//! paths the caller reports as already existing on disk. A conflict policy
//! then decides the final action list. All counting is independent of
//! whether the run is a dry run.

use vstd::prelude::*;

use crate::datefmt::Timestamp;
use crate::datefmt::spec_format_valid;
use crate::datefmt::spec_render_format;
use crate::datefmt::render_date_folder;
use crate::datefmt::validate_format;
use crate::file::FileOperation;
use crate::file::FileOperationView;
use crate::file::clone_operation;
use crate::file::destination_of;
use crate::file::source_of;
use crate::pathname::spec_basename;
use crate::pathname::spec_join;
use crate::pathname::basename;
use crate::pathname::join;
use crate::pathname::contains_string;
use crate::pathname::str_eq;

verus! {

/// How to treat actions whose destination collides.
#[derive(Debug)]
pub enum HandleFileConflict {
    /// Leave colliding sources untouched; only clean actions run.
    DoNothing,
    /// Run clean actions first, then colliding ones, letting them overwrite.
    Overwrite,
    /// Reserved and unimplemented: selecting it is a configuration error.
    Rename,
    /// Send each colliding source's basename into this flat folder.
    MoveToDuplicateFolder(String),
}

/// How to treat files without a capture timestamp.
#[derive(Debug)]
pub enum HandleNoDate {
    /// Plan no action for them.
    DoNothing,
    /// Send each one's basename into this flat folder.
    MoveToNoDateFolder(String),
}

/// Whether planned actions copy or move their files.
#[derive(Clone, Copy, Debug, PartialEq, Eq, Structural)]
pub enum OperationType {
    Copy,
    Move,
}

/// Why an operation was refused before anything was planned or applied.
#[derive(Clone, Copy, Debug, PartialEq, Eq, Structural)]
pub enum OperationError {
    /// The date-folder pattern holds an unsupported token.
    InvalidDateFolderFormat,
    /// The reserved `Rename` conflict policy was selected.
    UnsupportedConflictPolicy,
    /// Overwriting and a duplicate folder were both requested.
    ConflictingPolicyFlags,
    /// An operation-type word other than `copy` or `move`.
    InvalidOperationType,
}

impl OperationType {
    /// Reads an operation type from its configuration word.
    pub fn parse(s: &str) -> (r: Result<OperationType, OperationError>)
        ensures
            s@ == "copy"@ ==> r == Ok::<OperationType, OperationError>(OperationType::Copy),
            s@ == "move"@ ==> r == Ok::<OperationType, OperationError>(OperationType::Move),
            s@ != "copy"@ && s@ != "move"@ ==> r == Err::<OperationType, OperationError>(
                OperationError::InvalidOperationType,
            ),
    {
        proof {
            reveal_strlit("copy");
            reveal_strlit("move");
            assert("copy"@[0] == 'c' && "move"@[0] == 'm');
            assert("copy"@ != "move"@);
        }
        if str_eq(s, "copy") {
            Ok(OperationType::Copy)
        } else if str_eq(s, "move") {
            Ok(OperationType::Move)
        } else {
            Err(OperationError::InvalidOperationType)
        }
    }

    /// The configuration word for this operation type.
    pub fn as_str(&self) -> (r: &'static str)
        ensures
            *self is Copy ==> r@ == "copy"@,
            *self is Move ==> r@ == "move"@,
    {
        match self {
            OperationType::Copy => "copy",
            OperationType::Move => "move",
        }
    }
}

/// Builds the conflict policy from the two command flags; requesting both at
/// once is a configuration error.
pub fn conflict_policy_from_flags(overwrite_duplicates: bool, duplicate_folder: Option<
    String,
>) -> (r: Result<HandleFileConflict, OperationError>)
    ensures
        overwrite_duplicates && duplicate_folder is Some ==> r == Err::<
            HandleFileConflict,
            OperationError,
        >(OperationError::ConflictingPolicyFlags),
        overwrite_duplicates && duplicate_folder is None ==> r == Ok::<
            HandleFileConflict,
            OperationError,
        >(HandleFileConflict::Overwrite),
        !overwrite_duplicates && duplicate_folder is Some ==> (duplicate_folder matches Some(f)
            && r == Ok::<HandleFileConflict, OperationError>(
            HandleFileConflict::MoveToDuplicateFolder(f),
        )),
        !overwrite_duplicates && duplicate_folder is None ==> r == Ok::<
            HandleFileConflict,
            OperationError,
        >(HandleFileConflict::DoNothing),
{
    match (overwrite_duplicates, duplicate_folder) {
        (true, Some(_)) => Err(OperationError::ConflictingPolicyFlags),
        (true, None) => Ok(HandleFileConflict::Overwrite),
        (false, Some(path)) => Ok(HandleFileConflict::MoveToDuplicateFolder(path)),
        (false, None) => Ok(HandleFileConflict::DoNothing),
    }
}

/// A source and destination pair, before the operation type is chosen.
#[derive(Debug)]
pub struct MoveOperation {
    pub source: String,
    pub destination: String,
}

/// Immutable configuration for one run.
#[derive(Debug)]
pub struct OperationConfig {
    pub output_folder: String,
    pub operation_type: OperationType,
    pub handle_conflicts: HandleFileConflict,
    pub handle_no_date: HandleNoDate,
    pub date_folder_format: String,
}

/// A file together with its capture timestamp.
#[derive(Debug)]
pub struct DateTimeFile {
    pub date_time: Timestamp,
    pub path: String,
}

/// One discovered file: either dated or without a capture timestamp.
#[derive(Debug)]
pub enum OperationFile {
    ExifFile(DateTimeFile),
    NoDateFile(String),
}

/// The mathematical view of an [`OperationFile`].
pub enum OperationFileView {
    ExifFile { date_time: Timestamp, path: Seq<char> },
    NoDateFile { path: Seq<char> },
}

impl DeepView for OperationFile {
    type V = OperationFileView;

    open spec fn deep_view(&self) -> OperationFileView {
        match self {
            OperationFile::ExifFile(f) => OperationFileView::ExifFile {
                date_time: f.date_time,
                path: f.path@,
            },
            OperationFile::NoDateFile(path) => OperationFileView::NoDateFile { path: path@ },
        }
    }
}

impl OperationFile {
    /// A dated file carries a well-formed timestamp.
    pub open spec fn timestamp_well_formed(&self) -> bool {
        match self {
            OperationFile::ExifFile(f) => f.date_time.well_formed(),
            OperationFile::NoDateFile(_) => true,
        }
    }
}

/// The whole input of one run: the discovered files and the configuration.
#[derive(Debug)]
pub struct Operation {
    pub files: Vec<OperationFile>,
    pub config: OperationConfig,
}

impl Operation {
    /// Every dated file carries a well-formed timestamp; guaranteed when the
    /// timestamps come from [`crate::exif::timestamp_from_exif_line`].
    pub open spec fn wf(&self) -> bool {
        forall|i: int|
            0 <= i < self.files@.len() ==> (#[trigger] self.files@[i]).timestamp_well_formed()
    }
}

/// The counts one run reports.
#[derive(Debug, PartialEq, Eq, Structural)]
pub struct OperationResults {
    /// Actions classified clean (they would be or were applied as planned).
    pub no_duplicates: usize,
    /// Actions classified colliding.
    pub duplicates: usize,
    /// Input files without a capture timestamp.
    pub no_date: usize,
}

/// Turns a source/destination pair into a copy or move action.
pub fn move_operation_to_file_operation(
    move_operation: &MoveOperation,
    operation_type: &OperationType,
) -> (r: FileOperation)
    ensures
        r.deep_view().source() == move_operation.source@,
        r.deep_view().destination() == move_operation.destination@,
        r.deep_view().is_move() <==> *operation_type is Move,
{
    match operation_type {
        OperationType::Copy => FileOperation::Copy {
            source: move_operation.source.clone(),
            destination: move_operation.destination.clone(),
        },
        OperationType::Move => FileOperation::Move {
            source: move_operation.source.clone(),
            destination: move_operation.destination.clone(),
        },
    }
}

/// Turns one discovered file into the planner's input form: dated when a
/// timestamp was read for it, undated otherwise.
pub fn operation_file_from_exif(file: crate::exif::ExifFile) -> (r: OperationFile)
    ensures
        file.date_time matches Some(ts) ==> r == OperationFile::ExifFile(
            DateTimeFile { date_time: ts, path: file.path },
        ),
        file.date_time is None ==> r == OperationFile::NoDateFile(file.path),
{
    match file.date_time {
        Some(date_time) => OperationFile::ExifFile(DateTimeFile { date_time, path: file.path }),
        None => OperationFile::NoDateFile(file.path),
    }
}

/// An action of the configured kind for the given paths.
pub open spec fn spec_make_action(
    kind: OperationType,
    source: Seq<char>,
    destination: Seq<char>,
) -> FileOperationView {
    match kind {
        OperationType::Copy => FileOperationView::Copy { source, destination },
        OperationType::Move => FileOperationView::Move { source, destination },
    }
}

/// The destination of a dated file: the output folder, then the rendered
/// date folder, then the file's basename.
pub open spec fn spec_dated_destination(
    config: OperationConfig,
    date_time: Timestamp,
    path: Seq<char>,
) -> Seq<char> {
    spec_join(
        spec_join(config.output_folder@, spec_render_format(config.date_folder_format@, date_time)),
        spec_basename(path),
    )
}

/// The action planned for one file, if any: dated files go under the date
/// folder; undated ones follow the no-date policy.
pub open spec fn spec_planned_action(config: OperationConfig, file: OperationFileView) -> Option<
    FileOperationView,
> {
    match file {
        OperationFileView::ExifFile { date_time, path } => Some(
            spec_make_action(
                config.operation_type,
                path,
                spec_dated_destination(config, date_time, path),
            ),
        ),
        OperationFileView::NoDateFile { path } => match config.handle_no_date {
            HandleNoDate::DoNothing => None,
            HandleNoDate::MoveToNoDateFolder(folder) => Some(
                spec_make_action(
                    config.operation_type,
                    path,
                    spec_join(folder@, spec_basename(path)),
                ),
            ),
        },
    }
}

/// The actions planned for the files from index `i` on, in input order.
pub open spec fn spec_plan_from(
    files: Seq<OperationFileView>,
    config: OperationConfig,
    i: int,
) -> Seq<FileOperationView>
    decreases files.len() - i,
{
    if i < 0 || i >= files.len() {
        Seq::empty()
    } else {
        match spec_planned_action(config, files[i]) {
            Some(a) => seq![a] + spec_plan_from(files, config, i + 1),
            None => spec_plan_from(files, config, i + 1),
        }
    }
}

/// The actions planned for the whole batch, in input order.
pub open spec fn spec_plan(files: Seq<OperationFileView>, config: OperationConfig) -> Seq<
    FileOperationView,
> {
    spec_plan_from(files, config, 0)
}

/// How many of the files from index `i` on lack a capture timestamp.
pub open spec fn spec_no_date_from(files: Seq<OperationFileView>, i: int) -> int
    decreases files.len() - i,
{
    if i < 0 || i >= files.len() {
        0
    } else {
        (if files[i] is NoDateFile {
            1int
        } else {
            0int
        }) + spec_no_date_from(files, i + 1)
    }
}

/// How many files of the batch lack a capture timestamp.
pub open spec fn spec_no_date_count(files: Seq<OperationFileView>) -> int {
    spec_no_date_from(files, 0)
}

/// Builds the proposed action list from the input files, in input order, and
/// counts the files without a timestamp.
pub fn plan_file_operations(operation: &Operation) -> (r: (Vec<FileOperation>, usize))
    requires
        spec_format_valid(operation.config.date_folder_format@),
        operation.wf(),
    ensures
        r.0.deep_view() == spec_plan(operation.files.deep_view(), operation.config),
        r.1 == spec_no_date_count(operation.files.deep_view()),
{
    let ghost filesv = operation.files.deep_view();
    let ghost config = operation.config;
    let mut out: Vec<FileOperation> = Vec::new();
    let mut no_date_files_len: usize = 0;
    let mut i: usize = 0;
    proof {
        assert(out.deep_view() =~= Seq::<FileOperationView>::empty());
    }
    while i < operation.files.len()
        invariant
            spec_format_valid(operation.config.date_folder_format@),
            operation.wf(),
            filesv == operation.files.deep_view(),
            config == operation.config,
            0 <= i <= filesv.len(),
            filesv.len() == operation.files@.len(),
            no_date_files_len <= i,
            out.deep_view() + spec_plan_from(filesv, config, i as int) == spec_plan(
                filesv,
                config,
            ),
            no_date_files_len + spec_no_date_from(filesv, i as int) == spec_no_date_count(filesv),
        decreases filesv.len() - i,
    {
        let ghost out0 = out.deep_view();
        let file = &operation.files[i];
        proof {
            assert(filesv[i as int] == file.deep_view());
        }
        match file {
            OperationFile::ExifFile(f) => {
                let folder = render_date_folder(
                    operation.config.date_folder_format.as_str(),
                    &f.date_time,
                );
                let stem = join(operation.config.output_folder.as_str(), folder.as_str());
                let destination = join(stem.as_str(), basename(f.path.as_str()));
                let source = f.path.clone();
                let action = match operation.config.operation_type {
                    OperationType::Copy => FileOperation::Copy { source, destination },
                    OperationType::Move => FileOperation::Move { source, destination },
                };
                proof {
                    assert(Some(action.deep_view()) == spec_planned_action(
                        config,
                        filesv[i as int],
                    ));
                }
                out.push(action);
                proof {
                    assert(out.deep_view() =~= out0 + seq![
                        spec_planned_action(config, filesv[i as int]).unwrap(),
                    ]);
                }
            },
            OperationFile::NoDateFile(path) => {
                match &operation.config.handle_no_date {
                    HandleNoDate::DoNothing => {},
                    HandleNoDate::MoveToNoDateFolder(folder) => {
                        let destination = join(folder.as_str(), basename(path.as_str()));
                        let source = path.clone();
                        let action = match operation.config.operation_type {
                            OperationType::Copy => FileOperation::Copy { source, destination },
                            OperationType::Move => FileOperation::Move { source, destination },
                        };
                        proof {
                            assert(Some(action.deep_view()) == spec_planned_action(
                                config,
                                filesv[i as int],
                            ));
                        }
                        out.push(action);
                        proof {
                            assert(out.deep_view() =~= out0 + seq![
                                spec_planned_action(config, filesv[i as int]).unwrap(),
                            ]);
                        }
                    },
                }
                no_date_files_len = no_date_files_len + 1;
            },
        }
        proof {
            assert(out0 + (spec_plan_from(filesv, config, i as int)) == spec_plan(filesv, config));
            assert((out0 + spec_plan_from(filesv, config, i as int)) =~= (out.deep_view()
                + spec_plan_from(filesv, config, i as int + 1)));
        }
        i = i + 1;
    }
    proof {
        assert(out.deep_view() + Seq::<FileOperationView>::empty() =~= out.deep_view());
    }
    (out, no_date_files_len)
}

/// Whether the action at index `i` collides: its destination was already
/// claimed by an earlier action of the batch, or already exists on disk.
pub open spec fn spec_collides_at(
    actions: Seq<FileOperationView>,
    existing: Seq<Seq<char>>,
    i: int,
) -> bool {
    ||| existing.contains(actions[i].destination())
    ||| exists|j: int|
        0 <= j < i && #[trigger] actions[j].destination() == actions[i].destination()
}

/// The clean actions among `actions[i ..]`, in input order.
pub open spec fn spec_clean_from(
    actions: Seq<FileOperationView>,
    existing: Seq<Seq<char>>,
    i: int,
) -> Seq<FileOperationView>
    decreases actions.len() - i,
{
    if i < 0 || i >= actions.len() {
        Seq::empty()
    } else if spec_collides_at(actions, existing, i) {
        spec_clean_from(actions, existing, i + 1)
    } else {
        seq![actions[i]] + spec_clean_from(actions, existing, i + 1)
    }
}

/// The colliding actions among `actions[i ..]`, in input order.
pub open spec fn spec_colliding_from(
    actions: Seq<FileOperationView>,
    existing: Seq<Seq<char>>,
    i: int,
) -> Seq<FileOperationView>
    decreases actions.len() - i,
{
    if i < 0 || i >= actions.len() {
        Seq::empty()
    } else if spec_collides_at(actions, existing, i) {
        seq![actions[i]] + spec_colliding_from(actions, existing, i + 1)
    } else {
        spec_colliding_from(actions, existing, i + 1)
    }
}

/// The clean actions of the batch, first claim winning.
pub open spec fn spec_clean(actions: Seq<FileOperationView>, existing: Seq<Seq<char>>) -> Seq<
    FileOperationView,
> {
    spec_clean_from(actions, existing, 0)
}

/// The colliding actions of the batch.
pub open spec fn spec_colliding(actions: Seq<FileOperationView>, existing: Seq<Seq<char>>) -> Seq<
    FileOperationView,
> {
    spec_colliding_from(actions, existing, 0)
}

/// Splits the proposed actions into clean and colliding groups, both in input
/// order. An action is colliding when an earlier action already claimed its
/// destination or when the destination is among `existing`, the destinations
/// the caller found on disk; otherwise it is clean and claims its
/// destination.
pub fn find_duplicates(file_operations: &Vec<FileOperation>, existing: &Vec<String>) -> (r: (
    Vec<FileOperation>,
    Vec<FileOperation>,
))
    ensures
        r.0.deep_view() == spec_clean(file_operations.deep_view(), existing.deep_view()),
        r.1.deep_view() == spec_colliding(file_operations.deep_view(), existing.deep_view()),
{
    let ghost opsv = file_operations.deep_view();
    let ghost exv = existing.deep_view();
    let mut not_duplicates: Vec<FileOperation> = Vec::new();
    let mut duplicates: Vec<FileOperation> = Vec::new();
    let mut seen: Vec<String> = Vec::new();
    let mut i: usize = 0;
    proof {
        assert(not_duplicates.deep_view() =~= Seq::<FileOperationView>::empty());
        assert(duplicates.deep_view() =~= Seq::<FileOperationView>::empty());
        assert(seen.deep_view().len() == 0);
    }
    while i < file_operations.len()
        invariant
            opsv == file_operations.deep_view(),
            exv == existing.deep_view(),
            0 <= i <= opsv.len(),
            opsv.len() == file_operations@.len(),
            seen.deep_view().len() == i as int,
            forall|j: int| 0 <= j < i ==> #[trigger] seen.deep_view()[j] == opsv[j].destination(),
            not_duplicates.deep_view() + spec_clean_from(opsv, exv, i as int) == spec_clean(
                opsv,
                exv,
            ),
            duplicates.deep_view() + spec_colliding_from(opsv, exv, i as int) == spec_colliding(
                opsv,
                exv,
            ),
        decreases opsv.len() - i,
    {
        let ghost clean0 = not_duplicates.deep_view();
        let ghost coll0 = duplicates.deep_view();
        let operation = &file_operations[i];
        proof {
            assert(opsv[i as int] == operation.deep_view());
        }
        let destination = destination_of(operation);
        let ghost destv = destination@;
        let dup = contains_string(&seen, destination.as_str()) || contains_string(
            existing,
            destination.as_str(),
        );
        proof {
            let seenv = seen.deep_view();
            assert(seenv.contains(destv) <==> exists|j: int|
                0 <= j < i && #[trigger] opsv[j].destination() == destv) by {
                if seenv.contains(destv) {
                    let k = choose|k: int| 0 <= k < seenv.len() && seenv[k] == destv;
                    assert(opsv[k].destination() == destv);
                }
                if exists|j: int| 0 <= j < i && #[trigger] opsv[j].destination() == destv {
                    let j = choose|j: int|
                        0 <= j < i && #[trigger] opsv[j].destination() == destv;
                    assert(seenv[j] == destv);
                }
            }
            assert(dup == spec_collides_at(opsv, exv, i as int));
        }
        let kept = clone_operation(operation);
        if dup {
            duplicates.push(kept);
            proof {
                assert(duplicates.deep_view() =~= coll0 + seq![opsv[i as int]]);
                assert((coll0 + seq![opsv[i as int]]) + spec_colliding_from(opsv, exv, i as int + 1)
                    =~= coll0 + spec_colliding_from(opsv, exv, i as int));
            }
        } else {
            not_duplicates.push(kept);
            proof {
                assert(not_duplicates.deep_view() =~= clean0 + seq![opsv[i as int]]);
                assert((clean0 + seq![opsv[i as int]]) + spec_clean_from(opsv, exv, i as int + 1)
                    =~= clean0 + spec_clean_from(opsv, exv, i as int));
            }
        }
        let ghost seen0 = seen.deep_view();
        let claimed = destination.clone();
        proof {
            assert(claimed@ == destv);
        }
        seen.push(claimed);
        proof {
            assert(seen.deep_view().len() == i + 1);
            assert(forall|j: int| 0 <= j < i ==> seen.deep_view()[j] == seen0[j]);
            assert(seen.deep_view()[i as int] == destv);
            assert(destv == opsv[i as int].destination());
            assert(forall|j: int| 0 <= j < i ==> #[trigger] seen0[j] == opsv[j].destination());
            assert forall|j: int|
                0 <= j < i + 1 implies #[trigger] seen.deep_view()[j]
                == opsv[j].destination() by {
                if j < i {
                    assert(seen.deep_view()[j] == seen0[j]);
                    assert(seen0[j] == opsv[j].destination());
                } else {
                    assert(seen.deep_view()[j] == destv);
                }
            }
        }
        i = i + 1;
    }
    proof {
        assert(not_duplicates.deep_view() + Seq::<FileOperationView>::empty()
            =~= not_duplicates.deep_view());
        assert(duplicates.deep_view() + Seq::<FileOperationView>::empty()
            =~= duplicates.deep_view());
    }
    (not_duplicates, duplicates)
}

/// The colliding action sent to the duplicate folder: same file, same kind
/// of work, destination `folder / basename(source)`.
pub open spec fn spec_redirect(a: FileOperationView, folder: Seq<char>) -> FileOperationView {
    a.redirected_to(spec_join(folder, spec_basename(a.source())))
}

/// The final action list a conflict policy produces. Selecting `Rename` is
/// reported as a configuration error before any list is built, so its value
/// here is never consulted.
pub open spec fn spec_apply_policy(
    clean: Seq<FileOperationView>,
    colliding: Seq<FileOperationView>,
    policy: HandleFileConflict,
) -> Seq<FileOperationView> {
    match policy {
        HandleFileConflict::DoNothing => clean,
        HandleFileConflict::Overwrite => clean + colliding,
        HandleFileConflict::Rename => clean,
        HandleFileConflict::MoveToDuplicateFolder(folder) => clean + colliding.map_values(
            |a: FileOperationView| spec_redirect(a, folder@),
        ),
    }
}

/// Builds the final action list: under `DoNothing` only the clean actions;
/// under `Overwrite` the clean actions then the colliding ones; under
/// `MoveToDuplicateFolder` the clean actions then each colliding one
/// redirected to the folder under its source's basename.
pub fn apply_conflict_policy(
    not_duplicates: Vec<FileOperation>,
    duplicates: Vec<FileOperation>,
    handle_conflicts: &HandleFileConflict,
) -> (r: Vec<FileOperation>)
    requires
        !(handle_conflicts is Rename),
    ensures
        r.deep_view() == spec_apply_policy(
            not_duplicates.deep_view(),
            duplicates.deep_view(),
            *handle_conflicts,
        ),
{
    let ghost cleanv = not_duplicates.deep_view();
    let ghost collv = duplicates.deep_view();
    match handle_conflicts {
        HandleFileConflict::DoNothing => not_duplicates,
        HandleFileConflict::Rename => not_duplicates,
        HandleFileConflict::Overwrite => {
            let mut out = not_duplicates;
            let mut i: usize = 0;
            proof {
                assert(out.deep_view() =~= cleanv + collv.take(0));
            }
            while i < duplicates.len()
                invariant
                    collv == duplicates.deep_view(),
                    collv.len() == duplicates@.len(),
                    0 <= i <= collv.len(),
                    out.deep_view() == cleanv + collv.take(i as int),
                decreases collv.len() - i,
            {
                let ghost out0 = out.deep_view();
                let next = clone_operation(&duplicates[i]);
                proof {
                    assert(next.deep_view() == collv[i as int]);
                }
                out.push(next);
                proof {
                    assert(out.deep_view() =~= out0 + seq![collv[i as int]]);
                    assert((cleanv + collv.take(i as int)) + seq![collv[i as int]] =~= cleanv
                        + collv.take(i as int + 1));
                }
                i = i + 1;
            }
            proof {
                assert(collv.take(collv.len() as int) =~= collv);
            }
            out
        },
        HandleFileConflict::MoveToDuplicateFolder(folder) => {
            let ghost folderv = folder@;
            let mut out = not_duplicates;
            let mut i: usize = 0;
            proof {
                assert(out.deep_view() =~= cleanv + collv.take(0).map_values(
                    |a: FileOperationView| spec_redirect(a, folderv),
                ));
            }
            while i < duplicates.len()
                invariant
                    collv == duplicates.deep_view(),
                    collv.len() == duplicates@.len(),
                    folderv == folder@,
                    0 <= i <= collv.len(),
                    out.deep_view() == cleanv + collv.take(i as int).map_values(
                        |a: FileOperationView| spec_redirect(a, folderv),
                    ),
                decreases collv.len() - i,
            {
                let ghost out0 = out.deep_view();
                let duplicate = &duplicates[i];
                proof {
                    assert(duplicate.deep_view() == collv[i as int]);
                }
                let destination = join(folder.as_str(), basename(source_of(duplicate).as_str()));
                let redirected = match duplicate {
                    FileOperation::Copy { source, .. } => FileOperation::Copy {
                        source: source.clone(),
                        destination,
                    },
                    FileOperation::Move { source, .. } => FileOperation::Move {
                        source: source.clone(),
                        destination,
                    },
                };
                proof {
                    assert(redirected.deep_view() == spec_redirect(collv[i as int], folderv));
                }
                out.push(redirected);
                proof {
                    assert(out.deep_view() =~= out0 + seq![
                        spec_redirect(collv[i as int], folderv),
                    ]);
                    assert((cleanv + collv.take(i as int).map_values(
                        |a: FileOperationView| spec_redirect(a, folderv),
                    )) + seq![spec_redirect(collv[i as int], folderv)] =~= cleanv + collv.take(
                        i as int + 1,
                    ).map_values(|a: FileOperationView| spec_redirect(a, folderv)));
                }
                i = i + 1;
            }
            proof {
                assert(collv.take(collv.len() as int) =~= collv);
                assert(cleanv + collv.take(collv.len() as int).map_values(
                    |a: FileOperationView| spec_redirect(a, folderv),
                ) =~= cleanv + collv.map_values(|a: FileOperationView| spec_redirect(a, folderv)));
            }
            out
        },
    }
}

/// The three counts of one run, independent of whether it is a dry run: how
/// many planned actions are clean, how many collide, and how many input
/// files lack a timestamp.
pub open spec fn spec_operation_counts(operation: Operation, existing: Seq<Seq<char>>) -> (
    int,
    int,
    int,
) {
    let planned = spec_plan(operation.files.deep_view(), operation.config);
    (
        spec_clean(planned, existing).len() as int,
        spec_colliding(planned, existing).len() as int,
        spec_no_date_count(operation.files.deep_view()),
    )
}

/// Runs one whole operation, except for the filesystem work itself: plans
/// the actions, splits them by collision, applies the conflict policy, and
/// reports the counts. `existing` lists the planned destinations the caller
/// found already on disk. The counts never depend on `dry_run`; a dry run
/// only returns an empty final action list, so that nothing is applied.
pub fn perform_operation(operation: &Operation, dry_run: bool, existing: &Vec<String>) -> (r:
    Result<(OperationResults, Vec<FileOperation>), OperationError>)
    requires
        operation.wf(),
    ensures
        r is Err <==> (!spec_format_valid(operation.config.date_folder_format@)
            || operation.config.handle_conflicts is Rename),
        !spec_format_valid(operation.config.date_folder_format@) ==> (r matches Err(e) && e
            == OperationError::InvalidDateFolderFormat),
        spec_format_valid(operation.config.date_folder_format@)
            && operation.config.handle_conflicts is Rename ==> (r matches Err(e) && e
            == OperationError::UnsupportedConflictPolicy),
        r matches Ok(ok) ==> {
            let planned = spec_plan(operation.files.deep_view(), operation.config);
            let exv = existing.deep_view();
            &&& ok.0.no_duplicates == spec_operation_counts(*operation, exv).0
            &&& ok.0.duplicates == spec_operation_counts(*operation, exv).1
            &&& ok.0.no_date == spec_operation_counts(*operation, exv).2
            &&& ok.1.deep_view() == (if dry_run {
                Seq::<FileOperationView>::empty()
            } else {
                spec_apply_policy(
                    spec_clean(planned, exv),
                    spec_colliding(planned, exv),
                    operation.config.handle_conflicts,
                )
            })
        },
{
    if !validate_format(operation.config.date_folder_format.as_str()) {
        return Err(OperationError::InvalidDateFolderFormat);
    }
    match &operation.config.handle_conflicts {
        HandleFileConflict::Rename => {
            return Err(OperationError::UnsupportedConflictPolicy);
        },
        _ => {},
    }
    let (all_file_operations, no_date_files_len) = plan_file_operations(operation);
    let (not_duplicates, duplicates) = find_duplicates(&all_file_operations, existing);
    let no_duplicates_len = not_duplicates.len();
    let duplicates_len = duplicates.len();
    let file_operations = if dry_run {
        let empty: Vec<FileOperation> = Vec::new();
        proof {
            assert(empty.deep_view() =~= Seq::<FileOperationView>::empty());
        }
        empty
    } else {
        apply_conflict_policy(not_duplicates, duplicates, &operation.config.handle_conflicts)
    };
    Ok(
        (
            OperationResults {
                no_duplicates: no_duplicates_len,
                duplicates: duplicates_len,
                no_date: no_date_files_len,
            },
            file_operations,
        ),
    )
}

/// How many actions of `actions` target destination `d`.
pub open spec fn count_dest(actions: Seq<FileOperationView>, d: Seq<char>) -> int
    decreases actions.len(),
{
    if actions.len() == 0 {
        0
    } else {
        (if actions[0].destination() == d {
            1int
        } else {
            0int
        }) + count_dest(actions.skip(1), d)
    }
}

proof fn lemma_count_dest_cons(a: FileOperationView, rest: Seq<FileOperationView>, d: Seq<char>)
    ensures
        count_dest(seq![a] + rest, d) == (if a.destination() == d {
            1int
        } else {
            0int
        }) + count_dest(rest, d),
{
    assert((seq![a] + rest)[0] == a);
    assert((seq![a] + rest).skip(1) =~= rest);
}

proof fn lemma_unique_from(
    actions: Seq<FileOperationView>,
    existing: Seq<Seq<char>>,
    i: int,
)
    requires
        0 <= i <= actions.len(),
        forall|p: int, q: int|
            0 <= p < q < actions.len() ==> (#[trigger] actions[p].destination())
                != (#[trigger] actions[q].destination()),
        forall|p: int|
            0 <= p < actions.len() ==> !existing.contains(#[trigger] actions[p].destination()),
    ensures
        spec_clean_from(actions, existing, i) == actions.skip(i),
        spec_colliding_from(actions, existing, i) == Seq::<FileOperationView>::empty(),
    decreases actions.len() - i,
{
    if i == actions.len() {
        assert(actions.skip(i) =~= Seq::<FileOperationView>::empty());
    } else {
        assert(!spec_collides_at(actions, existing, i));
        lemma_unique_from(actions, existing, i + 1);
        assert(seq![actions[i]] + actions.skip(i + 1) =~= actions.skip(i));
    }
}

/// First testable property of the resolver: when every proposed destination
/// is distinct and none of them already exists on disk, every action is
/// classified clean, the clean output is the input in input order, and
/// nothing collides.
pub proof fn lemma_unique_destinations_all_clean(
    actions: Seq<FileOperationView>,
    existing: Seq<Seq<char>>,
)
    requires
        forall|p: int, q: int|
            0 <= p < q < actions.len() ==> (#[trigger] actions[p].destination())
                != (#[trigger] actions[q].destination()),
        forall|p: int|
            0 <= p < actions.len() ==> !existing.contains(#[trigger] actions[p].destination()),
    ensures
        spec_clean(actions, existing) == actions,
        spec_colliding(actions, existing) == Seq::<FileOperationView>::empty(),
{
    lemma_unique_from(actions, existing, 0);
    assert(actions.skip(0) =~= actions);
}

proof fn lemma_first_claim_from(
    actions: Seq<FileOperationView>,
    existing: Seq<Seq<char>>,
    d: Seq<char>,
    i: int,
)
    requires
        !existing.contains(d),
        0 <= i <= actions.len(),
    ensures
        count_dest(spec_clean_from(actions, existing, i), d) == (if (exists|j: int|
            i <= j < actions.len() && #[trigger] actions[j].destination() == d) && !(exists|j: int|
            0 <= j < i && #[trigger] actions[j].destination() == d) {
            1int
        } else {
            0int
        }),
        count_dest(spec_colliding_from(actions, existing, i), d) == count_dest(actions.skip(i), d)
            - (if (exists|j: int|
            i <= j < actions.len() && #[trigger] actions[j].destination() == d) && !(exists|j: int|
            0 <= j < i && #[trigger] actions[j].destination() == d) {
            1int
        } else {
            0int
        }),
    decreases actions.len() - i,
{
    if i == actions.len() {
        assert(actions.skip(i) =~= Seq::<FileOperationView>::empty());
        assert(count_dest(spec_clean_from(actions, existing, i), d) == 0);
        assert(count_dest(spec_colliding_from(actions, existing, i), d) == 0);
    } else {
        lemma_first_claim_from(actions, existing, d, i + 1);
        assert(actions.skip(i) =~= seq![actions[i]] + actions.skip(i + 1));
        lemma_count_dest_cons(actions[i], actions.skip(i + 1), d);
        if spec_collides_at(actions, existing, i) {
            lemma_count_dest_cons(actions[i], spec_colliding_from(actions, existing, i + 1), d);
        } else {
            lemma_count_dest_cons(actions[i], spec_clean_from(actions, existing, i + 1), d);
        }
        if actions[i].destination() == d {
            let claimed_before = exists|j: int|
                0 <= j < i && #[trigger] actions[j].destination() == d;
            if claimed_before {
                let w = choose|j: int| 0 <= j < i && #[trigger] actions[j].destination() == d;
                assert(actions[w].destination() == actions[i].destination());
                assert(spec_collides_at(actions, existing, i));
            } else {
                assert(!spec_collides_at(actions, existing, i)) by {
                    if exists|j: int|
                        0 <= j < i && #[trigger] actions[j].destination()
                            == actions[i].destination() {
                        let w = choose|j: int|
                            0 <= j < i && #[trigger] actions[j].destination()
                                == actions[i].destination();
                        assert(actions[w].destination() == d);
                    }
                }
            }
        } else {
            assert((exists|j: int| i <= j < actions.len() && #[trigger] actions[j].destination() == d)
                <==> (exists|j: int|
                i + 1 <= j < actions.len() && #[trigger] actions[j].destination() == d)) by {
                if exists|j: int|
                    i <= j < actions.len() && #[trigger] actions[j].destination() == d {
                    let w = choose|j: int|
                        i <= j < actions.len() && #[trigger] actions[j].destination() == d;
                    assert(w != i);
                }
            }
            assert((exists|j: int| 0 <= j < i + 1 && #[trigger] actions[j].destination() == d)
                <==> (exists|j: int| 0 <= j < i && #[trigger] actions[j].destination() == d)) by {
                if exists|j: int| 0 <= j < i + 1 && #[trigger] actions[j].destination() == d {
                    let w = choose|j: int|
                        0 <= j < i + 1 && #[trigger] actions[j].destination() == d;
                    assert(w != i);
                }
            }
        }
    }
}

/// Second testable property of the resolver: when one or more actions target
/// the same destination `d`, not already on disk, exactly the first of them
/// (by input order) is classified clean and every later one collides, however
/// many share it.
pub proof fn lemma_shared_destination_first_claim(
    actions: Seq<FileOperationView>,
    existing: Seq<Seq<char>>,
    d: Seq<char>,
    first: int,
)
    requires
        !existing.contains(d),
        0 <= first < actions.len(),
        actions[first].destination() == d,
        forall|j: int| 0 <= j < first ==> (#[trigger] actions[j].destination()) != d,
    ensures
        !spec_collides_at(actions, existing, first),
        forall|i: int|
            first < i < actions.len() && (#[trigger] actions[i].destination()) == d
                ==> spec_collides_at(actions, existing, i),
        count_dest(spec_clean(actions, existing), d) == 1,
        count_dest(spec_colliding(actions, existing), d) == count_dest(actions, d) - 1,
{
    assert(!spec_collides_at(actions, existing, first)) by {
        if exists|j: int|
            0 <= j < first && #[trigger] actions[j].destination() == actions[first].destination() {
            let w = choose|j: int|
                0 <= j < first && #[trigger] actions[j].destination()
                    == actions[first].destination();
            assert(actions[w].destination() == d);
        }
    }
    assert forall|i: int|
        first < i < actions.len() && (#[trigger] actions[i].destination()) == d
        implies spec_collides_at(actions, existing, i) by {
        assert(actions[first].destination() == actions[i].destination());
    }
    lemma_first_claim_from(actions, existing, d, 0);
    assert(actions.skip(0) =~= actions);
}

proof fn lemma_existing_never_clean(
    actions: Seq<FileOperationView>,
    existing: Seq<Seq<char>>,
    d: Seq<char>,
    k: int,
)
    requires
        existing.contains(d),
        0 <= k <= actions.len(),
    ensures
        count_dest(spec_clean_from(actions, existing, k), d) == 0,
    decreases actions.len() - k,
{
    if k < actions.len() {
        lemma_existing_never_clean(actions, existing, d, k + 1);
        if !spec_collides_at(actions, existing, k) {
            assert(actions[k].destination() != d);
            lemma_count_dest_cons(actions[k], spec_clean_from(actions, existing, k + 1), d);
        }
    }
}

/// Third testable property of the resolver: an action whose destination
/// already exists on disk always collides, even when no other action of the
/// batch targets it, and no clean action ever targets such a destination.
pub proof fn lemma_existing_destination_collides(
    actions: Seq<FileOperationView>,
    existing: Seq<Seq<char>>,
    i: int,
)
    requires
        0 <= i < actions.len(),
        existing.contains(actions[i].destination()),
    ensures
        spec_collides_at(actions, existing, i),
        count_dest(spec_clean(actions, existing), actions[i].destination()) == 0,
{
    lemma_existing_never_clean(actions, existing, actions[i].destination(), 0);
}

proof fn lemma_partition_from(actions: Seq<FileOperationView>, existing: Seq<Seq<char>>, i: int)
    requires
        0 <= i <= actions.len(),
    ensures
        spec_clean_from(actions, existing, i).len() + spec_colliding_from(actions, existing, i).len()
            == actions.len() - i,
    decreases actions.len() - i,
{
    if i < actions.len() {
        lemma_partition_from(actions, existing, i + 1);
    }
}

/// The resolver is exhaustive: every action of the batch is classified,
/// landing in exactly one of the two groups.
pub proof fn lemma_resolver_exhaustive(actions: Seq<FileOperationView>, existing: Seq<Seq<char>>)
    ensures
        spec_clean(actions, existing).len() + spec_colliding(actions, existing).len()
            == actions.len(),
{
    lemma_partition_from(actions, existing, 0);
}

/// The `DoNothing` (skip) policy never lets a colliding action through: the
/// final list is exactly the clean list, so colliding sources are left
/// untouched by the run.
pub proof fn lemma_skip_policy_executes_only_clean(
    clean: Seq<FileOperationView>,
    colliding: Seq<FileOperationView>,
)
    ensures
        spec_apply_policy(clean, colliding, HandleFileConflict::DoNothing) == clean,
{
}

/// The `MoveToDuplicateFolder` policy keeps the clean actions unchanged and
/// sends every colliding action, whatever its original date-derived
/// destination, to `folder / basename(source)`, preserving its source and
/// its kind of work.
pub proof fn lemma_move_to_folder_redirects_colliding(
    clean: Seq<FileOperationView>,
    colliding: Seq<FileOperationView>,
    folder: String,
)
    ensures
        ({
            let r = spec_apply_policy(
                clean,
                colliding,
                HandleFileConflict::MoveToDuplicateFolder(folder),
            );
            &&& r.len() == clean.len() + colliding.len()
            &&& forall|i: int| 0 <= i < clean.len() ==> #[trigger] r[i] == clean[i]
            &&& forall|i: int|
                0 <= i < colliding.len() ==> (#[trigger] r[clean.len() + i]).destination()
                    == spec_join(folder@, spec_basename(colliding[i].source()))
            &&& forall|i: int|
                0 <= i < colliding.len() ==> (#[trigger] r[clean.len() + i]).source()
                    == colliding[i].source()
            &&& forall|i: int|
                0 <= i < colliding.len() ==> ((#[trigger] r[clean.len() + i]).is_move()
                    <==> colliding[i].is_move())
        }),
{
    let r = spec_apply_policy(clean, colliding, HandleFileConflict::MoveToDuplicateFolder(folder));
    assert forall|i: int|
        0 <= i < colliding.len() implies (#[trigger] r[clean.len() + i]).destination()
        == spec_join(folder@, spec_basename(colliding[i].source())) && r[
        clean.len() + i
    ].source() == colliding[i].source() && (r[clean.len() + i].is_move()
        <==> colliding[i].is_move()) by {
        assert(r[clean.len() + i] == spec_redirect(colliding[i], folder@));
    }
}

} // verus!
