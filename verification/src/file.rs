//! The atomic unit of work: copy or move one file.

use vstd::prelude::*;

verus! {

/// One planned piece of filesystem work: copy or move a file from a source
/// path to a destination path. Pure data; applying it is the caller's job.
#[derive(Debug, Clone)]
pub enum FileOperation {
    Copy { source: String, destination: String },
    Move { source: String, destination: String },
}

/// The mathematical view of a [`FileOperation`]: the same shape with the
/// paths as character sequences.
pub enum FileOperationView {
    Copy { source: Seq<char>, destination: Seq<char> },
    Move { source: Seq<char>, destination: Seq<char> },
}

impl DeepView for FileOperation {
    type V = FileOperationView;

    open spec fn deep_view(&self) -> FileOperationView {
        match self {
            FileOperation::Copy { source, destination } => FileOperationView::Copy {
                source: source@,
                destination: destination@,
            },
            FileOperation::Move { source, destination } => FileOperationView::Move {
                source: source@,
                destination: destination@,
            },
        }
    }
}

impl FileOperationView {
    /// The source path of the operation.
    pub open spec fn source(self) -> Seq<char> {
        match self {
            FileOperationView::Copy { source, .. } => source,
            FileOperationView::Move { source, .. } => source,
        }
    }

    /// The destination path of the operation.
    pub open spec fn destination(self) -> Seq<char> {
        match self {
            FileOperationView::Copy { destination, .. } => destination,
            FileOperationView::Move { destination, .. } => destination,
        }
    }

    /// Whether the operation moves (rather than copies) its file.
    pub open spec fn is_move(self) -> bool {
        self is Move
    }

    /// The same file and kind of work, sent to another destination.
    pub open spec fn redirected_to(self, destination: Seq<char>) -> FileOperationView {
        match self {
            FileOperationView::Copy { source, .. } => FileOperationView::Copy {
                source,
                destination,
            },
            FileOperationView::Move { source, .. } => FileOperationView::Move {
                source,
                destination,
            },
        }
    }
}

/// Borrows the destination path of an operation.
pub fn destination_of(op: &FileOperation) -> (r: &String)
    ensures
        r@ == op.deep_view().destination(),
{
    match op {
        FileOperation::Copy { destination, .. } => destination,
        FileOperation::Move { destination, .. } => destination,
    }
}

/// Borrows the source path of an operation.
pub fn source_of(op: &FileOperation) -> (r: &String)
    ensures
        r@ == op.deep_view().source(),
{
    match op {
        FileOperation::Copy { source, .. } => source,
        FileOperation::Move { source, .. } => source,
    }
}

/// An equal copy of the operation.
pub fn clone_operation(op: &FileOperation) -> (r: FileOperation)
    ensures
        r == *op,
{
    match op {
        FileOperation::Copy { source, destination } => FileOperation::Copy {
            source: source.clone(),
            destination: destination.clone(),
        },
        FileOperation::Move { source, destination } => FileOperation::Move {
            source: source.clone(),
            destination: destination.clone(),
        },
    }
}

} // verus!
