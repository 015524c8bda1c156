//! The ways a packaging operation can fail.

use vstd::prelude::*;
use crate::manifest::Category;

verus! {

/// Why a packaging operation stopped. Failures of the filesystem and of the
/// archive writer carry the message of whatever reported them.
#[derive(Debug, PartialEq, Eq)]
pub enum PackError {
    /// A filesystem read, write, copy or create failed.
    Io(String),
    /// The archive writer failed while writing an entry.
    Compression(String),
    /// A folder that every pack must have is absent.
    DoesNotExist(Category),
    /// An entry could not be expressed relative to the folder it is archived
    /// from.
    PathResolution,
    /// No pack matched the selection.
    NoSelection,
}

/// What an error stands for in contracts.
pub ghost enum ErrorView {
    Io(Seq<char>),
    Compression(Seq<char>),
    DoesNotExist(Category),
    PathResolution,
    NoSelection,
}

impl View for PackError {
    type V = ErrorView;

    open spec fn view(&self) -> ErrorView {
        match *self {
            PackError::Io(m) => ErrorView::Io(m@),
            PackError::Compression(m) => ErrorView::Compression(m@),
            PackError::DoesNotExist(c) => ErrorView::DoesNotExist(c),
            PackError::PathResolution => ErrorView::PathResolution,
            PackError::NoSelection => ErrorView::NoSelection,
        }
    }
}

/// The text shown for a missing folder, apart from the folder's name.
pub open spec fn missing_folder_prefix() -> Seq<char> {
    "required folder does not exist: "@
}

impl PackError {
    /// What the error says, as a model of its message.
    pub open spec fn message_spec(self) -> Seq<char> {
        match self {
            PackError::Io(m) => "i/o error: "@ + m@,
            PackError::Compression(m) => "zip error: "@ + m@,
            PackError::DoesNotExist(c) => missing_folder_prefix() + c.name_spec(),
            PackError::PathResolution => "entry is not inside the folder being archived"@,
            PackError::NoSelection => "no modpacks available/no such modpack exists"@,
        }
    }

    /// A one-line description for the user, distinct for each kind.
    pub fn message(&self) -> (r: String)
        ensures
            r@ == self.message_spec(),
    {
        match self {
            PackError::Io(m) => String::from_str("i/o error: ").concat(m.as_str()),
            PackError::Compression(m) => String::from_str("zip error: ").concat(m.as_str()),
            PackError::DoesNotExist(c) => String::from_str(
                "required folder does not exist: ",
            ).concat(c.name()),
            PackError::PathResolution => String::from_str("entry is not inside the folder being archived"),
            PackError::NoSelection => String::from_str(
                "no modpacks available/no such modpack exists",
            ),
        }
    }
}

} // verus!
