use vstd::prelude::*;

verus! {

/// The closed set of change kinds handed to the host.
#[derive(Clone, Copy, Debug, PartialEq, Eq, Structural)]
pub enum FileEventType {
    Created,
    Deleted,
    Changed,
    RenamedNew,
    RenamedOld,
    Unknown,
}

/// The stable wire string of each change kind.
pub open spec fn wire(t: FileEventType) -> Seq<char> {
    match t {
        FileEventType::Created => "CREATED"@,
        FileEventType::Deleted => "DELETED"@,
        FileEventType::Changed => "CHANGED"@,
        FileEventType::RenamedNew => "RENAMED_NEW"@,
        FileEventType::RenamedOld => "RENAMED_OLD"@,
        FileEventType::Unknown => "UNKNOWN"@,
    }
}

impl FileEventType {
    /// The wire string that the host branches on.
    pub fn as_str(&self) -> (r: &'static str)
        ensures
            r@ == wire(*self),
    {
        match self {
            FileEventType::Created => "CREATED",
            FileEventType::Deleted => "DELETED",
            FileEventType::Changed => "CHANGED",
            FileEventType::RenamedNew => "RENAMED_NEW",
            FileEventType::RenamedOld => "RENAMED_OLD",
            FileEventType::Unknown => "UNKNOWN",
        }
    }
}

/// One normalized change: a forward-slash path and what happened to it.
#[derive(Clone, Debug)]
pub struct FileChange {
    pub path: String,
    pub event_type: FileEventType,
}

impl View for FileChange {
    type V = (Seq<char>, FileEventType);

    open spec fn view(&self) -> (Seq<char>, FileEventType) {
        (self.path@, self.event_type)
    }
}

} // verus!
