//! Kinds of change to the agent configuration folder.
use vstd::prelude::*;

verus! {

/// What happened to an agent file.
#[derive(Clone, Copy, Debug, PartialEq, Eq)]
pub enum EventType {
    FileAgentCreated,
    FileAgentModified,
    FileAgentDeleted,
}

/// A change that the file system reported.
#[derive(Clone, Copy, Debug, PartialEq, Eq)]
pub enum ChangeKind {
    Create,
    Modify,
    Remove,
    Other,
}

/// The event that a change to an agent file raises, if any: creations,
/// modifications and removals are reported, other changes are not.
pub fn classify_change(kind: ChangeKind) -> (r: Option<EventType>)
    ensures
        r == match kind {
            ChangeKind::Create => Some(EventType::FileAgentCreated),
            ChangeKind::Modify => Some(EventType::FileAgentModified),
            ChangeKind::Remove => Some(EventType::FileAgentDeleted),
            ChangeKind::Other => None::<EventType>,
        },
{
    match kind {
        ChangeKind::Create => Some(EventType::FileAgentCreated),
        ChangeKind::Modify => Some(EventType::FileAgentModified),
        ChangeKind::Remove => Some(EventType::FileAgentDeleted),
        ChangeKind::Other => None,
    }
}

/// Whether the changed file must still be a file, and is read: for a
/// creation or a modification.
pub fn reads_content(kind: ChangeKind) -> (r: bool)
    ensures
        r == (kind == ChangeKind::Create || kind == ChangeKind::Modify),
{
    match kind {
        ChangeKind::Create | ChangeKind::Modify => true,
        _ => false,
    }
}

/// The name under which the front end knows an event type.
pub fn event_type_name(event: EventType) -> (r: &'static str)
    ensures
        r@ == match event {
            EventType::FileAgentCreated => "file-agent-created"@,
            EventType::FileAgentModified => "file-agent-modified"@,
            EventType::FileAgentDeleted => "file-agent-deleted"@,
        },
{
    match event {
        EventType::FileAgentCreated => "file-agent-created",
        EventType::FileAgentModified => "file-agent-modified",
        EventType::FileAgentDeleted => "file-agent-deleted",
    }
}

} // verus!
