//! The merge engine as a state machine. The caller performs each action on
//! the chunk store and the final artifact, reports what happened, and sends
//! the events it is handed on the progress channel, in order, before it
//! performs the next action.
use vstd::prelude::*;
use crate::naming::{decimal, push_decimal};
use crate::order::{ascending, listed, merge_gate, order_chunks, part_set, MergeError};

verus! {

/// One event on the progress channel.
#[derive(Debug, Clone, PartialEq, Eq)]
pub enum MergeEvent {
    ServerError(String),
    IdNotFound,
    MissingChunks { found: usize, total: usize },
    CorruptChunkName,
    Duplicate,
    /// The number of parts merged so far.
    Progress(usize),
    /// Where the final artifact can be retrieved.
    Done(String),
}

/// What the caller is to do next.
#[derive(Debug, Clone, PartialEq, Eq)]
pub enum Action {
    /// Create the final artifact, failing if it exists.
    CreateArtifact,
    /// Find out whether the final artifact exists, changing nothing.
    CheckArtifact,
    /// Delete these parts, ignoring failures.
    RemoveParts(Vec<u32>),
    /// Append this part's bytes to the final artifact.
    AppendPart(u32),
    /// Delete this part, ignoring failure.
    RemovePart(u32),
    /// The merge is over.
    Stop,
}

/// What happened when the caller performed the last action.
#[derive(Debug, Clone, PartialEq, Eq)]
pub enum Report {
    Created,
    /// The final artifact exists.
    ArtifactFound,
    /// The final artifact does not exist.
    ArtifactMissing,
    AlreadyExists,
    CreateFailed(String),
    Appended,
    AppendFailed(String),
    Removed,
}

/// Where a merge stands.
#[derive(Debug, Clone, Copy, PartialEq, Eq)]
pub enum Stage {
    /// No part is stored: waiting to learn whether the final artifact
    /// exists, which tells an upload merged before from an unknown one.
    Probe,
    /// Waiting for the outcome of creating the final artifact.
    Claim,
    /// Waiting for the redundant parts to be deleted.
    Cleanup,
    /// Waiting for the part at this index to be appended.
    Append(usize),
    /// Waiting for the part at this index to be deleted.
    Remove(usize),
    Over,
}

/// Events to send, then the action to perform.
#[derive(Debug, Clone, PartialEq, Eq)]
pub struct Step {
    pub events: Vec<MergeEvent>,
    pub action: Action,
}

/// One merge attempt: the ordered parts, the artifact's public location, and
/// the stage reached.
#[derive(Debug, Clone)]
pub struct MergeSession {
    pub parts: Vec<u32>,
    pub location: String,
    pub stage: Stage,
}

impl MergeEvent {
    /// Whether the event ends the progress channel.
    pub open spec fn is_terminal(&self) -> bool {
        !(self is Progress)
    }

    /// The event id sent on the progress channel.
    pub fn kind(&self) -> (r: &'static str)
        ensures
            r@ == match self {
                MergeEvent::ServerError(_) => "servererror"@,
                MergeEvent::IdNotFound => "idnotfound"@,
                MergeEvent::MissingChunks { .. } => "missingchunks"@,
                MergeEvent::CorruptChunkName => "corruptchunkname"@,
                MergeEvent::Duplicate => "duplicate"@,
                MergeEvent::Progress(_) => "progress"@,
                MergeEvent::Done(_) => "done"@,
            },
    {
        match self {
            MergeEvent::ServerError(_) => "servererror",
            MergeEvent::IdNotFound => "idnotfound",
            MergeEvent::MissingChunks { .. } => "missingchunks",
            MergeEvent::CorruptChunkName => "corruptchunkname",
            MergeEvent::Duplicate => "duplicate",
            MergeEvent::Progress(_) => "progress",
            MergeEvent::Done(_) => "done",
        }
    }

    /// The human-readable data sent with the event.
    pub fn payload(&self) -> (r: String)
        ensures
            r@ == match self {
                MergeEvent::ServerError(m) => m@,
                MergeEvent::IdNotFound => "file not found from id"@,
                MergeEvent::MissingChunks { found, total } => decimal(*found as nat)
                    + " chunks were received, but "@ + decimal(*total as nat)
                    + " chunks was specified. are some chunks missing?"@,
                MergeEvent::CorruptChunkName => "one or more chunks not saved correctly"@,
                MergeEvent::Duplicate => "cannot upload because duplicate"@,
                MergeEvent::Progress(n) => decimal(*n as nat),
                MergeEvent::Done(url) => url@,
            },
    {
        match self {
            MergeEvent::ServerError(m) => m.clone(),
            MergeEvent::IdNotFound => String::from_str("file not found from id"),
            MergeEvent::MissingChunks { found, total } => {
                let mut s = String::new();
                push_decimal(&mut s, *found as u64);
                s.append(" chunks were received, but ");
                push_decimal(&mut s, *total as u64);
                s.append(" chunks was specified. are some chunks missing?");
                proof {
                    assert(s@ =~= decimal(*found as nat) + " chunks were received, but "@
                        + decimal(*total as nat)
                        + " chunks was specified. are some chunks missing?"@);
                }
                s
            },
            MergeEvent::CorruptChunkName => String::from_str(
                "one or more chunks not saved correctly",
            ),
            MergeEvent::Duplicate => String::from_str("cannot upload because duplicate"),
            MergeEvent::Progress(n) => {
                let mut s = String::new();
                push_decimal(&mut s, *n as u64);
                proof {
                    assert(s@ =~= decimal(*n as nat));
                }
                s
            },
            MergeEvent::Done(url) => url.clone(),
        }
    }
}

/// The terminal event that reports `e`.
pub open spec fn error_event(e: MergeError) -> MergeEvent {
    match e {
        MergeError::IdNotFound => MergeEvent::IdNotFound,
        MergeError::CorruptChunkName => MergeEvent::CorruptChunkName,
        MergeError::MissingChunks { found, total } => MergeEvent::MissingChunks { found, total },
    }
}

/// The public location of artifact `name` under `base`.
pub open spec fn location_of(base: Seq<char>, name: Seq<char>) -> Seq<char> {
    base + seq!['/'] + name
}

/// The step from `stage` on `report`: the next stage and what is emitted
/// and done.
pub open spec fn transition(
    parts: Seq<u32>,
    location: String,
    stage: Stage,
    report: Report,
    next: Stage,
    step: Step,
) -> bool {
    match stage {
        Stage::Claim => match report {
            Report::Created => if parts.len() == 0 {
                next == Stage::Over && step.events@ == seq![MergeEvent::Done(location)]
                    && step.action == Action::Stop
            } else {
                next == Stage::Append(0) && step.events@.len() == 0 && step.action
                    == Action::AppendPart(parts[0])
            },
            Report::AlreadyExists => next == Stage::Cleanup && step.events@.len() == 0
                && step.action is RemoveParts && step.action->RemoveParts_0@ == parts,
            Report::CreateFailed(m) => next == Stage::Over && step.events@ == seq![
                MergeEvent::ServerError(m),
            ] && step.action == Action::Stop,
            _ => unexpected(next, step),
        },
        Stage::Cleanup => match report {
            Report::Removed => next == Stage::Over && step.events@ == seq![MergeEvent::Duplicate]
                && step.action == Action::Stop,
            _ => unexpected(next, step),
        },
        Stage::Append(i) => match report {
            Report::Appended => next == Stage::Remove(i) && step.events@.len() == 0 && step.action
                == Action::RemovePart(parts[i as int]),
            Report::AppendFailed(m) => next == Stage::Over && step.events@ == seq![
                MergeEvent::ServerError(m),
            ] && step.action == Action::Stop,
            _ => unexpected(next, step),
        },
        Stage::Remove(i) => match report {
            Report::Removed => if i + 1 < parts.len() {
                next == Stage::Append((i + 1) as usize) && step.events@ == seq![
                    MergeEvent::Progress((i + 1) as usize),
                ] && step.action == Action::AppendPart(parts[i + 1])
            } else {
                next == Stage::Over && step.events@ == seq![
                    MergeEvent::Progress((i + 1) as usize),
                    MergeEvent::Done(location),
                ] && step.action == Action::Stop
            },
            _ => unexpected(next, step),
        },
        Stage::Probe => match report {
            Report::ArtifactFound => next == Stage::Over && step.events@ == seq![
                MergeEvent::Duplicate,
            ] && step.action == Action::Stop,
            Report::ArtifactMissing => next == Stage::Over && step.events@ == seq![
                MergeEvent::IdNotFound,
            ] && step.action == Action::Stop,
            _ => unexpected(next, step),
        },
        Stage::Over => next == Stage::Over && step.events@.len() == 0 && step.action
            == Action::Stop,
    }
}

/// A report that does not answer the last action ends the merge with a
/// server error.
pub open spec fn unexpected(next: Stage, step: Step) -> bool {
    next == Stage::Over && step.events@.len() == 1 && step.events@[0] is ServerError
        && step.action == Action::Stop
}

fn one_event(e: MergeEvent) -> (r: Vec<MergeEvent>)
    ensures
        r@ == seq![e],
{
    let mut r = Vec::new();
    r.push(e);
    proof {
        assert(r@ =~= seq![e]);
    }
    r
}

fn two_events(e: MergeEvent, f: MergeEvent) -> (r: Vec<MergeEvent>)
    ensures
        r@ == seq![e, f],
{
    let mut r = Vec::new();
    r.push(e);
    r.push(f);
    proof {
        assert(r@ =~= seq![e, f]);
    }
    r
}

fn copy_parts(v: &Vec<u32>) -> (r: Vec<u32>)
    ensures
        r@ == v@,
{
    let mut r: Vec<u32> = Vec::new();
    let mut i: usize = 0;
    while i < v.len()
        invariant
            i <= v@.len(),
            r@ == v@.subrange(0, i as int),
        decreases v@.len() - i,
    {
        r.push(v[i]);
        i = i + 1;
        proof {
            assert(r@ =~= v@.subrange(0, i as int));
        }
    }
    proof {
        assert(r@ =~= v@);
    }
    r
}

impl MergeSession {
    pub open spec fn wf(&self) -> bool {
        ascending(self.parts@) && match self.stage {
            Stage::Append(i) => i < self.parts@.len(),
            Stage::Remove(i) => i < self.parts@.len(),
            _ => true,
        }
    }

    /// Opens a merge of upload `id` into the artifact `final_name`, from a
    /// snapshot `entries` of the chunk store's names and the declared number
    /// of parts `total`.
    pub fn start(
        id: &str,
        final_name: &str,
        base_url: &str,
        entries: &Vec<String>,
        total: usize,
    ) -> (r: (MergeSession, Step))
        ensures
            r.0.wf(),
            r.0.location@ == location_of(base_url@, final_name@),
            match merge_gate(id@, listed(entries@), total) {
                Some(MergeError::IdNotFound) => r.0.stage == Stage::Probe && r.1.events@.len() == 0
                    && r.1.action == Action::CheckArtifact,
                Some(e) => r.0.stage == Stage::Over && r.1.events@ == seq![error_event(e)]
                    && r.1.action == Action::Stop,
                None => r.0.stage == Stage::Claim && r.1.events@.len() == 0 && r.1.action
                    == Action::CreateArtifact && r.0.parts@.to_set() == part_set(
                    id@,
                    listed(entries@),
                ),
            },
    {
        let mut location = String::from_str(base_url);
        proof {
            reveal_strlit("/");
        }
        location.append("/");
        location.append(final_name);
        proof {
            assert(location@ =~= location_of(base_url@, final_name@));
        }
        match order_chunks(id, entries, total) {
            Ok(parts) => {
                let session = MergeSession { parts, location, stage: Stage::Claim };
                (session, Step { events: Vec::new(), action: Action::CreateArtifact })
            },
            Err(MergeError::IdNotFound) => {
                let session = MergeSession { parts: Vec::new(), location, stage: Stage::Probe };
                (session, Step { events: Vec::new(), action: Action::CheckArtifact })
            },
            Err(e) => {
                let event = match e {
                    MergeError::IdNotFound => MergeEvent::IdNotFound,
                    MergeError::CorruptChunkName => MergeEvent::CorruptChunkName,
                    MergeError::MissingChunks { found, total } => MergeEvent::MissingChunks {
                        found,
                        total,
                    },
                };
                let session = MergeSession { parts: Vec::new(), location, stage: Stage::Over };
                let events = one_event(event);
                (session, Step { events, action: Action::Stop })
            },
        }
    }

    /// Takes the report on the last action and gives the next step.
    pub fn advance(&mut self, report: Report) -> (step: Step)
        requires
            old(self).wf(),
        ensures
            final(self).wf(),
            final(self).parts == old(self).parts,
            final(self).location == old(self).location,
            transition(
                old(self).parts@,
                old(self).location,
                old(self).stage,
                report,
                final(self).stage,
                step,
            ),
    {
        let len = self.parts.len();
        match self.stage {
            Stage::Claim => match report {
                Report::Created => {
                    if len == 0 {
                        self.stage = Stage::Over;
                        let events = one_event(MergeEvent::Done(self.location.clone()));
                        Step { events, action: Action::Stop }
                    } else {
                        self.stage = Stage::Append(0);
                        Step { events: Vec::new(), action: Action::AppendPart(self.parts[0]) }
                    }
                },
                Report::AlreadyExists => {
                    self.stage = Stage::Cleanup;
                    Step { events: Vec::new(), action: Action::RemoveParts(copy_parts(&self.parts)) }
                },
                Report::CreateFailed(m) => {
                    self.stage = Stage::Over;
                    Step { events: one_event(MergeEvent::ServerError(m)), action: Action::Stop }
                },
                _ => self.reject(),
            },
            Stage::Cleanup => match report {
                Report::Removed => {
                    self.stage = Stage::Over;
                    Step { events: one_event(MergeEvent::Duplicate), action: Action::Stop }
                },
                _ => self.reject(),
            },
            Stage::Append(i) => match report {
                Report::Appended => {
                    self.stage = Stage::Remove(i);
                    Step { events: Vec::new(), action: Action::RemovePart(self.parts[i]) }
                },
                Report::AppendFailed(m) => {
                    self.stage = Stage::Over;
                    Step { events: one_event(MergeEvent::ServerError(m)), action: Action::Stop }
                },
                _ => self.reject(),
            },
            Stage::Remove(i) => match report {
                Report::Removed => {
                    let merged = i + 1;
                    if merged < len {
                        self.stage = Stage::Append(merged);
                        Step {
                            events: one_event(MergeEvent::Progress(merged)),
                            action: Action::AppendPart(self.parts[merged]),
                        }
                    } else {
                        self.stage = Stage::Over;
                        let events = two_events(
                            MergeEvent::Progress(merged),
                            MergeEvent::Done(self.location.clone()),
                        );
                        Step { events, action: Action::Stop }
                    }
                },
                _ => self.reject(),
            },
            Stage::Probe => match report {
                Report::ArtifactFound => {
                    self.stage = Stage::Over;
                    Step { events: one_event(MergeEvent::Duplicate), action: Action::Stop }
                },
                Report::ArtifactMissing => {
                    self.stage = Stage::Over;
                    Step { events: one_event(MergeEvent::IdNotFound), action: Action::Stop }
                },
                _ => self.reject(),
            },
            Stage::Over => Step { events: Vec::new(), action: Action::Stop },
        }
    }

    fn reject(&mut self) -> (step: Step)
        ensures
            final(self).parts == old(self).parts,
            final(self).location == old(self).location,
            unexpected(final(self).stage, step),
    {
        self.stage = Stage::Over;
        let message = String::from_str("report does not answer the last action");
        Step { events: one_event(MergeEvent::ServerError(message)), action: Action::Stop }
    }
}

} // verus!
