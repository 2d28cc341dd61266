//! Opening a native agent session: which transcript group a requested id is
//! loaded from, and when a transcript of the read-only legacy tree is first
//! copied into the sessions tree. The caller looks at the disk; these steps
//! decide what each observation means.

use vstd::prelude::*;

use crate::context::hydrate::{encode_cwd_spec, encode_session_cwd, HydrateError};
use crate::text::{push_str, trim, trim_seq};

verus! {

/// A resumed session being opened: the group its working directory maps to,
/// the requested id (trimmed, not empty), and whether a legacy tree is given.
pub struct OpenPlan {
    pub dest_group: String,
    pub session_id: String,
    pub has_fallback: bool,
}

/// How an open begins.
pub enum OpenStart {
    /// No id was requested: a fresh session in this group.
    Fresh { group: String },
    /// Look for the requested transcript in the plan's group first.
    Resume(OpenPlan),
}

/// One observation of the disk, in the order the opening makes them.
pub enum OpenEvent {
    /// Whether the transcript exists in the plan's group, or why it could not
    /// be read.
    DestStat(Result<bool, String>),
    /// The group under the sessions root that holds the transcript, if any.
    Grouped(Option<String>),
    /// Whether the transcript exists in the legacy tree, or why it could not
    /// be read.
    FallbackStat(Result<bool, String>),
    /// The working directory the legacy transcript's header names, if any.
    FallbackHeader(Option<String>),
    /// The outcome of copying the legacy chain into `group`.
    Migrated { group: String, result: Result<(), String> },
}

/// What the opening does next.
pub enum OpenAction {
    /// Start a fresh session in `group`, under the requested id if any.
    Fresh { group: String, session_id: Option<String> },
    /// Load the existing transcript from `group`.
    Load { group: String },
    /// Look for the group that holds the transcript.
    FindGrouped,
    /// Look the transcript up in the legacy tree.
    StatFallback,
    /// Read the legacy transcript's header.
    ReadFallbackHeader,
    /// Copy the legacy chain into `group` (the legacy files are kept).
    Migrate { group: String },
    /// Fail the open.
    Fail(HydrateError),
}

/// The requested id, trimmed, when it is not empty.
pub open spec fn requested_id(requested: Option<Seq<char>>) -> Option<Seq<char>> {
    match requested {
        Some(r) => if trim_seq(r).len() > 0 {
            Some(trim_seq(r))
        } else {
            None
        },
        None => None,
    }
}

pub open spec fn opt_str(s: Option<&str>) -> Option<Seq<char>> {
    match s {
        Some(t) => Some(t@),
        None => None,
    }
}

/// The group of the working directory, and whether an id was requested.
pub fn begin_open(cwd: &str, requested: Option<&str>, has_fallback: bool) -> (r: OpenStart)
    ensures
        match requested_id(opt_str(requested)) {
            None => r matches OpenStart::Fresh { group } && group@ == encode_cwd_spec(cwd@),
            Some(id) => r matches OpenStart::Resume(p) && p.dest_group@ == encode_cwd_spec(cwd@)
                && p.session_id@ == id && p.has_fallback == has_fallback,
        },
{
    let dest_group = encode_session_cwd(cwd);
    match requested {
        None => OpenStart::Fresh { group: dest_group },
        Some(r) => {
            let id = trim(r);
            if id.as_str().is_empty() {
                OpenStart::Fresh { group: dest_group }
            } else {
                OpenStart::Resume(OpenPlan { dest_group, session_id: id, has_fallback })
            }
        },
    }
}

/// `session_unavailable` with `prefix` and the reason.
fn unavailable(session_id: &String, prefix: &str, reason: &String) -> (r: HydrateError)
    ensures
        r matches HydrateError::LoadFailed { session_id: s, message: m, code: c } && s@
            == session_id@ && m@ == prefix@ + reason@ && c@ == "session_unavailable"@,
{
    let mut m = String::new();
    push_str(&mut m, prefix);
    push_str(&mut m, reason.as_str());
    proof {
        reveal_strlit("");
    }
    HydrateError::failed(session_id.clone(), "session_unavailable", m)
}

/// What follows each observation. The transcript is loaded from the plan's
/// group when it is there, else from the group that holds it; else, with a
/// legacy tree that has it, it is copied into the group its header's working
/// directory maps to (the plan's group when the header names none) and
/// loaded from there; otherwise the session starts fresh under the requested
/// id. A transcript that cannot be read, or a copy that fails, fails the open
/// as `session_unavailable`.
pub fn open_step(plan: &OpenPlan, event: OpenEvent) -> (r: OpenAction)
    ensures
        match event {
            OpenEvent::DestStat(Ok(true)) => r matches OpenAction::Load { group } && group@
                == plan.dest_group@,
            OpenEvent::DestStat(Ok(false)) => r is FindGrouped,
            OpenEvent::DestStat(Err(e)) | OpenEvent::FallbackStat(Err(e)) => r matches OpenAction::Fail(
                HydrateError::LoadFailed { session_id, message, code },
            ) && session_id@ == plan.session_id@ && message@ == "transcript could not be read: "@
                + e@ && code@ == "session_unavailable"@,
            OpenEvent::Grouped(Some(g)) => r matches OpenAction::Load { group } && group@ == g@,
            OpenEvent::Grouped(None) => if plan.has_fallback {
                r is StatFallback
            } else {
                r matches OpenAction::Fresh { group, session_id: Some(id) } && group@
                    == plan.dest_group@ && id@ == plan.session_id@
            },
            OpenEvent::FallbackStat(Ok(true)) => r is ReadFallbackHeader,
            OpenEvent::FallbackStat(Ok(false)) => r matches OpenAction::Fresh {
                group,
                session_id: Some(id),
            } && group@ == plan.dest_group@ && id@ == plan.session_id@,
            OpenEvent::FallbackHeader(cwd) => r matches OpenAction::Migrate { group } && group@ == (
            match cwd {
                Some(c) => if c@.len() > 0 {
                    encode_cwd_spec(c@)
                } else {
                    plan.dest_group@
                },
                None => plan.dest_group@,
            }),
            OpenEvent::Migrated { group: g, result: Ok(()) } => r matches OpenAction::Load { group }
                && group@ == g@,
            OpenEvent::Migrated { group: _, result: Err(e) } => r matches OpenAction::Fail(
                HydrateError::LoadFailed { session_id, message, code },
            ) && session_id@ == plan.session_id@ && message@ == "failed to migrate transcript: "@
                + e@ && code@ == "session_unavailable"@,
        },
{
    match event {
        OpenEvent::DestStat(Ok(true)) => OpenAction::Load { group: plan.dest_group.clone() },
        OpenEvent::DestStat(Ok(false)) => OpenAction::FindGrouped,
        OpenEvent::DestStat(Err(e)) => OpenAction::Fail(
            unavailable(&plan.session_id, "transcript could not be read: ", &e),
        ),
        OpenEvent::Grouped(Some(g)) => OpenAction::Load { group: g },
        OpenEvent::Grouped(None) => if plan.has_fallback {
            OpenAction::StatFallback
        } else {
            OpenAction::Fresh {
                group: plan.dest_group.clone(),
                session_id: Some(plan.session_id.clone()),
            }
        },
        OpenEvent::FallbackStat(Ok(true)) => OpenAction::ReadFallbackHeader,
        OpenEvent::FallbackStat(Ok(false)) => OpenAction::Fresh {
            group: plan.dest_group.clone(),
            session_id: Some(plan.session_id.clone()),
        },
        OpenEvent::FallbackStat(Err(e)) => OpenAction::Fail(
            unavailable(&plan.session_id, "transcript could not be read: ", &e),
        ),
        OpenEvent::FallbackHeader(cwd) => {
            let group = match cwd {
                Some(c) => if c.as_str().is_empty() {
                    plan.dest_group.clone()
                } else {
                    encode_session_cwd(c.as_str())
                },
                None => plan.dest_group.clone(),
            };
            OpenAction::Migrate { group }
        },
        OpenEvent::Migrated { group, result: Ok(()) } => OpenAction::Load { group },
        OpenEvent::Migrated { group: _, result: Err(e) } => OpenAction::Fail(
            unavailable(&plan.session_id, "failed to migrate transcript: ", &e),
        ),
    }
}

} // verus!
