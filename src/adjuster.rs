use vstd::prelude::*;
use crate::process_manager::{decimal, get_last_core_mask, last_core_mask_spec};

verus! {

/// The access right that is requested together with set-information when a
/// process is opened; the first one is tried first.
pub enum AccessRights {
    QueryInformation,
    QueryLimitedInformation,
}

/// What the caller is asked to do next for the process being adjusted.
pub enum AdjustAction {
    /// Open a handle with set-information and the given right.
    Open(AccessRights),
    /// Set the priority class to idle.
    SetIdlePriority,
    /// Restrict the process to the CPUs of this mask.
    SetAffinity(u64),
    /// Release the handle.
    Close,
    /// The adjustment is over, with this outcome.
    Finish(Result<(), String>),
}

/// Where an adjustment stands.
pub enum Stage {
    OpenFull,
    OpenLimited,
    Priority,
    Affinity,
    Closing(Result<(), String>),
    Done,
}

/// Drives the adjustment of one process: open with a fallback of access
/// rights, lower the priority class, restrict the affinity, and release the
/// handle on every path once it was opened.
pub struct Adjuster {
    pub pid: u32,
    pub mask: u64,
    pub stage: Stage,
}

/// The message of a failed open.
pub open spec fn open_failure_msg(pid: u32, detail: Seq<char>) -> Seq<char> {
    "无法打开进程 "@ + decimal(pid as nat) + ": "@ + detail
}

/// The message of a failed priority change.
pub open spec fn priority_failure_msg(detail: Seq<char>) -> Seq<char> {
    "设置优先级失败: "@ + detail
}

/// The message of a failed affinity change.
pub open spec fn affinity_failure_msg(detail: Seq<char>) -> Seq<char> {
    "设置 CPU 亲和性失败: "@ + detail
}

/// Relies on `format!` writing an integer in decimal and a string as it is.
#[verifier::external_body]
fn open_failure_text(pid: u32, detail: &String) -> (r: String)
    ensures
        r@ == open_failure_msg(pid, detail@),
{
    format!("无法打开进程 {}: {}", pid, detail)
}

/// Relies on `format!` writing a string as it is.
#[verifier::external_body]
fn priority_failure_text(detail: &String) -> (r: String)
    ensures
        r@ == priority_failure_msg(detail@),
{
    format!("设置优先级失败: {}", detail)
}

/// Relies on `format!` writing a string as it is.
#[verifier::external_body]
fn affinity_failure_text(detail: &String) -> (r: String)
    ensures
        r@ == affinity_failure_msg(detail@),
{
    format!("设置 CPU 亲和性失败: {}", detail)
}

/// The outcome of an adjustment as plain values: `None` for success, or the
/// failure message.
pub open spec fn outcome_view(r: Result<(), String>) -> Option<Seq<char>> {
    match r {
        Ok(_) => None,
        Err(e) => Some(e@),
    }
}

impl Adjuster {
    /// An open handle is held: it was opened and no `Close` was asked for yet.
    pub open spec fn holds_handle(&self) -> bool {
        match self.stage {
            Stage::Priority | Stage::Affinity => true,
            _ => false,
        }
    }

    pub open spec fn is_done(&self) -> bool {
        self.stage is Done
    }

    /// Starts the adjustment of `pid` on a machine with `cpu_count` logical
    /// CPUs: the first step opens the process with query-information.
    pub fn begin(pid: u32, cpu_count: u32) -> (r: (Adjuster, AdjustAction))
        requires
            cpu_count <= 64,
        ensures
            r.0.pid == pid,
            r.0.mask as nat == last_core_mask_spec(cpu_count),
            r.0.stage is OpenFull,
            r.1 == AdjustAction::Open(AccessRights::QueryInformation),
    {
        let mask = get_last_core_mask(cpu_count);
        (Adjuster { pid, mask, stage: Stage::OpenFull }, AdjustAction::Open(AccessRights::QueryInformation))
    }

    /// Takes the result of the last requested action (its error detail on
    /// failure) and says what comes next. A handle is released by exactly one
    /// `Close`, and `Finish` comes only when no handle is held.
    pub fn step(&mut self, last: Result<(), String>) -> (action: AdjustAction)
        requires
            !old(self).is_done(),
        ensures
            final(self).pid == old(self).pid,
            final(self).mask == old(self).mask,
            old(self).holds_handle() && !final(self).holds_handle() <==> action is Close,
            action is Finish ==> !old(self).holds_handle() && final(self).is_done(),
            final(self).is_done() ==> action is Finish,
            !old(self).holds_handle() && final(self).holds_handle() ==> last is Ok,
            match old(self).stage {
                Stage::OpenFull => match last {
                    Ok(_) => final(self).stage is Priority && action is SetIdlePriority,
                    Err(_) => final(self).stage is OpenLimited
                        && action == AdjustAction::Open(AccessRights::QueryLimitedInformation),
                },
                Stage::OpenLimited => match last {
                    Ok(_) => final(self).stage is Priority && action is SetIdlePriority,
                    Err(e) => final(self).is_done() && match action {
                        AdjustAction::Finish(Err(m)) => m@ == open_failure_msg(old(self).pid, e@),
                        _ => false,
                    },
                },
                Stage::Priority => match last {
                    Ok(_) => final(self).stage is Affinity
                        && action == AdjustAction::SetAffinity(old(self).mask),
                    Err(e) => action is Close && match final(self).stage {
                        Stage::Closing(Err(m)) => m@ == priority_failure_msg(e@),
                        _ => false,
                    },
                },
                Stage::Affinity => action is Close && match last {
                    Ok(_) => final(self).stage == Stage::Closing(Ok(())),
                    Err(e) => match final(self).stage {
                        Stage::Closing(Err(m)) => m@ == affinity_failure_msg(e@),
                        _ => false,
                    },
                },
                Stage::Closing(res) => final(self).is_done() && match action {
                    AdjustAction::Finish(out) => outcome_view(out) == outcome_view(res),
                    _ => false,
                },
                Stage::Done => false,
            },
    {
        let closing = match &self.stage {
            Stage::Closing(Ok(_)) => Some(Ok(())),
            Stage::Closing(Err(m)) => Some(Err(m.clone())),
            _ => None,
        };
        if let Some(res) = closing {
            self.stage = Stage::Done;
            return AdjustAction::Finish(res);
        }
        match self.stage {
            Stage::OpenFull => match last {
                Ok(_) => {
                    self.stage = Stage::Priority;
                    AdjustAction::SetIdlePriority
                },
                Err(_) => {
                    self.stage = Stage::OpenLimited;
                    AdjustAction::Open(AccessRights::QueryLimitedInformation)
                },
            },
            Stage::OpenLimited => match last {
                Ok(_) => {
                    self.stage = Stage::Priority;
                    AdjustAction::SetIdlePriority
                },
                Err(e) => {
                    self.stage = Stage::Done;
                    AdjustAction::Finish(Err(open_failure_text(self.pid, &e)))
                },
            },
            Stage::Priority => match last {
                Ok(_) => {
                    self.stage = Stage::Affinity;
                    AdjustAction::SetAffinity(self.mask)
                },
                Err(e) => {
                    self.stage = Stage::Closing(Err(priority_failure_text(&e)));
                    AdjustAction::Close
                },
            },
            Stage::Affinity => {
                match last {
                    Ok(_) => {
                        self.stage = Stage::Closing(Ok(()));
                    },
                    Err(e) => {
                        self.stage = Stage::Closing(Err(affinity_failure_text(&e)));
                    },
                }
                AdjustAction::Close
            },
            Stage::Closing(_) | Stage::Done => AdjustAction::Finish(Ok(())),
        }
    }
}

} // verus!
