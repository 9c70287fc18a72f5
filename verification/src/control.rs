//! The daemon's control protocol: which command a line names, how it changes
//! the daemon's flags, and what is answered.
use vstd::prelude::*;
use crate::text::{concat_str, str_eq};

verus! {

/// The commands the control socket understands.
#[derive(Debug, Clone, Copy, PartialEq, Eq, Structural)]
pub enum ControlCommand {
    Status,
    Pause,
    Resume,
    Reload,
    Sync,
    Stop,
    Unknown,
}

/// The flags of the daemon that control commands read and change.
#[derive(Debug, Clone, Copy, PartialEq, Eq, Structural)]
pub struct ControlState {
    /// Synchronisation is suspended.
    pub paused: bool,
    /// A full synchronisation is running.
    pub syncing: bool,
}

/// What the daemon must do after a command, besides answering.
#[derive(Debug, Clone, Copy, PartialEq, Eq, Structural)]
pub enum ControlAction {
    /// Answer with the text that comes with the outcome.
    Reply,
    /// Answer with the current status report.
    ReportStatus,
    /// Reload the configuration, then answer with [`reload_reply`].
    ReloadConfig,
    /// Start a full synchronisation in the background, and answer.
    StartSync,
    /// Answer, then shut the daemon down.
    Shutdown,
}

/// The decision taken on one command.
pub struct ControlOutcome {
    pub action: ControlAction,
    /// The answer, empty where the action produces it.
    pub reply: String,
}

pub open spec fn spec_command(cmd: Seq<char>) -> ControlCommand {
    if cmd == "status"@ {
        ControlCommand::Status
    } else if cmd == "pause"@ {
        ControlCommand::Pause
    } else if cmd == "resume"@ {
        ControlCommand::Resume
    } else if cmd == "reload"@ {
        ControlCommand::Reload
    } else if cmd == "sync"@ {
        ControlCommand::Sync
    } else if cmd == "stop"@ {
        ControlCommand::Stop
    } else {
        ControlCommand::Unknown
    }
}

/// The flags after a command.
pub open spec fn spec_next_state(c: ControlCommand, st: ControlState) -> ControlState {
    match c {
        ControlCommand::Pause => ControlState { paused: true, ..st },
        ControlCommand::Resume => ControlState { paused: false, ..st },
        ControlCommand::Sync => ControlState { syncing: true, ..st },
        _ => st,
    }
}

/// The action taken on a command.
pub open spec fn spec_action(c: ControlCommand, st: ControlState) -> ControlAction {
    match c {
        ControlCommand::Status => ControlAction::ReportStatus,
        ControlCommand::Reload => ControlAction::ReloadConfig,
        ControlCommand::Sync => if st.syncing { ControlAction::Reply } else { ControlAction::StartSync },
        ControlCommand::Stop => ControlAction::Shutdown,
        _ => ControlAction::Reply,
    }
}

/// The answer that comes with the decision.
pub open spec fn spec_reply(c: ControlCommand, st: ControlState) -> Seq<char> {
    match c {
        ControlCommand::Status => Seq::empty(),
        ControlCommand::Pause => "Status: Paused\n"@,
        ControlCommand::Resume => "Status: Resumed\n"@,
        ControlCommand::Reload => Seq::empty(),
        ControlCommand::Sync => if st.syncing {
            "Error: Sync already in progress\n"@
        } else {
            "Status: Sync triggered in background\n"@
        },
        ControlCommand::Stop => "Status: Stopping daemon...\n"@,
        ControlCommand::Unknown => "Error: Unknown command. Supported: status, pause, resume, reload, sync, stop\n"@,
    }
}

/// Which command a line names; anything else is `Unknown`.
pub fn parse_command(cmd: &str) -> (c: ControlCommand)
    ensures
        c == spec_command(cmd@),
{
    if str_eq(cmd, "status") {
        ControlCommand::Status
    } else if str_eq(cmd, "pause") {
        ControlCommand::Pause
    } else if str_eq(cmd, "resume") {
        ControlCommand::Resume
    } else if str_eq(cmd, "reload") {
        ControlCommand::Reload
    } else if str_eq(cmd, "sync") {
        ControlCommand::Sync
    } else if str_eq(cmd, "stop") {
        ControlCommand::Stop
    } else {
        ControlCommand::Unknown
    }
}

/// Decides a control command: the daemon's flags change as the command asks,
/// a manual synchronisation is refused while one runs, and the answer is
/// fixed by the command and the flags.
pub fn handle_control_command(cmd: &str, state: &mut ControlState) -> (o: ControlOutcome)
    ensures
        *final(state) == spec_next_state(spec_command(cmd@), *old(state)),
        o.action == spec_action(spec_command(cmd@), *old(state)),
        o.reply@ == spec_reply(spec_command(cmd@), *old(state)),
{
    let c = parse_command(cmd);
    match c {
        ControlCommand::Status => ControlOutcome { action: ControlAction::ReportStatus, reply: String::new() },
        ControlCommand::Pause => {
            state.paused = true;
            ControlOutcome { action: ControlAction::Reply, reply: "Status: Paused\n".to_owned() }
        },
        ControlCommand::Resume => {
            state.paused = false;
            ControlOutcome { action: ControlAction::Reply, reply: "Status: Resumed\n".to_owned() }
        },
        ControlCommand::Reload => ControlOutcome { action: ControlAction::ReloadConfig, reply: String::new() },
        ControlCommand::Sync => {
            if state.syncing {
                ControlOutcome { action: ControlAction::Reply, reply: "Error: Sync already in progress\n".to_owned() }
            } else {
                state.syncing = true;
                ControlOutcome {
                    action: ControlAction::StartSync,
                    reply: "Status: Sync triggered in background\n".to_owned(),
                }
            }
        },
        ControlCommand::Stop => ControlOutcome {
            action: ControlAction::Shutdown,
            reply: "Status: Stopping daemon...\n".to_owned(),
        },
        ControlCommand::Unknown => ControlOutcome {
            action: ControlAction::Reply,
            reply: "Error: Unknown command. Supported: status, pause, resume, reload, sync, stop\n".to_owned(),
        },
    }
}

/// The flags once a background synchronisation has ended.
pub fn finish_sync(state: &mut ControlState)
    ensures
        *final(state) == (ControlState { syncing: false, ..*old(state) }),
{
    state.syncing = false;
}

/// The answer to `reload`: success, or the error with which loading failed.
pub fn reload_reply(error: Option<&str>) -> (r: String)
    ensures
        error is None ==> r@ == "Status: Config reloaded successfully\n"@,
        error is Some ==> r@ == "Error: Failed to reload config: "@ + error->0@ + "\n"@,
{
    match error {
        None => "Status: Config reloaded successfully\n".to_owned(),
        Some(e) => {
            let head = concat_str("Error: Failed to reload config: ", e);
            concat_str(head.as_str(), "\n")
        },
    }
}

/// Pausing and resuming touch nothing but the pause flag, and each sets it
/// as its name says; a status, reload or stop command changes no flag.
pub proof fn law_pause_resume_only_touch_pause_flag(st: ControlState)
    ensures
        spec_next_state(ControlCommand::Pause, st) == (ControlState { paused: true, syncing: st.syncing }),
        spec_next_state(ControlCommand::Resume, st) == (ControlState { paused: false, syncing: st.syncing }),
        spec_next_state(ControlCommand::Status, st) == st,
        spec_next_state(ControlCommand::Reload, st) == st,
        spec_next_state(ControlCommand::Stop, st) == st,
        spec_next_state(ControlCommand::Unknown, st) == st,
{
}

/// A manual synchronisation asked for while one runs is refused with an
/// error and leaves the flags as they were; otherwise it starts one and marks
/// the daemon as syncing, so that a second request is refused until it ends.
pub proof fn law_sync_requests_do_not_overlap(st: ControlState)
    ensures
        st.syncing ==> spec_next_state(ControlCommand::Sync, st) == st
            && spec_action(ControlCommand::Sync, st) == ControlAction::Reply
            && spec_reply(ControlCommand::Sync, st) == "Error: Sync already in progress\n"@,
        !st.syncing ==> spec_action(ControlCommand::Sync, st) == ControlAction::StartSync
            && spec_next_state(ControlCommand::Sync, st).syncing
            && spec_action(ControlCommand::Sync, spec_next_state(ControlCommand::Sync, st)) == ControlAction::Reply,
{
}

/// A line that names no command changes nothing and is answered with the
/// list of supported commands.
pub proof fn law_unknown_commands_change_nothing(cmd: Seq<char>, st: ControlState)
    requires
        spec_command(cmd) == ControlCommand::Unknown,
    ensures
        spec_next_state(spec_command(cmd), st) == st,
        spec_action(spec_command(cmd), st) == ControlAction::Reply,
        spec_reply(spec_command(cmd), st)
            == "Error: Unknown command. Supported: status, pause, resume, reload, sync, stop\n"@,
{
}

} // verus!
