use vstd::prelude::*;
use vstd::string::*;

use crate::server::frame_of;
use crate::session::State;
use crate::text::concat3;

verus! {

/// A debugger command, as parsed from the text after `#`.
#[derive(Debug)]
pub enum Command {
    /// `disassemble` (or `dis`), with an optional proc path and override id.
    Disassemble { proc: Option<String>, id: Option<u32> },
    /// Any other subcommand.
    Unknown,
}

/// What to do for a command: reply with a text, or disassemble a proc.
#[derive(Debug)]
pub enum CommandPlan {
    Reply(String),
    Disassemble { path: String, id: u32, offset: Option<u32> },
}

/// Decides what a parsed command does. Without a proc, `disassemble` takes the selected
/// frame's proc and marks its current offset; a parse error is replied verbatim.
pub fn handle_command(state: Option<&State>, frame_id: Option<u32>, parsed: Result<Command, String>) -> (r: CommandPlan)
    ensures
        match parsed {
            Err(m) => r == CommandPlan::Reply(m),
            Ok(Command::Unknown) => r matches CommandPlan::Reply(t) && t@ == "unknown command"@,
            Ok(Command::Disassemble { proc: Some(p), id }) => r == CommandPlan::Disassemble {
                path: p,
                id: match id { Some(i) => i, None => 0 },
                offset: None,
            },
            Ok(Command::Disassemble { proc: None, .. }) => match frame_id {
                Some(f) => match state {
                    Some(st) => match frame_of(st.stacks, f) {
                        Some(fr) => r == CommandPlan::Disassemble {
                            path: fr.proc.path,
                            id: fr.proc.override_id,
                            offset: Some(fr.offset),
                        },
                        None => r matches CommandPlan::Reply(t) && t@ == "couldn't find stack frame (is execution not paused?)"@,
                    },
                    None => r matches CommandPlan::Reply(t) && t@ == "couldn't find stack frame (is execution not paused?)"@,
                },
                None => r matches CommandPlan::Reply(t) && t@ == "no execution frame selected"@,
            },
        },
{
    match parsed {
        Err(m) => CommandPlan::Reply(m),
        Ok(Command::Unknown) => CommandPlan::Reply(String::from_str("unknown command")),
        Ok(Command::Disassemble { proc: Some(p), id }) => CommandPlan::Disassemble {
            path: p,
            id: match id { Some(i) => i, None => 0 },
            offset: None,
        },
        Ok(Command::Disassemble { proc: None, .. }) => match frame_id {
            Some(f) => {
                let found = match state {
                    Some(st) => st.stacks.get_stack_frame(f),
                    None => None,
                };
                match found {
                    Some(fr) => CommandPlan::Disassemble {
                        path: fr.proc.path.clone(),
                        id: fr.proc.override_id,
                        offset: Some(fr.offset),
                    },
                    None => CommandPlan::Reply(String::from_str("couldn't find stack frame (is execution not paused?)")),
                }
            },
            None => CommandPlan::Reply(String::from_str("no execution frame selected")),
        },
    }
}

/// The reply to a disassembly: a heading with the proc, then the listing; or that the
/// proc was not found.
pub fn handle_disassemble(found: Option<(String, String)>) -> (r: String)
    ensures
        match found {
            Some((p, d)) => r@ == "Dism for "@ + p@ + "\n"@ + d@,
            None => r@ == "Proc not found"@,
        },
{
    match found {
        Some((p, d)) => {
            let mut r = concat3("Dism for ", p.as_str(), "\n");
            r.append(d.as_str());
            r
        },
        None => String::from_str("Proc not found"),
    }
}

} // verus!
