use vstd::prelude::*;
use vstd::string::*;

use crate::lines::{get_line_number, get_offset, line_scan, offset_scan, Decoded};
use crate::materialize::{
    args_view, get_args, get_internals, get_locals, get_vm_stack, internals_view, list_to_variables,
    list_view, local_items, object_to_variables, object_view, render, render_seq, stack_items,
    value_to_variable,
};
use crate::refs::{intern, resolve, Variables};
use crate::session::State;
use crate::stacks::CallStacks;
use crate::text::{concat3, quoted, quoted_of};
use crate::types::{
    views, BreakpointReason, BreakpointSetResult, ContinueKind, InstructionRef, ProcRef, Request,
    Response, Stack, StackFrame, VarView, Variable, VariablesRef,
};
use crate::values::{fields_source, FieldsSource, Field, ListEntry, RawValue, ValueInfo, TAG_WORLD, WORLD_ID};

verus! {

/// The connection to the debug client.
#[derive(Clone, Copy, Debug, PartialEq, Eq, Structural)]
pub enum Link {
    /// Listening: no client has connected yet.
    Waiting,
    Connected,
    /// Torn down for good.
    Disconnected,
}

/// What answering a request needs from the VM or the instruction patcher.
#[derive(Debug)]
pub enum Need {
    Nothing,
    /// Find the proc, install a trap at the offset, and list the proc's instructions.
    Hook(InstructionRef),
    /// Find the proc and remove the trap at the offset.
    Unhook(InstructionRef),
    /// List the instructions of a proc.
    Listing(ProcRef),
    /// The standard definitions text.
    StdDef,
    /// Run a debugger command (the text after `#`) and give its output.
    Command(String),
    /// Read an object's fields.
    Fields(FieldsSource),
    /// Read a list's elements.
    ListEntries(RawValue),
    /// Read a key and its associated value.
    Pair(RawValue, RawValue),
}

/// What the VM or the patcher gave for a `Need`.
#[derive(Debug)]
pub enum Answer {
    Nothing,
    /// The proc's listing (none if it was not found), and whether the trap was installed.
    Hooked { listing: Option<Vec<Decoded>>, hooked: bool },
    Unhooked(bool),
    Listing(Option<Vec<Decoded>>),
    StdDef(Option<String>),
    Output(String),
    Fields(Result<Vec<Field>, String>),
    ListEntries(Result<Vec<ListEntry>, String>),
    Pair(ValueInfo, ValueInfo),
}

/// The responses queued by one step: `n` more when connected, none otherwise.
pub open spec fn queued(link: Link, before: Seq<Response>, after: Seq<Response>, n: nat) -> bool {
    if link == Link::Connected {
        after.len() == before.len() + n && after.take(before.len() as int) == before
    } else {
        after == before
    }
}

/// What tearing down a link leaves, and whether a disconnect frame is to be written.
pub open spec fn teardown(link: Link) -> (Link, bool) {
    (Link::Disconnected, link == Link::Connected)
}

/// The text of a pause reason.
pub open spec fn reason_text(reason: BreakpointReason) -> Seq<char> {
    match reason {
        BreakpointReason::Breakpoint => "Breakpoint"@,
        BreakpointReason::Step => "Step"@,
        BreakpointReason::Pause => "Pause"@,
        BreakpointReason::Runtime(m) => "Runtime("@ + quoted_of(m@) + ")"@,
    }
}

/// The debug server as the VM's thread sees it: the connection, the settings the client
/// controls, and the responses waiting to be written.
pub struct Server {
    link: Link,
    outbox: Vec<Response>,
    should_catch_runtimes: bool,
    should_show_internals: bool,
}

impl Server {
    pub closed spec fn link(&self) -> Link {
        self.link
    }

    pub closed spec fn outbox(&self) -> Seq<Response> {
        self.outbox@
    }

    pub closed spec fn catches_runtimes(&self) -> bool {
        self.should_catch_runtimes
    }

    pub closed spec fn shows_internals(&self) -> bool {
        self.should_show_internals
    }

    /// The settings and the link stay as they were.
    pub open spec fn same_settings(&self, other: &Server) -> bool {
        &&& self.link() == other.link()
        &&& self.catches_runtimes() == other.catches_runtimes()
        &&& self.shows_internals() == other.shows_internals()
    }

    /// A server that dialled out (`connected`) or that listens for its one client.
    pub fn new(connected: bool) -> (r: Server)
        ensures
            r.link() == (if connected { Link::Connected } else { Link::Waiting }),
            r.outbox() == Seq::<Response>::empty(),
            r.catches_runtimes(),
            r.shows_internals(),
    {
        Server {
            link: if connected { Link::Connected } else { Link::Waiting },
            outbox: Vec::new(),
            should_catch_runtimes: true,
            should_show_internals: true,
        }
    }

    /// The listening server's client has connected.
    pub fn connection_arrived(&mut self)
        ensures
            final(self).link() == (if old(self).link() == Link::Waiting { Link::Connected } else { old(self).link() }),
            final(self).outbox() == old(self).outbox(),
            final(self).catches_runtimes() == old(self).catches_runtimes(),
            final(self).shows_internals() == old(self).shows_internals(),
    {
        if self.link == Link::Waiting {
            self.link = Link::Connected;
        }
    }

    /// Whether a client is connected.
    pub fn check_connected(&self) -> (r: bool)
        ensures
            r == (self.link() == Link::Connected),
    {
        self.link == Link::Connected
    }

    pub fn link_state(&self) -> (r: Link)
        ensures
            r == self.link(),
    {
        self.link
    }

    /// Hands out the queued responses, to be written in order.
    pub fn take_outbox(&mut self) -> (r: Vec<Response>)
        ensures
            r@ == old(self).outbox(),
            final(self).outbox() == Seq::<Response>::empty(),
            final(self).same_settings(old(self)),
    {
        let mut out: Vec<Response> = Vec::new();
        std::mem::swap(&mut out, &mut self.outbox);
        out
    }

    /// Queues a response while connected; once torn down, sending does nothing.
    pub fn send_or_disconnect(&mut self, response: Response)
        ensures
            final(self).outbox() == (if old(self).link() == Link::Connected {
                old(self).outbox().push(response)
            } else {
                old(self).outbox()
            }),
            final(self).same_settings(old(self)),
    {
        if self.link == Link::Connected {
            self.outbox.push(response);
        }
    }

    /// Tears the link down. Returns whether a disconnect frame is to be written: only the
    /// first teardown of a connected link writes one.
    pub fn disconnect(&mut self) -> (r: bool)
        ensures
            (final(self).link(), r) == teardown(old(self).link()),
            final(self).outbox() == old(self).outbox(),
            final(self).catches_runtimes() == old(self).catches_runtimes(),
            final(self).shows_internals() == old(self).shows_internals(),
    {
        let r = self.link == Link::Connected;
        self.link = Link::Disconnected;
        r
    }

    /// Sends a notification to the client, if one is connected.
    pub fn notify(&mut self, message: String)
        ensures
            final(self).outbox() == (if old(self).link() == Link::Connected {
                old(self).outbox().push(Response::Notification { message })
            } else {
                old(self).outbox()
            }),
            final(self).same_settings(old(self)),
    {
        if !self.check_connected() {
            return;
        }
        self.send_or_disconnect(Response::Notification { message });
    }
}

/// Renders a pause reason.
pub fn describe_reason(reason: &BreakpointReason) -> (r: String)
    ensures
        r@ == reason_text(*reason),
{
    match reason {
        BreakpointReason::Breakpoint => String::from_str("Breakpoint"),
        BreakpointReason::Step => String::from_str("Step"),
        BreakpointReason::Pause => String::from_str("Pause"),
        BreakpointReason::Runtime(m) => {
            let q = quoted(m.as_str());
            concat3("Runtime(", q.as_str(), ")")
        },
    }
}

/// Idempotent teardown: once torn down, the link is no longer connected, so sending
/// queues nothing, and no later teardown writes a second disconnect frame.
pub proof fn lemma_teardown_idempotent(link: Link)
    ensures
        teardown(link).0 != Link::Connected,
        teardown(teardown(link).0) == (Link::Disconnected, false),
{
}

/// Whether an eval text is a debugger command: it starts with `#`.
pub open spec fn is_command(c: Seq<char>) -> bool {
    c.len() > 0 && c[0] == '#'
}

/// The line of an offset, from a listing that may be missing.
pub open spec fn line_of(listing: Option<Vec<Decoded>>, offset: u32) -> Option<u32> {
    match listing {
        Some(l) => line_scan(l@, offset, None),
        None => None,
    }
}

/// The offset of a line, from a listing that may be missing.
pub open spec fn offset_of(listing: Option<Vec<Decoded>>, line: u32) -> Option<u32> {
    match listing {
        Some(l) => offset_scan(l@, line),
        None => None,
    }
}

/// The listing an answer gives, where it gives one.
pub open spec fn answer_listing(a: Answer) -> Option<Vec<Decoded>> {
    match a {
        Answer::Listing(l) => l,
        Answer::Hooked { listing, .. } => listing,
        _ => None,
    }
}

/// The result of setting a breakpoint: success, with the line, only where the trap was installed.
pub open spec fn breakpoint_set_result(a: Answer, offset: u32) -> BreakpointSetResult {
    match a {
        Answer::Hooked { listing, hooked } => if hooked {
            BreakpointSetResult::Success { line: line_of(listing, offset) }
        } else {
            BreakpointSetResult::Failed
        },
        _ => BreakpointSetResult::Failed,
    }
}

pub open spec fn unhook_result(a: Answer) -> bool {
    match a {
        Answer::Unhooked(b) => b,
        _ => false,
    }
}

pub open spec fn stddef_result(a: Answer) -> Option<String> {
    match a {
        Answer::StdDef(s) => s,
        _ => None,
    }
}

/// The reply to an eval that is not a debugger command.
pub open spec fn cannot_evaluate() -> Seq<char> {
    "Auxtools can't currently evaluate DM. To see available commands, use `#help`"@
}

/// The reply to an eval: a command's output, or the fixed reply.
pub open spec fn eval_text(command: Seq<char>, a: Answer) -> Seq<char> {
    if is_command(command) {
        match a {
            Answer::Output(t) => t@,
            _ => ""@,
        }
    } else {
        cannot_evaluate()
    }
}

/// What reading a frame's variables needs: the frame, found by its global id.
pub open spec fn frame_of(cs: CallStacks, frame: u32) -> Option<crate::stacks::FrameData> {
    match cs.locate(frame as int) {
        Some((s, l)) => Some(cs.stack(s)[l]),
        None => None,
    }
}

/// The stacks listing: each stack's id and the path of its first frame's proc.
pub open spec fn stacks_list(cs: CallStacks) -> Seq<Stack> {
    Seq::new(cs.n_stacks() as nat, |i: int| Stack { id: i as u32, name: cs.stack(i)[0].proc.path })
}

/// One entry of a stack-frames listing: the frame at local index `i` of stack `sid`.
pub open spec fn frame_entry(cs: CallStacks, sid: int, i: int) -> StackFrame {
    let f = cs.stack(sid)[i];
    StackFrame {
        id: (cs.base(sid) + i) as u32,
        instruction: InstructionRef { proc: f.proc, offset: f.offset },
        line: line_of(f.listing, f.offset),
    }
}

/// The frames listed for a window of a stack: from `start` (default 0), `count` of them
/// (default: all), cut off at the stack's end.
pub open spec fn frames_window(cs: CallStacks, sid: int, start: Option<u32>, count: Option<u32>) -> Seq<StackFrame> {
    let len = cs.stack(sid).len() as int;
    let s = match start { Some(v) => v as int, None => 0 };
    let c = match count { Some(v) => v as int, None => len };
    let e = if s + c < len { s + c } else { len };
    Seq::new(if s < e { (e - s) as nat } else { 0 }, |j: int| frame_entry(cs, sid, s + j))
}

/// The text of a notification about a frame id that names no frame.
pub open spec fn invalid_frame_text(what: Seq<char>, frame: u32) -> Seq<char> {
    "tried to read "@ + what + " from invalid frame id: "@ + crate::text::decimal(frame as nat)
}

/// The text of a notification about a failure while reading the VM.
pub open spec fn runtime_text(m: Seq<char>) -> Seq<char> {
    "runtime occured while processing Variables request: Runtime { message: "@ + quoted_of(m) + " }"@
}

/// Expanding a handle: the table after, the notification sent first (if any), and the variables.
pub open spec fn variables_outcome(
    kinds: Seq<Variables>,
    cs: CallStacks,
    show_internals: bool,
    vars: VariablesRef,
    a: Answer,
) -> (Seq<Variables>, Option<Seq<char>>, Seq<VarView>) {
    match resolve(kinds, vars) {
        None => (kinds, Some("received unknown VariableRef in Variables request"@), Seq::empty()),
        Some(Variables::Arguments { frame }) => match frame_of(cs, frame) {
            Some(f) => { let (k, vs) = args_view(kinds, f, frame, show_internals); (k, None, vs) },
            None => (kinds, Some(invalid_frame_text("arguments"@, frame)), Seq::empty()),
        },
        Some(Variables::Locals { frame }) => match frame_of(cs, frame) {
            Some(f) => { let (k, vs) = render_seq(kinds, local_items(f)); (k, None, vs) },
            None => (kinds, Some(invalid_frame_text("locals"@, frame)), Seq::empty()),
        },
        Some(Variables::Stack { frame }) => match frame_of(cs, frame) {
            Some(f) => { let (k, vs) = render_seq(kinds, stack_items(f)); (k, None, vs) },
            None => (kinds, Some(invalid_frame_text("vm stack"@, frame)), Seq::empty()),
        },
        Some(Variables::Internals { frame }) => match frame_of(cs, frame) {
            Some(f) => { let (k, vs) = internals_view(kinds, f, frame); (k, None, vs) },
            None => (kinds, Some(invalid_frame_text("internals"@, frame)), Seq::empty()),
        },
        Some(Variables::ObjectVars { .. }) => match a {
            Answer::Fields(Ok(fs)) => { let (k, vs) = object_view(kinds, fs@); (k, None, vs) },
            Answer::Fields(Err(m)) => (kinds, Some(runtime_text(m@)), Seq::empty()),
            _ => (kinds, Some(runtime_text(missing_data())), Seq::empty()),
        },
        Some(Variables::ListContents { .. }) => match a {
            Answer::ListEntries(Ok(es)) => {
                let (k, r) = list_view(kinds, es@);
                match r {
                    Ok(vs) => (k, None, vs),
                    Err(m) => (k, Some(runtime_text(m)), Seq::empty()),
                }
            },
            Answer::ListEntries(Err(m)) => (kinds, Some(runtime_text(m@)), Seq::empty()),
            _ => (kinds, Some(runtime_text(missing_data())), Seq::empty()),
        },
        Some(Variables::ListPair { .. }) => match a {
            Answer::Pair(kv, vv) => {
                let (k1, x) = render(kinds, "key"@, kv);
                let (k2, y) = render(k1, "value"@, vv);
                (k2, None, seq![x, y])
            },
            _ => (kinds, Some(runtime_text(missing_data())), Seq::empty()),
        },
    }
}

/// The message used when an answer does not carry what the request needed.
pub open spec fn missing_data() -> Seq<char> {
    "no data was read from the VM"@
}

/// One response queued after the ones before, when connected.
pub open spec fn one_more(link: Link, before: Seq<Response>, after: Seq<Response>) -> bool {
    queued(link, before, after, 1)
}

impl Server {
    /// What a request needs from the VM or the patcher before it can be answered.
    pub fn needs(state: Option<&State>, request: &Request) -> (r: Need)
        ensures
            match *request {
                Request::BreakpointSet { instruction } => r == Need::Hook(instruction),
                Request::BreakpointUnset { instruction } => r == Need::Unhook(instruction),
                Request::LineNumber { proc, .. } => r == Need::Listing(proc),
                Request::Offset { proc, .. } => r == Need::Listing(proc),
                Request::StdDef => r == Need::StdDef,
                Request::Eval { command, .. } => if is_command(command@) {
                    r matches Need::Command(t) && t@ == command@.skip(1)
                } else {
                    r == Need::Nothing
                },
                Request::Variables { vars } => match state {
                    Some(st) => match resolve(st.table.kinds(), vars) {
                        Some(Variables::ObjectVars { tag, data }) =>
                            r == Need::Fields(crate::values::fields_source_spec(RawValue { tag, data })),
                        Some(Variables::ListContents { tag, data }) =>
                            r == Need::ListEntries(RawValue { tag, data }),
                        Some(Variables::ListPair { key_tag, key_data, value_tag, value_data }) =>
                            r == Need::Pair(RawValue { tag: key_tag, data: key_data }, RawValue { tag: value_tag, data: value_data }),
                        _ => r == Need::Nothing,
                    },
                    None => r == Need::Nothing,
                },
                _ => r == Need::Nothing,
            },
    {
        match request {
            Request::BreakpointSet { instruction } => Need::Hook(instruction.duplicate()),
            Request::BreakpointUnset { instruction } => Need::Unhook(instruction.duplicate()),
            Request::LineNumber { proc, .. } => Need::Listing(proc.duplicate()),
            Request::Offset { proc, .. } => Need::Listing(proc.duplicate()),
            Request::StdDef => Need::StdDef,
            Request::Eval { command, .. } => {
                let c = command.as_str();
                let n = c.unicode_len();
                if n > 0 && c.get_char(0) == '#' {
                    Need::Command(String::from_str(c.substring_char(1, n)))
                } else {
                    Need::Nothing
                }
            },
            Request::Variables { vars } => match state {
                Some(st) => match st.get_variables(*vars) {
                    Some(Variables::ObjectVars { tag, data }) => Need::Fields(fields_source(RawValue { tag, data })),
                    Some(Variables::ListContents { tag, data }) => Need::ListEntries(RawValue { tag, data }),
                    Some(Variables::ListPair { key_tag, key_data, value_tag, value_data }) =>
                        Need::Pair(RawValue { tag: key_tag, data: key_data }, RawValue { tag: value_tag, data: value_data }),
                    _ => Need::Nothing,
                },
                None => Need::Nothing,
            },
            _ => Need::Nothing,
        }
    }

    /// Answers a request to set a breakpoint.
    pub fn handle_breakpoint_set(&mut self, instruction: &InstructionRef, answer: &Answer)
        ensures
            final(self).same_settings(old(self)),
            final(self).outbox() == (if old(self).link() == Link::Connected {
                old(self).outbox().push(Response::BreakpointSet { result: breakpoint_set_result(*answer, instruction.offset) })
            } else {
                old(self).outbox()
            }),
    {
        let result = match answer {
            Answer::Hooked { listing, hooked } => if *hooked {
                BreakpointSetResult::Success { line: get_line_number(listing, instruction.offset) }
            } else {
                BreakpointSetResult::Failed
            },
            _ => BreakpointSetResult::Failed,
        };
        self.send_or_disconnect(Response::BreakpointSet { result });
    }

    /// Answers a request to remove a breakpoint.
    pub fn handle_breakpoint_unset(&mut self, answer: &Answer)
        ensures
            final(self).same_settings(old(self)),
            final(self).outbox() == (if old(self).link() == Link::Connected {
                old(self).outbox().push(Response::BreakpointUnset { success: unhook_result(*answer) })
            } else {
                old(self).outbox()
            }),
    {
        let success = match answer {
            Answer::Unhooked(b) => *b,
            _ => false,
        };
        self.send_or_disconnect(Response::BreakpointUnset { success });
    }

    /// Lists the stacks: none while running.
    pub fn handle_stacks(&mut self, state: Option<&State>)
        requires
            state matches Some(st) ==> st.wf(),
        ensures
            final(self).same_settings(old(self)),
            stacks_sent(match state { Some(st) => Some(st.stacks), None => None }, old(self).link(), old(self).outbox(), final(self).outbox()),
    {
        let mut stacks: Vec<Stack> = Vec::new();
        match state {
            Some(st) => {
                let cs = &st.stacks;
                proof {
                    cs.lemma_base_counts(cs.n_stacks());
                    assert(cs.stack(0).len() > 0);
                }
                stacks.push(Stack { id: 0, name: cs.active[0].proc.path.clone() });
                let n = cs.suspended.len();
                let mut k: usize = 0;
                while k < n
                    invariant
                        n == cs.suspended@.len(),
                        cs.wf(),
                        cs.n_stacks() <= u32::MAX,
                        k <= n,
                        stacks@ =~= stacks_list(*cs).take(k + 1),
                    decreases n - k,
                {
                    assert(cs.stack(k + 1).len() > 0);
                    stacks.push(Stack { id: (k + 1) as u32, name: cs.suspended[k][0].proc.path.clone() });
                    k = k + 1;
                }
                assert(stacks_list(*cs).take(n + 1) =~= stacks_list(*cs));
            },
            None => {},
        }
        let ghost before = self.outbox();
        self.send_or_disconnect(Response::Stacks { stacks });
        assert(self.link() == Link::Connected ==> self.outbox().take(before.len() as int) =~= before);
    }

    /// Lists a window of a stack's frames.
    pub fn handle_stack_frames(&mut self, state: &State, stack_id: u32, start_frame: Option<u32>, count: Option<u32>)
        requires
            state.wf(),
        ensures
            final(self).same_settings(old(self)),
            stack_frames_sent(state.stacks, stack_id, start_frame, count, old(self).link(), old(self).outbox(), final(self).outbox()),
    {
        let cs = &state.stacks;
        match cs.get_stack(stack_id) {
            Some(stack) => {
                let frame_base = cs.get_stack_base_frame_id(stack_id);
                let len = stack.len();
                proof {
                    cs.lemma_base_mono(stack_id as int + 1, cs.n_stacks());
                }
                let start: u64 = match start_frame { Some(v) => v as u64, None => 0 };
                let c: u64 = match count { Some(v) => v as u64, None => len as u64 };
                let end0: u64 = if start + c < len as u64 { start + c } else { len as u64 };
                let end: u64 = if end0 < start { start } else { end0 };
                let ghost want = frames_window(*cs, stack_id as int, start_frame, count);
                let mut frames: Vec<StackFrame> = Vec::new();
                let mut i: u64 = start;
                while i < end
                    invariant
                        cs.wf(),
                        stack_id < cs.n_stacks(),
                        stack@ == cs.stack(stack_id as int),
                        len == stack@.len(),
                        frame_base == cs.base(stack_id as int),
                        cs.base(stack_id as int + 1) <= u32::MAX,
                        cs.base(stack_id as int + 1) == cs.base(stack_id as int) + len,
                        want == frames_window(*cs, stack_id as int, start_frame, count),
                        start <= i <= end,
                        end <= len || end == start,
                        start == match start_frame { Some(v) => v as int, None => 0 },
                        end0 == (if start + c < len { start + c } else { len as int }),
                        end == (if end0 < start { start } else { end0 }),
                        c == match count { Some(v) => v as int, None => len as int },
                        frames@ =~= want.take(i - start),
                    decreases end - i,
                {
                    let f = &stack[i as usize];
                    let entry = StackFrame {
                        id: frame_base + (i as u32),
                        instruction: InstructionRef { proc: f.proc.duplicate(), offset: f.offset },
                        line: get_line_number(&f.listing, f.offset),
                    };
                    assert(entry == frame_entry(*cs, stack_id as int, i as int));
                    frames.push(entry);
                    i = i + 1;
                }
                assert(want.len() == end - start);
                assert(want.take(end - start) =~= want);
                let ghost before = self.outbox();
                self.send_or_disconnect(Response::StackFrames { frames, total_count: len as u32 });
                assert(self.link() == Link::Connected ==> self.outbox().drop_last() =~= before);
            },
            None => {
                let ghost before = self.outbox();
                self.notify(String::from_str("received StackFrames request when not paused"));
                self.send_or_disconnect(Response::StackFrames { frames: Vec::new(), total_count: 0 });
                assert(self.link() == Link::Connected ==> self.outbox().take(before.len() as int) =~= before);
            },
        }
    }
}

/// The responses to a variables request: the notification first, if any, then the variables.
pub open spec fn variables_sent(
    link: Link,
    before: Seq<Response>,
    after: Seq<Response>,
    note: Option<Seq<char>>,
    vs: Seq<VarView>,
) -> bool {
    if link == Link::Connected {
        match note {
            None => {
                &&& after.len() == before.len() + 1
                &&& after.drop_last() == before
                &&& after.last() matches Response::Variables { vars }
                &&& views(vars@) == vs
            },
            Some(m) => {
                &&& after.len() == before.len() + 2
                &&& after.take(before.len() as int) == before
                &&& after[before.len() as int] matches Response::Notification { message }
                &&& message@ == m
                &&& after.last() matches Response::Variables { vars }
                &&& views(vars@) == vs
            },
        }
    } else {
        after == before
    }
}

fn no_vars() -> (r: Vec<Variable>)
    ensures
        views(r@) == Seq::<VarView>::empty(),
{
    let r: Vec<Variable> = Vec::new();
    assert(views(r@) =~= Seq::<VarView>::empty());
    r
}

fn invalid_frame_message(what: &str, frame: u32) -> (r: String)
    ensures
        r@ == invalid_frame_text(what@, frame),
{
    let mut m = concat3("tried to read ", what, " from invalid frame id: ");
    let d = crate::text::decimal_string(frame as u64);
    m.append(d.as_str());
    m
}

fn runtime_message(m: &str) -> (r: String)
    ensures
        r@ == runtime_text(m@),
{
    let q = quoted(m);
    concat3("runtime occured while processing Variables request: Runtime { message: ", q.as_str(), " }")
}

impl Server {
    fn send_variables(&mut self, note: Option<String>, vars: Vec<Variable>)
        ensures
            final(self).same_settings(old(self)),
            variables_sent(
                old(self).link(),
                old(self).outbox(),
                final(self).outbox(),
                match note { Some(m) => Some(m@), None => None },
                views(vars@),
            ),
    {
        let ghost before = self.outbox();
        match note {
            Some(m) => {
                self.notify(m);
            },
            None => {},
        }
        self.send_or_disconnect(Response::Variables { vars });
        assert(self.link() == Link::Connected ==> self.outbox().take(before.len() as int) =~= before);
    }

    /// Opens the scopes of a frame: handles for its arguments, its locals and the globals.
    pub fn handle_scopes(&mut self, state: &mut State, frame_id: u32)
        requires
            old(state).wf(),
        ensures
            final(state).wf(),
            final(state).stacks == old(state).stacks,
            final(self).same_settings(old(self)),
            ({
                let (k1, a) = intern(old(state).table.kinds(), Variables::Arguments { frame: frame_id });
                let (k2, l) = intern(k1, Variables::Locals { frame: frame_id });
                let (k3, g) = intern(k2, Variables::ObjectVars { tag: TAG_WORLD, data: WORLD_ID });
                &&& final(state).table.kinds() == k3
                &&& final(self).outbox() == (if old(self).link() == Link::Connected {
                    old(self).outbox().push(Response::Scopes { arguments: a, locals: l, globals: g })
                } else {
                    old(self).outbox()
                })
            }),
    {
        let arguments = state.get_ref(Variables::Arguments { frame: frame_id });
        let locals = state.get_ref(Variables::Locals { frame: frame_id });
        let globals = state.get_ref(Variables::ObjectVars { tag: TAG_WORLD, data: WORLD_ID });
        self.send_or_disconnect(Response::Scopes { arguments, locals, globals });
    }

    /// Expands a handle into its variables.
    pub fn handle_variables(&mut self, state: &mut State, vars: VariablesRef, answer: &Answer)
        requires
            old(state).wf(),
        ensures
            final(state).wf(),
            final(state).stacks == old(state).stacks,
            final(self).same_settings(old(self)),
            ({
                let (k, note, vs) = variables_outcome(
                    old(state).table.kinds(),
                    old(state).stacks,
                    old(self).shows_internals(),
                    vars,
                    *answer,
                );
                &&& final(state).table.kinds() == k
                &&& variables_sent(old(self).link(), old(self).outbox(), final(self).outbox(), note, vs)
            }),
    {
        let show = self.should_show_internals;
        match state.get_variables(vars) {
            None => {
                self.send_variables(Some(String::from_str("received unknown VariableRef in Variables request")), no_vars());
            },
            Some(Variables::Arguments { frame }) => match state.stacks.get_stack_frame(frame) {
                Some(f) => {
                    let vs = get_args(&mut state.table, f, frame, show);
                    self.send_variables(None, vs);
                },
                None => {
                    self.send_variables(Some(invalid_frame_message("arguments", frame)), no_vars());
                },
            },
            Some(Variables::Locals { frame }) => match state.stacks.get_stack_frame(frame) {
                Some(f) => {
                    let vs = get_locals(&mut state.table, f);
                    self.send_variables(None, vs);
                },
                None => {
                    self.send_variables(Some(invalid_frame_message("locals", frame)), no_vars());
                },
            },
            Some(Variables::Stack { frame }) => match state.stacks.get_stack_frame(frame) {
                Some(f) => {
                    let vs = get_vm_stack(&mut state.table, f);
                    self.send_variables(None, vs);
                },
                None => {
                    self.send_variables(Some(invalid_frame_message("vm stack", frame)), no_vars());
                },
            },
            Some(Variables::Internals { frame }) => match state.stacks.get_stack_frame(frame) {
                Some(f) => {
                    let vs = get_internals(&mut state.table, f, frame);
                    self.send_variables(None, vs);
                },
                None => {
                    self.send_variables(Some(invalid_frame_message("internals", frame)), no_vars());
                },
            },
            Some(Variables::ObjectVars { .. }) => match answer {
                Answer::Fields(Ok(fs)) => {
                    let vs = object_to_variables(&mut state.table, fs);
                    self.send_variables(None, vs);
                },
                Answer::Fields(Err(m)) => {
                    self.send_variables(Some(runtime_message(m.as_str())), no_vars());
                },
                _ => {
                    self.send_variables(Some(runtime_message("no data was read from the VM")), no_vars());
                },
            },
            Some(Variables::ListContents { .. }) => match answer {
                Answer::ListEntries(Ok(es)) => match list_to_variables(&mut state.table, es) {
                    Ok(vs) => {
                        self.send_variables(None, vs);
                    },
                    Err(m) => {
                        self.send_variables(Some(runtime_message(m.as_str())), no_vars());
                    },
                },
                Answer::ListEntries(Err(m)) => {
                    self.send_variables(Some(runtime_message(m.as_str())), no_vars());
                },
                _ => {
                    self.send_variables(Some(runtime_message("no data was read from the VM")), no_vars());
                },
            },
            Some(Variables::ListPair { .. }) => match answer {
                Answer::Pair(k, v) => {
                    let x = value_to_variable(&mut state.table, String::from_str("key"), k);
                    let y = value_to_variable(&mut state.table, String::from_str("value"), v);
                    let vs = vec![x, y];
                    assert(views(vs@) =~= seq![vs@[0]@, vs@[1]@]);
                    self.send_variables(None, vs);
                },
                _ => {
                    self.send_variables(Some(runtime_message("no data was read from the VM")), no_vars());
                },
            },
        }
    }
}

/// The stacks listing sent: every stack while paused, none while running.
pub open spec fn stacks_sent(cs: Option<CallStacks>, link: Link, before: Seq<Response>, after: Seq<Response>) -> bool {
    &&& one_more(link, before, after)
    &&& link == Link::Connected ==> (after.last() matches Response::Stacks { stacks }
        && stacks@ == match cs {
            Some(c) => stacks_list(c),
            None => Seq::<Stack>::empty(),
        })
}

/// The frames listing sent for a window of stack `stack_id`, or, for a stack id that names
/// no stack, a notification and an empty listing.
pub open spec fn stack_frames_sent(
    cs: CallStacks,
    stack_id: u32,
    start_frame: Option<u32>,
    count: Option<u32>,
    link: Link,
    before: Seq<Response>,
    after: Seq<Response>,
) -> bool {
    &&& link == Link::Connected ==> if stack_id < cs.n_stacks() {
        &&& after.len() == before.len() + 1
        &&& after.drop_last() == before
        &&& after.last() matches Response::StackFrames { frames, total_count }
        &&& frames@ == frames_window(cs, stack_id as int, start_frame, count)
        &&& total_count == cs.stack(stack_id as int).len()
    } else {
        &&& after.len() == before.len() + 2
        &&& after.take(before.len() as int) == before
        &&& after[before.len() as int] matches Response::Notification { message }
        &&& message@ == "received StackFrames request when not paused"@
        &&& after.last() matches Response::StackFrames { frames, total_count }
        &&& frames@.len() == 0 && total_count == 0
    }
    &&& link != Link::Connected ==> after == before
}

/// The one reply to a request whose reply is fixed by the request, the VM's answer and the stacks.
pub open spec fn reply_of(request: Request, a: Answer, cs: Option<CallStacks>) -> Response {
    match request {
        Request::BreakpointSet { instruction } =>
            Response::BreakpointSet { result: breakpoint_set_result(a, instruction.offset) },
        Request::BreakpointUnset { .. } => Response::BreakpointUnset { success: unhook_result(a) },
        Request::LineNumber { offset, .. } => Response::LineNumber { line: line_of(answer_listing(a), offset) },
        Request::Offset { line, .. } => Response::Offset { offset: offset_of(answer_listing(a), line) },
        Request::StdDef => Response::StdDef(stddef_result(a)),
        Request::CurrentInstruction { frame_id } => Response::CurrentInstruction(match cs {
            Some(c) => match frame_of(c, frame_id) {
                Some(f) => Some(InstructionRef { proc: f.proc, offset: f.offset }),
                None => None,
            },
            None => None,
        }),
        _ => Response::Ack,
    }
}

/// What handling a request that leaves the session's handles alone does.
pub open spec fn common_effect(
    request: Request,
    a: Answer,
    cs: Option<CallStacks>,
    before: &Server,
    after: &Server,
) -> bool {
    match request {
        Request::CatchRuntimes { should_catch } => {
            &&& after.catches_runtimes() == should_catch
            &&& after.link() == before.link()
            &&& after.shows_internals() == before.shows_internals()
            &&& after.outbox() == before.outbox()
        },
        Request::Stacks => after.same_settings(before) && stacks_sent(cs, before.link(), before.outbox(), after.outbox()),
        Request::StackFrames { stack_id, start_frame, count } => {
            &&& after.same_settings(before)
            &&& cs matches Some(c) && stack_frames_sent(c, stack_id, start_frame, count, before.link(), before.outbox(), after.outbox())
        },
        Request::Eval { command, .. } => {
            &&& after.same_settings(before)
            &&& one_more(before.link(), before.outbox(), after.outbox())
            &&& before.link() == Link::Connected ==> (after.outbox().last() matches Response::Eval(t) && t@ == eval_text(command@, a))
        },
        _ => {
            &&& after.same_settings(before)
            &&& after.outbox() == (if before.link() == Link::Connected {
                before.outbox().push(reply_of(request, a, cs))
            } else {
                before.outbox()
            })
        },
    }
}

/// Whether a request can be handled without touching the session's handles.
pub open spec fn is_common(request: Request, paused: bool) -> bool {
    match request {
        Request::Disconnect => false,
        Request::Scopes { .. } => false,
        Request::Variables { .. } => false,
        Request::StackFrames { .. } => paused,
        Request::CurrentInstruction { .. } => paused,
        _ => true,
    }
}

impl Server {
    /// Answers an eval: a debugger command's output, or the fixed reply.
    pub fn handle_eval(&mut self, command: &String, answer: &Answer)
        ensures
            final(self).same_settings(old(self)),
            one_more(old(self).link(), old(self).outbox(), final(self).outbox()),
            old(self).link() == Link::Connected ==> (final(self).outbox().last() matches Response::Eval(t)
                && t@ == eval_text(command@, *answer)),
    {
        let c = command.as_str();
        let is_cmd = c.unicode_len() > 0 && c.get_char(0) == '#';
        let text = if is_cmd {
            match answer {
                Answer::Output(t) => t.clone(),
                _ => String::from_str(""),
            }
        } else {
            String::from_str("Auxtools can't currently evaluate DM. To see available commands, use `#help`")
        };
        let ghost before = self.outbox();
        self.send_or_disconnect(Response::Eval(text));
        assert(self.link() == Link::Connected ==> self.outbox().take(before.len() as int) =~= before);
    }

    fn handle_request(&mut self, state: Option<&State>, request: Request, answer: &Answer) -> (r: bool)
        requires
            is_common(request, state is Some),
            state matches Some(st) ==> st.wf(),
        ensures
            r == (request == Request::Pause),
            common_effect(request, *answer, match state { Some(st) => Some(st.stacks), None => None }, old(self), final(self)),
    {
        match request {
            Request::CatchRuntimes { should_catch } => {
                self.should_catch_runtimes = should_catch;
            },
            Request::BreakpointSet { instruction } => self.handle_breakpoint_set(&instruction, answer),
            Request::BreakpointUnset { .. } => self.handle_breakpoint_unset(answer),
            Request::Stacks => self.handle_stacks(state),
            Request::Eval { command, .. } => self.handle_eval(&command, answer),
            Request::StackFrames { stack_id, start_frame, count } => match state {
                Some(st) => self.handle_stack_frames(st, stack_id, start_frame, count),
                None => {},
            },
            Request::LineNumber { offset, .. } => {
                let listing = match answer {
                    Answer::Listing(l) => get_line_number(l, offset),
                    Answer::Hooked { listing, .. } => get_line_number(listing, offset),
                    _ => None,
                };
                self.send_or_disconnect(Response::LineNumber { line: listing });
            },
            Request::Offset { line, .. } => {
                let offset = match answer {
                    Answer::Listing(l) => get_offset(l, line),
                    Answer::Hooked { listing, .. } => get_offset(listing, line),
                    _ => None,
                };
                self.send_or_disconnect(Response::Offset { offset });
            },
            Request::Pause => {
                self.send_or_disconnect(Response::Ack);
                return true;
            },
            Request::StdDef => {
                let text = match answer {
                    Answer::StdDef(t) => match t {
                        Some(x) => Some(x.clone()),
                        None => None,
                    },
                    _ => None,
                };
                self.send_or_disconnect(Response::StdDef(text));
            },
            Request::CurrentInstruction { frame_id } => {
                let found = match state {
                    Some(st) => match st.stacks.get_stack_frame(frame_id) {
                        Some(f) => Some(InstructionRef { proc: f.proc.duplicate(), offset: f.offset }),
                        None => None,
                    },
                    None => None,
                };
                self.send_or_disconnect(Response::CurrentInstruction(found));
            },
            _ => {
                self.send_or_disconnect(Response::Ack);
            },
        }
        false
    }
}

/// The notification sent when execution pauses.
pub open spec fn pausing_text(reason: BreakpointReason) -> Seq<char> {
    "Pausing execution (reason: "@ + reason_text(reason) + ")"@
}

impl Server {
    /// While running: handles one queued request. Returns whether the client asked to pause.
    /// Nothing is handled until a client is connected.
    pub fn process(&mut self, request: Request, answer: &Answer) -> (r: bool)
        requires
            is_common(request, false),
        ensures
            old(self).link() != Link::Connected ==> !r && *final(self) == *old(self),
            old(self).link() == Link::Connected ==> r == (request == Request::Pause)
                && common_effect(request, *answer, None, old(self), final(self)),
    {
        if !self.check_connected() {
            return false;
        }
        self.handle_request(None, request, answer)
    }

    /// Before the client is configured: handles one request. Returns whether it was the
    /// `Configured` request, which is acknowledged and ends the handshake.
    pub fn process_until_configured(&mut self, request: Request, answer: &Answer) -> (r: bool)
        requires
            is_common(request, false),
        ensures
            r == (request == Request::Configured),
            r ==> final(self).same_settings(old(self)) && final(self).outbox() == (if old(self).link() == Link::Connected {
                old(self).outbox().push(Response::Ack)
            } else {
                old(self).outbox()
            }),
            !r ==> common_effect(request, *answer, None, old(self), final(self)),
    {
        if let Request::Configured = request {
            self.send_or_disconnect(Response::Ack);
            return true;
        }
        self.handle_request(None, request, answer);
        false
    }

    /// The VM reached a trap or an uncaught runtime error. Returns how to resume at once,
    /// or none when execution pauses: then the client has been told, and the session's
    /// requests follow until one says how to continue.
    pub fn handle_breakpoint(&mut self, reason: BreakpointReason) -> (r: Option<ContinueKind>)
        ensures
            final(self).same_settings(old(self)),
            old(self).link() != Link::Connected ==> r == Some(ContinueKind::Continue)
                && final(self).outbox() == old(self).outbox(),
            old(self).link() == Link::Connected && reason is Runtime && !old(self).catches_runtimes()
                ==> r == Some(ContinueKind::Continue) && final(self).outbox() == old(self).outbox(),
            old(self).link() == Link::Connected && !(reason is Runtime && !old(self).catches_runtimes()) ==> {
                &&& r is None
                &&& final(self).outbox().len() == old(self).outbox().len() + 2
                &&& final(self).outbox().take(old(self).outbox().len() as int) == old(self).outbox()
                &&& final(self).outbox()[old(self).outbox().len() as int] matches Response::Notification { message }
                &&& message@ == pausing_text(reason)
                &&& final(self).outbox().last() == Response::BreakpointHit { reason }
            },
    {
        if !self.check_connected() {
            return Some(ContinueKind::Continue);
        }
        if let BreakpointReason::Runtime(_) = reason {
            if !self.should_catch_runtimes {
                return Some(ContinueKind::Continue);
            }
        }
        let ghost before = self.outbox();
        let text = describe_reason(&reason);
        let message = concat3("Pausing execution (reason: ", text.as_str(), ")");
        self.notify(message);
        self.send_or_disconnect(Response::BreakpointHit { reason });
        assert(self.outbox().take(before.len() as int) =~= before);
        None
    }

    /// While paused: handles one request against the session. Returns how to resume once
    /// the client says so; a pause request changes nothing.
    pub fn handle_paused(&mut self, state: &mut State, request: Request, answer: &Answer) -> (r: Option<ContinueKind>)
        requires
            old(state).wf(),
            !(request is Disconnect),
        ensures
            final(state).wf(),
            final(state).stacks == old(state).stacks,
            match request {
                Request::Continue { kind } => {
                    &&& r == Some(kind)
                    &&& *final(state) == *old(state)
                    &&& final(self).same_settings(old(self))
                    &&& final(self).outbox() == (if old(self).link() == Link::Connected {
                        old(self).outbox().push(Response::Ack)
                    } else {
                        old(self).outbox()
                    })
                },
                Request::Scopes { frame_id } => {
                    let (k1, a) = intern(old(state).table.kinds(), Variables::Arguments { frame: frame_id });
                    let (k2, l) = intern(k1, Variables::Locals { frame: frame_id });
                    let (k3, g) = intern(k2, Variables::ObjectVars { tag: TAG_WORLD, data: WORLD_ID });
                    &&& r is None
                    &&& final(state).table.kinds() == k3
                    &&& final(self).same_settings(old(self))
                    &&& final(self).outbox() == (if old(self).link() == Link::Connected {
                        old(self).outbox().push(Response::Scopes { arguments: a, locals: l, globals: g })
                    } else {
                        old(self).outbox()
                    })
                },
                Request::Variables { vars } => {
                    let (k, note, vs) = variables_outcome(
                        old(state).table.kinds(),
                        old(state).stacks,
                        old(self).shows_internals(),
                        vars,
                        *answer,
                    );
                    &&& r is None
                    &&& final(state).table.kinds() == k
                    &&& final(self).same_settings(old(self))
                    &&& variables_sent(old(self).link(), old(self).outbox(), final(self).outbox(), note, vs)
                },
                _ => {
                    &&& r is None
                    &&& *final(state) == *old(state)
                    &&& common_effect(request, *answer, Some(old(state).stacks), old(self), final(self))
                },
            },
    {
        match request {
            Request::Continue { kind } => {
                self.send_or_disconnect(Response::Ack);
                Some(kind)
            },
            Request::Scopes { frame_id } => {
                self.handle_scopes(state, frame_id);
                None
            },
            Request::Variables { vars } => {
                self.handle_variables(state, vars, answer);
                None
            },
            _ => {
                self.handle_request(Some(&*state), request, answer);
                None
            },
        }
    }
}

} // verus!
