use debug_server::commands::{handle_command, handle_disassemble, Command, CommandPlan};
use debug_server::framing::{encode_frame, frame_len};
use debug_server::hook::hello_proc_hook;
use debug_server::lines::{get_line_number, get_offset, Decoded, Instruction};
use debug_server::materialize::{list_to_variables, object_to_variables, sort_by_keys, value_to_variable};
use debug_server::refs::{RefTable, Variables};
use debug_server::server::{Answer, Link, Need, Server};
use debug_server::session::State;
use debug_server::stacks::{CallStacks, FrameData};
use debug_server::text::{decimal_string, str_le};
use debug_server::types::{
    BreakpointReason, BreakpointSetResult, ContinueKind, InstructionRef, ProcRef, Request, Response,
    VariablesRef,
};
use debug_server::values::{Arg, Field, FieldsSource, ListEntry, Local, RawValue, ValueInfo, TAG_NULL, TAG_WORLD};

const TAG_NUMBER: u8 = 0x2A;
const TAG_LIST: u8 = 0x0F;
const TAG_DATUM: u8 = 0x21;

fn plain(tag: u8, data: u32, text: &str) -> ValueInfo {
    ValueInfo {
        raw: RawValue { tag, data },
        list_len: None,
        has_vars: false,
        text: Ok(text.to_string()),
        raw_text: format!("[{}:{}]", tag, data),
    }
}

fn null() -> ValueInfo {
    plain(TAG_NULL, 0, "")
}

fn frame(path: &str, offset: u32) -> FrameData {
    FrameData {
        proc: ProcRef { path: path.to_string(), override_id: 0 },
        offset,
        listing: None,
        src: null(),
        usr: null(),
        dot: null(),
        args: vec![],
        locals: vec![],
        stack: vec![],
        cache: null(),
    }
}

fn frames(prefix: &str, n: u32) -> Vec<FrameData> {
    (0..n).map(|i| frame(&format!("{}{}", prefix, i), i)).collect()
}

fn listing() -> Vec<Decoded> {
    vec![
        Decoded { offset: 0, instruction: Instruction::DbgLine(10) },
        Decoded { offset: 2, instruction: Instruction::Other },
        Decoded { offset: 4, instruction: Instruction::DbgLine(12) },
        Decoded { offset: 6, instruction: Instruction::Other },
    ]
}

fn three_stacks() -> CallStacks {
    CallStacks { active: frames("/proc/a", 3), suspended: vec![frames("/proc/b", 2), frames("/proc/c", 4)] }
}

#[test]
fn test() {}

#[test]
fn interning_same_kind_same_handle() {
    let mut t = RefTable::new();
    let a = t.get_ref(Variables::Locals { frame: 2 });
    let b = t.get_ref(Variables::Arguments { frame: 2 });
    let c = t.get_ref(Variables::Locals { frame: 2 });
    assert_eq!(a, Some(VariablesRef(1)));
    assert_eq!(b, Some(VariablesRef(2)));
    assert_eq!(c, a);
    assert_ne!(a, b);
    assert_eq!(t.get_variables(VariablesRef(2)), Some(Variables::Arguments { frame: 2 }));
}

#[test]
fn interning_unknown_handles_resolve_to_none() {
    let mut t = RefTable::new();
    t.get_ref(Variables::Stack { frame: 0 });
    assert_eq!(t.get_variables(VariablesRef(0)), None);
    assert_eq!(t.get_variables(VariablesRef(2)), None);
    assert_eq!(t.get_variables(VariablesRef(-1)), None);
}

#[test]
fn interning_new_session_starts_over() {
    let mut first = State::new(three_stacks());
    first.get_ref(Variables::Locals { frame: 0 });
    first.get_ref(Variables::Locals { frame: 1 });
    let second = State::new(three_stacks());
    assert_eq!(second.get_variables(VariablesRef(1)), None);
    assert_eq!(second.get_variables(VariablesRef(2)), None);
}

#[test]
fn flattening_base_ids_and_frame_lookup() {
    let cs = three_stacks();
    assert_eq!(cs.get_stack_base_frame_id(0), 0);
    assert_eq!(cs.get_stack_base_frame_id(1), 3);
    assert_eq!(cs.get_stack_base_frame_id(2), 5);
    let f = cs.get_stack_frame(6).unwrap();
    assert_eq!(f.proc.path, "/proc/c1");
    assert_eq!(cs.get_stack_frame(2).unwrap().proc.path, "/proc/a2");
    assert_eq!(cs.get_stack_frame(3).unwrap().proc.path, "/proc/b0");
    assert!(cs.get_stack_frame(9).is_none());
    assert_eq!(cs.get_stack(2).unwrap().len(), 4);
    assert!(cs.get_stack(3).is_none());
}

#[test]
fn line_scan_scenario() {
    let l = Some(listing());
    assert_eq!(get_line_number(&l, 3), Some(10));
    assert_eq!(get_line_number(&l, 5), Some(12));
    assert_eq!(get_offset(&l, 12), Some(6));
    assert_eq!(get_line_number(&l, 7), None);
    assert_eq!(get_line_number(&l, 4), Some(12));
    assert_eq!(get_offset(&l, 11), None);
    assert_eq!(get_line_number(&None, 0), None);
}

#[test]
fn association_rendering() {
    let mut state = State::new(three_stacks());
    let entries = vec![ListEntry { key: plain(6, 7, "a"), assoc: Some(plain(TAG_NUMBER, 1, "1")) }];
    let vars = list_to_variables(&mut state.table, &entries).unwrap();
    assert_eq!(vars.len(), 1);
    assert_eq!(vars[0].name, "[1]");
    assert_eq!(vars[0].value, "a = 1");
    let handle = vars[0].variables.unwrap();
    assert_eq!(
        state.get_variables(handle),
        Some(Variables::ListPair { key_tag: 6, key_data: 7, value_tag: TAG_NUMBER, value_data: 1 })
    );
    let mut server = Server::new(true);
    let req = Request::Variables { vars: handle };
    assert!(matches!(Server::needs(Some(&state), &req), Need::Pair(_, _)));
    let answer = Answer::Pair(plain(6, 7, "a"), plain(TAG_NUMBER, 1, "1"));
    assert_eq!(server.handle_paused(&mut state, req, &answer), None);
    let out = server.take_outbox();
    match &out[0] {
        Response::Variables { vars } => {
            let names: Vec<&str> = vars.iter().map(|v| v.name.as_str()).collect();
            assert_eq!(names, vec!["key", "value"]);
            assert_eq!(vars[0].value, "a");
            assert_eq!(vars[1].value, "1");
        },
        other => panic!("unexpected {:?}", other),
    }
}

#[test]
fn list_with_null_association_shows_element() {
    let mut t = RefTable::new();
    let entries = vec![
        ListEntry { key: plain(6, 1, "x"), assoc: Some(null()) },
        ListEntry { key: plain(6, 2, "y"), assoc: None },
    ];
    let vars = list_to_variables(&mut t, &entries).unwrap();
    assert_eq!(vars[0].name, "[1]");
    assert_eq!(vars[0].value, "x");
    assert_eq!(vars[0].variables, None);
    assert_eq!(vars[1].name, "[2]");
    assert_eq!(vars[1].value, "y");
}

#[test]
fn list_association_failure_is_an_error() {
    let mut t = RefTable::new();
    let mut key = plain(6, 1, "x");
    key.text = Err("bad".to_string());
    let entries = vec![ListEntry { key, assoc: Some(plain(TAG_NUMBER, 3, "3")) }];
    assert_eq!(list_to_variables(&mut t, &entries).unwrap_err(), "bad");
}

#[test]
fn value_rendering() {
    let mut t = RefTable::new();
    let mut list = plain(TAG_LIST, 9, "/list");
    list.list_len = Some(Ok(3));
    let v = value_to_variable(&mut t, "l".to_string(), &list);
    assert_eq!(v.value, "/list {len = 3}");
    assert_eq!(v.variables, Some(VariablesRef(1)));
    assert_eq!(t.get_variables(VariablesRef(1)), Some(Variables::ListContents { tag: TAG_LIST, data: 9 }));

    let mut broken = plain(TAG_LIST, 10, "");
    broken.list_len = Some(Err("gone".to_string()));
    let v = value_to_variable(&mut t, "b".to_string(), &broken);
    assert_eq!(v.value, "/list (failed to get len: \"gone\")");

    let empty = plain(TAG_DATUM, 4, "");
    let v = value_to_variable(&mut t, "e".to_string(), &empty);
    assert_eq!(v.value, "[33:4]");
    assert_eq!(v.variables, None);

    let mut obj = plain(TAG_DATUM, 5, "thing");
    obj.has_vars = true;
    let v = value_to_variable(&mut t, "o".to_string(), &obj);
    assert_eq!(v.value, "thing");
    assert_eq!(t.get_variables(v.variables.unwrap()), Some(Variables::ObjectVars { tag: TAG_DATUM, data: 5 }));

    let world = plain(TAG_WORLD, 1, "world");
    let v = value_to_variable(&mut t, "w".to_string(), &world);
    assert!(v.variables.is_some());

    let mut failing = plain(TAG_NUMBER, 2, "");
    failing.text = Err("oops".to_string());
    let v = value_to_variable(&mut t, "f".to_string(), &failing);
    assert_eq!(v.value, "[42:2] -- stringify error: \"oops\"");
}

#[test]
fn object_fields_type_first_then_case_insensitive() {
    let mut t = RefTable::new();
    let fields = vec![
        Field { name: "zeta".to_string(), value: plain(TAG_NUMBER, 1, "1") },
        Field { name: "Alpha".to_string(), value: plain(TAG_NUMBER, 2, "2") },
        Field { name: "type".to_string(), value: plain(TAG_NUMBER, 3, "/obj") },
        Field { name: "beta".to_string(), value: plain(TAG_NUMBER, 4, "4") },
        Field { name: "alpha".to_string(), value: plain(TAG_NUMBER, 5, "5") },
    ];
    let vars = object_to_variables(&mut t, &fields);
    let names: Vec<&str> = vars.iter().map(|v| v.name.as_str()).collect();
    assert_eq!(names, vec!["type", "Alpha", "alpha", "beta", "zeta"]);
}

#[test]
fn frame_views() {
    let mut f = frame("/proc/x", 0);
    f.args = vec![
        Arg { name: Some("a".to_string()), value: plain(TAG_NUMBER, 1, "1") },
        Arg { name: None, value: plain(TAG_NUMBER, 2, "2") },
        Arg { name: None, value: plain(TAG_NUMBER, 3, "3") },
    ];
    f.locals = vec![Local { name: "i".to_string(), value: plain(TAG_NUMBER, 4, "4") }];
    f.stack = vec![plain(TAG_NUMBER, 5, "5"), plain(TAG_NUMBER, 6, "6")];
    let mut state = State::new(CallStacks { active: vec![f], suspended: vec![] });
    let mut server = Server::new(true);
    server.handle_paused(&mut state, Request::Scopes { frame_id: 0 }, &Answer::Nothing);
    let out = server.take_outbox();
    let (args, locals, globals) = match &out[0] {
        Response::Scopes { arguments, locals, globals } => (arguments.unwrap(), locals.unwrap(), globals.unwrap()),
        other => panic!("unexpected {:?}", other),
    };
    assert_eq!(state.get_variables(globals), Some(Variables::ObjectVars { tag: TAG_WORLD, data: 1 }));

    server.handle_paused(&mut state, Request::Variables { vars: args }, &Answer::Nothing);
    server.handle_paused(&mut state, Request::Variables { vars: locals }, &Answer::Nothing);
    let out = server.take_outbox();
    let names = |r: &Response| match r {
        Response::Variables { vars } => vars.iter().map(|v| v.name.clone()).collect::<Vec<String>>(),
        other => panic!("unexpected {:?}", other),
    };
    assert_eq!(
        names(&out[0]),
        vec!["src", "usr", "a", "undefined argument #1", "undefined argument #2", "BYOND Internals"]
    );
    assert_eq!(names(&out[1]), vec![".", "i"]);

    let internals = match &out[0] {
        Response::Variables { vars } => vars[5].variables.unwrap(),
        _ => unreachable!(),
    };
    server.handle_paused(&mut state, Request::Variables { vars: internals }, &Answer::Nothing);
    let out = server.take_outbox();
    assert_eq!(names(&out[0]), vec!["Stack", "Cache"]);
    let stack = match &out[0] {
        Response::Variables { vars } => vars[0].variables.unwrap(),
        _ => unreachable!(),
    };
    server.handle_paused(&mut state, Request::Variables { vars: stack }, &Answer::Nothing);
    let out = server.take_outbox();
    assert_eq!(names(&out[0]), vec!["[0]", "[1]"]);
}

#[test]
fn unknown_handle_notifies_and_answers_empty() {
    let mut state = State::new(three_stacks());
    let mut server = Server::new(true);
    server.handle_paused(&mut state, Request::Variables { vars: VariablesRef(7) }, &Answer::Nothing);
    let out = server.take_outbox();
    assert_eq!(out.len(), 2);
    assert!(matches!(&out[0], Response::Notification { message } if message == "received unknown VariableRef in Variables request"));
    assert!(matches!(&out[1], Response::Variables { vars } if vars.is_empty()));
}

#[test]
fn invalid_frame_notifies() {
    let mut state = State::new(three_stacks());
    let mut server = Server::new(true);
    let h = state.get_ref(Variables::Locals { frame: 40 }).unwrap();
    server.handle_paused(&mut state, Request::Variables { vars: h }, &Answer::Nothing);
    let out = server.take_outbox();
    assert!(matches!(&out[0], Response::Notification { message } if message == "tried to read locals from invalid frame id: 40"));
}

#[test]
fn object_read_failure_notifies() {
    let mut state = State::new(three_stacks());
    let mut server = Server::new(true);
    let h = state.get_ref(Variables::ObjectVars { tag: TAG_DATUM, data: 3 }).unwrap();
    let answer = Answer::Fields(Err("no vars".to_string()));
    server.handle_paused(&mut state, Request::Variables { vars: h }, &answer);
    let out = server.take_outbox();
    assert!(matches!(&out[0], Response::Notification { message }
        if message == "runtime occured while processing Variables request: Runtime { message: \"no vars\" }"));
    assert!(matches!(&out[1], Response::Variables { vars } if vars.is_empty()));
}

#[test]
fn stacks_and_frames() {
    let mut state = State::new(three_stacks());
    let mut server = Server::new(true);
    server.handle_paused(&mut state, Request::Stacks, &Answer::Nothing);
    server.handle_paused(
        &mut state,
        Request::StackFrames { stack_id: 2, start_frame: Some(1), count: Some(2) },
        &Answer::Nothing,
    );
    server.handle_paused(
        &mut state,
        Request::StackFrames { stack_id: 1, start_frame: None, count: None },
        &Answer::Nothing,
    );
    server.handle_paused(&mut state, Request::CurrentInstruction { frame_id: 4 }, &Answer::Nothing);
    let out = server.take_outbox();
    match &out[0] {
        Response::Stacks { stacks } => {
            let v: Vec<(u32, &str)> = stacks.iter().map(|s| (s.id, s.name.as_str())).collect();
            assert_eq!(v, vec![(0, "/proc/a0"), (1, "/proc/b0"), (2, "/proc/c0")]);
        },
        other => panic!("unexpected {:?}", other),
    }
    match &out[1] {
        Response::StackFrames { frames, total_count } => {
            assert_eq!(*total_count, 4);
            let ids: Vec<u32> = frames.iter().map(|f| f.id).collect();
            assert_eq!(ids, vec![6, 7]);
            assert_eq!(frames[0].instruction.proc.path, "/proc/c1");
        },
        other => panic!("unexpected {:?}", other),
    }
    match &out[2] {
        Response::StackFrames { frames, total_count } => {
            assert_eq!(*total_count, 2);
            let ids: Vec<u32> = frames.iter().map(|f| f.id).collect();
            assert_eq!(ids, vec![3, 4]);
        },
        other => panic!("unexpected {:?}", other),
    }
    assert!(matches!(&out[3], Response::CurrentInstruction(Some(i)) if i.proc.path == "/proc/b1" && i.offset == 1));
}

#[test]
fn stacks_while_running_is_empty() {
    let mut server = Server::new(true);
    assert!(!server.process(Request::Stacks, &Answer::Nothing));
    let out = server.take_outbox();
    assert!(matches!(&out[0], Response::Stacks { stacks } if stacks.is_empty()));
}

#[test]
fn end_to_end_breakpoint() {
    let mut server = Server::new(true);
    let instruction = InstructionRef { proc: ProcRef { path: "/proc/foo".to_string(), override_id: 0 }, offset: 10 };
    let req = Request::BreakpointSet { instruction: InstructionRef { proc: ProcRef { path: "/proc/foo".to_string(), override_id: 0 }, offset: 10 } };
    assert!(matches!(Server::needs(None, &req), Need::Hook(i) if i.proc.path == instruction.proc.path && i.offset == 10));
    let answer = Answer::Hooked {
        listing: Some(vec![
            Decoded { offset: 0, instruction: Instruction::DbgLine(3) },
            Decoded { offset: 10, instruction: Instruction::Other },
        ]),
        hooked: true,
    };
    assert!(!server.process(req, &answer));
    let out = server.take_outbox();
    assert!(matches!(&out[0], Response::BreakpointSet { result: BreakpointSetResult::Success { line: Some(3) } }));

    assert_eq!(server.handle_breakpoint(BreakpointReason::Breakpoint), None);
    let out = server.take_outbox();
    assert!(matches!(&out[0], Response::Notification { message } if message == "Pausing execution (reason: Breakpoint)"));
    assert!(matches!(&out[1], Response::BreakpointHit { reason: BreakpointReason::Breakpoint }));

    let mut state = State::new(three_stacks());
    let r = server.handle_paused(&mut state, Request::Pause, &Answer::Nothing);
    assert_eq!(r, None);
    let r = server.handle_paused(&mut state, Request::Continue { kind: ContinueKind::StepOver }, &Answer::Nothing);
    assert_eq!(r, Some(ContinueKind::StepOver));
    let out = server.take_outbox();
    assert!(matches!(out.last(), Some(Response::Ack)));
}

#[test]
fn breakpoint_set_failure() {
    let mut server = Server::new(true);
    let req = Request::BreakpointSet { instruction: InstructionRef { proc: ProcRef { path: "/proc/none".to_string(), override_id: 0 }, offset: 1 } };
    server.process(req, &Answer::Hooked { listing: None, hooked: false });
    server.process(Request::BreakpointUnset { instruction: InstructionRef { proc: ProcRef { path: "/proc/none".to_string(), override_id: 0 }, offset: 1 } }, &Answer::Unhooked(false));
    let out = server.take_outbox();
    assert!(matches!(&out[0], Response::BreakpointSet { result: BreakpointSetResult::Failed }));
    assert!(matches!(&out[1], Response::BreakpointUnset { success: false }));
}

#[test]
fn runtime_errors_follow_catch_setting() {
    let mut server = Server::new(true);
    server.process(Request::CatchRuntimes { should_catch: false }, &Answer::Nothing);
    assert_eq!(server.handle_breakpoint(BreakpointReason::Runtime("boom".to_string())), Some(ContinueKind::Continue));
    assert!(server.take_outbox().is_empty());
    server.process(Request::CatchRuntimes { should_catch: true }, &Answer::Nothing);
    assert_eq!(server.handle_breakpoint(BreakpointReason::Runtime("boom".to_string())), None);
    let out = server.take_outbox();
    assert!(matches!(&out[0], Response::Notification { message } if message == "Pausing execution (reason: Runtime(\"boom\"))"));
}

#[test]
fn not_connected_never_pauses() {
    let mut server = Server::new(false);
    assert_eq!(server.handle_breakpoint(BreakpointReason::Step), Some(ContinueKind::Continue));
    assert!(!server.process(Request::Pause, &Answer::Nothing));
    server.connection_arrived();
    assert_eq!(server.link_state(), Link::Connected);
    assert!(server.process(Request::Pause, &Answer::Nothing));
}

#[test]
fn handshake_ends_at_configured() {
    let mut server = Server::new(true);
    assert!(!server.process_until_configured(Request::Stacks, &Answer::Nothing));
    assert!(server.process_until_configured(Request::Configured, &Answer::Nothing));
    let out = server.take_outbox();
    assert!(matches!(&out[1], Response::Ack));
}

#[test]
fn teardown_is_idempotent() {
    let mut server = Server::new(true);
    assert!(server.disconnect());
    server.send_or_disconnect(Response::Ack);
    server.notify("late".to_string());
    assert!(server.take_outbox().is_empty());
    assert!(!server.disconnect());
    assert!(!server.check_connected());
}

#[test]
fn eval_and_commands() {
    let mut server = Server::new(true);
    let req = Request::Eval { frame_id: None, command: "1 + 1".to_string() };
    assert!(matches!(Server::needs(None, &req), Need::Nothing));
    server.process(req, &Answer::Nothing);
    let req = Request::Eval { frame_id: None, command: "#dis".to_string() };
    assert!(matches!(Server::needs(None, &req), Need::Command(c) if c == "dis"));
    server.process(req, &Answer::Output("listing".to_string()));
    let out = server.take_outbox();
    assert!(matches!(&out[0], Response::Eval(t) if t == "Auxtools can't currently evaluate DM. To see available commands, use `#help`"));
    assert!(matches!(&out[1], Response::Eval(t) if t == "listing"));

    let state = State::new(three_stacks());
    let plan = handle_command(Some(&state), Some(4), Ok(Command::Disassemble { proc: None, id: None }));
    assert!(matches!(plan, CommandPlan::Disassemble { ref path, id: 0, offset: Some(1) } if path == "/proc/b1"));
    let plan = handle_command(None, None, Ok(Command::Disassemble { proc: Some("/proc/q".to_string()), id: None }));
    assert!(matches!(plan, CommandPlan::Disassemble { ref path, id: 0, offset: None } if path == "/proc/q"));
    let plan = handle_command(None, None, Ok(Command::Disassemble { proc: None, id: None }));
    assert!(matches!(plan, CommandPlan::Reply(ref t) if t == "no execution frame selected"));
    let plan = handle_command(None, Some(0), Ok(Command::Disassemble { proc: None, id: None }));
    assert!(matches!(plan, CommandPlan::Reply(ref t) if t == "couldn't find stack frame (is execution not paused?)"));
    let plan = handle_command(None, None, Ok(Command::Unknown));
    assert!(matches!(plan, CommandPlan::Reply(ref t) if t == "unknown command"));
    let plan = handle_command(None, None, Err("bad args".to_string()));
    assert!(matches!(plan, CommandPlan::Reply(ref t) if t == "bad args"));
    assert_eq!(handle_disassemble(Some(("P".to_string(), "body".to_string()))), "Dism for P\nbody");
    assert_eq!(handle_disassemble(None), "Proc not found");
}

#[test]
fn line_and_offset_requests() {
    let mut server = Server::new(true);
    let p = || ProcRef { path: "/proc/foo".to_string(), override_id: 0 };
    server.process(Request::LineNumber { proc: p(), offset: 5 }, &Answer::Listing(Some(listing())));
    server.process(Request::Offset { proc: p(), line: 10 }, &Answer::Listing(Some(listing())));
    server.process(Request::Offset { proc: p(), line: 10 }, &Answer::Listing(None));
    server.process(Request::StdDef, &Answer::StdDef(Some("defs".to_string())));
    let out = server.take_outbox();
    assert!(matches!(&out[0], Response::LineNumber { line: Some(12) }));
    assert!(matches!(&out[1], Response::Offset { offset: Some(2) }));
    assert!(matches!(&out[2], Response::Offset { offset: None }));
    assert!(matches!(&out[3], Response::StdDef(Some(t)) if t == "defs"));
}

#[test]
fn text_helpers() {
    assert_eq!(decimal_string(0), "0");
    assert_eq!(decimal_string(4294967295), "4294967295");
    assert!(str_le("abc", "abd"));
    assert!(str_le("ab", "abc"));
    assert!(!str_le("b", "abc"));
    assert!(str_le("", ""));
}

#[test]
fn framing_round_trip() {
    let framed = encode_frame(&vec![9, 8, 7]);
    assert_eq!(framed, vec![3, 0, 0, 0, 9, 8, 7]);
    assert_eq!(frame_len(&[0x10, 0x02, 0x00, 0x01]), 0x0100_0210);
}

#[test]
fn hook_appends_to_stringy() {
    assert_eq!(hello_proc_hook(Some("Bob".to_string()), "!"), Some("Bob is a smarty pants!".to_string()));
    assert_eq!(hello_proc_hook(None, "!"), None);
}

#[test]
fn sort_by_keys_is_stable() {
    let mut t = RefTable::new();
    let vars: Vec<_> = ["x", "y", "z", "w"]
        .iter()
        .map(|n| value_to_variable(&mut t, n.to_string(), &plain(TAG_NUMBER, 0, "0")))
        .collect();
    let keys = vec!["b".to_string(), "a".to_string(), "b".to_string(), "A".to_string()];
    let sorted = sort_by_keys(vars, keys);
    let names: Vec<&str> = sorted.iter().map(|v| v.name.as_str()).collect();
    assert_eq!(names, vec!["w", "y", "x", "z"]);
}

#[test]
fn object_fields_ignore_case_when_sorting() {
    let mut t = RefTable::new();
    let fields = vec![
        Field { name: "beta".to_string(), value: plain(TAG_NUMBER, 1, "1") },
        Field { name: "Zeta".to_string(), value: plain(TAG_NUMBER, 2, "2") },
        Field { name: "alpha".to_string(), value: plain(TAG_NUMBER, 3, "3") },
    ];
    let vars = object_to_variables(&mut t, &fields);
    let names: Vec<&str> = vars.iter().map(|v| v.name.as_str()).collect();
    assert_eq!(names, vec!["alpha", "beta", "Zeta"]);
}

#[test]
fn needs_for_lazy_expansion() {
    let mut state = State::new(three_stacks());
    let globals = state.get_ref(Variables::ObjectVars { tag: TAG_WORLD, data: 1 }).unwrap();
    let datum = state.get_ref(Variables::ObjectVars { tag: TAG_DATUM, data: 8 }).unwrap();
    let list = state.get_ref(Variables::ListContents { tag: TAG_LIST, data: 2 }).unwrap();
    let need = |h| Server::needs(Some(&state), &Request::Variables { vars: h });
    assert!(matches!(need(globals), Need::Fields(FieldsSource::GlobalVars)));
    assert!(matches!(need(datum), Need::Fields(FieldsSource::VarsOf(RawValue { tag: TAG_DATUM, data: 8 }))));
    assert!(matches!(need(list), Need::ListEntries(RawValue { tag: TAG_LIST, data: 2 })));

    let mut server = Server::new(true);
    let answer = Answer::ListEntries(Ok(vec![
        ListEntry { key: plain(TAG_NUMBER, 1, "10"), assoc: None },
        ListEntry { key: plain(TAG_NUMBER, 2, "20"), assoc: None },
    ]));
    server.handle_paused(&mut state, Request::Variables { vars: list }, &answer);
    let out = server.take_outbox();
    match &out[0] {
        Response::Variables { vars } => {
            let v: Vec<(&str, &str)> = vars.iter().map(|x| (x.name.as_str(), x.value.as_str())).collect();
            assert_eq!(v, vec![("[1]", "10"), ("[2]", "20")]);
        },
        other => panic!("unexpected {:?}", other),
    }
}
