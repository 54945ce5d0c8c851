use vstd::prelude::*;

verus! {

/// A proc as the client names it: its path and which override of that path.
#[derive(Debug)]
pub struct ProcRef {
    pub path: String,
    pub override_id: u32,
}

impl ProcRef {
    pub fn duplicate(&self) -> (r: ProcRef)
        ensures
            r == *self,
    {
        ProcRef { path: self.path.clone(), override_id: self.override_id }
    }
}

/// One bytecode instruction of one proc.
#[derive(Debug)]
pub struct InstructionRef {
    pub proc: ProcRef,
    pub offset: u32,
}

impl InstructionRef {
    pub fn duplicate(&self) -> (r: InstructionRef)
        ensures
            r == *self,
    {
        InstructionRef { proc: self.proc.duplicate(), offset: self.offset }
    }
}

/// An opaque handle that stands for a lazily expanded set of variables.
#[derive(Clone, Copy, Debug, PartialEq, Eq, Structural)]
pub struct VariablesRef(pub i32);

#[derive(Debug)]
pub enum BreakpointReason {
    Breakpoint,
    Step,
    Pause,
    Runtime(String),
}

#[derive(Clone, Copy, Debug, PartialEq, Eq, Structural)]
pub enum ContinueKind {
    Continue,
    StepOver,
    StepInto,
    StepOut,
}

#[derive(Debug)]
pub enum BreakpointSetResult {
    Success { line: Option<u32> },
    Failed,
}

/// One displayed variable: a name, its text, and a handle for its children.
#[derive(Debug)]
pub struct Variable {
    pub name: String,
    pub value: String,
    pub variables: Option<VariablesRef>,
}

/// The content of a `Variable`, as values.
pub struct VarView {
    pub name: Seq<char>,
    pub value: Seq<char>,
    pub variables: Option<VariablesRef>,
}

impl View for Variable {
    type V = VarView;

    open spec fn view(&self) -> VarView {
        VarView { name: self.name@, value: self.value@, variables: self.variables }
    }
}

/// The views of a sequence of variables.
pub open spec fn views(vs: Seq<Variable>) -> Seq<VarView> {
    vs.map_values(|v: Variable| v@)
}

#[derive(Debug)]
pub struct Stack {
    pub id: u32,
    pub name: String,
}

#[derive(Debug)]
pub struct StackFrame {
    pub id: u32,
    pub instruction: InstructionRef,
    pub line: Option<u32>,
}

/// What the debug client asks.
#[derive(Debug)]
#[allow(inconsistent_fields)]
pub enum Request {
    Disconnect,
    CatchRuntimes { should_catch: bool },
    BreakpointSet { instruction: InstructionRef },
    BreakpointUnset { instruction: InstructionRef },
    Stacks,
    Scopes { frame_id: u32 },
    Variables { vars: VariablesRef },
    Eval { frame_id: Option<u32>, command: String },
    StackFrames { stack_id: u32, start_frame: Option<u32>, count: Option<u32> },
    LineNumber { proc: ProcRef, offset: u32 },
    Offset { proc: ProcRef, line: u32 },
    Pause,
    StdDef,
    CurrentInstruction { frame_id: u32 },
    Configured,
    Continue { kind: ContinueKind },
}

impl Request {
    /// Whether answering the request needs a paused session.
    pub open spec fn needs_session(&self) -> bool {
        match self {
            Request::Scopes { .. } => true,
            Request::Variables { .. } => true,
            Request::StackFrames { .. } => true,
            Request::CurrentInstruction { .. } => true,
            _ => false,
        }
    }

    pub fn is_session_request(&self) -> (r: bool)
        ensures
            r == self.needs_session(),
    {
        match self {
            Request::Scopes { .. } => true,
            Request::Variables { .. } => true,
            Request::StackFrames { .. } => true,
            Request::CurrentInstruction { .. } => true,
            _ => false,
        }
    }
}

/// What the server sends back.
#[derive(Debug)]
pub enum Response {
    Ack,
    BreakpointSet { result: BreakpointSetResult },
    BreakpointUnset { success: bool },
    Stacks { stacks: Vec<Stack> },
    StackFrames { frames: Vec<StackFrame>, total_count: u32 },
    Scopes {
        arguments: Option<VariablesRef>,
        locals: Option<VariablesRef>,
        globals: Option<VariablesRef>,
    },
    Variables { vars: Vec<Variable> },
    Eval(String),
    LineNumber { line: Option<u32> },
    Offset { offset: Option<u32> },
    Notification { message: String },
    BreakpointHit { reason: BreakpointReason },
    Disconnect,
    StdDef(Option<String>),
    CurrentInstruction(Option<InstructionRef>),
}

} // verus!
