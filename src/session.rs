use vstd::prelude::*;

use crate::refs::{resolve, intern, RefTable, Variables};
use crate::stacks::CallStacks;
use crate::types::VariablesRef;

verus! {

/// What lives while execution is paused: the call stacks read at the pause and the handle
/// table, which starts empty at every pause.
pub struct State {
    pub stacks: CallStacks,
    pub table: RefTable,
}

impl State {
    pub open spec fn wf(&self) -> bool {
        self.stacks.wf() && self.table.wf()
    }

    pub fn new(stacks: CallStacks) -> (r: State)
        requires
            stacks.wf(),
        ensures
            r.wf(),
            r.stacks == stacks,
            r.table.kinds() == Seq::<Variables>::empty(),
    {
        State { stacks, table: RefTable::new() }
    }

    /// The handle of a kind within this session.
    pub fn get_ref(&mut self, vars: Variables) -> (r: Option<VariablesRef>)
        requires
            old(self).wf(),
        ensures
            final(self).wf(),
            final(self).stacks == old(self).stacks,
            (final(self).table.kinds(), r) == intern(old(self).table.kinds(), vars),
    {
        self.table.get_ref(vars)
    }

    /// The kind a handle of this session stands for.
    pub fn get_variables(&self, reference: VariablesRef) -> (r: Option<Variables>)
        ensures
            r == resolve(self.table.kinds(), reference),
    {
        self.table.get_variables(reference)
    }
}

} // verus!
