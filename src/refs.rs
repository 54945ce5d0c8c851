use vstd::prelude::*;

use crate::types::VariablesRef;

verus! {

/// The number of handles one session can hand out.
pub const MAX_REFS: usize = 0x7fff_fffe;

/// What a variables handle stands for: a set of variables to expand on demand.
#[derive(Clone, Copy, Debug, PartialEq, Eq, Structural, Hash)]
pub enum Variables {
    Arguments { frame: u32 },
    Locals { frame: u32 },
    ObjectVars { tag: u8, data: u32 },
    ListContents { tag: u8, data: u32 },
    ListPair { key_tag: u8, key_data: u32, value_tag: u8, value_data: u32 },
    Internals { frame: u32 },
    Stack { frame: u32 },
}

/// The position of a kind in a table that holds it.
pub open spec fn position(kinds: Seq<Variables>, v: Variables) -> int {
    choose|i: int| 0 <= i < kinds.len() && kinds[i] == v
}

/// Interning a kind: the table after, and the handle handed out.
/// A kind already present keeps its handle; a new one gets the next handle, while there is room.
pub open spec fn intern(kinds: Seq<Variables>, v: Variables) -> (Seq<Variables>, Option<VariablesRef>) {
    if kinds.contains(v) {
        (kinds, Some(VariablesRef((position(kinds, v) + 1) as i32)))
    } else if kinds.len() < MAX_REFS {
        (kinds.push(v), Some(VariablesRef((kinds.len() + 1) as i32)))
    } else {
        (kinds, None)
    }
}

/// Interning a kind, where there is one.
pub open spec fn intern_opt(kinds: Seq<Variables>, v: Option<Variables>) -> (Seq<Variables>, Option<VariablesRef>) {
    match v {
        Some(k) => intern(kinds, k),
        None => (kinds, None),
    }
}

/// What a handle resolves to in a table.
pub open spec fn resolve(kinds: Seq<Variables>, r: VariablesRef) -> Option<Variables> {
    if 1 <= r.0 <= kinds.len() {
        Some(kinds[r.0 - 1])
    } else {
        None
    }
}

/// A table is well formed when no kind appears twice and it fits the handle range.
pub open spec fn table_wf(kinds: Seq<Variables>) -> bool {
    &&& kinds.len() <= MAX_REFS
    &&& forall|i: int, j: int| 0 <= i < j < kinds.len() ==> kinds[i] != kinds[j]
}

/// The table of one session: handle `h` stands for the kind at position `h - 1`.
pub struct RefTable {
    variables: Vec<Variables>,
}

impl RefTable {
    pub closed spec fn kinds(&self) -> Seq<Variables> {
        self.variables@
    }

    pub open spec fn wf(&self) -> bool {
        table_wf(self.kinds())
    }

    pub fn new() -> (r: RefTable)
        ensures
            r.wf(),
            r.kinds() == Seq::<Variables>::empty(),
    {
        RefTable { variables: Vec::new() }
    }

    /// The handle of a kind: the one it already has in this session, or the next one.
    pub fn get_ref(&mut self, vars: Variables) -> (r: Option<VariablesRef>)
        requires
            old(self).wf(),
        ensures
            final(self).wf(),
            (final(self).kinds(), r) == intern(old(self).kinds(), vars),
    {
        let n = self.variables.len();
        let mut i: usize = 0;
        while i < n
            invariant
                n == self.variables@.len(),
                i <= n,
                table_wf(self.variables@),
                forall|j: int| 0 <= j < i ==> self.variables@[j] != vars,
            decreases n - i,
        {
            if self.variables[i] == vars {
                proof {
                    let p = position(self.variables@, vars);
                    assert(self.variables@[i as int] == vars);
                    assert(self.variables@.contains(vars));
                    assert(0 <= p < n && self.variables@[p] == vars);
                    assert(p == i as int);
                }
                return Some(VariablesRef((i + 1) as i32));
            }
            i = i + 1;
        }
        assert(!self.variables@.contains(vars));
        if n < MAX_REFS {
            self.variables.push(vars);
            Some(VariablesRef((n + 1) as i32))
        } else {
            None
        }
    }

    /// The kind a handle stands for, if it is one of this session's handles.
    pub fn get_variables(&self, reference: VariablesRef) -> (r: Option<Variables>)
        ensures
            r == resolve(self.kinds(), reference),
    {
        if reference.0 >= 1 && (reference.0 as usize) <= self.variables.len() {
            Some(self.variables[(reference.0 - 1) as usize])
        } else {
            None
        }
    }
}

/// Interning, twice, within one session: equal kinds get the same handle, unequal kinds
/// different handles, and every handle resolves back to its kind.
pub proof fn lemma_interning(kinds: Seq<Variables>, a: Variables, b: Variables)
    requires
        table_wf(kinds),
    ensures
        ({
            let (k1, ra) = intern(kinds, a);
            let (k2, rb) = intern(k1, b);
            &&& table_wf(k2)
            &&& (a == b ==> k2 == k1 && ra == rb)
            &&& (ra is Some && rb is Some ==> (ra == rb <==> a == b))
            &&& (ra matches Some(h) ==> resolve(k2, h) == Some(a))
            &&& (rb matches Some(h) ==> resolve(k2, h) == Some(b))
        }),
{
    lemma_intern(kinds, a);
    let (k1, ra) = intern(kinds, a);
    lemma_intern(k1, b);
}

/// Handles are stable within a session: a handle keeps resolving to its kind as the table
/// grows, and interning that kind again gives the same handle back.
pub proof fn lemma_handle_stable(kinds: Seq<Variables>, v: Variables, w: Variables, h: VariablesRef)
    requires
        table_wf(kinds),
        resolve(kinds, h) == Some(v),
    ensures
        resolve(intern(kinds, w).0, h) == Some(v),
        intern(kinds, v) == (kinds, Some(h)),
{
    lemma_intern(kinds, w);
    let i = h.0 - 1;
    assert(kinds[i] == v);
    assert(kinds.contains(v));
    let p = position(kinds, v);
    assert(0 <= p < kinds.len() && kinds[p] == v);
    assert(p == i);
}

/// A fresh session resolves no handle, whatever an earlier session handed out.
pub proof fn lemma_fresh_session(r: VariablesRef)
    ensures
        resolve(Seq::<Variables>::empty(), r) is None,
{
}

proof fn lemma_intern(kinds: Seq<Variables>, v: Variables)
    requires
        table_wf(kinds),
    ensures
        ({
            let (k, r) = intern(kinds, v);
            &&& table_wf(k)
            &&& kinds.len() <= k.len()
            &&& forall|i: int| 0 <= i < kinds.len() ==> k[i] == kinds[i]
            &&& (r matches Some(h) ==> resolve(k, h) == Some(v))
            &&& (r is None ==> k == kinds && !kinds.contains(v))
        }),
{
    if kinds.contains(v) {
        let p = position(kinds, v);
        assert(0 <= p < kinds.len() && kinds[p] == v);
    }
}

} // verus!
