use vstd::prelude::*;

use crate::lines::Decoded;
use crate::types::ProcRef;
use crate::values::{Arg, Local, ValueInfo};

verus! {

/// One frame of a call stack, as read when execution paused.
#[derive(Debug)]
pub struct FrameData {
    pub proc: ProcRef,
    pub offset: u32,
    /// The disassembly of the frame's proc; none where the proc could not be found.
    pub listing: Option<Vec<Decoded>>,
    pub src: ValueInfo,
    pub usr: ValueInfo,
    pub dot: ValueInfo,
    pub args: Vec<Arg>,
    pub locals: Vec<Local>,
    pub stack: Vec<ValueInfo>,
    pub cache: ValueInfo,
}

/// The call stacks at a pause: the active one and the suspended ones.
#[derive(Debug)]
pub struct CallStacks {
    pub active: Vec<FrameData>,
    pub suspended: Vec<Vec<FrameData>>,
}

impl CallStacks {
    /// The number of stacks: the active one and the suspended ones.
    pub open spec fn n_stacks(&self) -> int {
        self.suspended@.len() as int + 1
    }

    /// Stack `i`: 0 is the active stack, `i >= 1` the `i`-th suspended one.
    pub open spec fn stack(&self, i: int) -> Seq<FrameData> {
        if i == 0 {
            self.active@
        } else {
            self.suspended@[i - 1]@
        }
    }

    /// The first global frame id of stack `i`: the frames of all stacks before it.
    pub open spec fn base(&self, i: int) -> int
        decreases i,
    {
        if i <= 0 {
            0
        } else {
            self.base(i - 1) + self.stack(i - 1).len()
        }
    }

    /// Where global frame `g` lies, searching from stack `i` on with `g` made local to it:
    /// the stack and the index within it.
    pub open spec fn locate_from(&self, i: int, g: int) -> Option<(int, int)>
        decreases self.n_stacks() - i,
    {
        if i < 0 || i >= self.n_stacks() {
            None
        } else if g < self.stack(i).len() {
            Some((i, g))
        } else {
            self.locate_from(i + 1, g - self.stack(i).len())
        }
    }

    /// Where global frame `g` lies.
    pub open spec fn locate(&self, g: int) -> Option<(int, int)> {
        self.locate_from(0, g)
    }

    /// Every frame has a global id that fits in `u32`, and no stack is empty.
    pub open spec fn wf(&self) -> bool {
        &&& self.base(self.n_stacks()) <= u32::MAX
        &&& forall|i: int| 0 <= i < self.n_stacks() ==> self.stack(i).len() > 0
    }

    /// The stack with client id `stack_id`, if there is one.
    pub fn get_stack(&self, stack_id: u32) -> (r: Option<&Vec<FrameData>>)
        ensures
            r is Some <==> stack_id < self.n_stacks(),
            r matches Some(s) ==> s@ == self.stack(stack_id as int),
    {
        if stack_id == 0 {
            return Some(&self.active);
        }
        if (stack_id as usize) <= self.suspended.len() {
            Some(&self.suspended[(stack_id - 1) as usize])
        } else {
            None
        }
    }

    /// The global id of the first frame of stack `stack_id`.
    pub fn get_stack_base_frame_id(&self, stack_id: u32) -> (r: u32)
        requires
            self.wf(),
            stack_id < self.n_stacks(),
        ensures
            r == self.base(stack_id as int),
    {
        if stack_id == 0 {
            return 0;
        }
        proof {
            self.lemma_base_mono(1, self.n_stacks());
            assert(self.base(0) == 0);
            assert(self.base(1) == self.active@.len());
        }
        let mut current_base: u32 = self.active.len() as u32;
        let mut i: usize = 1;
        while i < stack_id as usize
            invariant
                self.wf(),
                1 <= i <= stack_id < self.n_stacks(),
                current_base == self.base(i as int),
            decreases stack_id - i,
        {
            proof {
                self.lemma_base_mono(i + 1, self.n_stacks());
            }
            current_base = current_base + self.suspended[i - 1].len() as u32;
            i = i + 1;
        }
        current_base
    }

    /// The frame with global id `frame_index`, if there is one.
    pub fn get_stack_frame(&self, frame_index: u32) -> (r: Option<&FrameData>)
        ensures
            match self.locate(frame_index as int) {
                Some((s, l)) => r matches Some(f) && *f == self.stack(s)[l],
                None => r is None,
            },
    {
        let mut idx: usize = frame_index as usize;
        if idx < self.active.len() {
            return Some(&self.active[idx]);
        }
        idx = idx - self.active.len();
        let n = self.suspended.len();
        let mut k: usize = 0;
        while k < n
            invariant
                n == self.suspended@.len(),
                k <= n,
                self.locate(frame_index as int) == self.locate_from(k + 1, idx as int),
            decreases n - k,
        {
            if idx < self.suspended[k].len() {
                return Some(&self.suspended[k][idx]);
            }
            idx = idx - self.suspended[k].len();
            k = k + 1;
        }
        None
    }

    pub proof fn lemma_base_mono(&self, i: int, j: int)
        requires
            0 <= i <= j,
        ensures
            self.base(i) <= self.base(j),
        decreases j - i,
    {
        if i < j {
            self.lemma_base_mono(i, j - 1);
        }
    }

    /// With no empty stack, the first `i` stacks hold at least `i` frames.
    pub proof fn lemma_base_counts(&self, i: int)
        requires
            self.wf(),
            0 <= i <= self.n_stacks(),
        ensures
            self.base(i) >= i,
        decreases i,
    {
        if i > 0 {
            self.lemma_base_counts(i - 1);
        }
    }

    proof fn lemma_locate_from(&self, i: int, k: int, l: int)
        requires
            0 <= i <= k < self.n_stacks(),
            0 <= l < self.stack(k).len(),
        ensures
            self.locate_from(i, self.base(k) - self.base(i) + l) == Some((k, l)),
        decreases k - i,
    {
        if i < k {
            self.lemma_base_mono(i + 1, k);
            self.lemma_locate_from(i + 1, k, l);
        }
    }

    /// Stack `k` owns the global ids from its base on, one for each of its frames,
    /// and a global id inside that range resolves to stack `k` at the local index.
    pub proof fn lemma_flattening(&self, k: int, l: int)
        requires
            0 <= k < self.n_stacks(),
            0 <= l < self.stack(k).len(),
        ensures
            self.base(k + 1) == self.base(k) + self.stack(k).len(),
            self.locate(self.base(k) + l) == Some((k, l)),
    {
        self.lemma_locate_from(0, k, l);
    }
}

} // verus!
