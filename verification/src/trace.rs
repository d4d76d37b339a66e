//! The trace-tree runtime model: `Op` nodes held in a flat store and linked
//! by index, the `Step` value each instrumented call threads through its
//! prologue and epilogue, and the `TraceData` aggregate with its
//! current-parent stack. The structural invariant throughout is push/pop
//! balance of that stack together with well-formedness of the parent and
//! child links.

use vstd::prelude::*;

use crate::arena::Arena;
use crate::arena::ItemIdx;

verus! {

/// Index of an [`Op`] node in the `TraceData` op store.
pub type OpIdx = usize;

/// One traced procedure invocation: its name, its link to the enclosing
/// invocation, its children in call order, and the arena indices of its
/// captured arguments and result.
pub struct Op {
    pub name: String,
    pub parent: Option<OpIdx>,
    pub children: Vec<OpIdx>,
    pub args: Vec<ItemIdx>,
    pub ret: Option<ItemIdx>,
}

/// Common header of every trace event: a monotonically increasing safety
/// counter, the owning op's index once finalized, and the captured result
/// once the traced body has returned. The latter two start out unset and
/// may be written once each.
pub struct StepInfo {
    pub safety_idx: usize,
    pub self_idx: Option<OpIdx>,
    pub result: Option<ItemIdx>,
}

/// One trace event: its variant identity by label, its shared header, and
/// the arena indices of its variant-specific captured values.
pub struct Step {
    pub kind: String,
    pub info: StepInfo,
    pub fields: Vec<ItemIdx>,
}

/// The call-scoped aggregate owning the item arena, the op store, the
/// current-parent stack and the step stack.
pub struct TraceData<T> {
    pub items: Arena<T>,
    pub ops: Vec<Op>,
    pub parent_stack: Vec<OpIdx>,
    pub step_stack: Vec<Step>,
    pub next_safety: usize,
}

/// Well-formedness of one op node within a store of `n_ops` ops and an
/// arena of `n_items` items: the parent link points strictly backwards,
/// children point strictly forwards at ops whose parent link points back
/// here, no child is linked twice, and every item index is in bounds.
pub open spec fn op_wf(ops: Seq<Op>, k: int, n_items: nat) -> bool {
    &&& match ops[k].parent {
        Some(p) => p < k,
        None => true,
    }
    &&& forall|i: int|
        0 <= i < ops[k].children@.len() ==> {
            &&& k < #[trigger] ops[k].children@[i] < ops.len()
            &&& ops[ops[k].children@[i] as int].parent == Some(k as usize)
        }
    &&& forall|i: int, j: int|
        0 <= i < j < ops[k].children@.len() ==> #[trigger] ops[k].children@[i]
            != #[trigger] ops[k].children@[j]
    &&& forall|i: int| 0 <= i < ops[k].args@.len() ==> #[trigger] ops[k].args@[i] < n_items
    &&& match ops[k].ret {
        Some(r) => r < n_items,
        None => true,
    }
}

impl<T> TraceData<T> {
    /// The whole structure is well formed: every op is, and every entry of
    /// the current-parent stack names an existing op.
    pub open spec fn wf(&self) -> bool {
        &&& forall|k: int| 0 <= k < self.ops@.len() ==> op_wf(self.ops@, k, self.items@.len())
        &&& forall|i: int|
            0 <= i < self.parent_stack@.len() ==> #[trigger] self.parent_stack@[i]
                < self.ops@.len()
    }

    /// A fresh, empty trace.
    pub fn new() -> (r: TraceData<T>)
        ensures
            r.wf(),
            r.items@.len() == 0,
            r.ops@.len() == 0,
            r.parent_stack@.len() == 0,
            r.step_stack@.len() == 0,
            r.next_safety == 0,
    {
        TraceData {
            items: Arena::new(),
            ops: Vec::new(),
            parent_stack: Vec::new(),
            step_stack: Vec::new(),
            next_safety: 0,
        }
    }

    /// Depth of the current-parent stack, read for the balance assertion in
    /// the Root epilogue.
    pub fn stack_len(&self) -> (n: usize)
        ensures
            n == self.parent_stack@.len(),
    {
        self.parent_stack.len()
    }

    /// The op that newly created Internal-variant nodes would attach to.
    pub fn get_current_parent_op(&self) -> (r: Option<OpIdx>)
        ensures
            r == if self.parent_stack@.len() > 0 {
                Some(self.parent_stack@.last())
            } else {
                None::<OpIdx>
            },
    {
        if self.parent_stack.len() > 0 {
            Some(self.parent_stack[self.parent_stack.len() - 1])
        } else {
            None
        }
    }

    /// Replaces the top of the current-parent stack.
    pub fn set_parent_as(&mut self, op: OpIdx)
        requires
            old(self).wf(),
            old(self).parent_stack@.len() > 0,
            op < old(self).ops@.len(),
        ensures
            final(self).wf(),
            final(self).parent_stack@ == old(self).parent_stack@.update(
                old(self).parent_stack@.len() - 1,
                op,
            ),
            final(self).items@ == old(self).items@,
            final(self).ops@ == old(self).ops@,
            final(self).step_stack@ == old(self).step_stack@,
            final(self).next_safety == old(self).next_safety,
    {
        let last = self.parent_stack.len() - 1;
        self.parent_stack.set(last, op);
    }

    /// Stores one captured value in the item arena and returns its index.
    pub fn insert_item(&mut self, value: T) -> (idx: ItemIdx)
        requires
            old(self).wf(),
        ensures
            final(self).wf(),
            final(self).items@ == old(self).items@.push(value),
            idx == old(self).items@.len(),
            final(self).ops@ == old(self).ops@,
            final(self).parent_stack@ == old(self).parent_stack@,
            final(self).step_stack@ == old(self).step_stack@,
            final(self).next_safety == old(self).next_safety,
    {
        let idx = self.items.insert_item(value);
        proof {
            assert forall|k: int| 0 <= k < self.ops@.len() implies op_wf(
                self.ops@,
                k,
                self.items@.len(),
            ) by {
                assert(op_wf(self.ops@, k, old(self).items@.len()));
            }
        }
        idx
    }

    /// Pushes a step onto the step stack.
    pub fn push(&mut self, step: Step)
        ensures
            final(self).step_stack@ == old(self).step_stack@.push(step),
            final(self).items@ == old(self).items@,
            final(self).ops@ == old(self).ops@,
            final(self).parent_stack@ == old(self).parent_stack@,
            final(self).next_safety == old(self).next_safety,
            old(self).wf() ==> final(self).wf(),
    {
        self.step_stack.push(step);
    }

    /// Pops the most recently pushed step.
    pub fn pop(&mut self) -> (step: Step)
        requires
            old(self).step_stack@.len() > 0,
        ensures
            step == old(self).step_stack@.last(),
            final(self).step_stack@ == old(self).step_stack@.drop_last(),
            final(self).items@ == old(self).items@,
            final(self).ops@ == old(self).ops@,
            final(self).parent_stack@ == old(self).parent_stack@,
            final(self).next_safety == old(self).next_safety,
            old(self).wf() ==> final(self).wf(),
    {
        self.step_stack.pop().unwrap()
    }

    /// Hands out the next safety index; no two steps of one trace share one.
    pub fn next_safety_idx(&mut self) -> (idx: usize)
        requires
            old(self).next_safety < usize::MAX,
        ensures
            idx == old(self).next_safety,
            final(self).next_safety == old(self).next_safety + 1,
            final(self).items@ == old(self).items@,
            final(self).ops@ == old(self).ops@,
            final(self).parent_stack@ == old(self).parent_stack@,
            final(self).step_stack@ == old(self).step_stack@,
            old(self).wf() ==> final(self).wf(),
    {
        let idx = self.next_safety;
        self.next_safety = self.next_safety + 1;
        idx
    }

    /// Allocates a tree-root op (no parent) and pushes it as the current
    /// parent.
    pub fn new_root_op(&mut self, name: String) -> (idx: OpIdx)
        requires
            old(self).wf(),
        ensures
            final(self).wf(),
            idx == old(self).ops@.len(),
            final(self).ops@.len() == old(self).ops@.len() + 1,
            forall|k: int|
                0 <= k < old(self).ops@.len() ==> final(self).ops@[k] == old(self).ops@[k],
            final(self).ops@[idx as int].name@ == name@,
            final(self).ops@[idx as int].parent is None,
            final(self).ops@[idx as int].children@.len() == 0,
            final(self).ops@[idx as int].args@.len() == 0,
            final(self).ops@[idx as int].ret is None,
            final(self).parent_stack@ == old(self).parent_stack@.push(idx),
            final(self).items@ == old(self).items@,
            final(self).step_stack@ == old(self).step_stack@,
            final(self).next_safety == old(self).next_safety,
            root_prologue_rel(*old(self), *final(self), idx),
    {
        let idx = self.ops.len();
        self.ops.push(
            Op { name, parent: None, children: Vec::new(), args: Vec::new(), ret: None },
        );
        self.parent_stack.push(idx);
        proof {
            lemma_op_wf_extend(old(self).ops@, self.ops@, self.items@.len());
        }
        idx
    }

    /// Allocates an op attached under `parent`; the current-parent stack is
    /// left alone, so prologue and epilogue of the Internal variant control
    /// it explicitly and symmetrically.
    pub fn new_nonroot_op(&mut self, name: String, parent: OpIdx) -> (idx: OpIdx)
        requires
            old(self).wf(),
            parent < old(self).ops@.len(),
        ensures
            final(self).wf(),
            idx == old(self).ops@.len(),
            final(self).ops@.len() == old(self).ops@.len() + 1,
            forall|k: int|
                0 <= k < old(self).ops@.len() ==> final(self).ops@[k] == old(self).ops@[k],
            final(self).ops@[idx as int].name@ == name@,
            final(self).ops@[idx as int].parent == Some(parent),
            final(self).ops@[idx as int].children@.len() == 0,
            final(self).ops@[idx as int].args@.len() == 0,
            final(self).ops@[idx as int].ret is None,
            final(self).parent_stack@ == old(self).parent_stack@,
            final(self).items@ == old(self).items@,
            final(self).step_stack@ == old(self).step_stack@,
            final(self).next_safety == old(self).next_safety,
    {
        let idx = self.ops.len();
        self.ops.push(
            Op { name, parent: Some(parent), children: Vec::new(), args: Vec::new(), ret: None },
        );
        proof {
            lemma_op_wf_extend(old(self).ops@, self.ops@, self.items@.len());
        }
        idx
    }

    /// Appends one captured-argument index to an op's argument list.
    pub fn push_arg(&mut self, op: OpIdx, item: ItemIdx)
        requires
            old(self).wf(),
            op < old(self).ops@.len(),
            item < old(self).items@.len(),
        ensures
            final(self).wf(),
            final(self).ops@.len() == old(self).ops@.len(),
            forall|k: int|
                0 <= k < old(self).ops@.len() && k != op ==> final(self).ops@[k] == old(
                    self,
                ).ops@[k],
            final(self).ops@[op as int].args@ == old(self).ops@[op as int].args@.push(item),
            final(self).ops@[op as int].name == old(self).ops@[op as int].name,
            final(self).ops@[op as int].parent == old(self).ops@[op as int].parent,
            final(self).ops@[op as int].children == old(self).ops@[op as int].children,
            final(self).ops@[op as int].ret == old(self).ops@[op as int].ret,
            final(self).parent_stack@ == old(self).parent_stack@,
            final(self).items@ == old(self).items@,
            final(self).step_stack@ == old(self).step_stack@,
            final(self).next_safety == old(self).next_safety,
    {
        self.ops[op].args.push(item);
        proof {
            assert(self.ops@[op as int].args@.drop_last() =~= old(self).ops@[op as int].args@);
            lemma_op_wf_local_update(old(self).ops@, self.ops@, op as int, self.items@.len());
        }
    }

    /// Captures the body's result: stores the value and records its index as
    /// the op's return. The return slot accepts its single allowed write
    /// here; writing it twice is a misuse the contract excludes.
    pub fn push_ret_val(&mut self, op: OpIdx, value: T) -> (idx: ItemIdx)
        requires
            old(self).wf(),
            op < old(self).ops@.len(),
            old(self).ops@[op as int].ret is None,
        ensures
            final(self).wf(),
            idx == old(self).items@.len(),
            final(self).items@ == old(self).items@.push(value),
            final(self).ops@.len() == old(self).ops@.len(),
            forall|k: int|
                0 <= k < old(self).ops@.len() && k != op ==> final(self).ops@[k] == old(
                    self,
                ).ops@[k],
            final(self).ops@[op as int].ret == Some(idx),
            final(self).ops@[op as int].name == old(self).ops@[op as int].name,
            final(self).ops@[op as int].parent == old(self).ops@[op as int].parent,
            final(self).ops@[op as int].children == old(self).ops@[op as int].children,
            final(self).ops@[op as int].args == old(self).ops@[op as int].args,
            final(self).parent_stack@ == old(self).parent_stack@,
            final(self).step_stack@ == old(self).step_stack@,
            final(self).next_safety == old(self).next_safety,
    {
        let idx = self.items.insert_item(value);
        self.ops[op].ret = Some(idx);
        proof {
            assert forall|k: int|
                0 <= k < self.ops@.len() && k != op implies op_wf(
                self.ops@,
                k,
                self.items@.len(),
            ) by {
                assert(op_wf(old(self).ops@, k, old(self).items@.len()));
            }
            assert(op_wf(self.ops@, op as int, self.items@.len())) by {
                assert(op_wf(old(self).ops@, op as int, old(self).items@.len()));
            }
        }
        idx
    }

    /// Links a finalized child op into its parent's ordered children. The
    /// contract demands the link be made at most once per child.
    pub fn add_child(&mut self, child: OpIdx)
        requires
            old(self).wf(),
            child < old(self).ops@.len(),
            old(self).ops@[child as int].parent is Some,
            !old(self).ops@[old(self).ops@[child as int].parent.unwrap() as int].children@.contains(
                child,
            ),
        ensures
            final(self).wf(),
            final(self).ops@.len() == old(self).ops@.len(),
            forall|k: int|
                0 <= k < old(self).ops@.len() && k != old(self).ops@[child as int].parent.unwrap()
                    ==> final(self).ops@[k] == old(self).ops@[k],
            ({
                let p = old(self).ops@[child as int].parent.unwrap() as int;
                &&& final(self).ops@[p].children@ == old(self).ops@[p].children@.push(child)
                &&& final(self).ops@[p].name == old(self).ops@[p].name
                &&& final(self).ops@[p].parent == old(self).ops@[p].parent
                &&& final(self).ops@[p].args == old(self).ops@[p].args
                &&& final(self).ops@[p].ret == old(self).ops@[p].ret
            }),
            final(self).parent_stack@ == old(self).parent_stack@,
            final(self).items@ == old(self).items@,
            final(self).step_stack@ == old(self).step_stack@,
            final(self).next_safety == old(self).next_safety,
    {
        let parent = match self.ops[child].parent {
            Some(p) => p,
            None => {
                proof {
                    assert(false);
                }
                0
            },
        };
        proof {
            assert(op_wf(old(self).ops@, child as int, old(self).items@.len()));
        }
        self.ops[parent].children.push(child);
        proof {
            let p = parent as int;
            assert(op_wf(old(self).ops@, p, old(self).items@.len()));
            assert forall|k: int|
                0 <= k < self.ops@.len() && k != p implies op_wf(
                self.ops@,
                k,
                self.items@.len(),
            ) by {
                assert(op_wf(old(self).ops@, k, old(self).items@.len()));
                assert forall|i: int| 0 <= i < self.ops@[k].children@.len() implies {
                    &&& k < #[trigger] self.ops@[k].children@[i] < self.ops@.len()
                    &&& self.ops@[self.ops@[k].children@[i] as int].parent == Some(k as usize)
                } by {
                    let c = self.ops@[k].children@[i] as int;
                    assert(self.ops@[k].children@[i] == old(self).ops@[k].children@[i]);
                    assert(old(self).ops@[c].parent == Some(k as usize));
                    assert(self.ops@[c].parent == old(self).ops@[c].parent);
                }
            }
            assert(op_wf(self.ops@, p, self.items@.len())) by {
                assert(op_wf(old(self).ops@, child as int, old(self).items@.len()));
                let cs = self.ops@[p].children@;
                assert(cs == old(self).ops@[p].children@.push(child));
                assert forall|i: int| 0 <= i < cs.len() implies {
                    &&& p < #[trigger] cs[i] < self.ops@.len()
                    &&& self.ops@[cs[i] as int].parent == Some(p as usize)
                } by {
                    if i < cs.len() - 1 {
                        let c = cs[i] as int;
                        assert(cs[i] == old(self).ops@[p].children@[i]);
                        assert(old(self).ops@[c].parent == Some(p as usize));
                        assert(self.ops@[c].parent == old(self).ops@[c].parent);
                    } else {
                        assert(cs[i] == child);
                        assert(old(self).ops@[child as int].parent == Some(parent));
                        assert(self.ops@[child as int].parent == old(
                            self,
                        ).ops@[child as int].parent);
                    }
                }
                assert forall|i: int, j: int|
                    0 <= i < j < cs.len() implies #[trigger] cs[i] != #[trigger] cs[j] by {
                    if j < cs.len() - 1 {
                        assert(old(self).ops@[p].children@[i] != old(self).ops@[p].children@[j]);
                    } else {
                        assert(old(self).ops@[p].children@.contains(old(
                            self,
                        ).ops@[p].children@[i]));
                    }
                }
            }
        }
    }
}

impl<T> TraceData<T> {
    /// Builds one trace event: stores each captured value in the arena,
    /// stamps a fresh safety index, and returns the step with its owning-op
    /// and result slots still unset. This is the runtime meaning of every
    /// derived per-variant constructor.
    pub fn mk_step(&mut self, kind: String, values: Vec<T>) -> (step: Step)
        requires
            old(self).wf(),
            old(self).next_safety < usize::MAX,
        ensures
            final(self).wf(),
            step.kind@ == kind@,
            step.info.safety_idx == old(self).next_safety,
            step.info.self_idx is None,
            step.info.result is None,
            step.fields@.len() == values@.len(),
            forall|i: int|
                0 <= i < values@.len() ==> #[trigger] step.fields@[i] == old(self).items@.len()
                    + i,
            forall|i: int|
                0 <= i < values@.len() ==> final(self).items@[#[trigger] step.fields@[i] as int]
                    == values@[i],
            final(self).items@ == old(self).items@ + values@,
            final(self).next_safety == old(self).next_safety + 1,
            final(self).ops@ == old(self).ops@,
            final(self).parent_stack@ == old(self).parent_stack@,
            final(self).step_stack@ == old(self).step_stack@,
    {
        let ghost orig = values@;
        let mut values = values;
        let mut fields: Vec<ItemIdx> = Vec::new();
        while values.len() > 0
            invariant
                self.wf(),
                fields@.len() + values@.len() == orig.len(),
                values@ == orig.subrange(fields@.len() as int, orig.len() as int),
                self.items@ == old(self).items@ + orig.take(fields@.len() as int),
                forall|i: int|
                    0 <= i < fields@.len() ==> #[trigger] fields@[i] == old(self).items@.len() + i,
                self.ops@ == old(self).ops@,
                self.parent_stack@ == old(self).parent_stack@,
                self.step_stack@ == old(self).step_stack@,
                self.next_safety == old(self).next_safety,
            decreases values@.len(),
        {
            let ghost k = fields@.len() as int;
            let v = values.remove(0);
            assert(v == orig[k]);
            let idx = self.insert_item(v);
            fields.push(idx);
            proof {
                assert(values@ =~= orig.subrange(fields@.len() as int, orig.len() as int));
                assert(self.items@ =~= old(self).items@ + orig.take(fields@.len() as int));
            }
        }
        proof {
            assert(orig.take(orig.len() as int) =~= orig);
        }
        let safety = self.next_safety_idx();
        Step {
            kind,
            info: StepInfo { safety_idx: safety, self_idx: None, result: None },
            fields,
        }
    }

    /// Prologue of the Internal variant: attaches a fresh op under the
    /// current parent and pushes it as the new current parent, so the call
    /// tree nests exactly as the real call stack does.
    pub fn begin_internal(&mut self, name: String) -> (idx: OpIdx)
        requires
            old(self).wf(),
            old(self).parent_stack@.len() > 0,
        ensures
            final(self).wf(),
            idx == old(self).ops@.len(),
            final(self).ops@.len() == old(self).ops@.len() + 1,
            forall|k: int|
                0 <= k < old(self).ops@.len() ==> final(self).ops@[k] == old(self).ops@[k],
            final(self).ops@[idx as int].name@ == name@,
            final(self).ops@[idx as int].parent == Some(old(self).parent_stack@.last()),
            final(self).ops@[idx as int].children@.len() == 0,
            final(self).ops@[idx as int].args@.len() == 0,
            final(self).ops@[idx as int].ret is None,
            final(self).parent_stack@ == old(self).parent_stack@.push(idx),
            final(self).items@ == old(self).items@,
            final(self).step_stack@ == old(self).step_stack@,
            final(self).next_safety == old(self).next_safety,
            op_depth(final(self).ops@, idx as int) == op_depth(
                final(self).ops@,
                old(self).parent_stack@.last() as int,
            ) + 1,
    {
        let parent = self.parent_stack[self.parent_stack.len() - 1];
        let idx = self.new_nonroot_op(name, parent);
        self.parent_stack.push(idx);
        proof {
            assert(op_depth(self.ops@, idx as int) == 1 + op_depth(self.ops@, parent as int));
        }
        idx
    }

    /// Epilogue of the Internal variant: records the result on the op, links
    /// it into its parent's children, and restores the previous current
    /// parent, so the stack leaves this call exactly as it entered it.
    pub fn end_internal(&mut self, op: OpIdx, value: T) -> (idx: ItemIdx)
        requires
            old(self).wf(),
            old(self).parent_stack@.len() > 0,
            old(self).parent_stack@.last() == op,
            old(self).ops@[op as int].parent is Some,
            old(self).ops@[op as int].ret is None,
            !old(self).ops@[old(self).ops@[op as int].parent.unwrap() as int].children@.contains(
                op,
            ),
        ensures
            final(self).wf(),
            final(self).parent_stack@ == old(self).parent_stack@.drop_last(),
            idx == old(self).items@.len(),
            final(self).items@ == old(self).items@.push(value),
            final(self).ops@.len() == old(self).ops@.len(),
            final(self).ops@[op as int].ret == Some(idx),
            final(self).ops@[op as int].parent == old(self).ops@[op as int].parent,
            ({
                let p = old(self).ops@[op as int].parent.unwrap() as int;
                &&& final(self).ops@[p].children@ == old(self).ops@[p].children@.push(op)
                &&& forall|k: int|
                    0 <= k < old(self).ops@.len() && k != op && k != p ==> final(self).ops@[k]
                        == old(self).ops@[k]
            }),
            final(self).step_stack@ == old(self).step_stack@,
            final(self).next_safety == old(self).next_safety,
    {
        let idx = self.push_ret_val(op, value);
        proof {
            let p = old(self).ops@[op as int].parent.unwrap() as int;
            assert(op_wf(old(self).ops@, op as int, old(self).items@.len()));
            assert(p < op);
            assert(self.ops@[p] == old(self).ops@[p]);
        }
        self.add_child(op);
        let _ = self.parent_stack.pop();
        idx
    }

    /// Epilogue of the Root variant: records the result and pops the root
    /// op, leaving the current-parent stack at the depth it had before the
    /// Root call began.
    pub fn end_root(&mut self, op: OpIdx, value: T) -> (idx: ItemIdx)
        requires
            old(self).wf(),
            old(self).parent_stack@.len() > 0,
            old(self).parent_stack@.last() == op,
            old(self).ops@[op as int].ret is None,
        ensures
            final(self).wf(),
            final(self).parent_stack@ == old(self).parent_stack@.drop_last(),
            idx == old(self).items@.len(),
            final(self).items@ == old(self).items@.push(value),
            final(self).ops@.len() == old(self).ops@.len(),
            forall|k: int|
                0 <= k < old(self).ops@.len() && k != op ==> final(self).ops@[k] == old(
                    self,
                ).ops@[k],
            final(self).ops@[op as int].ret == Some(idx),
            final(self).ops@[op as int].parent == old(self).ops@[op as int].parent,
            final(self).ops@[op as int].children == old(self).ops@[op as int].children,
            final(self).step_stack@ == old(self).step_stack@,
            final(self).next_safety == old(self).next_safety,
            root_epilogue_rel(*old(self), *final(self), op),
    {
        let idx = self.push_ret_val(op, value);
        let _ = self.parent_stack.pop();
        idx
    }
}

impl Step {
    /// The step's variant label.
    pub fn get_kind(&self) -> (r: &String)
        ensures
            r@ == self.kind@,
    {
        &self.kind
    }

    /// The safety counter stamped at construction.
    pub fn get_safety_idx(&self) -> (r: usize)
        ensures
            r == self.info.safety_idx,
    {
        self.info.safety_idx
    }

    /// The owning op's index, once finalized.
    pub fn get_self_idx(&self) -> (r: Option<OpIdx>)
        ensures
            r == self.info.self_idx,
    {
        self.info.self_idx
    }

    /// The captured result's index, once the body has returned.
    pub fn get_result(&self) -> (r: Option<ItemIdx>)
        ensures
            r == self.info.result,
    {
        self.info.result
    }

    /// Performs the single allowed write of the owning op's index. Writing
    /// it a second time is a double-trace bug, excluded by contract.
    pub fn set_self_idx(&mut self, op: OpIdx)
        requires
            old(self).info.self_idx is None,
        ensures
            final(self).info.self_idx == Some(op),
            final(self).info.safety_idx == old(self).info.safety_idx,
            final(self).info.result == old(self).info.result,
            final(self).kind == old(self).kind,
            final(self).fields == old(self).fields,
    {
        self.info.self_idx = Some(op);
    }

    /// Performs the single allowed write of the captured result's index.
    /// Writing it a second time is a double-trace bug, excluded by contract.
    pub fn set_result(&mut self, idx: ItemIdx)
        requires
            old(self).info.result is None,
        ensures
            final(self).info.result == Some(idx),
            final(self).info.safety_idx == old(self).info.safety_idx,
            final(self).info.self_idx == old(self).info.self_idx,
            final(self).kind == old(self).kind,
            final(self).fields == old(self).fields,
    {
        self.info.result = Some(idx);
    }
}

/// Every parent link points strictly backwards in the op store; the part of
/// well-formedness that makes tree depth a sound measure.
pub open spec fn parents_decreasing(ops: Seq<Op>) -> bool {
    forall|k: int|
        0 <= k < ops.len() ==> match #[trigger] ops[k].parent {
            Some(p) => p < k,
            None => true,
        }
}

/// Depth of an op below its tree's root: the number of parent links above
/// it.
pub open spec fn op_depth(ops: Seq<Op>, k: int) -> nat
    decreases k,
{
    if 0 <= k < ops.len() {
        match ops[k].parent {
            Some(p) => if p < k {
                1 + op_depth(ops, p as int)
            } else {
                0
            },
            None => 0,
        }
    } else {
        0
    }
}

/// A chain of nested Internal calls builds a branch whose depth grows by
/// exactly one per call: if each op of `chain` after the head is a child of
/// the one before it, the op at position `i` sits `i` levels below the head.
pub proof fn lemma_chain_depth(ops: Seq<Op>, chain: Seq<OpIdx>, i: int)
    requires
        parents_decreasing(ops),
        forall|j: int| 0 <= j < chain.len() ==> #[trigger] chain[j] < ops.len(),
        forall|j: int|
            1 <= j < chain.len() ==> ops[#[trigger] chain[j] as int].parent == Some(chain[j - 1]),
        0 <= i < chain.len(),
    ensures
        op_depth(ops, chain[i] as int) == op_depth(ops, chain[0] as int) + i,
    decreases i,
{
    if i > 0 {
        lemma_chain_depth(ops, chain, i - 1);
    }
}

/// Each op is linked at most once into the children sequences of a
/// well-formed store: two occurrences are the same occurrence under the
/// same parent.
pub proof fn lemma_child_linked_once(
    ops: Seq<Op>,
    n_items: nat,
    p: int,
    q: int,
    i: int,
    j: int,
)
    requires
        forall|k: int| 0 <= k < ops.len() ==> op_wf(ops, k, n_items),
        0 <= p < ops.len(),
        0 <= q < ops.len(),
        0 <= i < ops[p].children@.len(),
        0 <= j < ops[q].children@.len(),
        ops[p].children@[i] == ops[q].children@[j],
    ensures
        p == q,
        i == j,
{
    assert(op_wf(ops, p, n_items));
    assert(op_wf(ops, q, n_items));
    let c = ops[p].children@[i] as int;
    assert(ops[c].parent == Some(p as usize));
    assert(ops[c].parent == Some(q as usize));
    if i < j {
        assert(ops[p].children@[i] != ops[p].children@[j]);
    }
    if j < i {
        assert(ops[p].children@[j] != ops[p].children@[i]);
    }
}

/// What the Root prologue does to the trace: allocates the root op and
/// pushes it as current parent.
pub open spec fn root_prologue_rel<T>(pre: TraceData<T>, post: TraceData<T>, root: OpIdx) -> bool {
    &&& root == pre.ops@.len()
    &&& post.ops@.len() == pre.ops@.len() + 1
    &&& post.ops@[root as int].parent is None
    &&& post.ops@[root as int].ret is None
    &&& post.parent_stack@ == pre.parent_stack@.push(root)
}

/// What the Root epilogue does: records the result while the current parent
/// still is the root op, then pops it.
pub open spec fn root_epilogue_rel<T>(pre: TraceData<T>, post: TraceData<T>, root: OpIdx) -> bool {
    &&& pre.parent_stack@.len() > 0
    &&& pre.parent_stack@.last() == root
    &&& post.parent_stack@ == pre.parent_stack@.drop_last()
    &&& root < post.ops@.len()
    &&& post.ops@[root as int].ret is Some
}

/// A successful Root call restores the current-parent stack to the depth it
/// had before the call, records the root op's result, and writes the root
/// step's `self_idx` and `result` each exactly once: both were unset when
/// the step was built and both are set when the call returns.
pub proof fn lemma_root_call_balanced<T>(
    s0: TraceData<T>,
    s1: TraceData<T>,
    s2: TraceData<T>,
    s3: TraceData<T>,
    root: OpIdx,
    fresh: StepInfo,
    finalized: StepInfo,
    ret_idx: ItemIdx,
)
    requires
        root_prologue_rel(s0, s1, root),
        s2.parent_stack@ == s1.parent_stack@,  // the traced body keeps push/pop balance
        root_epilogue_rel(s2, s3, root),
        fresh.self_idx is None,
        fresh.result is None,
        finalized == (StepInfo {
            safety_idx: fresh.safety_idx,
            self_idx: Some(root),
            result: Some(ret_idx),
        }),
    ensures
        s3.parent_stack@.len() == s0.parent_stack@.len(),
        s3.ops@[root as int].ret is Some,
        fresh.self_idx is None && finalized.self_idx == Some(root),
        fresh.result is None && finalized.result == Some(ret_idx),
        finalized.safety_idx == fresh.safety_idx,
{
}

/// Pushing a fresh op (no children, no args, no return, parent in bounds)
/// keeps every op in the store well formed.
proof fn lemma_op_wf_extend(ops1: Seq<Op>, ops2: Seq<Op>, n_items: nat)
    requires
        forall|k: int| 0 <= k < ops1.len() ==> op_wf(ops1, k, n_items),
        ops2.len() == ops1.len() + 1,
        forall|k: int| 0 <= k < ops1.len() ==> ops2[k] == ops1[k],
        match ops2[ops1.len() as int].parent {
            Some(p) => p < ops1.len(),
            None => true,
        },
        ops2[ops1.len() as int].children@.len() == 0,
        ops2[ops1.len() as int].args@.len() == 0,
        ops2[ops1.len() as int].ret is None,
    ensures
        forall|k: int| 0 <= k < ops2.len() ==> op_wf(ops2, k, n_items),
{
    assert forall|k: int| 0 <= k < ops2.len() implies op_wf(ops2, k, n_items) by {
        if k < ops1.len() {
            assert(op_wf(ops1, k, n_items));
            assert forall|i: int| 0 <= i < ops2[k].children@.len() implies {
                &&& k < #[trigger] ops2[k].children@[i] < ops2.len()
                &&& ops2[ops2[k].children@[i] as int].parent == Some(k as usize)
            } by {
                assert(ops1[k].children@[i] < ops1.len());
                assert(ops2[ops1[k].children@[i] as int] == ops1[ops1[k].children@[i] as int]);
            }
        }
    }
}

/// An in-place change to one op that leaves its parent link, children and
/// (up to one valid appended index) arguments well formed keeps the whole
/// store well formed, provided the arena only grew.
proof fn lemma_op_wf_local_update(ops1: Seq<Op>, ops2: Seq<Op>, t: int, n_items: nat)
    requires
        forall|k: int| 0 <= k < ops1.len() ==> op_wf(ops1, k, n_items),
        ops2.len() == ops1.len(),
        0 <= t < ops1.len(),
        forall|k: int| 0 <= k < ops1.len() && k != t ==> ops2[k] == ops1[k],
        ops2[t].parent == ops1[t].parent,
        ops2[t].children@ == ops1[t].children@,
        ops2[t].ret == ops1[t].ret,
        ops2[t].args@ == ops1[t].args@ || (ops2[t].args@.len() == ops1[t].args@.len() + 1
            && ops2[t].args@.drop_last() == ops1[t].args@ && ops2[t].args@.last() < n_items),
    ensures
        forall|k: int| 0 <= k < ops2.len() ==> op_wf(ops2, k, n_items),
{
    assert forall|k: int| 0 <= k < ops2.len() implies op_wf(ops2, k, n_items) by {
        assert(op_wf(ops1, k, n_items));
        assert(op_wf(ops1, t, n_items));
        assert forall|i: int| 0 <= i < ops2[k].children@.len() implies {
            &&& k < #[trigger] ops2[k].children@[i] < ops2.len()
            &&& ops2[ops2[k].children@[i] as int].parent == Some(k as usize)
        } by {
            assert(ops2[k].children@[i] == ops1[k].children@[i]);
            assert(ops1[ops1[k].children@[i] as int].parent == Some(k as usize));
        }
        assert forall|i: int| 0 <= i < ops2[k].args@.len() implies #[trigger] ops2[k].args@[i]
            < n_items by {
            if k == t && ops2[t].args@ != ops1[t].args@ && i < ops2[t].args@.len() - 1 {
                assert(ops2[t].args@[i] == ops2[t].args@.drop_last()[i]);
            }
        }
    }
}

} // verus!
