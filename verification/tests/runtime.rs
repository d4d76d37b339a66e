use optrace::arena::Arena;
use optrace::trace::TraceData;

fn strv(s: &str) -> String {
    String::from(s)
}

#[test]
fn arena_round_trip() {
    let mut a: Arena<i64> = Arena::new();
    let i0 = a.insert_item(10);
    let i1 = a.insert_item(-3);
    let i2 = a.insert_item(10);
    assert_eq!(i0, 0);
    assert_eq!(i1, 1);
    assert_eq!(i2, 2);
    assert_eq!(*a.get(i0), 10);
    assert_eq!(*a.get(i1), -3);
    assert_eq!(*a.get(i2), 10);
    assert_eq!(a.len(), 3);
}

#[test]
fn arena_round_trip_strings() {
    let mut a: Arena<String> = Arena::new();
    let i = a.insert_item(strv("payload"));
    assert_eq!(a.get(i).as_str(), "payload");
}

#[test]
fn fresh_trace_is_empty() {
    let td: TraceData<i64> = TraceData::new();
    assert_eq!(td.stack_len(), 0);
    assert_eq!(td.get_current_parent_op(), None);
}

#[test]
fn root_op_push_and_balance() {
    let mut td: TraceData<i64> = TraceData::new();
    let before = td.stack_len();
    let root = td.new_root_op(strv("outer"));
    assert_eq!(td.stack_len(), before + 1);
    assert_eq!(td.get_current_parent_op(), Some(root));
    let ridx = td.end_root(root, 7);
    assert_eq!(td.stack_len(), before);
    assert_eq!(td.ops[root].ret, Some(ridx));
    assert_eq!(*td.items.get(ridx), 7);
}

#[test]
fn step_slots_written_once() {
    let mut td: TraceData<i64> = TraceData::new();
    let mut values = Vec::new();
    values.push(3);
    let mut step = td.mk_step(strv("outer"), values);
    assert_eq!(step.get_self_idx(), None);
    assert_eq!(step.get_result(), None);
    let safety = step.get_safety_idx();
    step.set_self_idx(0);
    step.set_result(1);
    assert_eq!(step.get_self_idx(), Some(0));
    assert_eq!(step.get_result(), Some(1));
    assert_eq!(step.get_safety_idx(), safety);
    assert_eq!(step.get_kind().as_str(), "outer");
}

#[test]
fn step_stack_push_pop() {
    let mut td: TraceData<i64> = TraceData::new();
    let s1 = td.mk_step(strv("a"), Vec::new());
    let s2 = td.mk_step(strv("b"), Vec::new());
    assert_eq!(s1.get_safety_idx(), 0);
    assert_eq!(s2.get_safety_idx(), 1);
    td.push(s1);
    td.push(s2);
    let back2 = td.pop();
    let back1 = td.pop();
    assert_eq!(back2.get_kind().as_str(), "b");
    assert_eq!(back1.get_kind().as_str(), "a");
}

#[test]
fn mk_step_stores_values() {
    let mut td: TraceData<i64> = TraceData::new();
    let mut values = Vec::new();
    values.push(5);
    values.push(9);
    let step = td.mk_step(strv("pair"), values);
    assert_eq!(step.fields.len(), 2);
    assert_eq!(*td.items.get(step.fields[0]), 5);
    assert_eq!(*td.items.get(step.fields[1]), 9);
}

#[test]
fn two_procedure_scenario() {
    // outer(3): root op; inner(3) = 6 as its child; outer returns 7.
    let mut td: TraceData<i64> = TraceData::new();
    let x: i64 = 3;

    // Root variant of `outer`.
    let depth_before = td.stack_len();
    let root = td.new_root_op(strv("outer"));
    let xi = td.insert_item(x);
    td.push_arg(root, xi);

    // Internal variant of `inner`, called from outer's body.
    let inner = td.begin_internal(strv("inner"));
    let xi2 = td.insert_item(x);
    td.push_arg(inner, xi2);
    let inner_result = x * 2;
    let inner_ridx = td.end_internal(inner, inner_result);

    // Back in outer's body.
    let outer_result = inner_result + 1;
    let outer_ridx = td.end_root(root, outer_result);

    assert_eq!(td.stack_len(), depth_before);
    assert_eq!(td.ops[root].name.as_str(), "outer");
    assert_eq!(td.ops[root].parent, None);
    assert_eq!(td.ops[root].children, vec![inner]);
    assert_eq!(td.ops[inner].name.as_str(), "inner");
    assert_eq!(td.ops[inner].parent, Some(root));
    assert_eq!(td.ops[inner].children.len(), 0);
    assert_eq!(*td.items.get(td.ops[inner].args[0]), 3);
    assert_eq!(*td.items.get(inner_ridx), 6);
    assert_eq!(td.ops[inner].ret, Some(inner_ridx));
    assert_eq!(*td.items.get(outer_ridx), 7);
    assert_eq!(td.ops[root].ret, Some(outer_ridx));
    assert_eq!(outer_result, 7);
}

#[test]
fn nested_internal_chain_parents() {
    let mut td: TraceData<i64> = TraceData::new();
    let root = td.new_root_op(strv("outer"));
    let a = td.begin_internal(strv("a"));
    let b = td.begin_internal(strv("b"));
    let c = td.begin_internal(strv("c"));
    assert_eq!(td.ops[a].parent, Some(root));
    assert_eq!(td.ops[b].parent, Some(a));
    assert_eq!(td.ops[c].parent, Some(b));
    assert_eq!(td.stack_len(), 4);
    td.end_internal(c, 1);
    td.end_internal(b, 2);
    td.end_internal(a, 3);
    td.end_root(root, 4);
    assert_eq!(td.stack_len(), 0);
    // Each op appears exactly once in its parent's children.
    assert_eq!(td.ops[root].children, vec![a]);
    assert_eq!(td.ops[a].children, vec![b]);
    assert_eq!(td.ops[b].children, vec![c]);
    assert_eq!(td.ops[c].children.len(), 0);
}

#[test]
fn push_ret_val_records_result() {
    let mut td: TraceData<String> = TraceData::new();
    let op = td.new_root_op(strv("p"));
    let idx = td.push_ret_val(op, strv("value"));
    assert_eq!(td.ops[op].ret, Some(idx));
    assert_eq!(td.items.get(idx).as_str(), "value");
}

#[test]
fn set_parent_as_replaces_top() {
    let mut td: TraceData<i64> = TraceData::new();
    let r1 = td.new_root_op(strv("p"));
    let r2 = td.new_nonroot_op(strv("q"), r1);
    assert_eq!(td.get_current_parent_op(), Some(r1));
    td.set_parent_as(r2);
    assert_eq!(td.get_current_parent_op(), Some(r2));
    assert_eq!(td.stack_len(), 1);
}
