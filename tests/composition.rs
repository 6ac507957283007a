use pod2::arrange::sort_by_name;
use pod2::combine::{PlonkyButNotPlonkyGadget, SchnorrPODGadget};
use pod2::error::PodError;
use pod2::eval::GpgInput;
use pod2::gadget::OpExecutorGadget;
use pod2::operation::{OpList, Operation as Op, OperationCmd as OpCmd};
use pod2::pod::{Pod, ProofKind};
use pod2::statement::{Entry, Statement, StatementRef};

fn sref(pod: &str, statement: &str) -> StatementRef {
    StatementRef(pod.to_string(), statement.to_string())
}

fn cmd(op: Op, out: &str) -> OpCmd {
    OpCmd(op, out.to_string())
}

/// Two signed attestations, as a caller would list them.
fn prepare_pods() -> Vec<(String, Pod)> {
    let schnorr_pod1 = Pod::signature_backed(
        &vec![Entry::new_from_scalar("s1", 55), Entry::new_from_scalar("s2", 56)],
        27,
        vec![],
    );
    let schnorr_pod2 = Pod::signature_backed(
        &vec![Entry::new_from_scalar("s3", 57), Entry::new_from_scalar("s4", 55)],
        29,
        vec![],
    );
    vec![("Test POD 1".to_string(), schnorr_pod1), ("Test POD 2".to_string(), schnorr_pod2)]
}

fn scenario_ops() -> OpList {
    OpList(vec![
        cmd(Op::CopyStatement(sref("Test POD 1", "VALUEOF:s2")), "op3"),
        cmd(
            Op::NonequalityFromEntries(sref("Test POD 1", "VALUEOF:s1"), sref("Test POD 1", "VALUEOF:s2")),
            "yolo",
        ),
        cmd(
            Op::EqualityFromEntries(sref("Test POD 1", "VALUEOF:s1"), sref("Test POD 2", "VALUEOF:s4")),
            "op2",
        ),
    ])
}

fn value_of(s: &Statement) -> Option<(String, u64)> {
    match s {
        Statement::ValueOf { key, value } => Some((key.clone(), *value)),
        _ => None,
    }
}

fn pair(s: &Statement) -> Option<(&'static str, String, String)> {
    match s {
        Statement::Equal { left, right } => Some(("eq", left.clone(), right.clone())),
        Statement::NotEqual { left, right } => Some(("ne", left.clone(), right.clone())),
        _ => None,
    }
}

fn output_names(out: &[(String, Statement)]) -> Vec<String> {
    out.iter().map(|p| p.0.clone()).collect()
}

#[test]
#[allow(non_snake_case)]
fn test_PlonkyButNotPlonkyGadget() {
    let pods_list = prepare_pods();
    let e = PlonkyButNotPlonkyGadget::<3, 2, 3>::execute(&vec![9, 9], &pods_list, &scenario_ops()).unwrap();
    assert_eq!(output_names(&e.output), vec!["VALUEOF:op3", "NOTEQUAL:yolo", "EQUAL:op2"]);
    assert_eq!(value_of(&e.output[0].1), Some(("s2".to_string(), 56)));
    assert_eq!(pair(&e.output[1].1), Some(("ne", "s1".to_string(), "s2".to_string())));
    assert_eq!(pair(&e.output[2].1), Some(("eq", "s1".to_string(), "s4".to_string())));
    assert_eq!(e.selectors, vec![true, true, false, false, false]);
    let slot_names: Vec<String> = e.slots.iter().map(|p| p.0.clone()).collect();
    assert_eq!(slot_names, vec!["Test POD 1", "Test POD 2", "_DUMMYSCHNORR2", "_DUMMYPLONKY0", "_DUMMYPLONKY1"]);
    assert_eq!(e.slots[2].1.kind, ProofKind::Signature);
    assert_eq!(e.slots[3].1.kind, ProofKind::Recursive);
    assert_eq!(e.slots[3].1.proof, vec![9, 9]);
    for slot in e.slots.iter() {
        assert_eq!(slot.1.statements.len(), 3);
    }
    let pod = e.into_pod(vec![1, 2, 3]);
    assert_eq!(pod.kind, ProofKind::Recursive);
    assert_eq!(pod.proof, vec![1, 2, 3]);
    assert_eq!(output_names(&pod.statements), vec!["VALUEOF:op3", "NOTEQUAL:yolo", "EQUAL:op2"]);
}

#[test]
fn schnorr_pod_test() {
    let entry1 = Entry::new_from_scalar("some key", 36);
    let schnorr_pod3 = Pod::signature_backed(&vec![entry1], 25, vec![]);
    assert_eq!(schnorr_pod3.kind, ProofKind::Signature);
    assert_eq!(schnorr_pod3.statements.len(), 2);
    assert_eq!(schnorr_pod3.statements[0].0, "VALUEOF:_signer");
    assert_eq!(value_of(&schnorr_pod3.statements[0].1), Some(("_signer".to_string(), 25)));
    assert_eq!(schnorr_pod3.statements[1].0, "VALUEOF:some key");
    assert_eq!(value_of(&schnorr_pod3.statements[1].1), Some(("some key".to_string(), 36)));
    assert_eq!(SchnorrPODGadget::<2>::set_targets(&vec![true], &vec![true]), Ok(()));
}

#[test]
fn full_program_longer_than_statement_count_is_shape_mismatch() {
    let pods_list = prepare_pods();
    let op_list = OpList(vec![
        cmd(Op::NoOp, "pop"),
        cmd(Op::CopyStatement(sref("Test POD 1", "VALUEOF:s2")), "op3"),
        cmd(
            Op::NonequalityFromEntries(sref("Test POD 1", "VALUEOF:s1"), sref("Test POD 1", "VALUEOF:s2")),
            "yolo",
        ),
        cmd(Op::NewEntry(Entry::new_from_scalar("what", 23)), "nono"),
        cmd(
            Op::EqualityFromEntries(sref("Test POD 1", "VALUEOF:s1"), sref("Test POD 2", "VALUEOF:s4")),
            "op2",
        ),
    ]);
    let r = PlonkyButNotPlonkyGadget::<3, 2, 3>::execute(&vec![], &pods_list, &op_list);
    assert_eq!(r.err(), Some(PodError::ShapeMismatch));
    let e = PlonkyButNotPlonkyGadget::<3, 2, 5>::execute(&vec![], &pods_list, &op_list);
    assert_eq!(e.err(), Some(PodError::ShapeMismatch));
    let g = GpgInput { pods_list: prepare_pods() };
    let out = g.execute_oracle(&op_list, 5).unwrap();
    assert_eq!(output_names(&out), vec!["NONE:pop", "VALUEOF:op3", "NOTEQUAL:yolo", "VALUEOF:nono", "EQUAL:op2"]);
    assert_eq!(value_of(&out[3].1), Some(("what".to_string(), 23)));
}

#[test]
fn produced_pod_feeds_next_step() {
    let e = PlonkyButNotPlonkyGadget::<3, 2, 3>::execute(&vec![], &prepare_pods(), &scenario_ops()).unwrap();
    let produced = e.into_pod(vec![7]);
    let mut next_inputs = prepare_pods();
    next_inputs.push(("Level 1".to_string(), produced));
    let next_ops = OpList(vec![
        cmd(Op::CopyStatement(sref("Level 1", "EQUAL:op2")), "carried"),
        cmd(Op::CopyStatement(sref("Test POD 2", "VALUEOF:s3")), "s3"),
        cmd(Op::NoOp, "pad"),
    ]);
    let next = PlonkyButNotPlonkyGadget::<3, 2, 3>::execute(&vec![], &next_inputs, &next_ops).unwrap();
    assert_eq!(next.selectors, vec![true, true, false, true, false]);
    assert_eq!(next.slots[3].0, "Level 1");
    assert_eq!(output_names(&next.output), vec!["EQUAL:carried", "VALUEOF:s3", "NONE:pad"]);
    assert_eq!(pair(&next.output[0].1), Some(("eq", "s1".to_string(), "s4".to_string())));
}

#[test]
fn one_signature_input_too_many_is_capacity_exceeded() {
    let mut pods = prepare_pods();
    pods.push(("Test POD 3".to_string(), Pod::signature_backed(&vec![Entry::new_from_scalar("a", 1), Entry::new_from_scalar("b", 2)], 3, vec![])));
    pods.push(("Test POD 4".to_string(), Pod::signature_backed(&vec![Entry::new_from_scalar("c", 1), Entry::new_from_scalar("d", 2)], 4, vec![])));
    let r = PlonkyButNotPlonkyGadget::<3, 2, 3>::execute(&vec![], &pods, &scenario_ops());
    assert_eq!(r.err(), Some(PodError::CapacityExceeded));
}

#[test]
fn too_many_proof_inputs_is_capacity_exceeded() {
    let e = PlonkyButNotPlonkyGadget::<3, 2, 3>::execute(&vec![], &prepare_pods(), &scenario_ops()).unwrap();
    let out = e.into_pod(vec![]);
    let mut pods = prepare_pods();
    pods.push(("Proof A".to_string(), out.duplicate()));
    pods.push(("Proof B".to_string(), out.duplicate()));
    assert!(PlonkyButNotPlonkyGadget::<3, 2, 3>::execute(&vec![], &pods, &scenario_ops()).is_ok());
    pods.push(("Proof C".to_string(), out));
    let r = PlonkyButNotPlonkyGadget::<3, 2, 3>::execute(&vec![], &pods, &scenario_ops());
    assert_eq!(r.err(), Some(PodError::CapacityExceeded));
}

#[test]
fn wrong_statement_count_is_shape_mismatch() {
    let mut pods = prepare_pods();
    pods.push(("Short".to_string(), Pod::signature_backed(&vec![Entry::new_from_scalar("x", 1)], 5, vec![])));
    let r = PlonkyButNotPlonkyGadget::<3, 2, 3>::execute(&vec![], &pods, &scenario_ops());
    assert_eq!(r.err(), Some(PodError::ShapeMismatch));
}

#[test]
fn missing_reference_is_unresolved() {
    let ops = OpList(vec![
        cmd(Op::CopyStatement(sref("Test POD 9", "VALUEOF:s2")), "a"),
        cmd(Op::NoOp, "b"),
        cmd(Op::NoOp, "c"),
    ]);
    let r = PlonkyButNotPlonkyGadget::<3, 2, 3>::execute(&vec![], &prepare_pods(), &ops);
    assert_eq!(r.err(), Some(PodError::UnresolvedReference));
    let ops = OpList(vec![
        cmd(Op::CopyStatement(sref("Test POD 1", "VALUEOF:s9")), "a"),
        cmd(Op::NoOp, "b"),
        cmd(Op::NoOp, "c"),
    ]);
    let r = PlonkyButNotPlonkyGadget::<3, 2, 3>::execute(&vec![], &prepare_pods(), &ops);
    assert_eq!(r.err(), Some(PodError::UnresolvedReference));
}

#[test]
fn false_premise_is_invalid_operation() {
    let ops = OpList(vec![
        cmd(Op::EqualityFromEntries(sref("Test POD 1", "VALUEOF:s1"), sref("Test POD 1", "VALUEOF:s2")), "a"),
        cmd(Op::NoOp, "b"),
        cmd(Op::NoOp, "c"),
    ]);
    let r = PlonkyButNotPlonkyGadget::<3, 2, 3>::execute(&vec![], &prepare_pods(), &ops);
    assert_eq!(r.err(), Some(PodError::InvalidOperation));
    let ops = OpList(vec![
        cmd(Op::NonequalityFromEntries(sref("Test POD 1", "VALUEOF:s1"), sref("Test POD 2", "VALUEOF:s4")), "a"),
        cmd(Op::NoOp, "b"),
        cmd(Op::NoOp, "c"),
    ]);
    let r = PlonkyButNotPlonkyGadget::<3, 2, 3>::execute(&vec![], &prepare_pods(), &ops);
    assert_eq!(r.err(), Some(PodError::InvalidOperation));
}

#[test]
fn caller_order_does_not_change_output() {
    let forward = PlonkyButNotPlonkyGadget::<3, 2, 3>::execute(&vec![], &prepare_pods(), &scenario_ops()).unwrap();
    let mut reversed = prepare_pods();
    reversed.reverse();
    let backward = PlonkyButNotPlonkyGadget::<3, 2, 3>::execute(&vec![], &reversed, &scenario_ops()).unwrap();
    assert_eq!(output_names(&forward.output), output_names(&backward.output));
    assert_eq!(pair(&forward.output[2].1), pair(&backward.output[2].1));
    assert_eq!(backward.slots[0].0, "Test POD 1");
    assert_eq!(backward.slots[1].0, "Test POD 2");
}

#[test]
fn unused_capacity_does_not_change_output() {
    let small = PlonkyButNotPlonkyGadget::<2, 1, 3>::execute(&vec![], &prepare_pods(), &scenario_ops()).unwrap();
    let large = PlonkyButNotPlonkyGadget::<6, 4, 3>::execute(&vec![], &prepare_pods(), &scenario_ops()).unwrap();
    assert_eq!(output_names(&small.output), output_names(&large.output));
    assert_eq!(value_of(&small.output[0].1), value_of(&large.output[0].1));
    assert_eq!(small.slots.len(), 3);
    assert_eq!(large.slots.len(), 10);
    assert_eq!(large.selectors.iter().filter(|s| **s).count(), 2);
}

#[test]
fn circuit_accepts_only_the_oracle_output() {
    let g = GpgInput { pods_list: prepare_pods() };
    let ops = scenario_ops();
    let out = g.execute_oracle(&ops, 3).unwrap();
    assert_eq!(OpExecutorGadget::verify_output(&g, &ops, &out), Ok(()));
    let mut tampered = g.execute_oracle(&ops, 3).unwrap();
    tampered[0].1 = Statement::ValueOf { key: "s2".to_string(), value: 57 };
    assert_eq!(OpExecutorGadget::verify_output(&g, &ops, &tampered), Err(PodError::ProofVerificationFailure));
    let mut renamed = g.execute_oracle(&ops, 3).unwrap();
    renamed[2].0 = "EQUAL:other".to_string();
    assert!(!OpExecutorGadget::constraints_hold(&g, &ops, &renamed));
    let short: Vec<(String, Statement)> = vec![];
    assert!(!OpExecutorGadget::constraints_hold(&g, &ops, &short));
}

#[test]
fn enabled_signature_slot_must_verify() {
    assert_eq!(SchnorrPODGadget::<3>::set_targets(&vec![true, false], &vec![true, false]), Ok(()));
    assert_eq!(
        SchnorrPODGadget::<3>::set_targets(&vec![true, true], &vec![true, false]),
        Err(PodError::ProofVerificationFailure)
    );
    assert_eq!(
        SchnorrPODGadget::<3>::set_targets(&vec![true], &vec![true, false]),
        Err(PodError::WitnessAssignmentFailure)
    );
}

#[test]
fn sort_orders_by_name() {
    let mut pods = prepare_pods();
    pods.reverse();
    pods.push(("Alpha".to_string(), pods[0].1.duplicate()));
    pods.push(("Test POD 10".to_string(), pods[0].1.duplicate()));
    let sorted = sort_by_name(&pods);
    let names: Vec<String> = sorted.iter().map(|p| p.0.clone()).collect();
    assert_eq!(names, vec!["Alpha", "Test POD 1", "Test POD 10", "Test POD 2"]);
}

#[test]
fn later_operations_see_earlier_outputs() {
    let g = GpgInput { pods_list: prepare_pods() };
    let ops = OpList(vec![
        cmd(Op::NewEntry(Entry::new_from_scalar("fresh", 55)), "fresh"),
        cmd(Op::EqualityFromEntries(sref("_SELF", "VALUEOF:fresh"), sref("Test POD 2", "VALUEOF:s4")), "same"),
        cmd(Op::CopyStatement(sref("_SELF", "EQUAL:same")), "again"),
    ]);
    let out = g.execute_oracle(&ops, 3).unwrap();
    assert_eq!(output_names(&out), vec!["VALUEOF:fresh", "EQUAL:same", "EQUAL:again"]);
    assert_eq!(pair(&out[2].1), Some(("eq", "fresh".to_string(), "s4".to_string())));
    assert_eq!(OpExecutorGadget::verify_output(&g, &ops, &out), Ok(()));
    let ahead = OpList(vec![
        cmd(Op::CopyStatement(sref("_SELF", "VALUEOF:later")), "early"),
        cmd(Op::NewEntry(Entry::new_from_scalar("later", 1)), "later"),
    ]);
    assert_eq!(g.execute_oracle(&ahead, 2).err(), Some(PodError::UnresolvedReference));
}
