use proof_link::circuit::{check_assignment, ConstraintError};
use proof_link::circuits::{
    prepare_linked_proofs, product_circuit_schema, sum_circuit_schema, sum_product_link_group,
    ProductCircuitWitness, SumCircuitWitness, LINKING_GROUP_NAME,
};
use proof_link::field::{
    canonical, field_add, field_eq, field_mul, field_product, field_sum, Scalar,
};
use proof_link::link::{check_link, check_link_compatible, get_group_layout, LinkError};
use proof_link::schema::{compile, CircuitSchema, Gate, GroupLayout, SchemaError, WitnessField};
use proof_link::verification::{
    classify_verification, frame_proof, unframe_proof, VerificationOutcome,
};

fn s(n: u64) -> Scalar {
    Scalar::from_u64(n)
}

fn limbs(l0: u64, l1: u64, l2: u64, l3: u64) -> Scalar {
    Scalar { l0, l1, l2, l3 }
}

/// The field order minus one.
fn order_minus_one() -> Scalar {
    limbs(0x43e1f593f0000000, 0x2833e84879b97091, 0xb85045b68181585d, 0x30644e72e131a029)
}

fn sum_witness(shared: [u64; 5], private: u64) -> SumCircuitWitness {
    SumCircuitWitness { shared_witness: shared.map(s), private_witness: s(private) }
}

fn product_witness(shared: [u64; 5], private: u64) -> ProductCircuitWitness {
    ProductCircuitWitness { shared_witness: shared.map(s), private_witness: s(private) }
}

fn field(name: &str, width: usize, group: Option<&str>) -> WitnessField {
    WitnessField { name: name.to_string(), width, link_group: group.map(|g| g.to_string()) }
}

fn schema(fields: Vec<WitnessField>, statement_width: usize, gates: Vec<Gate>) -> CircuitSchema {
    CircuitSchema { name: "test".to_string(), witness_fields: fields, statement_width, gates }
}

#[test]
fn field_arithmetic_reduces() {
    assert_eq!(field_add(order_minus_one(), s(2)), s(1));
    assert_eq!(field_add(s(3), s(4)), s(7));
    assert_eq!(field_mul(s(1 << 32), s(1 << 32)), limbs(0, 1, 0, 0));
    assert_eq!(field_mul(s(6), s(7)), s(42));
    assert_eq!(field_mul(order_minus_one(), order_minus_one()), s(1));
    assert_eq!(
        field_mul(limbs(0, 0, 1, 0), limbs(0, 0, 1, 0)),
        limbs(0xac96341c4ffffffb, 0x36fc76959f60cd29, 0x666ea36f7879462e, 0xe0a77c19a07df2f)
    );
    assert_eq!(field_sum(&vec![s(1), s(2), s(3)]), s(6));
    assert_eq!(field_sum(&vec![]), s(0));
    assert_eq!(field_product(&vec![s(2), s(3), s(4)]), s(24));
    assert_eq!(field_product(&vec![]), s(1));
}

#[test]
fn canonical_reduces_any_limbs() {
    let max = limbs(u64::MAX, u64::MAX, u64::MAX, u64::MAX);
    assert_eq!(
        canonical(max),
        limbs(0xac96341c4ffffffa, 0x36fc76959f60cd29, 0x666ea36f7879462e, 0xe0a77c19a07df2f)
    );
    assert_eq!(canonical(s(5)), s(5));
    assert!(field_eq(field_add(order_minus_one(), s(1)), s(0)));
    assert!(!field_eq(s(0), s(0xffffffff00000001)));
}

#[test]
fn sum_statement_is_sum_of_witness() {
    assert_eq!(sum_witness([1, 2, 3, 4, 5], 10).statement(), s(25));
    assert_eq!(sum_witness([0xffffffff00000001, 0, 0, 0, 0], 0).statement(), s(0xffffffff00000001));
    assert_eq!(
        sum_witness([u64::MAX, u64::MAX, 0, 0, 0], 2).statement(),
        limbs(0, 2, 0, 0)
    );
    let w = SumCircuitWitness { shared_witness: [order_minus_one(), s(0), s(0), s(0), s(0)], private_witness: s(1) };
    assert_eq!(w.statement(), s(0));
}

#[test]
fn product_statement_is_product_of_witness() {
    assert_eq!(product_witness([1, 2, 3, 4, 5], 2).statement(), s(240));
    assert_eq!(product_witness([1, 2, 3, 4, 6], 2).statement(), s(288));
    assert_eq!(product_witness([1, 2, 0, 4, 5], 2).statement(), s(0));
    assert_eq!(product_witness([1 << 32, 1 << 32, 1, 1, 1], 1).statement(), limbs(0, 1, 0, 0));
    assert_eq!(product_witness([0xffffffff00000001, 1, 1, 1, 1], 1).statement(), s(0xffffffff00000001));
}

#[test]
fn circuit_names() {
    assert_eq!(sum_circuit_schema().name, "sum-circuit");
    assert_eq!(product_circuit_schema().name, "product-circuit");
}

#[test]
fn sum_circuit_layout() {
    let layout = compile(&sum_circuit_schema()).unwrap();
    assert_eq!(layout.witness_wires, 6);
    assert_eq!(layout.statement_wires, 1);
    assert_eq!(layout.total_wires, 9);
    assert_eq!(layout.groups.len(), 1);
    assert_eq!(layout.groups[0].name, LINKING_GROUP_NAME);
    assert_eq!(layout.groups[0].positions, vec![0, 1, 2, 3, 4]);
}

#[test]
fn product_circuit_layout() {
    let layout = compile(&product_circuit_schema()).unwrap();
    assert_eq!(layout.witness_wires, 6);
    assert_eq!(layout.total_wires, 14);
    assert_eq!(layout.groups[0].positions, vec![0, 1, 2, 3, 4]);
}

#[test]
fn compiling_twice_gives_identical_layouts() {
    let a = compile(&product_circuit_schema()).unwrap();
    let b = compile(&product_circuit_schema()).unwrap();
    assert_eq!(a.witness_wires, b.witness_wires);
    assert_eq!(a.statement_wires, b.statement_wires);
    assert_eq!(a.total_wires, b.total_wires);
    assert_eq!(a.groups.len(), b.groups.len());
    for (x, y) in a.groups.iter().zip(b.groups.iter()) {
        assert_eq!(x.name, y.name);
        assert_eq!(x.positions, y.positions);
    }
}

#[test]
fn fields_of_one_group_are_laid_out_in_declaration_order() {
    let sc = schema(
        vec![field("a", 2, Some("g")), field("b", 3, None), field("c", 2, Some("g")), field("d", 1, Some("h"))],
        1,
        vec![],
    );
    let layout = compile(&sc).unwrap();
    assert_eq!(layout.witness_wires, 8);
    assert_eq!(layout.total_wires, 9);
    assert_eq!(layout.groups.len(), 2);
    assert_eq!(layout.groups[0].name, "g");
    assert_eq!(layout.groups[0].positions, vec![0, 1, 5, 6]);
    assert_eq!(layout.groups[1].name, "h");
    assert_eq!(layout.groups[1].positions, vec![7]);
}

#[test]
fn reordering_fields_changes_layout() {
    let sc = schema(vec![field("b", 1, None), field("a", 2, Some("g"))], 0, vec![]);
    let layout = compile(&sc).unwrap();
    assert_eq!(layout.groups[0].positions, vec![1, 2]);
}

#[test]
fn zero_arity_group_is_refused() {
    let sc = schema(vec![field("a", 1, None), field("b", 0, Some("g"))], 1, vec![]);
    assert_eq!(compile(&sc).err(), Some(SchemaError::ZeroArity { field: 1 }));
}

#[test]
fn mismatched_group_arity_is_refused() {
    let sc = schema(vec![field("a", 2, Some("g")), field("b", 3, Some("g"))], 1, vec![]);
    assert_eq!(compile(&sc).err(), Some(SchemaError::ArityMismatch { field: 1 }));
}

#[test]
fn dangling_reference_is_refused() {
    let sc = schema(
        vec![field("a", 2, None)],
        1,
        vec![Gate::Add(0, 1), Gate::EnforceEqual(4, 2), Gate::Mul(0, 9)],
    );
    assert_eq!(compile(&sc).err(), Some(SchemaError::DanglingReference { gate: 1 }));
    let sc = schema(vec![field("a", 2, None)], 1, vec![Gate::Sum(vec![0, 1, 3])]);
    assert_eq!(compile(&sc).err(), Some(SchemaError::DanglingReference { gate: 0 }));
}

#[test]
fn honest_statement_satisfies_sum_circuit() {
    let sc = sum_circuit_schema();
    let layout = compile(&sc).unwrap();
    let w = sum_witness([1, 2, 3, 4, 5], 10);
    assert_eq!(check_assignment(&sc, &layout, &w.assignment(), &vec![w.statement()]), Ok(()));
}

#[test]
fn honest_statement_satisfies_product_circuit() {
    let sc = product_circuit_schema();
    let layout = compile(&sc).unwrap();
    let w = product_witness([1, 2, 3, 4, 5], 2);
    assert_eq!(check_assignment(&sc, &layout, &w.assignment(), &vec![s(240)]), Ok(()));
    assert_eq!(
        check_assignment(&sc, &layout, &w.assignment(), &vec![limbs(0x43e1f593f00000f1, 0x2833e84879b97091, 0xb85045b68181585d, 0x30644e72e131a029)]),
        Ok(())
    );
}

#[test]
fn other_statement_is_rejected() {
    let sc = sum_circuit_schema();
    let layout = compile(&sc).unwrap();
    let w = sum_witness([1, 2, 3, 4, 5], 10);
    assert_eq!(
        check_assignment(&sc, &layout, &w.assignment(), &vec![s(26)]),
        Err(ConstraintError::Unsatisfied)
    );
    let sc = product_circuit_schema();
    let layout = compile(&sc).unwrap();
    let w = product_witness([1, 2, 3, 4, 5], 2);
    assert_eq!(
        check_assignment(&sc, &layout, &w.assignment(), &vec![s(241)]),
        Err(ConstraintError::Unsatisfied)
    );
}

#[test]
fn wrong_assignment_lengths_are_rejected() {
    let sc = sum_circuit_schema();
    let layout = compile(&sc).unwrap();
    assert_eq!(
        check_assignment(&sc, &layout, &vec![s(1), s(2), s(3)], &vec![s(6)]),
        Err(ConstraintError::WitnessLength)
    );
    assert_eq!(
        check_assignment(&sc, &layout, &[1, 2, 3, 4, 5, 10].map(s).to_vec(), &vec![s(25), s(0)]),
        Err(ConstraintError::StatementLength)
    );
}

#[test]
fn linking_accepts_shared_values() {
    let sw = sum_witness([1, 2, 3, 4, 5], 10);
    let pw = product_witness([1, 2, 3, 4, 5], 2);
    assert_eq!(sw.statement(), s(25));
    assert_eq!(pw.statement(), s(240));
    let sum_layout = compile(&sum_circuit_schema()).unwrap();
    let product_layout = compile(&product_circuit_schema()).unwrap();
    let name = LINKING_GROUP_NAME.to_string();
    let ga = get_group_layout(&sum_layout, &name).unwrap();
    let gb = get_group_layout(&product_layout, &name).unwrap();
    assert_eq!(check_link(&ga, &sw.assignment(), &gb, &pw.assignment()), Ok(()));
}

#[test]
fn linking_rejects_differing_values() {
    let sw = sum_witness([1, 2, 3, 4, 5], 10);
    let pw = product_witness([1, 2, 3, 4, 6], 2);
    let group = sum_product_link_group();
    assert_eq!(
        check_link(&group, &sw.assignment(), &group, &pw.assignment()),
        Err(LinkError::ValuesDiffer)
    );
}

#[test]
fn linking_compares_field_elements() {
    let group = sum_product_link_group();
    let a = [0xffffffff00000001, 0, 0, 0, 0].map(s).to_vec();
    let b = [0, 0, 0, 0, 0].map(s).to_vec();
    assert_eq!(check_link(&group, &a, &group, &b), Err(LinkError::ValuesDiffer));
    let mut c = b.clone();
    c[0] = limbs(0x43e1f593f0000001, 0x2833e84879b97091, 0xb85045b68181585d, 0x30644e72e131a029);
    assert_eq!(check_link(&group, &b, &group, &c), Ok(()));
}

#[test]
fn link_compatibility_is_checked_first() {
    let a = GroupLayout { name: "g".to_string(), positions: vec![0, 1] };
    let b = GroupLayout { name: "h".to_string(), positions: vec![0, 1] };
    let c = GroupLayout { name: "g".to_string(), positions: vec![0] };
    let d = GroupLayout { name: "g".to_string(), positions: vec![4, 9] };
    assert_eq!(check_link_compatible(&a, &b), Err(LinkError::GroupName));
    assert_eq!(check_link_compatible(&a, &c), Err(LinkError::GroupArity));
    assert_eq!(check_link_compatible(&a, &d), Ok(()));
    assert_eq!(check_link(&a, &vec![s(1), s(2)], &d, &vec![s(1), s(2)]), Err(LinkError::PositionOutOfRange));
    assert_eq!(check_link(&a, &vec![s(1), s(2)], &b, &vec![s(1), s(2)]), Err(LinkError::GroupName));
}

#[test]
fn missing_group_is_none() {
    let layout = compile(&sum_circuit_schema()).unwrap();
    assert!(get_group_layout(&layout, &"other".to_string()).is_none());
}

#[test]
fn prepared_proofs_carry_statements_and_group() {
    let r = prepare_linked_proofs(&sum_witness([1, 2, 3, 4, 5], 10), &product_witness([1, 2, 3, 4, 5], 2));
    assert_eq!(r.sum_statement, s(25));
    assert_eq!(r.product_statement, s(240));
    assert_eq!(r.group_layout.name, LINKING_GROUP_NAME);
    assert_eq!(r.group_layout.positions, vec![0, 1, 2, 3, 4]);
}

#[test]
fn frame_round_trip() {
    let payload = vec![7u8, 8, 9];
    let framed = frame_proof(&payload);
    assert_eq!(framed, vec![0, 0, 0, 3, 7, 8, 9]);
    assert_eq!(unframe_proof(&framed), Some(payload));
    assert_eq!(unframe_proof(&frame_proof(&vec![])), Some(vec![]));
}

#[test]
fn truncated_proof_is_malformed_not_invalid() {
    let framed = frame_proof(&vec![1u8; 300]);
    assert_eq!(&framed[..4], &[0, 0, 1, 44]);
    for n in 0..framed.len() {
        assert_eq!(unframe_proof(&framed[..n].to_vec()), None);
    }
    let outcome = classify_verification(unframe_proof(&framed[..10].to_vec()).map(|_| true));
    assert_eq!(outcome, VerificationOutcome::RejectedMalformed);
    assert_ne!(outcome, classify_verification(Some(false)));
    assert_eq!(classify_verification(Some(false)), VerificationOutcome::RejectedInvalid);
    assert_eq!(classify_verification(Some(true)), VerificationOutcome::Accepted);
}
