//! Two circuits that share a link group: one constrains the sum of its
//! witness values, the other their product.
//!
//! Both declare the same witness fields: `shared_witness`, which joins the
//! link group, and `private_witness`. Wires 0 to 4 hold the shared values,
//! wire 5 the private one, wire 6 the statement.

use vstd::prelude::*;
use crate::circuit::{
    satisfies, wires_spec, constraints_hold, picked, gate_value, sum_values, values,
};
use crate::field::{
    add_spec, field_add, field_mul, field_order, mul_spec, product_spec, reduce, sum_spec, Scalar,
};
use crate::schema::{
    compile, compile_spec, fields_error, gates_error, gate_refs_ok, group_index, groups_spec,
    output_count, range_seq, width_total, all_below, arity_conflict, CircuitSchema, FieldModel, Gate, GateModel,
    GroupLayout, LayoutModel, SchemaError, WitnessField, SchemaModel,
};
use crate::link::{get_group_layout, link_spec, values_agree, positions_below};

verus! {

/// The number of witness values that the two circuits share.
pub const LINKING_WITNESS_SIZE: usize = 5;

/// The name of the link group that the two circuits share.
pub const LINKING_GROUP_NAME: &'static str = "sum-and-product-link-group";

/// The wire that holds a circuit's statement.
pub const STATEMENT_WIRE: usize = 6;

/// The witness of the sum circuit.
pub struct SumCircuitWitness {
    /// The values shared with the product circuit.
    pub shared_witness: [Scalar; LINKING_WITNESS_SIZE],
    /// A value specific to this circuit.
    pub private_witness: Scalar,
}

/// The witness of the product circuit.
pub struct ProductCircuitWitness {
    /// The values shared with the sum circuit.
    pub shared_witness: [Scalar; LINKING_WITNESS_SIZE],
    /// A value specific to this circuit.
    pub private_witness: Scalar,
}

/// The witness fields that both circuits declare, in order.
pub open spec fn link_fields_spec() -> Seq<FieldModel> {
    seq![
        FieldModel {
            name: "shared_witness"@,
            width: LINKING_WITNESS_SIZE as nat,
            link_group: Some(LINKING_GROUP_NAME@),
        },
        FieldModel { name: "private_witness"@, width: 1, link_group: None },
    ]
}

/// The sum circuit's gates: wire 7 sums the shared values, wire 8 adds the
/// private value, and that must equal the statement.
pub open spec fn sum_gates_spec() -> Seq<GateModel> {
    seq![
        GateModel::Sum(seq![0usize, 1usize, 2usize, 3usize, 4usize]),
        GateModel::Add(7, 5),
        GateModel::EnforceEqual(8, STATEMENT_WIRE as int),
    ]
}

/// The product circuit's gates: wire 7 holds one, each next wire multiplies
/// in one witness value, and wire 13 must equal the statement.
pub open spec fn product_gates_spec() -> Seq<GateModel> {
    Seq::new(
        8,
        |k: int|
            if k == 0 {
                GateModel::One
            } else if k < 7 {
                GateModel::Mul(6 + k, k - 1)
            } else {
                GateModel::EnforceEqual(13, STATEMENT_WIRE as int)
            },
    )
}

/// The statement of the sum circuit for a witness: the sum of all its values.
pub open spec fn sum_statement_spec(shared: Seq<Scalar>, private: Scalar) -> nat {
    add_spec(sum_spec(shared), private.value())
}

/// The statement of the product circuit for a witness: the product of all its values.
pub open spec fn product_statement_spec(shared: Seq<Scalar>, private: Scalar) -> nat {
    mul_spec(product_spec(shared), private.value())
}

fn link_fields() -> (r: Vec<WitnessField>)
    ensures
        r@.map_values(|f: WitnessField| f@) == link_fields_spec(),
{
    let mut r: Vec<WitnessField> = Vec::new();
    r.push(
        WitnessField {
            name: "shared_witness".to_owned(),
            width: LINKING_WITNESS_SIZE,
            link_group: Some(LINKING_GROUP_NAME.to_owned()),
        },
    );
    r.push(WitnessField { name: "private_witness".to_owned(), width: 1, link_group: None });
    assert(r@.map_values(|f: WitnessField| f@) =~= link_fields_spec());
    r
}

/// The schema of the sum circuit.
pub fn sum_circuit_schema() -> (r: CircuitSchema)
    ensures
        r@.name == "sum-circuit"@,
        r@.fields == link_fields_spec(),
        r@.statement_width == 1,
        r@.gates == sum_gates_spec(),
{
    let mut wires: Vec<usize> = Vec::new();
    let mut i: usize = 0;
    while i < LINKING_WITNESS_SIZE
        invariant
            i <= LINKING_WITNESS_SIZE,
            wires@ == Seq::new(i as nat, |k: int| k as usize),
        decreases LINKING_WITNESS_SIZE - i,
    {
        wires.push(i);
        i = i + 1;
        assert(wires@ =~= Seq::new(i as nat, |k: int| k as usize));
    }
    assert(wires@ =~= seq![0usize, 1usize, 2usize, 3usize, 4usize]);
    let mut gates: Vec<Gate> = Vec::new();
    gates.push(Gate::Sum(wires));
    gates.push(Gate::Add(7, 5));
    gates.push(Gate::EnforceEqual(8, STATEMENT_WIRE));
    assert(gates@.map_values(|g: Gate| g@) =~= sum_gates_spec());
    CircuitSchema {
        name: "sum-circuit".to_owned(),
        witness_fields: link_fields(),
        statement_width: 1,
        gates,
    }
}

/// The schema of the product circuit.
pub fn product_circuit_schema() -> (r: CircuitSchema)
    ensures
        r@.name == "product-circuit"@,
        r@.fields == link_fields_spec(),
        r@.statement_width == 1,
        r@.gates == product_gates_spec(),
{
    let mut gates: Vec<Gate> = Vec::new();
    gates.push(Gate::One);
    let mut k: usize = 1;
    while k < 7
        invariant
            1 <= k <= 7,
            gates@.map_values(|g: Gate| g@) == product_gates_spec().take(k as int),
        decreases 7 - k,
    {
        let ghost before = gates@.map_values(|g: Gate| g@);
        let ghost next = GateModel::Mul(6 + k as int, k as int - 1);
        gates.push(Gate::Mul(6 + k, k - 1));
        assert(gates@.map_values(|g: Gate| g@) =~= before.push(next));
        assert(product_gates_spec().take(k as int + 1) =~= product_gates_spec().take(k as int).push(
            next,
        ));
        k = k + 1;
    }
    let ghost before = gates@.map_values(|g: Gate| g@);
    gates.push(Gate::EnforceEqual(13, STATEMENT_WIRE));
    assert(gates@.map_values(|g: Gate| g@) =~= before.push(
        GateModel::EnforceEqual(13, STATEMENT_WIRE as int),
    ));
    assert(product_gates_spec() =~= product_gates_spec().take(7).push(
        GateModel::EnforceEqual(13, STATEMENT_WIRE as int),
    ));
    CircuitSchema {
        name: "product-circuit".to_owned(),
        witness_fields: link_fields(),
        statement_width: 1,
        gates,
    }
}

impl SumCircuitWitness {
    /// Derives the statement from the witness: the sum of the shared values
    /// and the private value.
    pub fn statement(&self) -> (r: Scalar)
        ensures
            r.value() == sum_statement_spec(self.shared_witness@, self.private_witness),
            r.value() < field_order(),
    {
        let mut sum = Scalar::zero();
        let mut i: usize = 0;
        while i < LINKING_WITNESS_SIZE
            invariant
                i <= LINKING_WITNESS_SIZE,
                self.shared_witness@.len() == LINKING_WITNESS_SIZE,
                sum.value() == sum_spec(self.shared_witness@.take(i as int)),
            decreases LINKING_WITNESS_SIZE - i,
        {
            assert(self.shared_witness@.take(i as int + 1).drop_last()
                == self.shared_witness@.take(i as int));
            sum = field_add(sum, self.shared_witness[i]);
            i = i + 1;
        }
        assert(self.shared_witness@.take(LINKING_WITNESS_SIZE as int) == self.shared_witness@);
        field_add(sum, self.private_witness)
    }

    /// The values of the witness wires, in layout order.
    pub fn assignment(&self) -> (r: Vec<Scalar>)
        ensures
            r@ == self.shared_witness@.push(self.private_witness),
    {
        let mut r: Vec<Scalar> = Vec::new();
        let mut i: usize = 0;
        while i < LINKING_WITNESS_SIZE
            invariant
                i <= LINKING_WITNESS_SIZE,
                self.shared_witness@.len() == LINKING_WITNESS_SIZE,
                r@ == self.shared_witness@.take(i as int),
            decreases LINKING_WITNESS_SIZE - i,
        {
            r.push(self.shared_witness[i]);
            i = i + 1;
            assert(r@ =~= self.shared_witness@.take(i as int));
        }
        assert(self.shared_witness@.take(LINKING_WITNESS_SIZE as int) == self.shared_witness@);
        r.push(self.private_witness);
        r
    }
}

impl ProductCircuitWitness {
    /// Derives the statement from the witness: the product of the shared
    /// values and the private value.
    pub fn statement(&self) -> (r: Scalar)
        ensures
            r.value() == product_statement_spec(self.shared_witness@, self.private_witness),
            r.value() < field_order(),
    {
        let mut product = Scalar::one();
        let mut i: usize = 0;
        while i < LINKING_WITNESS_SIZE
            invariant
                i <= LINKING_WITNESS_SIZE,
                self.shared_witness@.len() == LINKING_WITNESS_SIZE,
                product.value() == product_spec(self.shared_witness@.take(i as int)),
            decreases LINKING_WITNESS_SIZE - i,
        {
            assert(self.shared_witness@.take(i as int + 1).drop_last()
                == self.shared_witness@.take(i as int));
            product = field_mul(product, self.shared_witness[i]);
            i = i + 1;
        }
        assert(self.shared_witness@.take(LINKING_WITNESS_SIZE as int) == self.shared_witness@);
        field_mul(product, self.private_witness)
    }

    /// The values of the witness wires, in layout order.
    pub fn assignment(&self) -> (r: Vec<Scalar>)
        ensures
            r@ == self.shared_witness@.push(self.private_witness),
    {
        let mut r: Vec<Scalar> = Vec::new();
        let mut i: usize = 0;
        while i < LINKING_WITNESS_SIZE
            invariant
                i <= LINKING_WITNESS_SIZE,
                self.shared_witness@.len() == LINKING_WITNESS_SIZE,
                r@ == self.shared_witness@.take(i as int),
            decreases LINKING_WITNESS_SIZE - i,
        {
            r.push(self.shared_witness[i]);
            i = i + 1;
            assert(r@ =~= self.shared_witness@.take(i as int));
        }
        assert(self.shared_witness@.take(LINKING_WITNESS_SIZE as int) == self.shared_witness@);
        r.push(self.private_witness);
        r
    }
}

/// Summing the values of field elements is summing the elements.
proof fn lemma_sum_values(s: Seq<Scalar>)
    ensures
        sum_values(values(s)) == sum_spec(s),
    decreases s.len(),
{
    if s.len() > 0 {
        assert(values(s).drop_last() =~= values(s.drop_last()));
        lemma_sum_values(s.drop_last());
    }
}

/// A value below the order is its own residue.
proof fn lemma_small_residue(x: nat)
    requires
        x < field_order(),
    ensures
        x % field_order() == x,
{
    vstd::arithmetic::div_mod::lemma_fundamental_div_mod_converse(
        x as int,
        field_order() as int,
        0,
        x as int,
    );
}

/// Gates without equality constraints constrain nothing.
proof fn lemma_no_enforce_holds(gates: Seq<GateModel>, inputs: Seq<nat>)
    requires
        forall|k: int| 0 <= k < gates.len() ==> !(gates[k] is EnforceEqual),
    ensures
        constraints_hold(gates, inputs),
    decreases gates.len(),
{
    if gates.len() > 0 {
        lemma_no_enforce_holds(gates.drop_last(), inputs);
    }
}

/// The wires of the product circuit after its first `i + 1` gates: the inputs,
/// then the running products of the first witness values.
proof fn lemma_product_chain(witness: Seq<Scalar>, statement: Scalar, i: int)
    requires
        witness.len() == 6,
        0 <= i <= 6,
    ensures
        ({
            let w = wires_spec(product_gates_spec().take(i + 1), values(witness.push(statement)));
            &&& w.len() == 8 + i
            &&& w.take(7) == values(witness.push(statement))
            &&& w[7 + i] == product_spec(witness.take(i))
        }),
    decreases i,
{
    let inputs = values(witness.push(statement));
    let gs = product_gates_spec().take(i + 1);
    assert(gs.last() == product_gates_spec()[i]);
    if i == 0 {
        assert(gs.drop_last() =~= Seq::<GateModel>::empty());
        assert(wires_spec(gs.drop_last(), inputs) == inputs);
        assert(gs.last() == GateModel::One);
        let w = wires_spec(gs, inputs);
        assert(w == inputs.push(1));
        assert(witness.take(0) =~= Seq::<Scalar>::empty());
        assert(w.take(7) =~= inputs);
    } else {
        lemma_product_chain(witness, statement, i - 1);
        assert(gs.drop_last() =~= product_gates_spec().take(i));
        let prev = wires_spec(product_gates_spec().take(i), inputs);
        assert(gs.last() == GateModel::Mul(6 + i, i - 1));
        let w = wires_spec(gs, inputs);
        assert(w == prev.push(gate_value(GateModel::Mul(6 + i, i - 1), prev)));
        assert(prev[i - 1] == prev.take(7)[i - 1]);
        assert(inputs[i - 1] == witness[i - 1].value());
        assert(witness.take(i).drop_last() =~= witness.take(i - 1));
        assert(witness.take(i).last() == witness[i - 1]);
        assert(wires_spec(gs, inputs).take(7) =~= prev.take(7));
    }
}

/// The sum circuit is satisfied exactly when the statement is, in the field,
/// the sum of the shared values and the private value.
pub proof fn lemma_sum_circuit_relation(shared: Seq<Scalar>, private: Scalar, statement: Scalar)
    requires
        shared.len() == LINKING_WITNESS_SIZE,
    ensures
        satisfies(sum_gates_spec(), shared.push(private), seq![statement]) <==> reduce(statement)
            == sum_statement_spec(shared, private),
{
    let g = sum_gates_spec();
    let inputs = values(shared.push(private) + seq![statement]);
    let g1 = g.drop_last().drop_last();
    let g2 = g.drop_last();
    let five = seq![0usize, 1usize, 2usize, 3usize, 4usize];
    assert(g1.drop_last() =~= Seq::<GateModel>::empty());
    assert(wires_spec(g1.drop_last(), inputs) == inputs);
    assert(g1.last() == GateModel::Sum(five));
    let w1 = wires_spec(g1, inputs);
    assert(w1 == inputs.push(gate_value(GateModel::Sum(five), inputs)));
    assert(picked(five, inputs) =~= values(shared));
    lemma_sum_values(shared);
    assert(w1[7] == sum_spec(shared));
    assert(g2.drop_last() == g1);
    assert(g2.last() == GateModel::Add(7, 5));
    let w2 = wires_spec(g2, inputs);
    assert(w2 == w1.push(gate_value(GateModel::Add(7, 5), w1)));
    assert(w2[8] == sum_statement_spec(shared, private));
    lemma_small_residue(w2[8]);
    assert(w2[6] == statement.value());
    assert(g.last() == GateModel::EnforceEqual(8, 6));
    assert forall|k: int| 0 <= k < g2.len() implies !(g2[k] is EnforceEqual) by {
        assert(g2[k] == g[k]);
    }
    lemma_no_enforce_holds(g2, inputs);
}

/// The product circuit is satisfied exactly when the statement is, in the
/// field, the product of the shared values and the private value.
pub proof fn lemma_product_circuit_relation(shared: Seq<Scalar>, private: Scalar, statement: Scalar)
    requires
        shared.len() == LINKING_WITNESS_SIZE,
    ensures
        satisfies(product_gates_spec(), shared.push(private), seq![statement]) <==> reduce(
            statement,
        ) == product_statement_spec(shared, private),
{
    let g = product_gates_spec();
    let witness = shared.push(private);
    let inputs = values(witness + seq![statement]);
    assert(witness + seq![statement] =~= witness.push(statement));
    lemma_product_chain(witness, statement, 6);
    assert(g.take(7) =~= g.drop_last());
    let w = wires_spec(g.drop_last(), inputs);
    assert(w[6] == w.take(7)[6]);
    assert(witness.take(6) =~= witness);
    assert(witness.drop_last() =~= shared);
    assert(w[13] == product_statement_spec(shared, private));
    lemma_small_residue(w[13]);
    assert forall|k: int| 0 <= k < g.drop_last().len() implies !(g.drop_last()[k] is EnforceEqual) by {
    }
    lemma_no_enforce_holds(g.drop_last(), inputs);
}

/// The group layout that both circuits declare: the shared values on wires 0 to 4.
pub open spec fn link_group_spec() -> (Seq<char>, Seq<usize>) {
    (LINKING_GROUP_NAME@, range_seq(0, LINKING_WITNESS_SIZE as nat))
}

/// The compiled layout of a circuit over the shared fields with `extra` gate wires.
pub open spec fn link_layout_spec(extra: nat) -> LayoutModel {
    LayoutModel {
        witness_wires: 6,
        statement_wires: 1,
        total_wires: 7 + extra,
        groups: seq![link_group_spec()],
    }
}

proof fn lemma_link_fields()
    ensures
        fields_error(link_fields_spec()) == None::<SchemaError>,
        width_total(link_fields_spec()) == 6,
        groups_spec(link_fields_spec()) == seq![link_group_spec()],
{
    let f = link_fields_spec();
    let f1 = f.drop_last();
    assert(f1.drop_last() =~= Seq::<FieldModel>::empty());
    assert(f1.last() == f[0]);
    assert(groups_spec(f1.drop_last()) == Seq::<(Seq<char>, Seq<usize>)>::empty());
    assert(group_index(Seq::<(Seq<char>, Seq<usize>)>::empty(), LINKING_GROUP_NAME@) == -1);
    assert(groups_spec(f1) =~= seq![link_group_spec()]);
    assert(width_total(f1.drop_last()) == 0);
    assert(width_total(f1) == 5);
    assert(f.last() == f[1]);
    assert(width_total(f) == 6);
    assert(fields_error(f1.drop_last()) == None::<SchemaError>);
    assert(!arity_conflict(f1.drop_last(), LINKING_GROUP_NAME@, 5));
    assert(fields_error(f1) == None::<SchemaError>);
}

/// Every prefix of the product circuit's first seven gates allocates one wire per gate.
proof fn lemma_product_outputs(k: int)
    requires
        0 <= k <= 7,
    ensures
        output_count(product_gates_spec().take(k)) == k,
    decreases k,
{
    if k > 0 {
        assert(product_gates_spec().take(k).drop_last() =~= product_gates_spec().take(k - 1));
        lemma_product_outputs(k - 1);
    }
}

/// The product circuit's gates read only allocated wires.
proof fn lemma_product_gates_ok(k: int)
    requires
        0 <= k <= 8,
    ensures
        gates_error(product_gates_spec().take(k), 7) == None::<SchemaError>,
    decreases k,
{
    if k > 0 {
        let gs = product_gates_spec().take(k);
        assert(gs.drop_last() =~= product_gates_spec().take(k - 1));
        lemma_product_gates_ok(k - 1);
        lemma_product_outputs(k - 1);
        assert(gs.last() == product_gates_spec()[k - 1]);
    }
}

/// What the two circuits compile to.
pub proof fn lemma_circuit_layouts(sum: SchemaModel, product: SchemaModel)
    requires
        sum.fields == link_fields_spec(),
        sum.statement_width == 1,
        sum.gates == sum_gates_spec(),
        product.fields == link_fields_spec(),
        product.statement_width == 1,
        product.gates == product_gates_spec(),
    ensures
        compile_spec(sum) == Ok::<LayoutModel, SchemaError>(link_layout_spec(2)),
        compile_spec(product) == Ok::<LayoutModel, SchemaError>(link_layout_spec(7)),
{
    lemma_link_fields();
    let g = sum_gates_spec();
    let g2 = g.drop_last();
    let g1 = g2.drop_last();
    assert(g1.drop_last() =~= Seq::<GateModel>::empty());
    assert(g1.last() == GateModel::Sum(seq![0usize, 1usize, 2usize, 3usize, 4usize]));
    assert(all_below(seq![0usize, 1usize, 2usize, 3usize, 4usize], 7));
    assert(gates_error(g1.drop_last(), 7) == None::<SchemaError>);
    assert(output_count(g1.drop_last()) == 0);
    assert(gate_refs_ok(g1.last(), 7));
    assert(gates_error(g1, 7) == None::<SchemaError>);
    assert(g2.last() == GateModel::Add(7, 5));
    assert(gates_error(g2, 7) == None::<SchemaError>);
    assert(output_count(g2) == 2);
    assert(gates_error(g, 7) == None::<SchemaError>);
    assert(output_count(g) == 2);
    lemma_product_gates_ok(8);
    assert(product_gates_spec().take(8) == product_gates_spec());
    lemma_product_outputs(7);
    let p = product_gates_spec();
    assert(p.drop_last() =~= p.take(7));
    assert(output_count(p) == 7);
}

/// The layout of the link group shared by the two circuits, as the sum
/// circuit declares it.
pub fn sum_product_link_group() -> (r: GroupLayout)
    ensures
        r@ == link_group_spec(),
{
    let schema = sum_circuit_schema();
    proof {
        lemma_circuit_layouts(schema@, product_circuit_schema_spec());
    }
    match compile(&schema) {
        Ok(layout) => {
            let name = LINKING_GROUP_NAME.to_owned();
            assert(group_index(layout@.groups, name@) == 0);
            match get_group_layout(&layout, &name) {
                Some(g) => g,
                None => {
                    assert(false);
                    GroupLayout { name, positions: Vec::new() }
                },
            }
        },
        Err(_) => {
            assert(false);
            GroupLayout { name: LINKING_GROUP_NAME.to_owned(), positions: Vec::new() }
        },
    }
}

/// The model of the product circuit's schema.
pub open spec fn product_circuit_schema_spec() -> SchemaModel {
    SchemaModel {
        name: "product-circuit"@,
        fields: link_fields_spec(),
        statement_width: 1,
        gates: product_gates_spec(),
    }
}

/// The statement that an honest prover derives satisfies its circuit: for
/// every witness, each circuit accepts the statement derived from it.
pub proof fn lemma_derived_statements_satisfy(
    shared: Seq<Scalar>,
    private: Scalar,
    sum_statement: Scalar,
    product_statement: Scalar,
)
    requires
        shared.len() == LINKING_WITNESS_SIZE,
        sum_statement.value() == sum_statement_spec(shared, private),
        product_statement.value() == product_statement_spec(shared, private),
    ensures
        satisfies(sum_gates_spec(), shared.push(private), seq![sum_statement]),
        satisfies(product_gates_spec(), shared.push(private), seq![product_statement]),
{
    lemma_sum_circuit_relation(shared, private, sum_statement);
    lemma_product_circuit_relation(shared, private, product_statement);
    lemma_small_residue(sum_statement.value());
    lemma_small_residue(product_statement.value());
}

/// What proving the two circuits and linking them needs besides the witnesses.
pub struct LinkedProofRequest {
    /// The statement of the sum circuit.
    pub sum_statement: Scalar,
    /// The statement of the product circuit.
    pub product_statement: Scalar,
    /// The layout of the shared group, which the link proof is made over.
    pub group_layout: GroupLayout,
}

/// Derives the two statements and the shared group layout for proving both
/// circuits and linking their proofs.
pub fn prepare_linked_proofs(
    sum_witness: &SumCircuitWitness,
    product_witness: &ProductCircuitWitness,
) -> (r: LinkedProofRequest)
    ensures
        r.sum_statement.value() == sum_statement_spec(
            sum_witness.shared_witness@,
            sum_witness.private_witness,
        ),
        r.product_statement.value() == product_statement_spec(
            product_witness.shared_witness@,
            product_witness.private_witness,
        ),
        r.group_layout@ == link_group_spec(),
{
    LinkedProofRequest {
        sum_statement: sum_witness.statement(),
        product_statement: product_witness.statement(),
        group_layout: sum_product_link_group(),
    }
}

/// Linking the two circuits over their shared group accepts exactly when the
/// two witnesses hold the same shared values in the field, whatever their
/// private values.
pub proof fn lemma_shared_witness_link(
    sum_shared: Seq<Scalar>,
    sum_private: Scalar,
    product_shared: Seq<Scalar>,
    product_private: Scalar,
)
    requires
        sum_shared.len() == LINKING_WITNESS_SIZE,
        product_shared.len() == LINKING_WITNESS_SIZE,
    ensures
        link_spec(
            link_group_spec(),
            sum_shared.push(sum_private),
            link_group_spec(),
            product_shared.push(product_private),
        ) is Ok <==> values_agree(sum_shared, product_shared),
{
    let g = link_group_spec();
    assert(positions_below(g.1, 6));
    assert(picked(g.1, sum_shared.push(sum_private)) =~= sum_shared);
    assert(picked(g.1, product_shared.push(product_private)) =~= product_shared);
}

} // verus!
