//! Evaluation of a compiled circuit's constraints on a concrete assignment.

use vstd::prelude::*;
use crate::field::{add_spec, field_add, field_eq, field_mul, field_order, mul_spec, Scalar};
use crate::schema::{
    compile_spec, gate_outputs, gate_refs_ok, gates_error, input_wires, output_count,
    CircuitLayout, CircuitSchema, Gate, GateModel, LayoutModel, SchemaError,
};

verus! {

/// Why an assignment is refused before proving.
#[derive(Clone, Copy, Debug, PartialEq, Eq, Structural)]
pub enum ConstraintError {
    /// The witness does not have one value for each witness wire.
    WitnessLength,
    /// The statement does not have one value for each statement wire.
    StatementLength,
    /// The assignment violates an equality constraint of the circuit.
    Unsatisfied,
}

/// The items of `w` at the listed positions.
pub open spec fn picked<T>(v: Seq<usize>, w: Seq<T>) -> Seq<T> {
    v.map_values(|i: usize| w[i as int])
}

/// The numbers that a sequence of field values spells.
pub open spec fn values(s: Seq<Scalar>) -> Seq<nat> {
    s.map_values(|x: Scalar| x.value())
}

/// The field sum of a sequence of numbers, accumulated left to right.
pub open spec fn sum_values(s: Seq<nat>) -> nat
    decreases s.len(),
{
    if s.len() == 0 {
        0
    } else {
        add_spec(sum_values(s.drop_last()), s.last())
    }
}

/// The value of the wire that a gate allocates, given the wires before it.
pub open spec fn gate_value(g: GateModel, w: Seq<nat>) -> nat {
    match g {
        GateModel::One => 1,
        GateModel::Add(a, b) => add_spec(w[a], w[b]),
        GateModel::Mul(a, b) => mul_spec(w[a], w[b]),
        GateModel::Sum(v) => sum_values(picked(v, w)),
        GateModel::EnforceEqual(_, _) => 0,
    }
}

/// All wire values after the gates run on the input wires.
pub open spec fn wires_spec(gates: Seq<GateModel>, inputs: Seq<nat>) -> Seq<nat>
    decreases gates.len(),
{
    if gates.len() == 0 {
        inputs
    } else {
        let prev = wires_spec(gates.drop_last(), inputs);
        if gate_outputs(gates.last()) == 0 {
            prev
        } else {
            prev.push(gate_value(gates.last(), prev))
        }
    }
}

/// Whether every equality constraint among the gates holds in the field.
pub open spec fn constraints_hold(gates: Seq<GateModel>, inputs: Seq<nat>) -> bool
    decreases gates.len(),
{
    if gates.len() == 0 {
        true
    } else {
        constraints_hold(gates.drop_last(), inputs) && match gates.last() {
            GateModel::EnforceEqual(a, b) => {
                let w = wires_spec(gates.drop_last(), inputs);
                w[a] % field_order() == w[b] % field_order()
            },
            _ => true,
        }
    }
}

/// Whether the witness and statement satisfy the given gates.
pub open spec fn satisfies(gates: Seq<GateModel>, witness: Seq<Scalar>, statement: Seq<Scalar>) -> bool {
    constraints_hold(gates, values(witness + statement))
}

proof fn lemma_wires_len(gates: Seq<GateModel>, inputs: Seq<nat>)
    ensures
        wires_spec(gates, inputs).len() == inputs.len() + output_count(gates),
    decreases gates.len(),
{
    if gates.len() > 0 {
        lemma_wires_len(gates.drop_last(), inputs);
    }
}

/// A gate list without dangling references has every gate read allocated wires.
proof fn lemma_refs_in_range(gates: Seq<GateModel>, base: nat, k: int)
    requires
        gates_error(gates, base) == None::<SchemaError>,
        0 <= k < gates.len(),
    ensures
        gate_refs_ok(gates[k], base + output_count(gates.take(k))),
    decreases gates.len(),
{
    assert(gates.drop_last().take(k) == gates.take(k)) by {
        if k < gates.len() - 1 {
            assert(gates.drop_last().take(k) =~= gates.take(k));
        }
    }
    if k < gates.len() - 1 {
        lemma_refs_in_range(gates.drop_last(), base, k);
    } else {
        assert(gates.take(k) == gates.drop_last());
    }
}

/// Computes the value of a wire-producing gate.
fn eval_gate(g: &Gate, w: &Vec<Scalar>) -> (r: Scalar)
    requires
        gate_refs_ok(g@, w@.len() as nat),
        gate_outputs(g@) == 1,
    ensures
        r.value() == gate_value(g@, values(w@)),
{
    match g {
        Gate::One => Scalar::one(),
        Gate::Add(a, b) => field_add(w[*a], w[*b]),
        Gate::Mul(a, b) => field_mul(w[*a], w[*b]),
        Gate::Sum(v) => {
            let mut acc = Scalar::zero();
            let mut m: usize = 0;
            while m < v.len()
                invariant
                    g@ == GateModel::Sum(v@),
                    gate_refs_ok(g@, w@.len() as nat),
                    m <= v@.len(),
                    acc.value() == sum_values(picked(v@.take(m as int), values(w@))),
                decreases v@.len() - m,
            {
                assert(picked(v@.take(m as int + 1), values(w@)).drop_last() =~= picked(
                    v@.take(m as int),
                    values(w@),
                ));
                acc = field_add(acc, w[v[m]]);
                m = m + 1;
            }
            assert(v@.take(v@.len() as int) == v@);
            acc
        },
        Gate::EnforceEqual(_, _) => Scalar::zero(),
    }
}

/// Checks an assignment against a compiled circuit: the witness and statement
/// must have the layout's lengths and satisfy every equality constraint.
pub fn check_assignment(
    schema: &CircuitSchema,
    layout: &CircuitLayout,
    witness: &Vec<Scalar>,
    statement: &Vec<Scalar>,
) -> (r: Result<(), ConstraintError>)
    requires
        compile_spec(schema@) == Ok::<LayoutModel, SchemaError>(layout@),
    ensures
        witness@.len() != layout@.witness_wires ==> r == Err::<(), ConstraintError>(
            ConstraintError::WitnessLength,
        ),
        witness@.len() == layout@.witness_wires && statement@.len() != layout@.statement_wires
            ==> r == Err::<(), ConstraintError>(ConstraintError::StatementLength),
        witness@.len() == layout@.witness_wires && statement@.len() == layout@.statement_wires
            ==> (r is Ok <==> satisfies(schema@.gates, witness@, statement@)) && (r is Err ==> r
            == Err::<(), ConstraintError>(ConstraintError::Unsatisfied)),
{
    if witness.len() != layout.witness_wires {
        return Err(ConstraintError::WitnessLength);
    }
    if statement.len() != layout.statement_wires {
        return Err(ConstraintError::StatementLength);
    }
    let ghost gates = schema@.gates;
    let ghost inputs = values(witness@ + statement@);
    let ghost base = input_wires(schema@);
    let mut wires: Vec<Scalar> = Vec::new();
    let mut t: usize = 0;
    while t < witness.len()
        invariant
            t <= witness@.len(),
            wires@ == witness@.take(t as int),
        decreases witness@.len() - t,
    {
        wires.push(witness[t]);
        t = t + 1;
        assert(wires@ =~= witness@.take(t as int));
    }
    let mut t: usize = 0;
    while t < statement.len()
        invariant
            t <= statement@.len(),
            wires@ == witness@ + statement@.take(t as int),
        decreases statement@.len() - t,
    {
        wires.push(statement[t]);
        t = t + 1;
        assert(wires@ =~= witness@ + statement@.take(t as int));
    }
    assert(statement@.take(statement@.len() as int) == statement@);
    assert(values(wires@) =~= inputs);
    let mut ok = true;
    let mut k: usize = 0;
    while k < schema.gates.len()
        invariant
            gates == schema@.gates,
            compile_spec(schema@) == Ok::<LayoutModel, SchemaError>(layout@),
            inputs.len() == base,
            gates_error(gates, base) == None::<SchemaError>,
            k <= gates.len(),
            values(wires@) == wires_spec(gates.take(k as int), inputs),
            ok == constraints_hold(gates.take(k as int), inputs),
        decreases gates.len() - k,
    {
        let ghost prev = gates.take(k as int);
        assert(gates.take(k as int + 1).drop_last() == prev);
        assert(gates.take(k as int + 1).last() == gates[k as int]);
        proof {
            lemma_refs_in_range(gates, base, k as int);
            lemma_wires_len(prev, inputs);
        }
        match &schema.gates[k] {
            Gate::EnforceEqual(a, b) => {
                let same = field_eq(wires[*a], wires[*b]);
                ok = ok && same;
            },
            g => {
                let v = eval_gate(g, &wires);
                let ghost before = wires@;
                wires.push(v);
                assert(values(wires@) =~= values(before).push(v.value()));
            },
        }
        k = k + 1;
    }
    assert(gates.take(gates.len() as int) == gates);
    if ok {
        Ok(())
    } else {
        Err(ConstraintError::Unsatisfied)
    }
}

} // verus!
