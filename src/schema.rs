//! Circuit schemas and their compilation into a wire layout.
//!
//! Witness wires are allocated in field-declaration order, statement wires
//! follow them, and every gate that produces a value takes the next wire. Each
//! field tagged with a link group records its wire positions under the
//! group's name.

use vstd::prelude::*;

verus! {

/// One witness field of a circuit: a name, the number of wires it occupies,
/// and the link group it belongs to, if any.
pub struct WitnessField {
    pub name: String,
    pub width: usize,
    pub link_group: Option<String>,
}

/// The mathematical content of a witness field.
pub ghost struct FieldModel {
    pub name: Seq<char>,
    pub width: nat,
    pub link_group: Option<Seq<char>>,
}

impl View for WitnessField {
    type V = FieldModel;

    open spec fn view(&self) -> FieldModel {
        FieldModel {
            name: self.name@,
            width: self.width as nat,
            link_group: match self.link_group {
                Some(g) => Some(g@),
                None => None,
            },
        }
    }
}

/// A constraint-system gate over wire indices.
pub enum Gate {
    /// A new wire holding the constant one.
    One,
    /// A new wire holding the sum of two wires.
    Add(usize, usize),
    /// A new wire holding the product of two wires.
    Mul(usize, usize),
    /// A new wire holding the sum of the listed wires.
    Sum(Vec<usize>),
    /// Requires two wires to hold the same field value; allocates nothing.
    EnforceEqual(usize, usize),
}

/// The mathematical content of a gate.
pub ghost enum GateModel {
    One,
    Add(int, int),
    Mul(int, int),
    Sum(Seq<usize>),
    EnforceEqual(int, int),
}

impl View for Gate {
    type V = GateModel;

    open spec fn view(&self) -> GateModel {
        match self {
            Gate::One => GateModel::One,
            Gate::Add(a, b) => GateModel::Add(*a as int, *b as int),
            Gate::Mul(a, b) => GateModel::Mul(*a as int, *b as int),
            Gate::Sum(v) => GateModel::Sum(v@),
            Gate::EnforceEqual(a, b) => GateModel::EnforceEqual(*a as int, *b as int),
        }
    }
}

/// A circuit's declaration: its witness fields in order, the number of
/// statement wires, and its constraints.
pub struct CircuitSchema {
    pub name: String,
    pub witness_fields: Vec<WitnessField>,
    pub statement_width: usize,
    pub gates: Vec<Gate>,
}

pub ghost struct SchemaModel {
    pub name: Seq<char>,
    pub fields: Seq<FieldModel>,
    pub statement_width: nat,
    pub gates: Seq<GateModel>,
}

impl View for CircuitSchema {
    type V = SchemaModel;

    open spec fn view(&self) -> SchemaModel {
        SchemaModel {
            name: self.name@,
            fields: self.witness_fields@.map_values(|f: WitnessField| f@),
            statement_width: self.statement_width as nat,
            gates: self.gates@.map_values(|g: Gate| g@),
        }
    }
}

/// The wire positions that one link group occupies in a circuit.
pub struct GroupLayout {
    pub name: String,
    pub positions: Vec<usize>,
}

impl View for GroupLayout {
    type V = (Seq<char>, Seq<usize>);

    open spec fn view(&self) -> (Seq<char>, Seq<usize>) {
        (self.name@, self.positions@)
    }
}

/// The compiled wire layout of a circuit.
pub struct CircuitLayout {
    pub witness_wires: usize,
    pub statement_wires: usize,
    pub total_wires: usize,
    pub groups: Vec<GroupLayout>,
}

pub ghost struct LayoutModel {
    pub witness_wires: nat,
    pub statement_wires: nat,
    pub total_wires: nat,
    pub groups: Seq<(Seq<char>, Seq<usize>)>,
}

impl View for CircuitLayout {
    type V = LayoutModel;

    open spec fn view(&self) -> LayoutModel {
        LayoutModel {
            witness_wires: self.witness_wires as nat,
            statement_wires: self.statement_wires as nat,
            total_wires: self.total_wires as nat,
            groups: self.groups@.map_values(|g: GroupLayout| g@),
        }
    }
}

/// Why a schema cannot be compiled.
#[derive(Clone, Copy, Debug, PartialEq, Eq, Structural)]
pub enum SchemaError {
    /// The field at this index joins a link group with zero wires.
    ZeroArity { field: usize },
    /// The field at this index joins a link group that an earlier field
    /// declared with another arity.
    ArityMismatch { field: usize },
    /// A gate refers to a wire that is allocated only after it.
    DanglingReference { gate: usize },
}

/// The number of wires that the given fields occupy together.
pub open spec fn width_total(fields: Seq<FieldModel>) -> nat
    decreases fields.len(),
{
    if fields.len() == 0 {
        0
    } else {
        width_total(fields.drop_last()) + fields.last().width
    }
}

/// The consecutive positions `start, start + 1, ..., start + len - 1`.
pub open spec fn range_seq(start: nat, len: nat) -> Seq<usize> {
    Seq::new(len, |i: int| (start + i) as usize)
}

/// The last index of a group of the given name, or -1 when there is none.
pub open spec fn group_index(groups: Seq<(Seq<char>, Seq<usize>)>, name: Seq<char>) -> int
    decreases groups.len(),
{
    if groups.len() == 0 {
        -1
    } else if groups.last().0 == name {
        groups.len() - 1
    } else {
        group_index(groups.drop_last(), name)
    }
}

/// The link groups of the given fields, in order of first declaration, each
/// with the positions of all its fields' wires in declaration order.
pub open spec fn groups_spec(fields: Seq<FieldModel>) -> Seq<(Seq<char>, Seq<usize>)>
    decreases fields.len(),
{
    if fields.len() == 0 {
        Seq::empty()
    } else {
        let prev = groups_spec(fields.drop_last());
        let f = fields.last();
        match f.link_group {
            None => prev,
            Some(g) => {
                let idx = group_index(prev, g);
                let r = range_seq(width_total(fields.drop_last()), f.width);
                if idx < 0 {
                    prev.push((g, r))
                } else {
                    prev.update(idx, (g, prev[idx].1 + r))
                }
            },
        }
    }
}

/// Whether some field among `fields` joins group `g` with a width other than `w`.
pub open spec fn arity_conflict(fields: Seq<FieldModel>, g: Seq<char>, w: nat) -> bool {
    exists|j: int| 0 <= j < fields.len() && fields[j].link_group == Some(g) && fields[j].width != w
}

/// The first error among the group declarations of the given fields.
pub open spec fn fields_error(fields: Seq<FieldModel>) -> Option<SchemaError>
    decreases fields.len(),
{
    if fields.len() == 0 {
        None
    } else {
        match fields_error(fields.drop_last()) {
            Some(e) => Some(e),
            None => {
                let f = fields.last();
                let i = (fields.len() - 1) as usize;
                match f.link_group {
                    None => None,
                    Some(g) => if f.width == 0 {
                        Some(SchemaError::ZeroArity { field: i })
                    } else if arity_conflict(fields.drop_last(), g, f.width) {
                        Some(SchemaError::ArityMismatch { field: i })
                    } else {
                        None
                    },
                }
            },
        }
    }
}

/// The number of wires that a gate allocates.
pub open spec fn gate_outputs(g: GateModel) -> nat {
    match g {
        GateModel::EnforceEqual(_, _) => 0,
        _ => 1,
    }
}

/// The number of wires that the given gates allocate together.
pub open spec fn output_count(gates: Seq<GateModel>) -> nat
    decreases gates.len(),
{
    if gates.len() == 0 {
        0
    } else {
        output_count(gates.drop_last()) + gate_outputs(gates.last())
    }
}

/// Whether every listed wire is below `n`.
pub open spec fn all_below(v: Seq<usize>, n: nat) -> bool {
    forall|m: int| 0 <= m < v.len() ==> v[m] < n
}

/// Whether all wires of `g` lie below `n`.
pub open spec fn gate_refs_ok(g: GateModel, n: nat) -> bool {
    match g {
        GateModel::One => true,
        GateModel::Add(a, b) => a < n && b < n,
        GateModel::Mul(a, b) => a < n && b < n,
        GateModel::Sum(v) => all_below(v, n),
        GateModel::EnforceEqual(a, b) => a < n && b < n,
    }
}

/// The first gate that reads an unallocated wire, when `base` wires precede the gates.
pub open spec fn gates_error(gates: Seq<GateModel>, base: nat) -> Option<SchemaError>
    decreases gates.len(),
{
    if gates.len() == 0 {
        None
    } else {
        match gates_error(gates.drop_last(), base) {
            Some(e) => Some(e),
            None => if gate_refs_ok(gates.last(), base + output_count(gates.drop_last())) {
                None
            } else {
                Some(SchemaError::DanglingReference { gate: (gates.len() - 1) as usize })
            },
        }
    }
}

/// The number of witness and statement wires of a schema.
pub open spec fn input_wires(s: SchemaModel) -> nat {
    width_total(s.fields) + s.statement_width
}

/// The layout of a schema whose declarations are sound.
pub open spec fn layout_spec(s: SchemaModel) -> LayoutModel {
    LayoutModel {
        witness_wires: width_total(s.fields),
        statement_wires: s.statement_width,
        total_wires: input_wires(s) + output_count(s.gates),
        groups: groups_spec(s.fields),
    }
}

/// What compiling a schema yields.
pub open spec fn compile_spec(s: SchemaModel) -> Result<LayoutModel, SchemaError> {
    match fields_error(s.fields) {
        Some(e) => Err(e),
        None => match gates_error(s.gates, input_wires(s)) {
            Some(e) => Err(e),
            None => Ok(layout_spec(s)),
        },
    }
}

/// Whether the schema's wires can be counted in a `usize`.
pub open spec fn fits_machine(s: SchemaModel) -> bool {
    input_wires(s) + s.gates.len() <= usize::MAX
}

pub proof fn lemma_width_prefix(fields: Seq<FieldModel>, i: int)
    requires
        0 <= i <= fields.len(),
    ensures
        width_total(fields.take(i)) <= width_total(fields),
    decreases fields.len(),
{
    if i < fields.len() {
        assert(fields.drop_last().take(i) == fields.take(i));
        lemma_width_prefix(fields.drop_last(), i);
    } else {
        assert(fields.take(i) == fields);
    }
}

pub proof fn lemma_output_count_bound(gates: Seq<GateModel>)
    ensures
        output_count(gates) <= gates.len(),
    decreases gates.len(),
{
    if gates.len() > 0 {
        lemma_output_count_bound(gates.drop_last());
    }
}


/// Finds the last group named `name`.
pub(crate) fn find_group(groups: &Vec<GroupLayout>, name: &String) -> (r: Option<usize>)
    ensures
        match r {
            Some(k) => k < groups@.len() && group_index(groups@.map_values(|g: GroupLayout| g@), name@)
                == k as int,
            None => group_index(groups@.map_values(|g: GroupLayout| g@), name@) == -1,
        },
{
    let ghost all = groups@.map_values(|g: GroupLayout| g@);
    let mut k: usize = groups.len();
    assert(all.take(k as int) == all);
    while k > 0
        invariant
            k <= groups@.len(),
            all == groups@.map_values(|g: GroupLayout| g@),
            group_index(all, name@) == group_index(all.take(k as int), name@),
        decreases k,
    {
        assert(all.take(k as int).drop_last() == all.take(k as int - 1));
        if groups[k - 1].name.eq(name) {
            return Some(k - 1);
        }
        k = k - 1;
    }
    assert(all.take(0) == Seq::<(Seq<char>, Seq<usize>)>::empty());
    None
}

/// Whether one of the first `i` fields joins group `g` with a width other than `w`.
fn has_arity_conflict(fields: &Vec<WitnessField>, i: usize, g: &String, w: usize) -> (r: bool)
    requires
        i <= fields@.len(),
    ensures
        r == arity_conflict(fields@.map_values(|f: WitnessField| f@).take(i as int), g@, w as nat),
{
    let ghost all = fields@.map_values(|f: WitnessField| f@);
    let mut j: usize = 0;
    while j < i
        invariant
            i <= fields@.len(),
            j <= i,
            all == fields@.map_values(|f: WitnessField| f@),
            forall|m: int| 0 <= m < j ==> !(all[m].link_group == Some(g@) && all[m].width != w as nat),
        decreases i - j,
    {
        let f = &fields[j];
        match &f.link_group {
            Some(h) => {
                if h.eq(g) && f.width != w {
                    assert(all.take(i as int)[j as int] == all[j as int]);
                    return true;
                }
            },
            None => {},
        }
        j = j + 1;
    }
    assert forall|m: int| 0 <= m < i implies !(all.take(i as int)[m].link_group == Some(g@)
        && all.take(i as int)[m].width != w as nat) by {
        assert(all.take(i as int)[m] == all[m]);
    }
    false
}

/// Appends the positions `start .. start + len` to `v`.
fn append_range(v: &mut Vec<usize>, start: usize, len: usize)
    requires
        start + len <= usize::MAX,
    ensures
        final(v)@ == old(v)@ + range_seq(start as nat, len as nat),
{
    let mut t: usize = 0;
    while t < len
        invariant
            start + len <= usize::MAX,
            t <= len,
            v@ == old(v)@ + range_seq(start as nat, t as nat),
        decreases len - t,
    {
        v.push(start + t);
        t = t + 1;
        assert(v@ =~= old(v)@ + range_seq(start as nat, t as nat));
    }
}

/// Whether every wire that `g` reads is below `n`.
fn gate_refs_below(g: &Gate, n: usize) -> (r: bool)
    ensures
        r == gate_refs_ok(g@, n as nat),
{
    match g {
        Gate::One => true,
        Gate::Add(a, b) => *a < n && *b < n,
        Gate::Mul(a, b) => *a < n && *b < n,
        Gate::EnforceEqual(a, b) => *a < n && *b < n,
        Gate::Sum(v) => {
            let mut m: usize = 0;
            while m < v.len()
                invariant
                    g@ == GateModel::Sum(v@),
                    m <= v@.len(),
                    forall|q: int| 0 <= q < m ==> v@[q] < n,
                decreases v@.len() - m,
            {
                if v[m] >= n {
                    assert(g@ == GateModel::Sum(v@));
                    assert(!(v@[m as int] < n));
                    assert(!gate_refs_ok(g@, n as nat));
                    return false;
                }
                m = m + 1;
            }
            true
        },
    }
}

/// Compiles a schema into its wire layout, or reports the first unsound
/// declaration: group declarations are checked in field order, then gates in order.
pub fn compile(schema: &CircuitSchema) -> (r: Result<CircuitLayout, SchemaError>)
    requires
        fits_machine(schema@),
    ensures
        match r {
            Ok(l) => compile_spec(schema@) == Ok::<LayoutModel, SchemaError>(l@),
            Err(e) => compile_spec(schema@) == Err::<LayoutModel, SchemaError>(e),
        },
{
    let ghost fields = schema@.fields;
    let ghost gates = schema@.gates;
    let mut groups: Vec<GroupLayout> = Vec::new();
    let mut offset: usize = 0;
    let mut i: usize = 0;
    while i < schema.witness_fields.len()
        invariant
            fields == schema@.fields,
            fits_machine(schema@),
            i <= fields.len(),
            offset as nat == width_total(fields.take(i as int)),
            groups@.map_values(|g: GroupLayout| g@) == groups_spec(fields.take(i as int)),
            fields_error(fields.take(i as int)) == None::<SchemaError>,
        decreases fields.len() - i,
    {
        let ghost prev = fields.take(i as int);
        let ghost next = fields.take(i as int + 1);
        assert(next.drop_last() == prev);
        assert(next.last() == fields[i as int]);
        proof {
            lemma_width_prefix(fields, i as int + 1);
        }
        let f = &schema.witness_fields[i];
        match &f.link_group {
            Some(g) => {
                if f.width == 0 {
                    proof {
                        lemma_fields_error_extends(fields, i as int + 1);
                    }
                    return Err(SchemaError::ZeroArity { field: i });
                }
                if has_arity_conflict(&schema.witness_fields, i, g, f.width) {
                    proof {
                        lemma_fields_error_extends(fields, i as int + 1);
                    }
                    return Err(SchemaError::ArityMismatch { field: i });
                }
                let ghost gv = groups@.map_values(|x: GroupLayout| x@);
                match find_group(&groups, g) {
                    Some(k) => {
                        let mut pos = groups[k].positions.clone();
                        assert(pos@ =~= groups@[k as int].positions@);
                        append_range(&mut pos, offset, f.width);
                        groups[k] = GroupLayout { name: g.clone(), positions: pos };
                        assert(groups@.map_values(|x: GroupLayout| x@) =~= groups_spec(next));
                    },
                    None => {
                        let mut pos: Vec<usize> = Vec::new();
                        append_range(&mut pos, offset, f.width);
                        groups.push(GroupLayout { name: g.clone(), positions: pos });
                        assert(groups@.map_values(|x: GroupLayout| x@) =~= groups_spec(next));
                    },
                }
            },
            None => {},
        }
        offset = offset + f.width;
        i = i + 1;
    }
    assert(fields.take(fields.len() as int) == fields);
    proof {
        lemma_output_count_bound(gates);
    }
    let base: usize = offset + schema.statement_width;
    let mut count: usize = base;
    let mut k: usize = 0;
    while k < schema.gates.len()
        invariant
            fields == schema@.fields,
            gates == schema@.gates,
            fits_machine(schema@),
            fields_error(fields) == None::<SchemaError>,
            base as nat == input_wires(schema@),
            k <= gates.len(),
            count as nat == base + output_count(gates.take(k as int)),
            output_count(gates.take(k as int)) <= k,
            gates_error(gates.take(k as int), base as nat) == None::<SchemaError>,
        decreases gates.len() - k,
    {
        let ghost next = gates.take(k as int + 1);
        assert(next.drop_last() == gates.take(k as int));
        assert(next.last() == gates[k as int]);
        if !gate_refs_below(&schema.gates[k], count) {
            proof {
                lemma_gates_error_extends(gates, k as int + 1, base as nat);
            }
            return Err(SchemaError::DanglingReference { gate: k });
        }
        match &schema.gates[k] {
            Gate::EnforceEqual(_, _) => {},
            _ => {
                count = count + 1;
            },
        }
        k = k + 1;
    }
    assert(gates.take(gates.len() as int) == gates);
    Ok(CircuitLayout {
        witness_wires: offset,
        statement_wires: schema.statement_width,
        total_wires: count,
        groups,
    })
}

/// Once a prefix of the fields has an error, every longer prefix has the same one.
proof fn lemma_fields_error_extends(fields: Seq<FieldModel>, n: int)
    requires
        0 <= n <= fields.len(),
        fields_error(fields.take(n)) is Some,
    ensures
        fields_error(fields) == fields_error(fields.take(n)),
    decreases fields.len() - n,
{
    if n < fields.len() {
        assert(fields.take(n + 1).drop_last() == fields.take(n));
        lemma_fields_error_extends(fields, n + 1);
    } else {
        assert(fields.take(n) == fields);
    }
}

/// Once a prefix of the gates has an error, every longer prefix has the same one.
proof fn lemma_gates_error_extends(gates: Seq<GateModel>, n: int, base: nat)
    requires
        0 <= n <= gates.len(),
        gates_error(gates.take(n), base) is Some,
    ensures
        gates_error(gates, base) == gates_error(gates.take(n), base),
    decreases gates.len() - n,
{
    if n < gates.len() {
        assert(gates.take(n + 1).drop_last() == gates.take(n));
        lemma_gates_error_extends(gates, n + 1, base);
    } else {
        assert(gates.take(n) == gates);
    }
}

/// Compiling depends on the declarations alone: two schemas with the same
/// fields, statement width and gates compile to the same layout, or fail
/// with the same error.
pub proof fn lemma_compile_deterministic(a: SchemaModel, b: SchemaModel)
    requires
        a.fields == b.fields,
        a.statement_width == b.statement_width,
        a.gates == b.gates,
    ensures
        compile_spec(a) == compile_spec(b),
{
}

} // verus!
