//! Link groups across two circuits: lookup of a group's wire positions,
//! fail-fast compatibility checks, and the relation that a linking proof attests.

use vstd::prelude::*;
use crate::circuit::picked;
use crate::field::{field_eq, reduce, Scalar};
use crate::schema::{find_group, group_index, CircuitLayout, GroupLayout};

verus! {

/// Why two link groups cannot be linked.
#[derive(Clone, Copy, Debug, PartialEq, Eq, Structural)]
pub enum LinkError {
    /// The two groups have different names.
    GroupName,
    /// The two groups have different numbers of wires.
    GroupArity,
    /// A wire of one group is outside its circuit's assignment.
    PositionOutOfRange,
    /// The two groups' wires hold different field values.
    ValuesDiffer,
}

/// Whether two groups may be linked at all: same name and same arity.
pub open spec fn compatible(a: (Seq<char>, Seq<usize>), b: (Seq<char>, Seq<usize>)) -> bool {
    a.0 == b.0 && a.1.len() == b.1.len()
}

/// Whether every position lies below `n`.
pub open spec fn positions_below(p: Seq<usize>, n: nat) -> bool {
    forall|i: int| 0 <= i < p.len() ==> p[i] < n
}

/// Whether two value sequences are equal element by element in the field.
pub open spec fn values_agree(a: Seq<Scalar>, b: Seq<Scalar>) -> bool {
    a.len() == b.len() && forall|i: int| 0 <= i < a.len() ==> reduce(a[i]) == reduce(b[i])
}

/// What checking a link between two assignments yields.
pub open spec fn link_spec(
    a: (Seq<char>, Seq<usize>),
    wires_a: Seq<Scalar>,
    b: (Seq<char>, Seq<usize>),
    wires_b: Seq<Scalar>,
) -> Result<(), LinkError> {
    if a.0 != b.0 {
        Err(LinkError::GroupName)
    } else if a.1.len() != b.1.len() {
        Err(LinkError::GroupArity)
    } else if !positions_below(a.1, wires_a.len()) || !positions_below(b.1, wires_b.len()) {
        Err(LinkError::PositionOutOfRange)
    } else if !values_agree(picked(a.1, wires_a), picked(b.1, wires_b)) {
        Err(LinkError::ValuesDiffer)
    } else {
        Ok(())
    }
}

/// The layout of the named group in a compiled circuit, if it declares one.
pub fn get_group_layout(layout: &CircuitLayout, name: &String) -> (r: Option<GroupLayout>)
    ensures
        match r {
            Some(g) => {
                let idx = group_index(layout@.groups, name@);
                0 <= idx < layout@.groups.len() && g@ == layout@.groups[idx]
            },
            None => group_index(layout@.groups, name@) == -1,
        },
{
    match find_group(&layout.groups, name) {
        Some(k) => {
            let g = &layout.groups[k];
            let positions = g.positions.clone();
            assert(positions@ =~= g.positions@);
            Some(GroupLayout { name: g.name.clone(), positions })
        },
        None => None,
    }
}

/// Checks, before any linking is attempted, that two groups agree in name and arity.
pub fn check_link_compatible(a: &GroupLayout, b: &GroupLayout) -> (r: Result<(), LinkError>)
    ensures
        a@.0 != b@.0 ==> r == Err::<(), LinkError>(LinkError::GroupName),
        a@.0 == b@.0 && a@.1.len() != b@.1.len() ==> r == Err::<(), LinkError>(
            LinkError::GroupArity,
        ),
        compatible(a@, b@) ==> r is Ok,
{
    if !a.name.eq(&b.name) {
        Err(LinkError::GroupName)
    } else if a.positions.len() != b.positions.len() {
        Err(LinkError::GroupArity)
    } else {
        Ok(())
    }
}

/// The values that an assignment holds at a group's positions.
pub fn group_values(group: &GroupLayout, wires: &Vec<Scalar>) -> (r: Vec<Scalar>)
    requires
        positions_below(group@.1, wires@.len()),
    ensures
        r@ == picked(group@.1, wires@),
{
    let mut r: Vec<Scalar> = Vec::new();
    let mut i: usize = 0;
    while i < group.positions.len()
        invariant
            positions_below(group@.1, wires@.len()),
            i <= group@.1.len(),
            r@ == picked(group@.1.take(i as int), wires@),
        decreases group@.1.len() - i,
    {
        r.push(wires[group.positions[i]]);
        i = i + 1;
        assert(r@ =~= picked(group@.1.take(i as int), wires@));
    }
    assert(group@.1.take(group@.1.len() as int) == group@.1);
    r
}

/// Whether two value sequences are equal element by element in the field.
pub fn shared_values_agree(a: &Vec<Scalar>, b: &Vec<Scalar>) -> (r: bool)
    ensures
        r == values_agree(a@, b@),
{
    if a.len() != b.len() {
        return false;
    }
    let mut i: usize = 0;
    while i < a.len()
        invariant
            a@.len() == b@.len(),
            i <= a@.len(),
            forall|j: int| 0 <= j < i ==> reduce(a@[j]) == reduce(b@[j]),
        decreases a@.len() - i,
    {
        if !field_eq(a[i], b[i]) {
            return false;
        }
        i = i + 1;
    }
    true
}

/// Whether every position of the group lies below `n`.
fn positions_fit(group: &GroupLayout, n: usize) -> (r: bool)
    ensures
        r == positions_below(group@.1, n as nat),
{
    let mut i: usize = 0;
    while i < group.positions.len()
        invariant
            i <= group@.1.len(),
            forall|j: int| 0 <= j < i ==> group@.1[j] < n,
        decreases group@.1.len() - i,
    {
        if group.positions[i] >= n {
            return false;
        }
        i = i + 1;
    }
    true
}

/// Checks the relation that a linking proof attests: the two groups are
/// compatible and the two assignments hold equal values at their positions.
pub fn check_link(
    group_a: &GroupLayout,
    wires_a: &Vec<Scalar>,
    group_b: &GroupLayout,
    wires_b: &Vec<Scalar>,
) -> (r: Result<(), LinkError>)
    ensures
        r == link_spec(group_a@, wires_a@, group_b@, wires_b@),
{
    match check_link_compatible(group_a, group_b) {
        Err(e) => {
            return Err(e);
        },
        Ok(()) => {},
    }
    if !positions_fit(group_a, wires_a.len()) || !positions_fit(group_b, wires_b.len()) {
        return Err(LinkError::PositionOutOfRange);
    }
    let va = group_values(group_a, wires_a);
    let vb = group_values(group_b, wires_b);
    if shared_values_agree(&va, &vb) {
        Ok(())
    } else {
        Err(LinkError::ValuesDiffer)
    }
}

/// A link is accepted only where each shared position holds the same field
/// value in both assignments.
pub proof fn lemma_link_soundness(
    a: (Seq<char>, Seq<usize>),
    wires_a: Seq<Scalar>,
    b: (Seq<char>, Seq<usize>),
    wires_b: Seq<Scalar>,
)
    requires
        link_spec(a, wires_a, b, wires_b) is Ok,
    ensures
        a.0 == b.0,
        a.1.len() == b.1.len(),
        forall|i: int| 0 <= i < a.1.len() ==> reduce(wires_a[a.1[i] as int]) == reduce(wires_b[b.1[i] as int]),
{
    assert forall|i: int| 0 <= i < a.1.len() implies reduce(wires_a[a.1[i] as int]) == reduce(
        wires_b[b.1[i] as int],
    ) by {
        assert(picked(a.1, wires_a)[i] == wires_a[a.1[i] as int]);
        assert(picked(b.1, wires_b)[i] == wires_b[b.1[i] as int]);
    }
}

/// Two compatible groups whose assignments agree at every shared position
/// are always accepted.
pub proof fn lemma_link_completeness(
    a: (Seq<char>, Seq<usize>),
    wires_a: Seq<Scalar>,
    b: (Seq<char>, Seq<usize>),
    wires_b: Seq<Scalar>,
)
    requires
        compatible(a, b),
        positions_below(a.1, wires_a.len()),
        positions_below(b.1, wires_b.len()),
        forall|i: int| 0 <= i < a.1.len() ==> reduce(wires_a[a.1[i] as int]) == reduce(wires_b[b.1[i] as int]),
    ensures
        link_spec(a, wires_a, b, wires_b) is Ok,
{
    assert forall|i: int| 0 <= i < a.1.len() implies reduce(picked(a.1, wires_a)[i]) == reduce(
        picked(b.1, wires_b)[i],
    ) by {
        assert(picked(a.1, wires_a)[i] == wires_a[a.1[i] as int]);
        assert(picked(b.1, wires_b)[i] == wires_b[b.1[i] as int]);
    }
}

} // verus!
