use vstd::prelude::*;
use crate::error::GsimError;
use crate::shape::{Shape, all_square, all_square_of, is_square_of};

verus! {

/// Circuit steps name generators by position, from `0` to `n_generators - 1`.
pub open spec fn index_in_range(index: usize, n_generators: usize) -> bool {
    index < n_generators
}

/// Step `k` is the first step of `circuit` whose generator index is out of range.
pub open spec fn is_first_bad_step(circuit: Seq<usize>, n_generators: usize, k: int) -> bool {
    &&& 0 <= k < circuit.len()
    &&& !index_in_range(circuit[k], n_generators)
    &&& forall|j: int| 0 <= j < k ==> index_in_range(#[trigger] circuit[j], n_generators)
}

/// Every step of `circuit` names an existing generator.
pub open spec fn circuit_in_range(circuit: Seq<usize>, n_generators: usize) -> bool {
    forall|j: int| 0 <= j < circuit.len() ==> index_in_range(#[trigger] circuit[j], n_generators)
}

/// Checks the generator indices of a circuit, given in temporal order. The
/// error names the first step whose index is not below `n_generators`.
pub fn check_circuit(circuit: &Vec<usize>, n_generators: usize) -> (r: Result<(), GsimError>)
    ensures
        r is Ok <==> circuit_in_range(circuit@, n_generators),
        circuit@.contains(n_generators) ==> r is Err,
        r matches Err(e) ==> (e matches GsimError::IndexOutOfRange { step, index }
            && is_first_bad_step(circuit@, n_generators, step as int)
            && index == circuit@[step as int]),
{
    let mut k: usize = 0;
    while k < circuit.len()
        invariant
            k <= circuit@.len(),
            forall|j: int| 0 <= j < k ==> index_in_range(#[trigger] circuit@[j], n_generators),
        decreases circuit@.len() - k,
    {
        let index = circuit[k];
        if index >= n_generators {
            return Err(GsimError::IndexOutOfRange { step: k, index });
        }
        k = k + 1;
    }
    Ok(())
}

/// The coordinate data of a simulation agree with a basis of size `m`: the
/// initial and observable coordinate vectors have length `m`, and each
/// adjoint matrix is `m × m`.
pub open spec fn coordinates_agree(m: usize, e_in_len: usize, obs_len: usize, adjoints: Seq<Shape>) -> bool {
    e_in_len == m && obs_len == m && all_square_of(adjoints, m)
}

/// Checks a simulation call against a basis of size `m`: coordinate
/// dimensions first, then the circuit's generator indices against the number
/// of adjoint matrices (one per generator), in temporal order.
pub fn check_simulation(
    m: usize,
    e_in_len: usize,
    obs_len: usize,
    adjoints: &Vec<Shape>,
    circuit: &Vec<usize>,
) -> (r: Result<(), GsimError>)
    ensures
        !coordinates_agree(m, e_in_len, obs_len, adjoints@) ==> r == Err::<(), GsimError>(
            GsimError::DimensionMismatch,
        ),
        coordinates_agree(m, e_in_len, obs_len, adjoints@) ==> (r is Ok <==> circuit_in_range(
            circuit@,
            adjoints@.len() as usize,
        )),
        coordinates_agree(m, e_in_len, obs_len, adjoints@) ==> (r matches Err(e) ==> (
        e matches GsimError::IndexOutOfRange { step, index } && is_first_bad_step(
            circuit@,
            adjoints@.len() as usize,
            step as int,
        ) && index == circuit@[step as int])),
{
    if e_in_len != m || obs_len != m || !all_square(adjoints, m) {
        return Err(GsimError::DimensionMismatch);
    }
    check_circuit(circuit, adjoints.len())
}

/// Every basis operator and the operator `op` are square of one dimension.
pub open spec fn operator_matches_basis(basis: Seq<Shape>, op: Shape) -> bool {
    is_square_of(op, op.rows) && all_square_of(basis, op.rows)
}

/// Checks a generator against the basis before its adjoint matrix is built.
pub fn check_adjoint_input(basis: &Vec<Shape>, generator: Shape) -> (r: Result<(), GsimError>)
    ensures
        r is Ok <==> operator_matches_basis(basis@, generator),
        r is Err ==> r == Err::<(), GsimError>(GsimError::BasisMismatch),
{
    if generator.cols == generator.rows && all_square(basis, generator.rows) {
        Ok(())
    } else {
        Err(GsimError::BasisMismatch)
    }
}

/// Checks an operator against the basis before it is projected onto it.
pub fn check_projection_input(basis: &Vec<Shape>, op: Shape) -> (r: Result<(), GsimError>)
    ensures
        r is Ok <==> operator_matches_basis(basis@, op),
        r is Err ==> r == Err::<(), GsimError>(GsimError::DimensionMismatch),
{
    if op.cols == op.rows && all_square(basis, op.rows) {
        Ok(())
    } else {
        Err(GsimError::DimensionMismatch)
    }
}

} // verus!
