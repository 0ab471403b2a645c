use vstd::prelude::*;
use crate::error::GsimError;

verus! {

/// The number of rows and columns of a dense matrix.
#[derive(Clone, Copy, Debug, PartialEq, Eq, Structural)]
pub struct Shape {
    pub rows: usize,
    pub cols: usize,
}

/// `s` is the shape of a `d × d` matrix.
pub open spec fn is_square_of(s: Shape, d: usize) -> bool {
    s.rows == d && s.cols == d
}

/// Every shape in `shapes` is `d × d`.
pub open spec fn all_square_of(shapes: Seq<Shape>, d: usize) -> bool {
    forall|k: int| 0 <= k < shapes.len() ==> is_square_of(#[trigger] shapes[k], d)
}

/// Whether every shape in `shapes` is `d × d`.
pub fn all_square(shapes: &Vec<Shape>, d: usize) -> (r: bool)
    ensures
        r == all_square_of(shapes@, d),
{
    let mut k: usize = 0;
    while k < shapes.len()
        invariant
            k <= shapes@.len(),
            all_square_of(shapes@.take(k as int), d),
        decreases shapes@.len() - k,
    {
        let s = shapes[k];
        if s.rows != d || s.cols != d {
            assert(!is_square_of(shapes@[k as int], d));
            return false;
        }
        assert(shapes@.take(k as int + 1)[k as int] == shapes@[k as int]);
        k = k + 1;
    }
    assert(shapes@.take(k as int) =~= shapes@);
    true
}

/// The outcome of checking the operators handed to setup: the initial
/// operator fixes the dimension `d`, which must be positive; the observable
/// and every generator must be `d × d`; there must be at least one generator.
pub open spec fn setup_outcome(init: Shape, obs: Shape, gens: Seq<Shape>) -> Result<usize, GsimError> {
    if gens.len() == 0 || init.rows == 0 {
        Err(GsimError::DegenerateInput)
    } else if is_square_of(init, init.rows) && is_square_of(obs, init.rows)
        && all_square_of(gens, init.rows) {
        Ok(init.rows)
    } else {
        Err(GsimError::DimensionMismatch)
    }
}

/// Checks the shapes of the initial operator, the observable and the
/// generators, and returns the Hilbert-space dimension `d`.
pub fn check_setup(init: Shape, obs: Shape, gens: &Vec<Shape>) -> (r: Result<usize, GsimError>)
    ensures
        r == setup_outcome(init, obs, gens@),
{
    if gens.len() == 0 || init.rows == 0 {
        return Err(GsimError::DegenerateInput);
    }
    let d = init.rows;
    if init.cols == d && obs.rows == d && obs.cols == d && all_square(gens, d) {
        Ok(d)
    } else {
        Err(GsimError::DimensionMismatch)
    }
}

} // verus!
