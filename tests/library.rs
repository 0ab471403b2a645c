use gsim_py::circuit::{check_adjoint_input, check_circuit, check_projection_input, check_simulation};
use gsim_py::closure::{Closure, Origin};
use gsim_py::error::GsimError;
use gsim_py::shape::{all_square, check_setup, Shape};

fn sq(d: usize) -> Shape {
    Shape { rows: d, cols: d }
}

#[test]
fn setup_accepts_matching_shapes() {
    assert_eq!(check_setup(sq(2), sq(2), &vec![sq(2), sq(2)]), Ok(2));
}

#[test]
fn setup_rejects_empty_generator_set() {
    assert_eq!(check_setup(sq(2), sq(2), &vec![]), Err(GsimError::DegenerateInput));
}

#[test]
fn setup_rejects_zero_dimension() {
    assert_eq!(check_setup(sq(0), sq(0), &vec![sq(0)]), Err(GsimError::DegenerateInput));
}

#[test]
fn setup_rejects_non_square_state() {
    let init = Shape { rows: 2, cols: 3 };
    assert_eq!(check_setup(init, sq(2), &vec![sq(2)]), Err(GsimError::DimensionMismatch));
}

#[test]
fn setup_rejects_mismatched_observable() {
    assert_eq!(check_setup(sq(2), sq(4), &vec![sq(2)]), Err(GsimError::DimensionMismatch));
}

#[test]
fn setup_rejects_mismatched_generator() {
    assert_eq!(check_setup(sq(2), sq(2), &vec![sq(2), sq(4)]), Err(GsimError::DimensionMismatch));
}

#[test]
fn all_square_checks_every_shape() {
    assert!(all_square(&vec![], 3));
    assert!(all_square(&vec![sq(3), sq(3)], 3));
    assert!(!all_square(&vec![sq(3), Shape { rows: 3, cols: 2 }], 3));
}

#[test]
fn empty_circuit_is_accepted() {
    assert_eq!(check_circuit(&vec![], 2), Ok(()));
}

#[test]
fn circuit_in_range_is_accepted() {
    assert_eq!(check_circuit(&vec![0, 1, 1, 0], 2), Ok(()));
}

#[test]
fn index_equal_to_generator_count_is_rejected() {
    assert_eq!(
        check_circuit(&vec![0, 2, 1], 2),
        Err(GsimError::IndexOutOfRange { step: 1, index: 2 })
    );
}

#[test]
fn first_bad_step_is_reported() {
    assert_eq!(
        check_circuit(&vec![1, 0, 7, 3], 2),
        Err(GsimError::IndexOutOfRange { step: 2, index: 7 })
    );
}

#[test]
fn simulation_accepts_consistent_data() {
    assert_eq!(check_simulation(3, 3, 3, &vec![sq(3), sq(3)], &vec![0, 1, 0]), Ok(()));
    assert_eq!(check_simulation(3, 3, 3, &vec![sq(3), sq(3)], &vec![]), Ok(()));
}

#[test]
fn simulation_rejects_short_initial_coordinates() {
    assert_eq!(
        check_simulation(3, 2, 3, &vec![sq(3)], &vec![0]),
        Err(GsimError::DimensionMismatch)
    );
}

#[test]
fn simulation_rejects_short_observable_coordinates() {
    assert_eq!(
        check_simulation(3, 3, 4, &vec![sq(3)], &vec![0]),
        Err(GsimError::DimensionMismatch)
    );
}

#[test]
fn simulation_rejects_wrong_adjoint_shape() {
    assert_eq!(
        check_simulation(3, 3, 3, &vec![sq(3), sq(2)], &vec![0]),
        Err(GsimError::DimensionMismatch)
    );
}

#[test]
fn simulation_rejects_unknown_generator() {
    assert_eq!(
        check_simulation(3, 3, 3, &vec![sq(3), sq(3)], &vec![0, 1, 2]),
        Err(GsimError::IndexOutOfRange { step: 2, index: 2 })
    );
}

#[test]
fn adjoint_input_checks_basis_dimension() {
    assert_eq!(check_adjoint_input(&vec![sq(2), sq(2)], sq(2)), Ok(()));
    assert_eq!(check_adjoint_input(&vec![sq(2), sq(2)], sq(4)), Err(GsimError::BasisMismatch));
    assert_eq!(
        check_adjoint_input(&vec![sq(2)], Shape { rows: 2, cols: 1 }),
        Err(GsimError::BasisMismatch)
    );
}

#[test]
fn projection_input_checks_basis_dimension() {
    assert_eq!(check_projection_input(&vec![sq(2)], sq(2)), Ok(()));
    assert_eq!(check_projection_input(&vec![sq(2)], sq(3)), Err(GsimError::DimensionMismatch));
}

#[test]
fn single_nonzero_generator_gives_one_basis_operator() {
    let mut c = Closure::new(1, 2);
    assert_eq!(c.next(), Some(Origin::Generator(0)));
    c.record(true);
    assert_eq!(c.next(), None);
    assert_eq!(c.size(), 1);
    assert_eq!(c.finish(), Ok(vec![Origin::Generator(0)]));
}

#[test]
fn single_zero_generator_is_degenerate() {
    let mut c = Closure::new(1, 2);
    assert_eq!(c.next(), Some(Origin::Generator(0)));
    c.record(false);
    assert_eq!(c.next(), None);
    assert_eq!(c.finish(), Err(GsimError::DegenerateInput));
}

#[test]
fn pauli_x_and_y_close_to_su2() {
    // [X, Y] is proportional to Z; every further commutator lies in the span.
    let mut c = Closure::new(2, 2);
    assert_eq!(c.next(), Some(Origin::Generator(0)));
    c.record(true);
    assert_eq!(c.next(), Some(Origin::Generator(1)));
    c.record(true);
    assert_eq!(c.next(), Some(Origin::Commutator(0, 1)));
    c.record(true);
    assert_eq!(c.next(), Some(Origin::Commutator(0, 2)));
    c.record(false);
    assert_eq!(c.next(), Some(Origin::Commutator(1, 2)));
    c.record(false);
    assert_eq!(c.next(), None);
    assert_eq!(
        c.finish(),
        Ok(vec![Origin::Generator(0), Origin::Generator(1), Origin::Commutator(0, 1)])
    );
}

#[test]
fn repeated_generator_is_handed_out_again() {
    let mut c = Closure::new(2, 2);
    assert_eq!(c.next(), Some(Origin::Generator(0)));
    c.record(true);
    assert_eq!(c.next(), Some(Origin::Generator(1)));
    c.record(false);
    assert_eq!(c.next(), None);
    assert_eq!(c.size(), 1);
}

#[test]
fn closure_stops_when_basis_is_full() {
    let mut c = Closure::new(3, 1);
    assert_eq!(c.next(), Some(Origin::Generator(0)));
    c.record(true);
    assert_eq!(c.next(), None);
    assert_eq!(c.size(), 1);
}

#[test]
fn error_messages_are_distinct() {
    let all = [
        GsimError::DegenerateInput,
        GsimError::BasisMismatch,
        GsimError::DimensionMismatch,
        GsimError::IndexOutOfRange { step: 0, index: 0 },
    ];
    for a in 0..all.len() {
        for b in 0..all.len() {
            assert_eq!(a == b, all[a].message() == all[b].message());
        }
    }
}
