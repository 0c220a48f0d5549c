use f256::f256;
use resistor_net::assembly::build_system;
use resistor_net::elimination::{chunk_ranges, first_true, gauss_elimination, SingularMatrixError};
use resistor_net::isosurface::compute_isosurface;
use resistor_net::lattice::{fidx, n_res, n_unk};
use resistor_net::matrix::AugMatrix;
use resistor_net::residual::{compute_error, Norm};
use resistor_net::scalar::{from_f256, to_f256, Scalar};

fn s(x: f64) -> Scalar {
    from_f256(f256::from(x))
}

fn to_f64(v: Scalar) -> f64 {
    to_f256(v).to_string().parse::<f64>().unwrap()
}

fn linspace(start: f64, end: f64, num: usize) -> Vec<f64> {
    if num < 2 {
        return vec![start];
    }
    let step = (end - start) / (num - 1) as f64;
    (0..num).map(|i| start + i as f64 * step).collect()
}

fn matrix_from_rows(rows: &[&[f64]]) -> AugMatrix {
    let cols = rows[0].len();
    let mut m = AugMatrix::zeroed(rows.len(), cols);
    for (i, row) in rows.iter().enumerate() {
        for (j, v) in row.iter().enumerate() {
            m.set(i, j, s(*v));
        }
    }
    m
}

#[test]
fn test_compute_surface() {
    let l: usize = 5;
    let mut x: Vec<Scalar> = vec![from_f256(f256::ZERO); n_unk(l)];
    let values: Vec<Scalar> = linspace(-1.0, 1.0, l - 2).into_iter().map(s).collect();
    let isosurface_value = from_f256(f256::ZERO);

    for (j, v) in values.iter().enumerate() {
        for i in 0..l {
            let idx = fidx(i, j, l);
            x[idx] = *v;
        }
    }

    let surface = compute_isosurface(&x, isosurface_value, l);
    let mid_column = (l - 2) / 2 - 1;
    assert_eq!(surface.len(), l);
    for (i, (row, col)) in surface.into_iter().enumerate() {
        assert_eq!(row, i);
        assert_eq!(col, mid_column);
    }
}

#[test]
fn test_known_system_solution() {
    // A hand-built 3x4 augmented system with unique solution (1, 2, 3);
    // the leading zero forces a pivot swap.
    let rows: &[&[f64]] = &[&[0.0, 2.0, 1.0, 7.0], &[1.0, 1.0, 1.0, 6.0], &[2.0, 0.0, 3.0, 11.0]];
    let mut m = matrix_from_rows(rows);
    let mut x: Vec<Scalar> = vec![from_f256(f256::ZERO); 3];
    let outcome = gauss_elimination(&mut m, &mut x, 2);
    assert!(outcome.is_ok());

    let expected = [1.0, 2.0, 3.0];
    for i in 0..3 {
        let err = (to_f64(x[i]) - expected[i]).abs();
        assert!(err <= 1e-9, "x[{}] = {}", i, to_f64(x[i]));
    }

    // Residual against a fresh copy of the system stays tiny.
    let fresh = matrix_from_rows(rows);
    let err2 = to_f64(compute_error(&fresh, &x, Norm::Two));
    assert!(err2 < 1e-6, "residual {}", err2);
    let errinf = to_f64(compute_error(&fresh, &x, Norm::Inf));
    assert!(errinf < 1e-6, "residual {}", errinf);
}

#[test]
fn test_singular_column_reports_column() {
    // Column 1 is zero on and below the diagonal: the failure names it.
    let rows: &[&[f64]] = &[&[1.0, 5.0, 7.0, 1.0], &[0.0, 0.0, 1.0, 2.0], &[0.0, 0.0, 2.0, 3.0]];
    let mut m = matrix_from_rows(rows);
    let mut x: Vec<Scalar> = vec![from_f256(f256::ZERO); 3];
    let outcome = gauss_elimination(&mut m, &mut x, 1);
    assert_eq!(outcome.unwrap_err(), SingularMatrixError { column: 1 });

    // An all-zero matrix fails at the very first column.
    let mut m = AugMatrix::zeroed(3, 4);
    let mut x: Vec<Scalar> = vec![from_f256(f256::ZERO); 3];
    let outcome = gauss_elimination(&mut m, &mut x, 1);
    assert_eq!(outcome.unwrap_err(), SingularMatrixError { column: 0 });
}

#[test]
fn test_uniform_assembly_conservation_and_symmetry() {
    // Assembling with one constant conductance: interior rows conserve
    // admittance exactly, and the off-diagonal block is symmetric.
    for l in [5usize, 6, 7] {
        let c = s(1.5);
        let resist: Vec<Scalar> = vec![c; n_res(l)];
        let unknowns = n_unk(l);
        let mut m = AugMatrix::zeroed(unknowns, unknowns + 1);
        build_system(&mut m, &resist, l);

        // Interior columns carry no rail edge: their rows sum to zero.
        for col in 1..(l - 2) - 1 {
            for row_in_col in 0..l {
                let p = fidx(row_in_col, col, l);
                let mut sum = f256::ZERO;
                for q in 0..unknowns {
                    sum = sum + to_f256(m.get(p, q));
                }
                assert_eq!(sum, f256::ZERO, "row {} of L={} does not conserve", p, l);
            }
        }

        for p in 0..unknowns {
            for q in 0..unknowns {
                if p != q {
                    assert_eq!(to_f256(m.get(p, q)), to_f256(m.get(q, p)));
                }
            }
        }
    }
}

#[test]
fn test_assembly_deterministic() {
    // The same conductance vector into two independently zeroed matrices
    // yields identical matrices, cell for cell.
    let l: usize = 6;
    let resist: Vec<Scalar> =
        (0..n_res(l)).map(|k| s(0.25 + (k as f64) * 0.125)).collect();
    let unknowns = n_unk(l);
    let mut m1 = AugMatrix::zeroed(unknowns, unknowns + 1);
    let mut m2 = AugMatrix::zeroed(unknowns, unknowns + 1);
    build_system(&mut m1, &resist, l);
    build_system(&mut m2, &resist, l);
    for i in 0..unknowns {
        for j in 0..unknowns + 1 {
            assert_eq!(to_f256(m1.get(i, j)), to_f256(m2.get(i, j)));
        }
    }
}

#[test]
fn test_lattice_counts() {
    // L=6: vertical 4*5, internal horizontal 3*6, rails 2*6.
    assert_eq!(n_unk(6), 24);
    assert_eq!(n_res(6), 20 + 18 + 12);
    assert_eq!(fidx(2, 3, 6), 2 + 3 * 6);
}

#[test]
fn test_chunk_ranges_partition() {
    let chunks = chunk_ranges(1, 10, 4);
    assert_eq!(chunks, vec![(1, 5), (5, 9), (9, 10)]);
    let chunks = chunk_ranges(3, 3, 2);
    assert!(chunks.is_empty());
    let chunks = chunk_ranges(0, 2, 8);
    assert_eq!(chunks, vec![(0, 2)]);
}

#[test]
fn test_first_true_picks_first() {
    assert_eq!(first_true(&vec![false, false, true, true]), Some(2));
    assert_eq!(first_true(&vec![true]), Some(0));
    assert_eq!(first_true(&vec![false, false]), None);
    assert_eq!(first_true(&vec![]), None);
}
