use keyboard_core::color::Rgb;
use keyboard_core::matrix::Matrix;
use keyboard_core::selma::{Selma, SelmaKind};
use keyboard_core::testing::{classify_sample, TestingColors};

fn all_false(rows: usize, cols: usize) -> Matrix {
    Matrix::new(rows, cols, vec![false; rows * cols])
}

#[test]
fn matrix_get_bounds() {
    let m = Matrix::new(2, 3, vec![true, false, true, false, true, false]);
    assert_eq!(m.rows(), 2);
    assert_eq!(m.cols(), 3);
    assert_eq!(m.get(0, 0), Some(true));
    assert_eq!(m.get(0, 1), Some(false));
    assert_eq!(m.get(1, 1), Some(true));
    assert_eq!(m.get(2, 0), None);
    assert_eq!(m.get(0, 3), None);
    assert_eq!(m.get(7, 9), None);
}

#[test]
fn matrix_empty() {
    let m = Matrix::new(0, 0, Vec::new());
    assert_eq!(m.get(0, 0), None);
}

#[test]
fn selma_success_all_false() {
    let s = Selma {
        missing: all_false(2, 2),
        bouncing: all_false(2, 2),
        sticking: all_false(2, 2),
    };
    assert!(s.success());
}

#[test]
fn selma_single_flag_fails() {
    let s = Selma {
        missing: all_false(2, 2),
        bouncing: all_false(2, 2),
        sticking: Matrix::new(2, 2, vec![false, false, false, true]),
    };
    assert!(!s.success());
}

#[test]
fn selma_max_dims_differing_shapes() {
    let s = Selma {
        missing: all_false(2, 5),
        bouncing: all_false(4, 1),
        sticking: all_false(3, 3),
    };
    assert_eq!(s.max_rows(), 4);
    assert_eq!(s.max_cols(), 5);
}

#[test]
fn selma_max_dims_equal_shapes() {
    let s = Selma {
        missing: all_false(2, 2),
        bouncing: all_false(2, 2),
        sticking: all_false(2, 2),
    };
    assert_eq!(s.max_rows(), 2);
    assert_eq!(s.max_cols(), 2);
}

#[test]
fn classify_missing_cell_colors_red() {
    let s = Selma {
        missing: Matrix::new(2, 2, vec![true, false, false, false]),
        bouncing: all_false(2, 2),
        sticking: all_false(2, 2),
    };
    assert!(!s.success());
    let mut colors = TestingColors::new();
    classify_sample(&s, &mut colors);
    assert_eq!(colors.get(0, 0), Some(Rgb { r: 255, g: 0, b: 0 }));
    assert_eq!(colors.get(0, 1), None);
    assert_eq!(colors.get(1, 0), None);
    assert_eq!(colors.get(1, 1), None);
}

#[test]
fn classify_additive_colors() {
    let s = Selma {
        missing: Matrix::new(1, 1, vec![true]),
        bouncing: Matrix::new(1, 1, vec![true]),
        sticking: Matrix::new(1, 1, vec![false]),
    };
    let mut colors = TestingColors::new();
    classify_sample(&s, &mut colors);
    assert_eq!(colors.get(0, 0), Some(Rgb { r: 255, g: 0, b: 255 }));
}

#[test]
fn classify_clears_recovered_cell() {
    let faulty = Selma {
        missing: Matrix::new(1, 1, vec![true]),
        bouncing: all_false(1, 1),
        sticking: all_false(1, 1),
    };
    let clean = Selma {
        missing: all_false(1, 1),
        bouncing: all_false(1, 1),
        sticking: all_false(1, 1),
    };
    let mut colors = TestingColors::new();
    classify_sample(&faulty, &mut colors);
    assert!(colors.get(0, 0).is_some());
    classify_sample(&clean, &mut colors);
    assert_eq!(colors.get(0, 0), None);
}

#[test]
fn entries_expose_the_color_map() {
    let s = Selma {
        missing: Matrix::new(2, 2, vec![true, false, false, false]),
        bouncing: all_false(2, 2),
        sticking: all_false(2, 2),
    };
    let mut colors = TestingColors::new();
    classify_sample(&s, &mut colors);
    let entries = colors.entries();
    assert_eq!(entries.len(), 1);
    assert_eq!(entries[0], (0, 0, Rgb { r: 255, g: 0, b: 0 }));
}

#[test]
fn selma_kind_values() {
    assert_eq!(SelmaKind::Normal, SelmaKind::Normal);
    assert_ne!(SelmaKind::Normal, SelmaKind::Bouncing);
}
