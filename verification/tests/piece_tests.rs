use block_game_clone_backend::piece::Piece;
use block_game_clone_backend::rotation_axis::RotationAxis;
use block_game_clone_backend::v3::V3;

#[test]
fn set_origin() {
    let mut a = Piece { coords: vec![V3::new(1, 1, 1), V3::new(2, 2, 2)] };

    let new_origin = V3::new(1, 1, 1);

    a.set_origin(new_origin);

    assert_eq!(a.coords[0], V3::new(0, 0, 0));
    assert_eq!(a.coords[1], V3::new(1, 1, 1))
}

#[test]
fn v3_equality() {
    let a: nalgebra::Vector3<f32> = nalgebra::Vector3::<f32>::new(0.0, 0.0, 0.0);
    let b = nalgebra::Vector3::<f32>::new(0.0, 1.0, 0.0);
    assert_eq!(a, b - b);
}

#[test]
fn vec_rounding() {
    let z_piece = Piece::from_vec_i8_array(vec![[0, 0, 0], [0, 0, 1], [0, 1, 1], [0, 1, 2]]);

    // A half turn about the X axis sends (x, y, z) to (x, -y, -z) with no
    // drift in any component.
    let mut rotated_z_piece = z_piece.clone();
    rotated_z_piece.rotate(RotationAxis::X);
    rotated_z_piece.rotate(RotationAxis::X);

    let expected = vec![V3::new(0, 0, 0), V3::new(0, 0, -1), V3::new(0, -1, -1), V3::new(0, -1, -2)];
    assert_eq!(rotated_z_piece.coords, expected);
}

#[test]
fn rotation_closure() {
    // Four quarter turns about the same axis return every coordinate to its
    // original value.
    let original = Piece::from_vec_i8_array(vec![[0, 0, 0], [0, 0, 1], [0, 1, 1], [1, 1, 1]]);
    for axis in [RotationAxis::X, RotationAxis::Y] {
        let mut p = original.clone();
        for _ in 0..4 {
            p.rotate(axis);
        }
        assert_eq!(p.coords, original.coords);
    }
}

#[test]
fn twenty_four_orientations() {
    let p = Piece::from_vec_i8_array(vec![[0, 0, 0], [0, 0, 1]]);
    let rotations = p.get_available_piece_rotations();
    assert_eq!(rotations.len(), 24);
    // The identity orientation comes first.
    assert_eq!(rotations[0].coords, p.coords);
    for r in &rotations {
        assert_eq!(r.coords.len(), 2);
        assert_eq!(r.coords[0], V3::new(0, 0, 0));
    }
}

#[test]
fn moved_copy_translates_every_cube() {
    let p = Piece::from_vec_i8_array(vec![[0, 0, 0], [0, 1, 2]]);
    let moved = p.get_moved_copy(V3::new(3, 0, -1));
    assert_eq!(moved.coords, vec![V3::new(3, 0, -1), V3::new(3, 1, 1)]);
    // The source piece is untouched.
    assert_eq!(p.coords, vec![V3::new(0, 0, 0), V3::new(0, 1, 2)]);
}

#[test]
fn piece_supports_own_column() {
    let p = Piece::from_vec_i8_array(vec![[0, 0, 0], [0, 0, 1]]);
    assert!(p.supports(&V3::new(0, 1, 0)));
    assert!(p.supports(&V3::new(0, 1, 1)));
    assert!(!p.supports(&V3::new(0, 1, 2)));
}
