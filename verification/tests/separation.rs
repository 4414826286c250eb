use server_128::separation::{separation_direction, SeparationDirection};

#[test]
fn separation_direction_follows_index_hash() {
    // (0*31 ^ 1*17) % 4 = 17 % 4 = 1
    assert_eq!(separation_direction(0, 1), SeparationDirection::PositiveY);
    // (1*31 ^ 2*17) % 4 = (31 ^ 34) % 4 = 61 % 4 = 1
    assert_eq!(separation_direction(1, 2), SeparationDirection::PositiveY);
    // (0 ^ 2*17) % 4 = 34 % 4 = 2
    assert_eq!(separation_direction(0, 2), SeparationDirection::NegativeX);
    // (0 ^ 3*17) % 4 = 51 % 4 = 3
    assert_eq!(separation_direction(0, 3), SeparationDirection::NegativeY);
    // (0 ^ 4*17) % 4 = 68 % 4 = 0
    assert_eq!(separation_direction(0, 4), SeparationDirection::PositiveX);
}

#[test]
fn separation_direction_wraps_large_indices() {
    let expected = (usize::MAX.wrapping_mul(31) ^ usize::MAX.wrapping_mul(17)) % 4;
    let direction = separation_direction(usize::MAX, usize::MAX);
    let quarter = match direction {
        SeparationDirection::PositiveX => 0,
        SeparationDirection::PositiveY => 1,
        SeparationDirection::NegativeX => 2,
        SeparationDirection::NegativeY => 3,
    };
    assert_eq!(quarter, expected);
}
