use gfx_core::command::ClearColor;

#[test]
fn short_integer_colors_repeat_the_first_component() {
    assert_eq!(ClearColor::from([1i32, 2, 3, 4]), ClearColor::Int([1, 2, 3, 4]));
    assert_eq!(ClearColor::from([1i32, 2, 3]), ClearColor::Int([1, 2, 3, 1]));
    assert_eq!(ClearColor::from([1i32, 2]), ClearColor::Int([1, 2, 1, 1]));
    assert_eq!(ClearColor::from(-7i32), ClearColor::Int([-7, 0, 0, 0]));
    assert_eq!(ClearColor::from([5u32, 6, 7, 8]), ClearColor::Uint([5, 6, 7, 8]));
    assert_eq!(ClearColor::from([5u32, 6, 7]), ClearColor::Uint([5, 6, 7, 5]));
    assert_eq!(ClearColor::from([5u32, 6]), ClearColor::Uint([5, 6, 5, 5]));
    assert_eq!(ClearColor::from(9u32), ClearColor::Uint([9, 0, 0, 0]));
}

#[test]
fn short_float_colors_repeat_the_first_component() {
    let one = 1.0f32.to_bits();
    let half = 0.5f32.to_bits();
    assert_eq!(ClearColor::from_f32_bits4([one, half, one, half]), ClearColor::Float([one, half, one, half]));
    assert_eq!(ClearColor::from_f32_bits3([one, half, one]), ClearColor::Float([one, half, one, one]));
    assert_eq!(ClearColor::from_f32_bits2([one, half]), ClearColor::Float([one, half, one, one]));
    assert_eq!(ClearColor::from_f32_bits(half), ClearColor::Float([half, 0, 0, 0]));
    assert_eq!(f32::from_bits(0), 0.0f32);
}

#[test]
fn short_colors_from_two_and_three_components() {
    assert_eq!(ClearColor::from([1i32, 2, 3]), ClearColor::Int([1, 2, 3, 1]));
    assert_eq!(ClearColor::from([7u32, 9]), ClearColor::Uint([7, 9, 7, 7]));
    let q = 0.25f32.to_bits();
    let h = 0.5f32.to_bits();
    assert_eq!(ClearColor::from_f32_bits2([q, h]), ClearColor::Float([q, h, q, q]));
}
