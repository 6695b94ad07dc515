use mapped::palette::{find_closest, nord, ColorClass, Rgbx};

#[test]
fn rgbx_equality() {
    let x = Rgbx(255, 255, 255, ColorClass::Whites);
    let y = x;
    assert_eq!(x, y)
}

#[test]
fn rgbx_inequality() {
    let x = Rgbx(255, 255, 255, ColorClass::Whites);
    let y = Rgbx(255, 200, 0, ColorClass::Orange);
    assert_ne!(x, y)
}

#[test]
fn gradient() {
    let start = Rgbx(255, 204, 204, ColorClass::Blues);
    let end = Rgbx(102, 0, 0, ColorClass::Blues);
    let _g = start.gradient(&end, 10);
}

#[test]
fn gradient_reaches_endpoint() {
    let start = Rgbx(0, 0, 0, ColorClass::Greys);
    let end = Rgbx(10, 0, 0, ColorClass::Greys);
    let g = start.gradient(&end, 4);
    assert_eq!(
        g,
        vec![
            Rgbx(0, 0, 0, ColorClass::Greys),
            Rgbx(4, 0, 0, ColorClass::Greys),
            Rgbx(8, 0, 0, ColorClass::Greys),
            Rgbx(10, 0, 0, ColorClass::Greys),
        ]
    );
}

#[test]
fn gradient_from_endpoint_to_itself() {
    let c = Rgbx(7, 8, 9, ColorClass::Purple);
    let g = c.gradient(&c, 5);
    assert_eq!(g, vec![c, c]);
}

#[test]
fn manhattan_distance_values() {
    let black = Rgbx(0, 0, 0, ColorClass::Greys);
    let white = Rgbx(255, 255, 255, ColorClass::Whites);
    assert_eq!(black.manhattan_dist(&[10, 10, 10, 255]), 30);
    assert_eq!(white.manhattan_dist(&[10, 10, 10, 255]), 735);
    // alpha is ignored
    assert_eq!(black.manhattan_dist(&[10, 10, 10, 0]), 30);
}

#[test]
fn diff_rating_values() {
    let black = Rgbx(0, 0, 0, ColorClass::Greys);
    let white = Rgbx(255, 255, 255, ColorClass::Whites);
    assert_eq!(white.diff_rating(&[10, 10, 10, 255]), 571);
    assert_eq!(black.diff_rating(&[10, 10, 10, 255]), -23);
    // the division truncates toward zero: -10 / 3 is -3, not -4
    assert_eq!(black.diff_rating(&[0, 0, 10, 255]), -3);
}

#[test]
fn euclid_distance_squared_values() {
    let c = Rgbx(3, 4, 0, ColorClass::Blues);
    assert_eq!(c.euclid_dist_sq(&[0, 0, 0, 255]), 25);
    assert_eq!(c.euclid_dist_sq(&[3, 4, 0, 9]), 0);
}

#[test]
fn step_towards_saturates_at_target() {
    let a = Rgbx(0, 100, 255, ColorClass::Red);
    let b = Rgbx(10, 90, 250, ColorClass::Green);
    let stepped = a.step_towards(&b, 100);
    assert_eq!(stepped, Rgbx(10, 90, 250, ColorClass::Green));
    let small = a.step_towards(&b, 3);
    assert_eq!(small, Rgbx(3, 97, 252, ColorClass::Green));
}

#[test]
fn rgba_array_is_opaque() {
    let c = Rgbx(1, 2, 3, ColorClass::Yellow);
    assert_eq!(c.rgba_array(), [1, 2, 3, 255]);
}

#[test]
fn class_weights_are_zero() {
    assert_eq!(ColorClass::Blues.weight(), 0);
    assert_eq!(ColorClass::Orange.weight(), 0);
}

#[test]
fn find_closest_picks_first_minimum() {
    let table = [
        [0u8, 0, 0, 255],
        [100, 100, 100, 255],
        [200, 200, 200, 255],
    ];
    assert_eq!(find_closest(&table, &[90, 90, 90, 255]), [100, 100, 100, 255]);
    // an exact tie keeps the earlier entry
    let tied = [[0u8, 0, 0, 255], [20, 0, 0, 255]];
    assert_eq!(find_closest(&tied, &[10, 0, 0, 255]), [0, 0, 0, 255]);
}

#[test]
fn nord_palette_shape() {
    let p = nord();
    assert_eq!(p.len(), 16);
    assert_eq!(p[8], Rgbx(208, 135, 112, ColorClass::Orange));
    assert_eq!(p[0], Rgbx(216, 222, 233, ColorClass::Whites));
}
