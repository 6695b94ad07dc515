use mapped::mappers::{Creative, Knn, ManualMap, Nearest, NearestDoublePass};
use mapped::palette::{base_colors, find_closest, nord, syn_data_set, ColorClass, Rgbx};
use mapped::Mapper;

fn small_palette() -> Vec<Rgbx> {
    vec![
        Rgbx(0, 0, 0, ColorClass::Greys),
        Rgbx(255, 255, 255, ColorClass::Whites),
    ]
}

#[test]
fn nearest_concrete_scenario() {
    let palette = small_palette();
    let mut m = Nearest;
    assert_eq!(m.predict(&palette, &[10, 10, 10, 255]), [0, 0, 0, 255]);
}

#[test]
fn creative_concrete_scenario() {
    let palette = small_palette();
    let mut m = Creative;
    assert_eq!(m.predict(&palette, &[10, 10, 10, 255]), [0, 0, 0, 255]);
}

#[test]
fn nearest_first_entry_wins_ties() {
    let palette = vec![
        Rgbx(0, 0, 0, ColorClass::Greys),
        Rgbx(20, 0, 0, ColorClass::Red),
    ];
    let mut m = Nearest;
    // both entries are 10 away; the first wins
    assert_eq!(m.predict(&palette, &[10, 0, 0, 255]), [0, 0, 0, 255]);
}

#[test]
fn creative_empty_palette_is_identity() {
    let palette: Vec<Rgbx> = vec![];
    let mut m = Creative;
    assert_eq!(m.predict(&palette, &[5, 6, 7, 8]), [5, 6, 7, 8]);
}

#[test]
fn creative_tie_favors_nonnegative_side() {
    // one entry rating exactly zero: it stands on both sides, and the
    // strict comparison keeps the non-negative branch
    let palette = vec![Rgbx(255, 255, 255, ColorClass::Whites)];
    let mut m = Creative;
    assert_eq!(m.predict(&palette, &[255, 255, 255, 0]), [255, 255, 255, 255]);
}

#[test]
fn manual_map_overrides_red_ranges() {
    let palette = nord();
    let mut m = ManualMap;
    assert_eq!(m.predict(&palette, &[150, 0, 0, 7]), [208, 135, 112, 255]);
    assert_eq!(m.predict(&palette, &[200, 50, 50, 0]), [208, 135, 112, 255]);
    assert_eq!(m.predict(&palette, &[10, 20, 30, 40]), [10, 20, 30, 40]);
}

#[test]
fn double_pass_goes_through_base_table() {
    let palette = nord();
    let px = [250u8, 5, 5, 255];
    let base = base_colors();
    let basic = find_closest(&base, &px);
    let mut n = Nearest;
    let expected = n.predict(&palette, &basic);
    let mut m = NearestDoublePass;
    assert_eq!(m.predict(&palette, &px), expected);
}

#[test]
fn classify_plain_colors() {
    let data = syn_data_set();
    assert_eq!(
        Knn::classify(&[0, 255, 0, 255], 12, &data, false, false),
        ColorClass::Green
    );
    assert_eq!(
        Knn::classify(&[255, 255, 255, 255], 12, &data, false, false),
        ColorClass::Whites
    );
    assert_eq!(
        Knn::classify(&[0, 0, 255, 255], 12, &data, false, false),
        ColorClass::Blues
    );
    assert_eq!(
        Knn::classify(&[0, 0, 0, 255], 12, &data, false, false),
        ColorClass::Greys
    );
}

#[test]
fn classify_weighted_mode_matches_unweighted() {
    // the per-class weights are all zero today, so weighted voting changes
    // nothing
    let data = syn_data_set();
    for px in [[0u8, 255, 0, 255], [255, 0, 0, 255], [0, 0, 0, 255]] {
        assert_eq!(
            Knn::classify(&px, 12, &data, false, true),
            Knn::classify(&px, 12, &data, false, false)
        );
    }
}

#[test]
fn classify_random_tie_break_picks_challenger() {
    // two training colors equally distant from the pixel, one vote each:
    // the deterministic leading pick is the earlier class in scan order
    // (Red), and the random pool holds exactly the challenger (Green), so
    // the randomized mode must return Green
    let data = vec![
        Rgbx(10, 0, 0, ColorClass::Red),
        Rgbx(0, 10, 0, ColorClass::Green),
    ];
    assert_eq!(
        Knn::classify(&[0, 0, 0, 255], 2, &data, false, false),
        ColorClass::Red
    );
    assert_eq!(
        Knn::classify(&[0, 0, 0, 255], 2, &data, true, false),
        ColorClass::Green
    );
}

#[test]
fn classify_accuracy_on_basic_colors() {
    let labeled = [
        Rgbx(255, 0, 0, ColorClass::Red),
        Rgbx(255, 0, 127, ColorClass::Red),
        Rgbx(255, 128, 0, ColorClass::Orange),
        Rgbx(255, 255, 0, ColorClass::Yellow),
        Rgbx(128, 255, 0, ColorClass::Green),
        Rgbx(0, 255, 0, ColorClass::Green),
        Rgbx(0, 255, 128, ColorClass::Green),
        Rgbx(0, 255, 255, ColorClass::Blues),
        Rgbx(0, 128, 255, ColorClass::Blues),
        Rgbx(0, 0, 255, ColorClass::Blues),
        Rgbx(255, 0, 255, ColorClass::Purple),
        Rgbx(128, 128, 128, ColorClass::Greys),
        Rgbx(0, 0, 0, ColorClass::Greys),
        Rgbx(255, 255, 255, ColorClass::Whites),
    ];
    let data = syn_data_set();
    let mut matches = 0;
    for color in &labeled {
        let grp = Knn::classify(&color.rgba_array(), 30, &data, false, false);
        if grp == color.3 {
            matches += 1;
        }
    }
    let acc = (matches as f32 / labeled.len() as f32) * 100.0;
    assert!(acc > 95.0);
}

#[test]
fn knn_predict_stays_in_predicted_class() {
    let palette = nord();
    let mut m = Knn::with(12);
    let out = m.predict(&palette, &[0, 200, 0, 255]);
    // the output is the RGBA form of some palette entry of the predicted
    // class; for strong green that class is Green, and nord has exactly one
    // green entry
    assert_eq!(out, [163, 190, 140, 255]);
}

#[test]
fn knn_default_uses_twelve_neighbors() {
    let m = Knn::default();
    assert_eq!(m.k, 12);
    assert_eq!(m.data, syn_data_set());
}
