use mapped::mappers::{Creative, Knn, ManualMap, Nearest};
use mapped::memo::Memoized;
use mapped::palette::{nord, ColorClass, Rgbx};
use mapped::procutils::{partition, split_and_push, subdivide};
use mapped::{ConfigError, Mapper, ProcOptions, ThreadCount, Threads, Tracker};

fn sample_pixels() -> Vec<[u8; 4]> {
    vec![
        [0, 0, 0, 255],
        [255, 255, 255, 255],
        [10, 10, 10, 255],
        [200, 30, 30, 0],
        [150, 0, 0, 255],
        [0, 200, 50, 255],
        [12, 34, 56, 78],
        [255, 0, 255, 255],
        [90, 90, 90, 255],
        [10, 10, 10, 255],
        [0, 128, 255, 9],
        [240, 240, 200, 255],
    ]
}

fn run<M: Mapper>(mapper: M, threads: Threads) -> Vec<u8> {
    let mut p = ProcOptions::new(mapper)
        .threads(threads)
        .load_buffer(sample_pixels(), 4, 3)
        .unwrap();
    p.process().raw_buffer().to_vec()
}

#[test]
fn order_preservation_single() {
    let raw = run(Nearest, Threads::Single);
    assert_eq!(raw.len(), 4 * sample_pixels().len());
    let palette = nord();
    let mut m = Nearest;
    for (i, px) in sample_pixels().iter().enumerate() {
        let expected = m.predict(&palette, px);
        assert_eq!(&raw[4 * i..4 * i + 4], &expected);
    }
}

#[test]
fn mode_equivalence_nearest() {
    let reference = run(Nearest, Threads::Single);
    assert_eq!(run(Nearest, Threads::Auto), reference);
    assert_eq!(run(Nearest, Threads::Custom(ThreadCount::new(3).unwrap())), reference);
    assert_eq!(run(Nearest, Threads::Custom(ThreadCount::new(5).unwrap())), reference);
    assert_eq!(run(Nearest, Threads::Rayon), reference);
    assert_eq!(run(Nearest, Threads::Extreme), reference);
}

#[test]
fn mode_equivalence_creative() {
    let reference = run(Creative, Threads::Single);
    assert_eq!(run(Creative, Threads::Auto), reference);
    assert_eq!(run(Creative, Threads::Custom(ThreadCount::new(4).unwrap())), reference);
    assert_eq!(run(Creative, Threads::Rayon), reference);
    assert_eq!(run(Creative, Threads::Extreme), reference);
}

#[test]
fn mode_equivalence_manual_map() {
    let reference = run(ManualMap, Threads::Single);
    assert_eq!(run(ManualMap, Threads::Auto), reference);
    assert_eq!(run(ManualMap, Threads::Custom(ThreadCount::new(2).unwrap())), reference);
    assert_eq!(run(ManualMap, Threads::Rayon), reference);
    assert_eq!(run(ManualMap, Threads::Extreme), reference);
}

#[test]
fn knn_classes_match_across_modes() {
    // the classifier's tie-break is randomized, so the buffer holds only
    // strongly hued pixels whose twelve nearest training colors agree:
    // every mode then lands on the same palette entries
    let pixels = vec![
        [255u8, 0, 0, 255],
        [0, 255, 0, 255],
        [0, 0, 255, 255],
        [255, 255, 0, 255],
        [255, 0, 255, 255],
        [255, 128, 0, 255],
        [255, 255, 255, 255],
        [0, 0, 0, 255],
    ];
    let mut single = ProcOptions::new(Knn::with(12))
        .threads(Threads::Single)
        .load_buffer(pixels.clone(), 4, 2)
        .unwrap();
    let mut extreme = ProcOptions::new(Knn::with(12))
        .threads(Threads::Extreme)
        .load_buffer(pixels, 4, 2)
        .unwrap();
    assert_eq!(single.process().raw_buffer(), extreme.process().raw_buffer());
}

#[test]
fn nearest_is_idempotent_on_its_output() {
    let raw = run(Nearest, Threads::Single);
    let second_input: Vec<[u8; 4]> = raw
        .chunks(4)
        .map(|c| [c[0], c[1], c[2], c[3]])
        .collect();
    let mut p = ProcOptions::new(Nearest)
        .load_buffer(second_input, 4, 3)
        .unwrap();
    let second = p.process();
    assert_eq!(second.raw_buffer(), &raw[..]);
}

#[test]
fn memoization_is_transparent() {
    let plain = run(Creative, Threads::Single);
    let wrapped = run(Memoized::new(Creative), Threads::Single);
    assert_eq!(wrapped, plain);
}

#[test]
fn memoization_caches_repeated_pixels() {
    let palette = nord();
    let mut m = Memoized::new(Nearest);
    assert_eq!(m.cached(), 0);
    let first = m.predict(&palette, &[9, 9, 9, 255]);
    let again = m.predict(&palette, &[9, 9, 9, 255]);
    assert_eq!(first, again);
    assert_eq!(m.cached(), 1);
    let mut plain = Nearest;
    assert_eq!(first, plain.predict(&palette, &[9, 9, 9, 255]));
    m.predict(&palette, &[200, 0, 0, 255]);
    assert_eq!(m.cached(), 2);
}

#[test]
fn rayon_mode_with_memoized_strategy_falls_back() {
    // the cache demands exclusive access, so the data-parallel mode runs a
    // memoized strategy sequentially; the output is unchanged either way
    let plain = run(Nearest, Threads::Single);
    let wrapped = run(Memoized::new(Nearest), Threads::Rayon);
    assert_eq!(wrapped, plain);
}

#[test]
fn progress_totals_after_completed_run() {
    let pixels = vec![[1u8, 2, 3, 255]; 4];
    let mut p = ProcOptions::new(Nearest).load_buffer(pixels, 2, 2).unwrap();
    let mut tracker = p.gen_tracker();
    assert_eq!(tracker.total(), 4);
    assert_eq!(tracker.current(), 0);
    let out = p.process_tracked(&mut tracker);
    assert_eq!(tracker.current(), 4);
    assert_eq!(tracker.percentage(), 100);
    assert_eq!(out.buffer_len(), 16);
    assert_eq!(out.dimensions(), (2, 2));
}

#[test]
fn percentage_is_clamped_and_partial() {
    let t = Tracker { current: 1, total: 3 };
    assert_eq!(t.percentage(), 33);
    let empty = Tracker { current: 0, total: 0 };
    assert_eq!(empty.percentage(), 100);
    let fresh = Tracker { current: 0, total: 5 };
    assert_eq!(fresh.percentage(), 0);
}

#[test]
fn tracker_notify_and_record_accumulate() {
    let mut t = Tracker { current: 0, total: 10 };
    t.notify();
    t.notify();
    assert_eq!(t.current(), 2);
    t.record(7);
    assert_eq!(t.current(), 9);
    assert_eq!(t.total(), 10);
}

#[test]
fn dimension_mismatch_is_rejected() {
    let r = ProcOptions::new(Nearest).load_buffer(vec![[0u8, 0, 0, 0]; 3], 2, 2);
    assert_eq!(r.err().unwrap(), ConfigError::Dimensions);
}

#[test]
fn zero_thread_count_is_rejected() {
    assert!(ThreadCount::new(0).is_none());
    assert_eq!(ThreadCount::new(3).unwrap().get(), 3);
    let r = ProcOptions::new(Nearest)
        .threads(Threads::Custom(ThreadCount(0)))
        .load_buffer(vec![[0u8, 0, 0, 0]; 4], 2, 2);
    assert_eq!(r.err().unwrap(), ConfigError::Threads);
}

#[test]
fn strategy_palette_mismatch_is_rejected() {
    // a classifier with no neighbors to vote cannot run
    let r = ProcOptions::new(Knn::with(0)).load_buffer(vec![[0u8, 0, 0, 0]; 4], 2, 2);
    assert_eq!(r.err().unwrap(), ConfigError::Strategy);
    // nor can one whose palette misses a class
    let two = vec![
        Rgbx(0, 0, 0, ColorClass::Greys),
        Rgbx(255, 255, 255, ColorClass::Whites),
    ];
    let r2 = ProcOptions::new(Knn::with(5))
        .palette(two)
        .load_buffer(vec![[0u8, 0, 0, 0]; 4], 2, 2);
    assert_eq!(r2.err().unwrap(), ConfigError::Strategy);
    // an empty palette stops the nearest strategy
    let r3 = ProcOptions::new(Nearest)
        .palette(vec![])
        .load_buffer(vec![[0u8, 0, 0, 0]; 4], 2, 2);
    assert_eq!(r3.err().unwrap(), ConfigError::Strategy);
}

#[test]
fn builders_carry_configuration() {
    let opts = ProcOptions::default()
        .threads(Threads::Extreme)
        .parallelism(ThreadCount::new(8).unwrap());
    let opts2 = opts.copy_with_mapper(Creative);
    let mut p = opts2.load_buffer(sample_pixels(), 3, 4).unwrap();
    let out = p.process();
    assert_eq!(out.dimensions(), (3, 4));
    assert_eq!(out.raw_buffer().to_vec(), run(Creative, Threads::Extreme));
}

#[test]
fn empty_image_processes_to_empty_buffer() {
    let mut p = ProcOptions::new(Nearest).load_buffer(vec![], 0, 0).unwrap();
    let out = p.process();
    assert_eq!(out.buffer_len(), 0);
}

#[test]
fn partition_shapes() {
    assert_eq!(partition(10, 3), vec![(0, 3), (3, 6), (6, 10)]);
    assert_eq!(partition(10, 1), vec![(0, 10)]);
    assert_eq!(partition(2, 5), vec![(0, 0), (0, 0), (0, 0), (0, 0), (0, 2)]);
}

#[test]
fn subdivide_shapes() {
    assert_eq!(subdivide(10, 0), vec![(0, 10)]);
    assert_eq!(subdivide(10, 1), vec![(0, 5), (5, 10)]);
    assert_eq!(subdivide(10, 2), vec![(0, 2), (2, 5), (5, 7), (7, 10)]);
}

#[test]
fn split_and_push_pushes_both_halves() {
    let mut v: Vec<(usize, usize)> = Vec::new();
    split_and_push((2, 9), &mut v);
    assert_eq!(v, vec![(2, 5), (5, 9)]);
}
