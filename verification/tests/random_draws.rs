use pathtracer::sampling::{
    draw_in_cube, jitter, judge, random_in_unit_sphere, LatticePoint, Search, GRID, JITTER_STEPS,
    MAX_ATTEMPTS, UNIT_SQUARED,
};

fn norm_squared(p: LatticePoint) -> i128 {
    let (x, y, z) = (p.x as i128, p.y as i128, p.z as i128);
    x * x + y * y + z * z
}

#[test]
fn lattice_constants() {
    assert_eq!(GRID, 1 << 23);
    assert_eq!(UNIT_SQUARED, 1u64 << 46);
    assert_eq!(UNIT_SQUARED as i128, (GRID as i128) * (GRID as i128));
    assert_eq!(JITTER_STEPS, 1 << 24);
    assert_eq!(MAX_ATTEMPTS, 1000);
    assert_eq!(LatticePoint::origin(), LatticePoint { x: 0, y: 0, z: 0 });
}

#[test]
fn every_step_count_is_a_number_of_its_own() {
    for k in [0i32, 1, -1, GRID - 1, -GRID, 12_345, -7_654_321] {
        let x = k as f32 / GRID as f32;
        assert_eq!((x * GRID as f32) as i32, k);
        assert!(-1.0 <= x && x < 1.0);
    }
    for k in [0u32, 1, JITTER_STEPS - 1, 9_999_999] {
        let x = k as f32 / JITTER_STEPS as f32;
        assert_eq!((x * JITTER_STEPS as f32) as u32, k);
        assert!(0.0 <= x && x < 1.0);
    }
}

#[test]
fn unit_ball_test_is_exact_at_the_surface() {
    assert!(LatticePoint { x: 0, y: 0, z: 0 }.is_in_unit_ball());
    assert!(LatticePoint { x: GRID, y: 0, z: 0 }.is_in_unit_ball());
    assert!(LatticePoint { x: 0, y: -GRID, z: 0 }.is_in_unit_ball());
    assert!(!LatticePoint { x: GRID, y: 1, z: 0 }.is_in_unit_ball());
    assert!(!LatticePoint { x: GRID, y: 0, z: -1 }.is_in_unit_ball());
    assert!(!LatticePoint { x: GRID + 1, y: 0, z: 0 }.is_in_unit_ball());
    assert!(LatticePoint { x: GRID - 1, y: 4095, z: 0 }.is_in_unit_ball());
    assert!(!LatticePoint { x: GRID - 1, y: 4097, z: 0 }.is_in_unit_ball());
    assert!(!LatticePoint { x: -GRID, y: -GRID, z: -GRID }.is_in_unit_ball());
    assert!(LatticePoint { x: 4_843_165, y: 4_843_165, z: 4_843_165 }.is_in_unit_ball());
    assert!(!LatticePoint { x: 4_843_166, y: 4_843_166, z: 4_843_166 }.is_in_unit_ball());
}

#[test]
fn unit_ball_test_stands_the_largest_coordinates() {
    assert!(!LatticePoint { x: i32::MIN, y: i32::MIN, z: i32::MIN }.is_in_unit_ball());
    assert!(!LatticePoint { x: i32::MAX, y: i32::MAX, z: i32::MAX }.is_in_unit_ball());
    assert!(!LatticePoint { x: i32::MIN, y: 0, z: 0 }.is_in_unit_ball());
}

#[test]
fn unit_ball_test_agrees_with_the_squared_length() {
    let mut seed: u32 = 17;
    let mut next = move || {
        seed = seed.wrapping_mul(1_664_525).wrapping_add(1_013_904_223);
        ((seed >> 8) as i32) - GRID
    };
    for _ in 0..100_000 {
        let p = LatticePoint { x: next(), y: next(), z: next() };
        assert_eq!(p.is_in_unit_ball(), norm_squared(p) <= UNIT_SQUARED as i128);
    }
}

#[test]
fn points_of_the_cube_are_in_the_cube_and_differ() {
    let first = draw_in_cube();
    let mut differs = false;
    let mut off_corner = false;
    for _ in 0..1000 {
        let p = draw_in_cube();
        for c in [p.x, p.y, p.z] {
            assert!(-GRID <= c && c < GRID);
        }
        differs = differs || p != first;
        off_corner = off_corner || p != LatticePoint { x: -GRID, y: -GRID, z: -GRID };
    }
    assert!(differs);
    assert!(off_corner);
}

#[test]
fn points_of_the_unit_ball_are_in_the_ball_and_differ() {
    let first = random_in_unit_sphere();
    let mut differs = false;
    let mut off_origin = 0;
    for _ in 0..5000 {
        let p = random_in_unit_sphere();
        assert!(norm_squared(p) <= UNIT_SQUARED as i128);
        for c in [p.x, p.y, p.z] {
            assert!(-GRID <= c && c < GRID);
        }
        differs = differs || p != first;
        if p != LatticePoint::origin() {
            off_origin += 1;
        }
    }
    assert!(differs);
    assert!(off_origin >= 4999);
}

#[test]
fn points_of_the_unit_ball_fill_it() {
    // a ball drawn evenly has an eighth of its points in each octant, and an eighth of
    // them within half the radius
    let mut octants = [0u32; 8];
    let mut inner = 0u32;
    let n = 16_000;
    for _ in 0..n {
        let p = random_in_unit_sphere();
        let k = (p.x >= 0) as usize + 2 * (p.y >= 0) as usize + 4 * (p.z >= 0) as usize;
        octants[k] += 1;
        if 4 * norm_squared(p) <= UNIT_SQUARED as i128 {
            inner += 1;
        }
    }
    for count in octants {
        assert!(1500 < count && count < 2500, "{:?}", octants);
    }
    assert!(1500 < inner && inner < 2500, "{}", inner);
}

#[test]
fn jitters_are_offsets_below_one_and_differ() {
    let first = jitter();
    let mut differs = false;
    let mut low = 0u32;
    for _ in 0..2000 {
        let j = jitter();
        assert!(j < JITTER_STEPS);
        differs = differs || j != first;
        if j < JITTER_STEPS / 2 {
            low += 1;
        }
    }
    assert!(differs);
    assert!(700 < low && low < 1300);
}

#[test]
fn a_candidate_in_the_ball_is_the_point() {
    let inside = LatticePoint { x: GRID - 1, y: 4095, z: 0 };
    assert_eq!(judge(inside, 0), Search::Found(inside));
    assert_eq!(judge(inside, 999), Search::Found(inside));
    assert_eq!(judge(inside, u32::MAX), Search::Found(inside));
    let on_the_surface = LatticePoint { x: 0, y: 0, z: -GRID };
    assert_eq!(judge(on_the_surface, 500), Search::Found(on_the_surface));
    assert_eq!(judge(LatticePoint::origin(), 0), Search::Found(LatticePoint::origin()));
}

#[test]
fn a_candidate_outside_the_ball_is_rejected() {
    let outside = LatticePoint { x: GRID - 1, y: 4097, z: 0 };
    assert_eq!(judge(outside, 0), Search::Again);
    assert_eq!(judge(outside, 1), Search::Again);
    assert_eq!(judge(outside, 998), Search::Again);
    assert_eq!(judge(LatticePoint { x: -GRID, y: -GRID, z: -GRID }, 17), Search::Again);
}

#[test]
fn the_last_candidate_allowed_ends_the_search() {
    let outside = LatticePoint { x: GRID, y: 1, z: 0 };
    assert_eq!(MAX_ATTEMPTS, 1000);
    assert_eq!(judge(outside, 999), Search::GaveUp);
    assert_eq!(judge(outside, 1000), Search::GaveUp);
    assert_eq!(judge(outside, u32::MAX), Search::GaveUp);
}

#[test]
fn a_search_over_given_candidates_takes_the_first_in_the_ball() {
    let outside = LatticePoint { x: GRID - 1, y: GRID - 1, z: 0 };
    let first = LatticePoint { x: 5, y: -6, z: 7 };
    let second = LatticePoint { x: 1, y: 1, z: 1 };
    let candidates = [outside, outside, first, second, outside];
    let mut rejected: u32 = 0;
    let mut point = None;
    for candidate in candidates {
        match judge(candidate, rejected) {
            Search::Found(p) => {
                point = Some(p);
                break;
            }
            Search::GaveUp => {
                point = Some(LatticePoint::origin());
                break;
            }
            Search::Again => rejected += 1,
        }
    }
    assert_eq!(point, Some(first));
    assert_eq!(rejected, 2);
}

#[test]
fn a_search_that_finds_nothing_gives_up_after_the_attempts_allowed() {
    let outside = LatticePoint { x: GRID - 1, y: GRID - 1, z: GRID - 1 };
    let mut rejected: u32 = 0;
    let mut draws: u32 = 0;
    let ended = loop {
        draws += 1;
        match judge(outside, rejected) {
            Search::Again => rejected += 1,
            other => break other,
        }
        assert!(draws <= MAX_ATTEMPTS);
    };
    assert_eq!(ended, Search::GaveUp);
    assert_eq!(draws, MAX_ATTEMPTS);
}
