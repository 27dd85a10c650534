use oxwm::hints::{decode_normal_hints, hints_or_default, Dimensions, SizeHints};

fn dims(width: i32, height: i32) -> Option<Dimensions> {
    Some(Dimensions { width, height })
}

#[test]
fn default_bounds_apply_without_hints() {
    let h = SizeHints::new();
    assert_eq!(h.fit_size(50, 50), (256, 256));
    assert_eq!(h.fit_size(400, 300), (400, 300));
    assert_eq!(h.fit_size(100000, -5), (65535, 256));
}

#[test]
fn min_max_clamp() {
    let h = SizeHints { min_size: dims(100, 120), max_size: dims(500, 130), ..SizeHints::new() };
    assert_eq!(h.fit_size(50, 50), (100, 120));
    assert_eq!(h.fit_size(600, 600), (500, 130));
    assert_eq!(h.fit_size(300, 125), (300, 125));
}

#[test]
fn snaps_down_to_the_increment_grid() {
    let h = SizeHints {
        min_size: dims(10, 10),
        base_size: dims(10, 4),
        size_increment: dims(7, 16),
        ..SizeHints::new()
    };
    // 10 + 12 * 7 = 94 <= 100 < 101; 4 + 6 * 16 = 100 <= 110
    assert_eq!(h.fit_size(100, 110), (94, 100));
    // below the minimum: clamped to 10, then 10 + 0 * 7
    assert_eq!(h.fit_size(3, 3), (10, 4));
}

#[test]
fn fitting_twice_is_fitting_once() {
    let hints = [
        SizeHints::new(),
        SizeHints { min_size: dims(256, 256), ..SizeHints::new() },
        SizeHints {
            min_size: dims(256, 200),
            max_size: dims(900, 700),
            base_size: dims(0, 3),
            size_increment: dims(100, 9),
        },
    ];
    for h in hints.iter() {
        for (w, ht) in [(1i64, 1i64), (50, 50), (257, 333), (1000, 1000), (70000, 65535)] {
            let once = h.fit_size(w, ht);
            let twice = h.fit_size(once.0 as i64, once.1 as i64);
            assert_eq!(once, twice);
        }
    }
}

#[test]
fn decode_normal_hints_payload() {
    let mut words = [0u32; 18];
    // PMinSize | PMaxSize | PResizeInc | PBaseSize
    words[0] = (1 << 4) | (1 << 5) | (1 << 6) | (1 << 8);
    words[5] = 256;
    words[6] = 200;
    words[7] = 1024;
    words[8] = 768;
    words[9] = 8;
    words[10] = 16;
    words[15] = 2;
    words[16] = 4;
    let bytes: Vec<u8> = words.iter().flat_map(|w| w.to_ne_bytes()).collect();
    let h = decode_normal_hints(Some(&bytes));
    assert_eq!(h.min_size, dims(256, 200));
    assert_eq!(h.max_size, dims(1024, 768));
    assert_eq!(h.size_increment, dims(8, 16));
    assert_eq!(h.base_size, dims(2, 4));
}

#[test]
fn malformed_or_absent_hints_give_no_constraints() {
    assert_eq!(decode_normal_hints(Some(&[1, 2, 3])), SizeHints::new());
    assert_eq!(decode_normal_hints(None), SizeHints::new());
    assert_eq!(hints_or_default(None), SizeHints::new());
    let h = SizeHints { min_size: dims(1, 2), ..SizeHints::new() };
    assert_eq!(hints_or_default(Some(h)), h);
}
