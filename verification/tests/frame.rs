use led_strip::{FrameBuf, FrameError, LedStripConfig, Rgb};

// ── Construction ─────────────────────────────────────────────────

#[test]
fn new_success_initializes_to_default() {
    let frame = FrameBuf::<Rgb, 4>::new(2).unwrap();
    assert_eq!(frame.len(), 2);
    assert!(!frame.is_empty());
    assert_eq!(frame.capacity(), 4);
    assert_eq!(frame.as_slice(), &[Rgb::black(), Rgb::black()]);
}

#[test]
fn new_accepts_exact_capacity() {
    let frame = FrameBuf::<Rgb, 3>::new(3).unwrap();
    assert_eq!(frame.len(), 3);
}

#[test]
fn new_accepts_zero_len() {
    let frame = FrameBuf::<Rgb, 4>::new(0).unwrap();
    assert!(frame.is_empty());
    assert_eq!(frame.len(), 0);
}

#[test]
fn rejects_capacity_overflow() {
    let err = FrameBuf::<Rgb, 2>::new(3).unwrap_err();
    assert_eq!(
        err,
        FrameError::BufferTooSmall {
            required: 3,
            capacity: 2,
        }
    );
}

#[test]
fn from_config_constructs_matching_frame() {
    let config = LedStripConfig::ws2812b(5);
    let frame = FrameBuf::<Rgb, 10>::from_config(&config).unwrap();
    assert_eq!(frame.len(), 5);
}

// ── set ──────────────────────────────────────────────────────────

#[test]
fn set_updates_pixel_at_index() {
    let mut frame = FrameBuf::<Rgb, 4>::new(3).unwrap();
    frame.set(1, Rgb::new(10, 20, 30)).unwrap();
    assert_eq!(frame.as_slice()[1], Rgb::new(10, 20, 30));
    // Other pixels unchanged
    assert_eq!(frame.as_slice()[0], Rgb::black());
    assert_eq!(frame.as_slice()[2], Rgb::black());
}

#[test]
fn set_rejects_out_of_bounds() {
    let mut frame = FrameBuf::<Rgb, 4>::new(2).unwrap();
    let err = frame.set(2, Rgb::new(1, 2, 3)).unwrap_err();
    assert_eq!(err, FrameError::InvalidIndex);
}

#[test]
fn set_accepts_last_valid_index() {
    let mut frame = FrameBuf::<Rgb, 4>::new(2).unwrap();
    frame.set(1, Rgb::new(1, 2, 3)).unwrap();
    assert_eq!(frame.as_slice()[1], Rgb::new(1, 2, 3));
}

// ── write ────────────────────────────────────────────────────────

#[test]
fn write_overwrites_all_pixels() {
    let mut frame = FrameBuf::<Rgb, 4>::new(2).unwrap();
    frame
        .write(&[Rgb::new(1, 2, 3), Rgb::new(4, 5, 6)])
        .unwrap();
    assert_eq!(frame.as_slice(), &[Rgb::new(1, 2, 3), Rgb::new(4, 5, 6)]);
}

#[test]
fn rejects_mismatched_write_length() {
    let mut frame = FrameBuf::<Rgb, 4>::new(2).unwrap();
    let err = frame.write(&[Rgb::new(1, 2, 3)]).unwrap_err();
    assert_eq!(
        err,
        FrameError::InvalidLength {
            expected: 2,
            actual: 1,
        }
    );
}

#[test]
fn write_too_long_rejected() {
    let mut frame = FrameBuf::<Rgb, 4>::new(2).unwrap();
    let err = frame
        .write(&[Rgb::new(1, 2, 3), Rgb::new(4, 5, 6), Rgb::new(7, 8, 9)])
        .unwrap_err();
    assert_eq!(
        err,
        FrameError::InvalidLength {
            expected: 2,
            actual: 3,
        }
    );
}

// ── fill / clear ─────────────────────────────────────────────────

#[test]
fn fill_sets_all_pixels_to_same_value() {
    let mut frame = FrameBuf::<Rgb, 4>::new(3).unwrap();
    frame.fill(Rgb::new(200, 100, 50));
    assert_eq!(
        frame.as_slice(),
        &[
            Rgb::new(200, 100, 50),
            Rgb::new(200, 100, 50),
            Rgb::new(200, 100, 50),
        ]
    );
}

#[test]
fn clear_resets_all_to_black() {
    let mut frame = FrameBuf::<Rgb, 4>::new(3).unwrap();
    frame.fill(Rgb::white());
    frame.clear();
    assert_eq!(frame.as_slice(), &[Rgb::black(), Rgb::black(), Rgb::black()]);
}

// ── as_slice ─────────────────────────────────────────────────────

#[test]
fn as_slice_returns_correct_length() {
    let frame = FrameBuf::<Rgb, 4>::new(2).unwrap();
    assert_eq!(frame.as_slice().len(), 2);
}

#[test]
fn as_mut_slice_allows_in_place_mutation() {
    let mut frame = FrameBuf::<Rgb, 4>::new(2).unwrap();
    frame.as_mut_slice()[0] = Rgb::new(9, 8, 7);
    assert_eq!(frame.as_slice()[0], Rgb::new(9, 8, 7));
}

// ── FrameError ───────────────────────────────────────────────────

#[test]
fn frame_error_display_invalid_index() {
    assert_eq!(FrameError::InvalidIndex.to_string(), "invalid pixel index");
}

#[test]
fn frame_error_display_invalid_length() {
    let e = FrameError::InvalidLength {
        expected: 60,
        actual: 59,
    };
    let s = e.to_string();
    assert!(s.contains("expected=60"), "{s}");
    assert!(s.contains("actual=59"), "{s}");
}

#[test]
fn frame_error_display_buffer_too_small() {
    let e = FrameError::BufferTooSmall {
        required: 100,
        capacity: 50,
    };
    let s = e.to_string();
    assert!(s.contains("required=100"), "{s}");
    assert!(s.contains("capacity=50"), "{s}");
}

#[test]
fn clone_produces_independent_copy() {
    let mut orig = FrameBuf::<Rgb, 4>::new(2).unwrap();
    orig.set(0, Rgb::new(1, 2, 3)).unwrap();

    let cloned = orig.clone();
    // cloned has same content
    assert_eq!(cloned.as_slice(), orig.as_slice());
    // mutating original does not affect clone
    orig.set(0, Rgb::new(9, 9, 9)).unwrap();
    assert_eq!(cloned.as_slice()[0], Rgb::new(1, 2, 3));
}

// ── Further cases ───────────────────────────────────────────────

#[test]
fn failed_write_leaves_frame_unchanged() {
    let mut frame = FrameBuf::<Rgb, 4>::new(2).unwrap();
    frame.fill(Rgb::new(5, 5, 5));
    assert!(frame.write(&[Rgb::new(1, 1, 1)]).is_err());
    assert_eq!(frame.as_slice(), &[Rgb::new(5, 5, 5), Rgb::new(5, 5, 5)]);
}

#[test]
fn frame_error_texts_are_exact() {
    let e = FrameError::InvalidLength {
        expected: 2,
        actual: 10,
    };
    assert_eq!(e.to_string(), "invalid length: expected=2, actual=10");
    let e = FrameError::BufferTooSmall {
        required: 0,
        capacity: 9,
    };
    assert_eq!(e.to_string(), "buffer too small: required=0, capacity=9");
}
