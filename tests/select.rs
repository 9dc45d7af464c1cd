use arbgen::select::select;

#[test]
fn select_quarter_boundaries() {
    assert_eq!(select(0, 4), 0);
    assert_eq!(select(1 << 30, 4), 1);
    assert_eq!(select(1 << 31, 4), 2);
    assert_eq!(select(3 << 30, 4), 3);
    assert_eq!(select(u32::MAX, 4), 3);
}

#[test]
fn select_stays_in_range() {
    let counts: [u64; 7] = [1, 2, 3, 7, 1000, u32::MAX as u64, u64::MAX];
    let draws: [u32; 7] = [0, 1, 12345, 1 << 31, (1 << 31) + 7, u32::MAX - 1, u32::MAX];
    for &c in counts.iter() {
        for &d in draws.iter() {
            assert!(select(d, c) < c);
        }
    }
}

#[test]
fn select_is_monotonic() {
    for &c in [1u64, 3, 5, 17, 1 << 40].iter() {
        let mut prev = 0u64;
        let mut d: u64 = 0;
        while d <= u32::MAX as u64 {
            let r = select(d as u32, c);
            assert!(r >= prev);
            prev = r;
            d += 0x0100_0001;
        }
        assert!(select(u32::MAX, c) >= prev);
    }
}

#[test]
fn select_single_variant_is_zero() {
    assert_eq!(select(0, 1), 0);
    assert_eq!(select(u32::MAX, 1), 0);
}

#[test]
fn select_exact_values() {
    assert_eq!(select(1 << 31, 3), 1);
    assert_eq!(select(u32::MAX, 3), 2);
    assert_eq!(select(0x5555_5556, 3), 1);
    assert_eq!(select(0x5555_5555, 3), 0);
    assert_eq!(select(u32::MAX, u64::MAX), 18446744069414584319);
}
