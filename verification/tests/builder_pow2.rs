use bento::atlas::next_power_of_two;

#[test]
fn test_next_power_of_two() {
    assert_eq!(next_power_of_two(0), 1);
    assert_eq!(next_power_of_two(1), 1);
    assert_eq!(next_power_of_two(2), 2);
    assert_eq!(next_power_of_two(3), 4);
    assert_eq!(next_power_of_two(5), 8);
    assert_eq!(next_power_of_two(100), 128);
    assert_eq!(next_power_of_two(1000), 1024);
}

#[test]
fn next_power_of_two_keeps_exact_powers() {
    let mut p: u32 = 1;
    for _ in 0..32 {
        assert_eq!(next_power_of_two(p), p);
        if p < 0x8000_0000 {
            p *= 2;
        }
    }
    assert_eq!(next_power_of_two(0x8000_0000), 0x8000_0000);
    assert_eq!(next_power_of_two(0x4000_0001), 0x8000_0000);
}

#[test]
fn next_power_of_two_is_the_least_power_at_or_above() {
    for n in 1u32..5000 {
        let r = next_power_of_two(n);
        assert!(r.is_power_of_two());
        assert!(r >= n);
        assert!(r / 2 < n);
        assert_eq!(r, n.next_power_of_two());
    }
}
