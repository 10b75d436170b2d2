use bento::text::{append_decimal, append_signed_decimal};

#[test]
fn decimals_match_the_standard_formatting() {
    let samples: [u64; 16] = [
        0, 1, 9, 10, 11, 99, 100, 101, 999, 1000, 12345, 4294967295, 4294967296, 1000000000000,
        9999999999999999999, u64::MAX,
    ];
    for n in samples {
        let mut s = String::from("n=");
        append_decimal(&mut s, n);
        assert_eq!(s, format!("n={}", n));
    }
}

#[test]
fn signed_decimals_match_the_standard_formatting() {
    let samples: [i64; 11] = [0, 1, -1, 10, -10, 255, -256, i32::MAX as i64, i32::MIN as i64, i64::MAX, i64::MIN];
    for n in samples {
        let mut s = String::new();
        append_signed_decimal(&mut s, n);
        assert_eq!(s, format!("{}", n));
    }
}
