use glsl_array::digits::{append_decimal, append_padded, decimal};

#[test]
fn decimal_of_zero_is_a_single_digit() {
    assert_eq!(decimal(0), "0");
}

#[test]
fn decimal_of_small_and_large_numbers() {
    assert_eq!(decimal(7), "7");
    assert_eq!(decimal(10), "10");
    assert_eq!(decimal(420), "420");
    assert_eq!(decimal(1_000_000), "1000000");
    assert_eq!(decimal(u32::MAX), "4294967295");
}

#[test]
fn decimal_agrees_with_the_standard_formatter() {
    let mut n: u32 = 0;
    while n < 20_000 {
        assert_eq!(decimal(n), n.to_string());
        n += 1;
    }
    for shift in 0..32 {
        let n = 1u32 << shift;
        assert_eq!(decimal(n), n.to_string());
        assert_eq!(decimal(n - 1), (n - 1).to_string());
    }
}

#[test]
fn decimal_reads_back() {
    for n in [0u32, 9, 10, 99, 100, 65_535, 65_536, u32::MAX] {
        assert_eq!(decimal(n).parse::<u32>().unwrap(), n);
    }
}

#[test]
fn append_decimal_keeps_what_is_there() {
    let mut out = String::from("image[");
    append_decimal(&mut out, 640);
    assert_eq!(out, "image[640");
    append_decimal(&mut out, 0);
    assert_eq!(out, "image[6400");
}

#[test]
fn append_padded_pads_with_zeros() {
    let mut out = String::new();
    append_padded(&mut out, 5, 3);
    assert_eq!(out, "005");
    let mut out = String::from("0.");
    append_padded(&mut out, 39_216, 7);
    assert_eq!(out, "0.0039216");
}

#[test]
fn append_padded_drops_digits_that_do_not_fit() {
    let mut out = String::new();
    append_padded(&mut out, 1234, 2);
    assert_eq!(out, "34");
}

#[test]
fn append_padded_with_no_width_appends_nothing() {
    let mut out = String::from("x");
    append_padded(&mut out, 987, 0);
    assert_eq!(out, "x");
}
