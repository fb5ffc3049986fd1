use rus_torrent::size::format_bytes;

#[test]
fn sizes_below_a_kib_are_told_in_bytes() {
    assert_eq!(format_bytes(0), "0 B");
    assert_eq!(format_bytes(12), "12 B");
    assert_eq!(format_bytes(1023), "1023 B");
}

#[test]
fn larger_sizes_are_told_with_one_decimal() {
    assert_eq!(format_bytes(1024), "1.0 KiB");
    assert_eq!(format_bytes(1536), "1.5 KiB");
    assert_eq!(format_bytes(1048576), "1.0 MiB");
    assert_eq!(format_bytes(5 * 1024 * 1024 * 1024), "5.0 GiB");
    assert_eq!(format_bytes(1099511627776), "1.0 TiB");
    assert_eq!(format_bytes(1099511627776 * 2000), "2000.0 TiB");
}

#[test]
fn sizes_halfway_go_to_the_even_tenth() {
    assert_eq!(format_bytes(1280), "1.2 KiB");
    assert_eq!(format_bytes(1792), "1.8 KiB");
}

#[test]
fn sizes_just_below_a_unit_keep_the_smaller_one() {
    assert_eq!(format_bytes(1048575), "1024.0 KiB");
    assert_eq!(format_bytes(u64::MAX), "16777216.0 TiB");
}

#[test]
fn sizes_are_told_as_doubles_print_them() {
    let mut state: u64 = 88172645463325252;
    for round in 0..200000u64 {
        state ^= state << 13;
        state ^= state >> 7;
        state ^= state << 17;
        let bytes = state >> (round % 64);
        let units = ["B", "KiB", "MiB", "GiB", "TiB"];
        let mut value = bytes as f64;
        let mut unit = 0usize;
        while value >= 1024.0 && unit < 4 {
            value /= 1024.0;
            unit += 1;
        }
        let expected = if unit == 0 {
            format!("{bytes} {}", units[unit])
        } else {
            format!("{value:.1} {}", units[unit])
        };
        assert_eq!(format_bytes(bytes), expected);
    }
}

#[test]
fn told_sizes_are_near_the_size() {
    for bytes in [1024u64, 5000, 123456, 9876543, 4294967295] {
        let text = format_bytes(bytes);
        let number: f64 = text.split(' ').next().unwrap().parse().unwrap();
        let unit = match text.split(' ').nth(1).unwrap() {
            "KiB" => 1024.0,
            "MiB" => 1048576.0,
            _ => 1073741824.0,
        };
        assert!((number * unit - bytes as f64).abs() <= 0.05 * unit + 0.001);
    }
}
