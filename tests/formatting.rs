use bytesize::bytesize::{Trait, Value, B, GB, KB, MB, PB, TB};

fn show(n: Value) -> String {
    n.bytesize_string()
}

fn reparse(s: &str) -> u64 {
    let units: [(&str, u64); 6] = [("PB", PB), ("TB", TB), ("GB", GB), ("MB", MB), ("KB", KB), ("B", B)];
    for (suffix, unit) in units.iter() {
        if let Some(numeral) = s.strip_suffix(suffix) {
            if numeral.chars().all(|c| c.is_ascii_digit()) {
                return numeral.parse::<u64>().unwrap() * unit;
            }
        }
    }
    panic!("not a byte size: {}", s)
}

fn has_shape(s: &str) -> bool {
    let numeral_len = s.chars().take_while(|c| c.is_ascii_digit()).count();
    let rest = &s[numeral_len..];
    numeral_len > 0 && ["B", "KB", "MB", "GB", "TB", "PB"].contains(&rest)
}

#[test]
fn one_byte() {
    assert_eq!(show(1), "1B");
}

#[test]
fn one_kilobyte() {
    assert_eq!(show(1024), "1KB");
}

#[test]
fn one_and_a_half_kilobytes() {
    assert_eq!(show(1536), "1536B");
}

#[test]
fn one_megabyte() {
    assert_eq!(show(1048576), "1MB");
}

#[test]
fn five_gigabytes() {
    assert_eq!(show(5 * 1024 * 1024 * 1024), "5GB");
}

#[test]
fn zero_is_bytes() {
    assert_eq!(show(0), "0B");
}

#[test]
fn each_unit() {
    assert_eq!(show(B), "1B");
    assert_eq!(show(KB), "1KB");
    assert_eq!(show(MB), "1MB");
    assert_eq!(show(GB), "1GB");
    assert_eq!(show(TB), "1TB");
    assert_eq!(show(PB), "1PB");
    assert_eq!(show(3 * TB), "3TB");
    assert_eq!(show(7 * MB), "7MB");
}

#[test]
fn unit_constants() {
    assert_eq!(KB, 1024);
    assert_eq!(MB, 1048576);
    assert_eq!(GB, 1073741824);
    assert_eq!(TB, 1099511627776);
    assert_eq!(PB, 1125899906842624);
}

#[test]
fn largest_unit_wins() {
    assert_eq!(show(1024 * PB), "1024PB");
    assert_eq!(show(2048 * TB), "2PB");
    assert_eq!(show(1536 * KB), "1536KB");
    assert_eq!(show(3 * MB + 512 * KB), "3584KB");
}

#[test]
fn largest_values() {
    assert_eq!(show(u64::MAX), "18446744073709551615B");
    assert_eq!(show(u64::MAX - (PB - 1)), "16383PB");
    assert_eq!(show(u64::MAX - 1023), "18014398509481983KB");
}

#[test]
fn not_whole_kilobytes_stay_in_bytes() {
    for n in [1u64, 7, 1023, 1025, 1536, 4097, 999999, u64::MAX] {
        assert_eq!(show(n), format!("{}B", n));
    }
}

#[test]
fn shape_of_text() {
    for n in [0u64, 1, 10, 1023, 1024, 1536, MB, 5 * GB, TB, PB, 1024 * PB, u64::MAX] {
        assert!(has_shape(&show(n)), "{}", show(n));
    }
}

#[test]
fn read_back_gives_count() {
    for n in [0u64, 1, 9, 10, 1024, 1536, 3 * MB, 5 * GB, 7 * TB, 11 * PB, 1024 * PB, u64::MAX - 1023, u64::MAX] {
        assert_eq!(reparse(&show(n)), n);
    }
}

#[test]
fn chosen_unit_is_largest_divisor() {
    let units: [(&str, u64); 6] = [("PB", PB), ("TB", TB), ("GB", GB), ("MB", MB), ("KB", KB), ("B", B)];
    for n in [1u64, 1024, 1536, 3 * MB, 5 * GB, 6 * TB, 9 * PB, 2048 * TB] {
        let (suffix, _) = units.iter().find(|(_, u)| n % u == 0).unwrap();
        let s = show(n);
        assert!(s.ends_with(suffix));
        assert!(s[..s.len() - suffix.len()].chars().all(|c| c.is_ascii_digit()));
    }
}
