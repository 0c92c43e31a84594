use img_rename::decimal::{decimal_len, push_decimal, push_padded};
use img_rename::naming::{compose_name, generate_new_filename, new_file_name};
use img_rename::stamp::LocalStamp;

fn stamp(year: i32, month: u32, day: u32, hour: u32, minute: u32, second: u32, nanosecond: u32) -> LocalStamp {
    LocalStamp { year, month, day, hour, minute, second, nanosecond }
}

#[test]
fn padded_decimals() {
    let mut s = String::new();
    push_padded(&mut s, 7, 5);
    assert_eq!(s, "00007");
    let mut s = String::new();
    push_padded(&mut s, 123456, 5);
    assert_eq!(s, "123456");
    let mut s = String::from("x");
    push_padded(&mut s, 0, 3);
    assert_eq!(s, "x000");
    let mut s = String::new();
    push_decimal(&mut s, u32::MAX);
    assert_eq!(s, "4294967295");
    assert_eq!(decimal_len(0), 1);
    assert_eq!(decimal_len(99), 2);
    assert_eq!(decimal_len(u32::MAX), 10);
}

#[test]
fn compose_name_exact() {
    let st = stamp(2024, 1, 2, 3, 4, 5, 6_000_000);
    assert_eq!(compose_name(&st, "abcde", 7), "20240102030405006abcde00007");
}

#[test]
fn compose_name_keeps_long_index_whole() {
    let st = stamp(2023, 12, 31, 23, 59, 58, 999_999_999);
    let name = compose_name(&st, "Zz9Aa", 123456);
    assert_eq!(name, "20231231235958999Zz9Aa123456");
    assert!(name.ends_with("123456"));
}

#[test]
fn compose_name_in_leap_second() {
    let st = stamp(2016, 12, 31, 23, 59, 59, 1_500_000_000);
    assert_eq!(compose_name(&st, "AAAAA", 1), "201612312359601500AAAAA00001");
}

#[test]
fn compose_name_with_wide_years() {
    let st = stamp(10000, 1, 1, 0, 0, 0, 0);
    assert_eq!(compose_name(&st, "b1b1b", 0), "+100000101000000000b1b1b00000");
    let st = stamp(-5, 1, 1, 0, 0, 0, 0);
    assert_eq!(compose_name(&st, "b1b1b", 0), "-00050101000000000b1b1b00000");
    let st = stamp(800, 6, 15, 12, 30, 45, 120_000_000);
    assert_eq!(compose_name(&st, "qwert", 42), "08000615123045120qwert00042");
}

#[test]
fn generated_name_shape() {
    let name = generate_new_filename(7);
    assert_eq!(name.len(), 27);
    assert!(name.ends_with("00007"));
    assert!(name.chars().all(|c| c.is_ascii_alphanumeric()));
    assert!(name[..17].chars().all(|c| c.is_ascii_digit()));
}

#[test]
fn generated_name_long_index() {
    let name = generate_new_filename(123456);
    assert_eq!(name.len(), 28);
    assert!(name.ends_with("123456"));
}

#[test]
fn generated_names_differ_over_time() {
    let a = generate_new_filename(3);
    let start = std::time::Instant::now();
    while start.elapsed() < std::time::Duration::from_millis(3) {}
    let b = generate_new_filename(3);
    assert_ne!(a, b);
    assert_ne!(a[..17], b[..17]);
}

#[test]
fn new_file_name_has_extension() {
    let name = new_file_name(12, "webp");
    assert!(name.ends_with("00012.webp"));
    assert_eq!(name.len(), 32);
    let name = new_file_name(1, "jpeg");
    assert!(name.ends_with("00001.jpeg"));
}

#[test]
fn stamp_now_is_in_range() {
    let st = LocalStamp::now();
    assert!(1 <= st.month && st.month <= 12);
    assert!(1 <= st.day && st.day <= 31);
    assert!(st.hour < 24 && st.minute < 60 && st.second < 60);
    assert!(st.nanosecond < 2_000_000_000);
}

#[test]
fn generated_name_fields() {
    let name = generate_new_filename(7);
    assert!(name[..17].chars().all(|c| c.is_ascii_digit()));
    assert!(name[17..22].chars().all(|c| c.is_ascii_alphanumeric()));
    assert!(name[22..].chars().all(|c| c.is_ascii_digit()));
    assert_eq!(name[22..].parse::<u32>(), Ok(7));
    assert!(!name.contains('.') && !name.contains('/'));
}

#[test]
fn generated_name_largest_index() {
    let name = generate_new_filename(u32::MAX);
    assert_eq!(name.len(), 32);
    assert_eq!(name[22..].parse::<u32>(), Ok(u32::MAX));
}
