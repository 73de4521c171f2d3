use db_shm_manager::errors::DbShmError;
use db_shm_manager::text::decimal_string;

#[test]
fn invalid_size_says_both_sizes() {
    let e = DbShmError::InvalidSize(45, 49);
    assert_eq!(e.to_string(), "Invalid size provided. Expected: 45, Actual: 49");
}

#[test]
fn serialization_error_says_the_codec_text_and_both_sizes() {
    let e = DbShmError::SerializationError("size limit".to_string(), 6220841, 6220800);
    assert_eq!(
        e.to_string(),
        "Serialization error: size limit. Expected size: 6220841, Actual size: 6220800"
    );
}

#[test]
fn deserialization_error_says_the_codec_text_and_both_sizes() {
    let e = DbShmError::DeserializationError("unknown array version: 0".to_string(), 45, 45);
    assert_eq!(
        e.to_string(),
        "Deserialization error: unknown array version: 0. Expected size: 45, Actual size: 45"
    );
}

#[test]
fn error_text_with_zero_sizes_and_empty_codec_text() {
    assert_eq!(
        DbShmError::InvalidSize(0, 0).to_string(),
        "Invalid size provided. Expected: 0, Actual: 0"
    );
    assert_eq!(
        DbShmError::SerializationError(String::new(), 0, 1).to_string(),
        "Serialization error: . Expected size: 0, Actual size: 1"
    );
}

#[test]
fn errors_of_different_kinds_differ() {
    let a = DbShmError::SerializationError("x".to_string(), 1, 2);
    let b = DbShmError::DeserializationError("x".to_string(), 1, 2);
    assert_ne!(a, b);
    assert_ne!(DbShmError::InvalidSize(1, 2), DbShmError::InvalidSize(2, 1));
}

#[test]
fn decimal_of_small_and_large_numbers() {
    assert_eq!(decimal_string(0), "0");
    assert_eq!(decimal_string(7), "7");
    assert_eq!(decimal_string(9), "9");
    assert_eq!(decimal_string(10), "10");
    assert_eq!(decimal_string(99), "99");
    assert_eq!(decimal_string(100), "100");
    assert_eq!(decimal_string(1234567890), "1234567890");
    assert_eq!(decimal_string(usize::MAX), format!("{}", usize::MAX));
}

#[test]
fn decimal_agrees_with_the_standard_text() {
    let mut n: usize = 1;
    for _ in 0..19 {
        assert_eq!(decimal_string(n), format!("{}", n));
        assert_eq!(decimal_string(n - 1), format!("{}", n - 1));
        n = n.wrapping_mul(10);
    }
}
