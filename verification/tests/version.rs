use rust_test_core::version;

#[test]
fn test_ddt_test_framework_version() {
    assert!(!version().is_empty());
}

#[test]
fn main_test_framework_version() {
    assert!(!version().is_empty());
}
