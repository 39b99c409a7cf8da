use pos_core::scanner::detect_barcode_type;
use pos_core::scanner::is_valid_barcode;
use pos_core::scanner::parse_barcode;
use pos_core::scanner::ScannerConfig;
use pos_core::updater::get_current_version;
use pos_core::updater::UpdateConfig;
use pos_core::validation::validate_password_strength;
use pos_core::validation::validate_price;
use pos_core::validation::validate_quantity;
use pos_core::validation::validate_sku;
use pos_core::validation::validate_username;
use pos_core::validation::MAX_ITEM_QTY;
use pos_core::validation::MAX_UNIT_PRICE_CENTS;

#[test]
fn test_barcode_type_detection() {
    assert_eq!(detect_barcode_type("12345678"), "EAN-8");
    assert_eq!(detect_barcode_type("123456789012"), "UPC-A");
    assert_eq!(detect_barcode_type("1234567890123"), "EAN-13");
    assert_eq!(detect_barcode_type("ABC-123"), "Code 39");
}

#[test]
fn test_barcode_validation() {
    let config = ScannerConfig::default();
    assert!(is_valid_barcode("12345678", &config));
    assert!(is_valid_barcode("ABC-123-XYZ", &config));
    assert!(!is_valid_barcode("ab", &config)); // too short
}

#[test]
fn test_validate_sku() {
    assert!(validate_sku("ABC-123").is_ok());
    assert!(validate_sku("test_sku").is_ok());
    assert!(validate_sku("").is_err());
    assert!(validate_sku("a".repeat(51).as_str()).is_err());
    assert!(validate_sku("invalid sku").is_err());
}

#[test]
fn test_validate_password_strength() {
    assert!(validate_password_strength("password123").is_ok());
    assert!(validate_password_strength("short1").is_err()); // too short
    assert!(validate_password_strength("password").is_err()); // no digit
    assert!(validate_password_strength("12345678").is_err()); // no letter
}

#[test]
fn more_barcode_types() {
    assert_eq!(detect_barcode_type("12345678901234"), "ITF-14");
    assert_eq!(detect_barcode_type("12345"), "Code 128");
    assert_eq!(detect_barcode_type(""), "Unknown");
    assert_eq!(detect_barcode_type("AB C-1"), "Code 39");
    assert_eq!(detect_barcode_type("abc!"), "Custom");
}

#[test]
fn parse_barcode_keeps_raw_text() {
    let info = parse_barcode("1234567890123");
    assert_eq!(info.raw, "1234567890123");
    assert_eq!(info.barcode_type, "EAN-13");
    assert!(info.valid);
}

#[test]
fn barcode_length_bounds_follow_config() {
    let mut config = ScannerConfig::default();
    config.min_length = 2;
    assert!(is_valid_barcode("ab", &config));
    config.max_length = 3;
    assert!(!is_valid_barcode("abcd", &config));
}

#[test]
fn username_rules() {
    assert!(validate_username("ali_1").is_ok());
    assert!(validate_username("ab").is_err());
    assert!(validate_username("a".repeat(51).as_str()).is_err());
    assert!(validate_username("has space").is_err());
}

#[test]
fn price_and_quantity_rules() {
    assert!(validate_price(0).is_ok());
    assert!(validate_price(MAX_UNIT_PRICE_CENTS).is_ok());
    let e = validate_price(-1).unwrap_err();
    assert_eq!(e, "Fiyat negatif olamaz");
    assert!(validate_price(MAX_UNIT_PRICE_CENTS + 1).is_err());
    assert!(validate_quantity(0).is_ok());
    assert!(validate_quantity(MAX_ITEM_QTY).is_ok());
    assert!(validate_quantity(i32::MAX).is_ok());
    let e = validate_quantity(-1).unwrap_err();
    assert_eq!(e, "Miktar negatif olamaz");
    assert!(validate_quantity(i32::MIN).is_err());
}

#[test]
fn current_version_is_the_package_version() {
    assert_eq!(get_current_version(), "0.1.0");
}

#[test]
fn update_config_defaults() {
    let c = UpdateConfig::default();
    assert_eq!(c.check_interval_hours, 24);
    assert!(!c.auto_download);
    assert!(!c.auto_install);
}
