use partfetch::ConfigError;
use partfetch::parse_size;

#[test]
fn megabytes_scale_by_two_to_the_twenty() {
    assert_eq!(parse_size("200MB"), Ok(200 * 1024 * 1024));
}

#[test]
fn gigabytes_scale_by_two_to_the_thirty() {
    assert_eq!(parse_size("1GB"), Ok(1024 * 1024 * 1024));
}

#[test]
fn raw_integer_is_bytes() {
    assert_eq!(parse_size("500"), Ok(500));
}

#[test]
fn non_numeric_input_is_rejected() {
    assert_eq!(parse_size("abc"), Err(ConfigError::InvalidSize));
}

#[test]
fn suffix_is_case_insensitive() {
    assert_eq!(parse_size("200mb"), Ok(200 * 1024 * 1024));
    assert_eq!(parse_size("200Mb"), Ok(200 * 1024 * 1024));
    assert_eq!(parse_size("3gb"), Ok(3 * 1024 * 1024 * 1024));
    assert_eq!(parse_size("3gB"), Ok(3 * 1024 * 1024 * 1024));
}

#[test]
fn whitespace_around_the_number_is_ignored() {
    assert_eq!(parse_size("200 MB"), Ok(200 * 1024 * 1024));
    assert_eq!(parse_size("  7  GB"), Ok(7 * 1024 * 1024 * 1024));
    assert_eq!(parse_size("  500  "), Ok(500));
}

#[test]
fn a_leading_plus_sign_is_accepted() {
    assert_eq!(parse_size("+42"), Ok(42));
    assert_eq!(parse_size("+1MB"), Ok(1024 * 1024));
}

#[test]
fn empty_or_suffix_only_input_is_rejected() {
    assert_eq!(parse_size(""), Err(ConfigError::InvalidSize));
    assert_eq!(parse_size("MB"), Err(ConfigError::InvalidSize));
    assert_eq!(parse_size("GB"), Err(ConfigError::InvalidSize));
    assert_eq!(parse_size("+"), Err(ConfigError::InvalidSize));
    assert_eq!(parse_size("   "), Err(ConfigError::InvalidSize));
}

#[test]
fn unknown_suffixes_fall_through_to_integer_parsing() {
    // "KB" is not a recognized unit, so the whole string must be a number
    assert_eq!(parse_size("10KB"), Err(ConfigError::InvalidSize));
    assert_eq!(parse_size("10 kilobytes"), Err(ConfigError::InvalidSize));
}

#[test]
fn values_at_the_top_of_u64_parse() {
    assert_eq!(parse_size("18446744073709551615"), Ok(u64::MAX));
}

#[test]
fn overflowing_values_are_rejected() {
    assert_eq!(
        parse_size("18446744073709551616"),
        Err(ConfigError::InvalidSize)
    );
    assert_eq!(
        parse_size("99999999999999999999999"),
        Err(ConfigError::InvalidSize)
    );
    // fits as a number, but not once scaled to bytes
    assert_eq!(parse_size("17179869184GB"), Err(ConfigError::InvalidSize));
}

#[test]
fn negative_and_malformed_numbers_are_rejected() {
    assert_eq!(parse_size("-5"), Err(ConfigError::InvalidSize));
    assert_eq!(parse_size("1 2"), Err(ConfigError::InvalidSize));
    assert_eq!(parse_size("12.5MB"), Err(ConfigError::InvalidSize));
    assert_eq!(parse_size("++3"), Err(ConfigError::InvalidSize));
}
