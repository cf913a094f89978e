use jsaas::settings::{
    bind_addr_text, parse_number, pool_size_for, resolve, resolve_on, to_io_error, Failure,
    NumberError, ServePlan, SettingsError,
};

fn some(text: &str) -> Option<String> {
    Some(text.to_string())
}

/// What the standard parser says of `text`: the number, or its message.
fn standard(text: &str) -> Result<u64, String> {
    text.parse::<u64>().map_err(|e| e.to_string())
}

#[test]
fn test_settings_default() {
    let settings = resolve(None, None, None, None, None, None, None, None, None).unwrap();

    assert_eq!(settings.bind_addr, "127.0.0.1:9412");
    assert_eq!(settings.script_definition_expiration_millis, 86400 * 1000);
    assert_eq!(settings.script_execution_completion_millis, 10 * 1000);
    assert!(settings.script_execution_thread_pool_size > 0);

    assert_eq!(settings.tls_bind_addr, None);

    assert_eq!(settings.tls_public_certificate_path, None);

    assert_eq!(settings.tls_private_key_path, None);
}

#[test]
fn test_settings_env_vars_valid() {
    let settings = resolve(
        some("127.0.0.2:1234"),
        None,
        some("5000"),
        some("7"),
        some("1000"),
        some("127.0.0.3:1235"),
        None,
        some("/root/pub.pem"),
        some("/root/priv.pem"),
    )
    .unwrap();

    assert_eq!(settings.bind_addr, "127.0.0.2:1234");
    assert_eq!(settings.script_definition_expiration_millis, 5 * 1000);
    assert_eq!(settings.script_execution_completion_millis, 1000);
    assert_eq!(settings.script_execution_thread_pool_size, 7);

    assert_eq!(settings.tls_bind_addr, some("127.0.0.3:1235"));

    assert_eq!(settings.tls_public_certificate_path, some("/root/pub.pem"));

    assert_eq!(settings.tls_private_key_path, some("/root/priv.pem"));
}

#[test]
fn test_settings_env_vars_invalid() {
    assert!(resolve(
        some("*@!($!"),
        some("invalid socket address syntax"),
        some(""),
        some(""),
        some(""),
        None,
        None,
        None,
        None
    )
    .is_err());
    assert!(resolve(None, None, some(""), some(""), some(""), None, None, None, None).is_err());
}

#[test]
fn an_empty_number_fails_with_the_parsers_message() {
    let e = resolve_on(None, None, some(""), None, None, None, None, None, None, 4).unwrap_err();
    assert_eq!(e, SettingsError::ExpirationTime(NumberError::Empty));
    assert_eq!(e.message(), "cannot parse integer from empty string");
    assert_eq!(Err(e.message()), standard(""));
}

#[test]
fn the_first_setting_that_cannot_be_read_is_reported() {
    let refused = some("invalid socket address syntax");
    let e = resolve_on(
        some("nowhere"),
        refused.clone(),
        some("x"),
        some("y"),
        some("z"),
        some("there"),
        some("no address either"),
        None,
        None,
        4,
    )
    .unwrap_err();
    assert_eq!(e, SettingsError::BindAddr("invalid socket address syntax".to_string()));
    assert_eq!(e.message(), "invalid socket address syntax");

    let e = resolve_on(
        None,
        None,
        some("x"),
        some(""),
        some("99999999999999999999"),
        some("there"),
        refused.clone(),
        None,
        None,
        4,
    )
    .unwrap_err();
    assert_eq!(e, SettingsError::ExpirationTime(NumberError::InvalidDigit));
    assert_eq!(e.message(), "invalid digit found in string");

    let e = resolve_on(
        None,
        None,
        some("1"),
        some(""),
        some("99999999999999999999"),
        some("there"),
        refused.clone(),
        None,
        None,
        4,
    )
    .unwrap_err();
    assert_eq!(e, SettingsError::ThreadPoolSize(NumberError::Empty));
    assert_eq!(e.message(), "cannot parse integer from empty string");

    let e = resolve_on(
        None,
        None,
        some("1"),
        some("2"),
        some("99999999999999999999"),
        some("there"),
        refused.clone(),
        None,
        None,
        4,
    )
    .unwrap_err();
    assert_eq!(e, SettingsError::CompletionTime(NumberError::TooLarge));
    assert_eq!(e.message(), "number too large to fit in target type");

    let e = resolve_on(
        None,
        None,
        some("1"),
        some("2"),
        some("3"),
        some("there"),
        refused.clone(),
        None,
        None,
        4,
    )
    .unwrap_err();
    assert_eq!(e, SettingsError::TlsBindAddr("invalid socket address syntax".to_string()));
    assert_eq!(e.message(), "invalid socket address syntax");
}

#[test]
fn a_tls_address_that_is_not_given_cannot_fail() {
    let settings =
        resolve_on(None, None, None, None, None, None, some("unused"), None, None, 4).unwrap();
    assert_eq!(settings.tls_bind_addr, None);
}

#[test]
fn paths_never_fail() {
    let settings = resolve_on(
        None,
        None,
        None,
        None,
        None,
        None,
        None,
        some("\u{0}not a path"),
        some(""),
        4,
    )
    .unwrap();
    assert_eq!(settings.tls_public_certificate_path, some("\u{0}not a path"));
    assert_eq!(settings.tls_private_key_path, None);
}

#[test]
fn bind_addr_text_is_the_given_one_or_the_default() {
    assert_eq!(bind_addr_text(&None), "127.0.0.1:9412");
    assert_eq!(bind_addr_text(&some("[::1]:80")), "[::1]:80");
    assert_eq!(bind_addr_text(&some("")), "");
}

#[test]
fn pool_size_zero_means_the_processors() {
    let settings =
        resolve_on(None, None, None, some("0"), None, None, None, None, None, 12).unwrap();
    assert_eq!(settings.script_execution_thread_pool_size, 12);
    let settings = resolve_on(None, None, None, None, None, None, None, None, None, 3).unwrap();
    assert_eq!(settings.script_execution_thread_pool_size, 3);
    let settings =
        resolve_on(None, None, None, some("5"), None, None, None, None, None, 12).unwrap();
    assert_eq!(settings.script_execution_thread_pool_size, 5);
    assert_eq!(pool_size_for(0, 8), 8);
    assert_eq!(pool_size_for(2, 8), 2);
    assert_eq!(pool_size_for(usize::MAX, 8), usize::MAX);
}

#[test]
fn empty_paths_count_as_not_given() {
    let settings =
        resolve_on(None, None, None, None, None, some(""), None, some(""), some(""), 1).unwrap();
    assert_eq!(settings.tls_bind_addr, some(""));
    assert_eq!(settings.tls_public_certificate_path, None);
    assert_eq!(settings.tls_private_key_path, None);
}

#[test]
fn serve_plan_follows_the_tls_settings() {
    let plan = |addr: Option<&str>, cert: Option<&str>, key: Option<&str>| {
        resolve_on(
            None,
            None,
            None,
            None,
            None,
            addr.map(str::to_string),
            None,
            cert.map(str::to_string),
            key.map(str::to_string),
            1,
        )
        .unwrap()
        .serve_plan()
    };
    assert_eq!(plan(None, None, None), ServePlan::Http);
    assert_eq!(plan(Some("127.0.0.1:9413"), None, None), ServePlan::Http);
    assert_eq!(plan(Some("127.0.0.1:9413"), Some("c"), None), ServePlan::Http);
    assert_eq!(plan(Some("127.0.0.1:9413"), None, Some("k")), ServePlan::Http);
    assert_eq!(plan(Some("127.0.0.1:9413"), Some("c"), Some("")), ServePlan::Http);
    assert_eq!(plan(None, Some("c"), Some("k")), ServePlan::Https);
    assert_eq!(plan(Some("127.0.0.1:9413"), Some("c"), Some("k")), ServePlan::HttpAndHttps);
}

#[test]
fn numbers_are_plain_decimal() {
    assert_eq!(parse_number("0", u64::MAX), Ok(0));
    assert_eq!(parse_number("7", u64::MAX), Ok(7));
    assert_eq!(parse_number("86400000", u64::MAX), Ok(86_400_000));
    assert_eq!(parse_number("+5", u64::MAX), Ok(5));
    assert_eq!(parse_number("007", u64::MAX), Ok(7));
    assert_eq!(parse_number("18446744073709551615", u64::MAX), Ok(u64::MAX));
    assert_eq!(parse_number("018446744073709551615", u64::MAX), Ok(u64::MAX));

    assert_eq!(parse_number("", u64::MAX), Err(NumberError::Empty));
    assert_eq!(parse_number("+", u64::MAX), Err(NumberError::InvalidDigit));
    assert_eq!(parse_number("-", u64::MAX), Err(NumberError::InvalidDigit));
    assert_eq!(parse_number("-1", u64::MAX), Err(NumberError::InvalidDigit));
    assert_eq!(parse_number("++1", u64::MAX), Err(NumberError::InvalidDigit));
    assert_eq!(parse_number("1+", u64::MAX), Err(NumberError::InvalidDigit));
    assert_eq!(parse_number(" 1", u64::MAX), Err(NumberError::InvalidDigit));
    assert_eq!(parse_number("1 ", u64::MAX), Err(NumberError::InvalidDigit));
    assert_eq!(parse_number("1_000", u64::MAX), Err(NumberError::InvalidDigit));
    assert_eq!(parse_number("1.0", u64::MAX), Err(NumberError::InvalidDigit));
    assert_eq!(parse_number("0x10", u64::MAX), Err(NumberError::InvalidDigit));
    assert_eq!(parse_number("\u{661}", u64::MAX), Err(NumberError::InvalidDigit));
    assert_eq!(parse_number("18446744073709551616", u64::MAX), Err(NumberError::TooLarge));
    assert_eq!(parse_number("99999999999999999999999", u64::MAX), Err(NumberError::TooLarge));
}

#[test]
fn the_first_failure_from_the_left_counts() {
    // the number is too large before the letter is met
    assert_eq!(parse_number("99999999999999999999999x", u64::MAX), Err(NumberError::TooLarge));
    // the letter is met before the number is too large
    assert_eq!(parse_number("9x9999999999999999999999", u64::MAX), Err(NumberError::InvalidDigit));
    // at one and the same place, what is no digit counts
    assert_eq!(parse_number("18446744073709551615x", u64::MAX), Err(NumberError::InvalidDigit));
    assert_eq!(parse_number("1844674407370955161x", u64::MAX), Err(NumberError::InvalidDigit));
    assert_eq!(parse_number("184467440737095516150", u64::MAX), Err(NumberError::TooLarge));
    assert_eq!(parse_number("18446744073709551616x", u64::MAX), Err(NumberError::TooLarge));
}

#[test]
fn numbers_and_messages_agree_with_the_standard_parser() {
    for text in [
        "0",
        "1",
        "+1",
        "-1",
        "",
        "+",
        "-",
        "-0",
        "+0",
        "00",
        "12a",
        "a12",
        " 5",
        "5 ",
        "18446744073709551615",
        "18446744073709551616",
        "184467440737095516150",
        "+18446744073709551615",
        "99999999999999999999999x",
        "9x9999999999999999999999",
        "18446744073709551615x",
        "1844674407370955161x",
        "18446744073709551616x",
        "0000000000000000000000000000000000000001",
        "\u{0}",
        "\u{ff11}",
    ] {
        assert_eq!(
            parse_number(text, u64::MAX).map_err(|e| e.message()),
            standard(text),
            "{:?}",
            text
        );
        assert_eq!(to_io_error(parse_number(text, u64::MAX)), standard(text), "{:?}", text);
    }
}

#[test]
fn messages_of_the_three_failures() {
    assert_eq!(NumberError::Empty.message(), "cannot parse integer from empty string");
    assert_eq!(NumberError::InvalidDigit.message(), "invalid digit found in string");
    assert_eq!(NumberError::TooLarge.message(), "number too large to fit in target type");
}

#[test]
fn numbers_stop_at_the_bound() {
    assert_eq!(parse_number("255", 255), Ok(255));
    assert_eq!(parse_number("256", 255), Err(NumberError::TooLarge));
    assert_eq!(parse_number("0", 0), Ok(0));
    assert_eq!(parse_number("1", 0), Err(NumberError::TooLarge));
    assert_eq!(parse_number("9", 5), Err(NumberError::TooLarge));
    assert_eq!(parse_number("10", 9), Err(NumberError::TooLarge));
}

#[test]
fn failures_become_messages() {
    assert_eq!(to_io_error(Ok::<u64, SettingsError>(5)), Ok(5));
    assert_eq!(to_io_error(Ok::<u64, NumberError>(5)), Ok(5));
    assert_eq!(
        to_io_error(Err::<u64, SettingsError>(SettingsError::ThreadPoolSize(
            NumberError::InvalidDigit
        ))),
        Err("invalid digit found in string".to_string())
    );
    assert_eq!(
        to_io_error(Err::<u64, SettingsError>(SettingsError::BindAddr("no".to_string()))),
        Err("no".to_string())
    );
    assert_eq!(
        to_io_error(parse_number("", u64::MAX)),
        Err("cannot parse integer from empty string".to_string())
    );
    let failed =
        to_io_error(resolve_on(None, None, some("soon"), None, None, None, None, None, None, 1));
    assert_eq!(failed.err(), Some("invalid digit found in string".to_string()));
}
