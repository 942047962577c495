use asciinum::{parse_radix_arg, RadixLetters, RadixNumbers, RadixSettings, RadixSymbols};

#[test]
fn test_parse_radix_arg() {
    assert!(parse_radix_arg("a").is_err());
    assert!(parse_radix_arg("aa").is_err());
    assert!(parse_radix_arg("aaix").is_err());

    assert!(parse_radix_arg("asd").is_err());
    assert!(parse_radix_arg("efg").is_err());
    assert!(parse_radix_arg("haha\r\nhehe").is_err());

    assert!(parse_radix_arg("iua").is_err());
    assert!(parse_radix_arg("suu").is_err());
    assert!(parse_radix_arg("oud").is_err());

    assert_eq!(
        parse_radix_arg("aai").unwrap(),
        RadixSettings::new(
            RadixSymbols::All,
            RadixNumbers::All,
            RadixLetters::Insensitive
        )
    );
    assert_eq!(
        parse_radix_arg("udi").unwrap(),
        RadixSettings::new(
            RadixSymbols::UnixSafe,
            RadixNumbers::Disabled,
            RadixLetters::Insensitive
        )
    );
    assert_eq!(
        parse_radix_arg("das").unwrap(),
        RadixSettings::new(
            RadixSymbols::Disabled,
            RadixNumbers::All,
            RadixLetters::Sensitive
        )
    );
    assert_eq!(
        parse_radix_arg("ado").unwrap(),
        RadixSettings::new(
            RadixSymbols::All,
            RadixNumbers::Disabled,
            RadixLetters::SensitiveOrdered
        )
    );
}

#[test]
fn test_parse_radix_arg_error_messages() {
    assert_eq!(
        parse_radix_arg("").unwrap_err(),
        "must be 3 characters long"
    );
    assert_eq!(
        parse_radix_arg("aaio").unwrap_err(),
        "must be 3 characters long"
    );
    assert_eq!(
        parse_radix_arg("xai").unwrap_err(),
        "first character of radix arg must be one of these: {a,u,d}"
    );
    assert_eq!(
        parse_radix_arg("axi").unwrap_err(),
        "second character of radix arg must be one of these: {a,d}"
    );
    assert_eq!(
        parse_radix_arg("aax").unwrap_err(),
        "third character of radix arg must be one of these: {i,s,o}"
    );
}

#[test]
fn test_parse_radix_arg_default_configuration() {
    // the default option set the surrounding program uses when no argument
    // is supplied
    assert_eq!(
        parse_radix_arg("dao").unwrap(),
        RadixSettings::new(
            RadixSymbols::Disabled,
            RadixNumbers::All,
            RadixLetters::SensitiveOrdered
        )
    );
}
