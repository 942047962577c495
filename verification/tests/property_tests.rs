use asciinum::{AsciiConverter, RadixLetters, RadixNumbers, RadixSettings, RadixSymbols};

fn all_settings() -> Vec<RadixSettings> {
    let symbols = [
        RadixSymbols::All,
        RadixSymbols::UnixSafe,
        RadixSymbols::Disabled,
    ];
    let numbers = [RadixNumbers::All, RadixNumbers::Disabled];
    let letters = [
        RadixLetters::Insensitive,
        RadixLetters::Sensitive,
        RadixLetters::SensitiveOrdered,
    ];
    let mut all = Vec::new();
    for s in symbols {
        for n in numbers {
            for l in letters {
                all.push(RadixSettings::new(s, n, l));
            }
        }
    }
    all
}

#[test]
fn test_corpus_length_and_distinctness() {
    for settings in all_settings() {
        let corpus = settings.corpus();
        assert!(corpus.len() >= 2);
        let bytes = corpus.as_bytes();
        for i in 0..bytes.len() {
            for j in (i + 1)..bytes.len() {
                assert_ne!(bytes[i], bytes[j], "corpus {:?} repeats a character", corpus);
            }
        }
    }
}

#[test]
fn test_output_length_is_positional_digit_count() {
    // radix 36: symbols disabled, digits and lowercase letters
    let converter = AsciiConverter::new(&RadixSettings::new(
        RadixSymbols::Disabled,
        RadixNumbers::All,
        RadixLetters::Insensitive,
    ));
    assert_eq!(converter.convert(0).len(), 1);
    assert_eq!(converter.convert(35).len(), 1);
    assert_eq!(converter.convert(36).len(), 2);
    assert_eq!(converter.convert(36 * 36 - 1).len(), 2);
    assert_eq!(converter.convert(36 * 36).len(), 3);
    assert_eq!(converter.convert(36 * 36 * 36 - 1).len(), 3);
    assert_eq!(converter.convert(36 * 36 * 36).len(), 4);
    // ceil(log_36(2^128)) == 25
    assert_eq!(converter.convert(u128::MAX).len(), 25);
}

#[test]
fn test_convert_is_deterministic() {
    let converter = AsciiConverter::new(&RadixSettings::new(
        RadixSymbols::All,
        RadixNumbers::All,
        RadixLetters::SensitiveOrdered,
    ));
    for value in [0u128, 1, 93, 94, 12345678901234567890, u128::MAX] {
        assert_eq!(converter.convert(value), converter.convert(value));
    }
}

#[test]
fn test_output_length_is_monotonic_in_value() {
    for settings in all_settings() {
        let converter = AsciiConverter::new(&settings);
        let samples = [
            0u128,
            1,
            9,
            10,
            25,
            26,
            31,
            32,
            93,
            94,
            95,
            1000,
            u64::MAX as u128,
            u128::MAX - 1,
            u128::MAX,
        ];
        let mut last_len = 0;
        for value in samples {
            let len = converter.convert(value).len();
            assert!(len >= last_len, "length shrank at value {}", value);
            last_len = len;
        }
    }
}

#[test]
fn test_known_fixture_scenarios() {
    let lowercase_only = AsciiConverter::new(&RadixSettings::new(
        RadixSymbols::Disabled,
        RadixNumbers::Disabled,
        RadixLetters::Insensitive,
    ));
    assert_eq!(lowercase_only.convert(0), "a");
    assert_eq!(lowercase_only.convert(123), "et");

    let digits_first = AsciiConverter::new(&RadixSettings::new(
        RadixSymbols::Disabled,
        RadixNumbers::All,
        RadixLetters::Insensitive,
    ));
    assert_eq!(digits_first.convert(0), "0");
    assert_eq!(digits_first.convert(u128::MAX), "f5lxx1zz5pnorynqglhzmsp33");

    let full = AsciiConverter::new(&RadixSettings::new(
        RadixSymbols::All,
        RadixNumbers::All,
        RadixLetters::Insensitive,
    ));
    assert_eq!(full.convert(0), "!");

    let ordered = AsciiConverter::new(&RadixSettings::new(
        RadixSymbols::Disabled,
        RadixNumbers::All,
        RadixLetters::SensitiveOrdered,
    ));
    assert_eq!(ordered.convert(u128::MAX), "7t42bDG5jpsS9t8Tw7cqO7");
}

#[test]
fn test_corpus_block_order_and_contents() {
    let settings = RadixSettings::new(
        RadixSymbols::All,
        RadixNumbers::All,
        RadixLetters::Sensitive,
    );
    assert_eq!(
        settings.corpus(),
        format!(
            "{}{}{}",
            r##"!"#$%&'()*+,-./:;<=>?@[\]^_`{|}~"##,
            "0123456789",
            "ABCDEFGHIJKLMNOPQRSTUVWXYZabcdefghijklmnopqrstuvwxyz"
        )
    );
    let unix_safe = RadixSettings::new(
        RadixSymbols::UnixSafe,
        RadixNumbers::Disabled,
        RadixLetters::SensitiveOrdered,
    );
    assert_eq!(
        unix_safe.corpus(),
        format!(
            "{}{}",
            r##"!"#$%&'()*+,-.:;<=>?@[\]^_`{|}~"##,
            "AaBbCcDdEeFfGgHhIiJjKkLlMmNnOoPpQqRrSsTtUuVvWwXxYyZz"
        )
    );
    assert!(!unix_safe.corpus().contains('/'));
}
