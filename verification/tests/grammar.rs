use vsd::keys::{base64_text, hex_encode, hex_of_base64, key_parser, split_key, KeyError};
use vsd::quality::{
    parse_lowercase_quality, quality_parser, quality_validator, Quality, QualityError,
};
use vsd::text::parse_u16_range;
use vsd::validate::{input_validator, threads_validator, InputError, ThreadsError};

#[test]
fn quality_aliases_share_a_variant() {
    assert_eq!(quality_parser("HD"), Ok(Quality::Youtube720p));
    assert_eq!(quality_parser("720p"), Ok(Quality::Youtube720p));
    assert_eq!(quality_parser("HD"), quality_parser("720p"));
    assert_eq!(quality_parser("fhd"), Ok(Quality::Youtube1080p));
    assert_eq!(quality_parser("1080P"), Ok(Quality::Youtube1080p));
    assert_eq!(quality_parser("QHD"), Ok(Quality::Youtube1440p));
    assert_eq!(quality_parser("1440p"), Ok(Quality::Youtube1440p));
}

#[test]
fn quality_literals() {
    assert_eq!(quality_parser("lowest"), Ok(Quality::Lowest));
    assert_eq!(quality_parser("min"), Ok(Quality::Lowest));
    assert_eq!(quality_parser("highest"), Ok(Quality::Highest));
    assert_eq!(quality_parser("MAX"), Ok(Quality::Highest));
    assert_eq!(quality_parser("144p"), Ok(Quality::Youtube144p));
    assert_eq!(quality_parser("240p"), Ok(Quality::Youtube240p));
    assert_eq!(quality_parser("360p"), Ok(Quality::Youtube360p));
    assert_eq!(quality_parser("480p"), Ok(Quality::Youtube480p));
    assert_eq!(quality_parser("2k"), Ok(Quality::Youtube2k));
    assert_eq!(quality_parser("4K"), Ok(Quality::Youtube4k));
    assert_eq!(quality_parser("8k"), Ok(Quality::Youtube8k));
}

#[test]
fn quality_resolution() {
    assert_eq!(quality_parser("1920x1080"), Ok(Quality::Resolution(1920, 1080)));
    assert_eq!(quality_parser("1920X1080"), Ok(Quality::Resolution(1920, 1080)));
    assert_eq!(quality_parser("0x0"), Ok(Quality::Resolution(0, 0)));
    assert_eq!(quality_parser("65535x+7"), Ok(Quality::Resolution(65535, 7)));
    assert_eq!(quality_parser("0001x0002"), Ok(Quality::Resolution(1, 2)));
}

#[test]
fn quality_resolution_failures_name_the_half() {
    assert_eq!(quality_parser("x1080"), Err(QualityError::InvalidWidth));
    assert_eq!(quality_parser("65536x1"), Err(QualityError::InvalidWidth));
    assert_eq!(quality_parser("abcx1"), Err(QualityError::InvalidWidth));
    assert_eq!(quality_parser("1920x"), Err(QualityError::InvalidHeight));
    assert_eq!(quality_parser("1920x-1"), Err(QualityError::InvalidHeight));
    assert_eq!(quality_parser("1920x1080x5"), Err(QualityError::InvalidHeight));
    assert_eq!(QualityError::InvalidWidth.message(), "invalid width");
    assert_eq!(QualityError::InvalidHeight.message(), "invalid height");
}

#[test]
fn quality_bogus_lists_the_tokens() {
    let e = quality_parser("bogus").unwrap_err();
    assert_eq!(e, QualityError::UnknownToken);
    let m = e.message();
    for t in [
        "lowest", "min", "144p", "240p", "360p", "480p", "720p", "hd", "1080p", "fhd", "2k", "1440p",
        "qhd", "4k", "8k", "highest", "max", "WIDTHxHEIGHT",
    ] {
        assert!(m.contains(t));
    }
    assert_eq!(
        m,
        "\npossible values: [lowest, min, 144p, 240p, 360p, 480p, 720p, hd, 1080p, fhd, 2k, 1440p, qhd, 4k, 8k, highest, max]\nFor custom resolution use WIDTHxHEIGHT"
    );
    assert_eq!(quality_validator("bogus"), Err(QualityError::UnknownToken));
    assert_eq!(quality_validator("hd"), Ok(()));
}

#[test]
fn lowercase_tokens_are_read_as_they_stand() {
    assert_eq!(parse_lowercase_quality("hd"), Ok(Quality::Youtube720p));
    assert_eq!(parse_lowercase_quality("HD"), Err(QualityError::UnknownToken));
    assert_eq!(parse_lowercase_quality("12x34"), Ok(Quality::Resolution(12, 34)));
}

#[test]
fn numbers_of_sixteen_bits() {
    let v: Vec<char> = "a65535b".chars().collect();
    assert_eq!(parse_u16_range(&v, 1, 6), Some(65535));
    assert_eq!(parse_u16_range(&v, 1, 5), Some(6553));
    assert_eq!(parse_u16_range(&v, 0, 6), None);
    assert_eq!(parse_u16_range(&v, 1, 1), None);
    let w: Vec<char> = "+".chars().collect();
    assert_eq!(parse_u16_range(&w, 0, 1), None);
    let z: Vec<char> = "000000065536".chars().collect();
    assert_eq!(parse_u16_range(&z, 0, 12), None);
    assert_eq!(parse_u16_range(&z, 0, 11), Some(6553));
}

#[test]
fn key_without_id() {
    assert_eq!(key_parser("abc123"), Ok((None, "abc123".to_string())));
}

#[test]
fn key_with_id() {
    assert_eq!(
        key_parser("ab-cd:deadbeef"),
        Ok((Some("abcd".to_string()), "deadbeef".to_string()))
    );
    assert_eq!(
        key_parser("EB67-6ABB:100b"),
        Ok((Some("eb676abb".to_string()), "100b".to_string()))
    );
    assert_eq!(key_parser("a:b:c"), Ok((Some("a".to_string()), "b:c".to_string())));
}

#[test]
fn key_in_base64() {
    assert_eq!(key_parser("base64:AAAA"), Ok((None, "000000".to_string())));
    let (id, material) = key_parser("base64:AAAA").unwrap();
    assert_eq!(id, None);
    assert!(!material.is_empty());
    assert!(material.chars().all(|c| c.is_ascii_digit() || ('a'..='f').contains(&c)));
    assert_eq!(
        key_parser("base64:MhbcGzyxPfkOsp3FS8qPyA=="),
        Ok((None, "3216dc1b3cb13df90eb29dc54bca8fc8".to_string()))
    );
    assert_eq!(key_parser("base64:AAECAw=="), Ok((None, "00010203".to_string())));
    assert_eq!(key_parser("base64:"), Ok((None, "".to_string())));
    assert_eq!(
        key_parser("ab-CD:base64:MhbcGzyxPfkOsp3FS8qPyA=="),
        Ok((Some("abcd".to_string()), "3216dc1b3cb13df90eb29dc54bca8fc8".to_string()))
    );
}

#[test]
fn key_with_bad_base64_is_refused() {
    assert_eq!(key_parser("base64:@@@@"), Err(KeyError::InvalidBase64));
    assert_eq!(hex_of_base64("!"), Err(KeyError::InvalidBase64));
    assert_eq!(KeyError::InvalidBase64.message(), "key is not valid base64");
    assert_eq!(KeyError::TooLong.message(), "key is too long");
}

#[test]
fn key_pieces() {
    assert_eq!(split_key("ab-cd:EF"), (Some("abcd".to_string()), "EF".to_string()));
    assert_eq!(split_key("AB-cd:EF"), (Some("ABcd".to_string()), "EF".to_string()));
    assert_eq!(split_key("base64:AAAA"), (None, "base64:AAAA".to_string()));
    assert_eq!(split_key("plain"), (None, "plain".to_string()));
    assert_eq!(base64_text("base64:AAAA"), Some("AAAA".to_string()));
    assert_eq!(base64_text("base64AAAA"), None);
    assert_eq!(hex_encode(&vec![0x00, 0x0f, 0xa0, 0xff, 0x9a]), "000fa0ff9a");
    assert_eq!(hex_encode(&Vec::new()), "");
    assert_eq!(hex_of_base64("/w=="), Ok("ff".to_string()));
    assert_eq!(hex_of_base64("AP8="), Ok("00ff".to_string()));
}

#[test]
fn unsupported_sites_are_refused() {
    assert_eq!(input_validator("https://youtube.com/watch"), Err(InputError::UnsupportedSite));
    assert_eq!(input_validator("https://www.youtube.com/x"), Err(InputError::UnsupportedSite));
    assert_eq!(input_validator("https://youtu.be/x"), Err(InputError::UnsupportedSite));
    assert_eq!(input_validator("https://example.com/youtube.com"), Ok(()));
    assert_eq!(InputError::UnsupportedSite.message(), "Youtube links aren't supported yet");
}

#[test]
fn thread_counts() {
    assert_eq!(threads_validator("1"), Ok(()));
    assert_eq!(threads_validator("16"), Ok(()));
    assert_eq!(threads_validator("+5"), Ok(()));
    assert_eq!(threads_validator("0"), Err(ThreadsError::OutOfRange));
    assert_eq!(threads_validator("17"), Err(ThreadsError::OutOfRange));
    assert_eq!(threads_validator("70000"), Err(ThreadsError::OutOfRange));
    assert_eq!(threads_validator(""), Err(ThreadsError::NotANumber));
    assert_eq!(threads_validator("five"), Err(ThreadsError::NotANumber));
    assert_eq!(threads_validator("-1"), Err(ThreadsError::NotANumber));
    assert_eq!(ThreadsError::NotANumber.message("five"), "`five` isn't a number");
    assert_eq!(
        ThreadsError::OutOfRange.message("17"),
        "number of threads should be in range `1-16`"
    );
}
