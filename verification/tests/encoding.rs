use protest::http::encoding::{Encoding, EncodingKind, Weight};
use protest::http::headers::{Header, ParseHeaderError};

fn make_header(value: &[u8]) -> Header {
    Header::new(b"accept-encoding", value)
}

#[test]
fn encoding_test_parse_gzip() {
    let encodings = Encoding::try_from_header(&make_header(b"gzip")).unwrap();
    assert_eq!(encodings.len(), 1);
    assert!(matches!(encodings[0], Encoding::Gzip(None)));
}

#[test]
fn encoding_test_parse_br_with_weight() {
    let encodings = Encoding::try_from_header(&make_header(b"br;q=0.9")).unwrap();
    assert_eq!(encodings.len(), 1);
    match &encodings[0] {
        Encoding::Br(Some(w)) => {
            let q: f32 = w.as_str().parse().unwrap();
            assert!((q - 0.9_f32).abs() < 1e-5)
        }
        other => panic!("expected Br(Some(≈0.9)), got {other:?}"),
    }
}

#[test]
fn encoding_test_parse_multiple_encodings() {
    let encodings = Encoding::try_from_header(&make_header(b"gzip deflate br")).unwrap();
    assert_eq!(encodings.len(), 3);
    assert!(matches!(encodings[0], Encoding::Gzip(None)));
    assert!(matches!(encodings[1], Encoding::Deflate(None)));
    assert!(matches!(encodings[2], Encoding::Br(None)));
}

#[test]
fn encoding_test_parse_wildcard() {
    let encodings = Encoding::try_from_header(&make_header(b"*")).unwrap();
    assert_eq!(encodings.len(), 1);
    assert!(matches!(encodings[0], Encoding::Wildcard(None)));
}

#[test]
fn encoding_test_parse_unknown_encoding() {
    let encodings = Encoding::try_from_header(&make_header(b"foobar")).unwrap();
    assert_eq!(encodings.len(), 1);
    assert!(matches!(encodings[0], Encoding::Unknown(None)));
}

#[test]
fn encoding_test_parse_invalid_utf8_returns_err() {
    let result = Encoding::try_from_header(&make_header(&[0xFF, 0xFE]));
    assert!(matches!(result, Err(ParseHeaderError::BadValue(_, _))));
}

#[test]
fn encoding_test_weight_none_for_unweighted() {
    assert!(Encoding::Gzip(None).weight_literal().is_none());
}

#[test]
fn encoding_test_weight_some_for_weighted() {
    let e = Encoding::Br(Weight::new("0.5"));
    let q: f32 = e.weight_literal().unwrap().as_str().parse().unwrap();
    assert_eq!(q, 0.5);
}

#[test]
fn encoding_test_display_all_variants() {
    assert_eq!(Encoding::Gzip(None).to_string(), "gzip");
    assert_eq!(Encoding::Compress(None).to_string(), "compress");
    assert_eq!(Encoding::Deflate(None).to_string(), "deflate");
    assert_eq!(Encoding::Br(None).to_string(), "br");
    assert_eq!(Encoding::Zstd(None).to_string(), "zstd");
    assert_eq!(Encoding::Dcb(None).to_string(), "dcb");
    assert_eq!(Encoding::Dcz(None).to_string(), "dcz");
    assert_eq!(Encoding::Identity(None).to_string(), "identity");
    assert_eq!(Encoding::Wildcard(None).to_string(), "*");
    assert_eq!(Encoding::Unknown(None).to_string(), "unknown");
}

#[test]
fn encoding_test_default_is_identity_none() {
    assert!(matches!(Encoding::default(), Encoding::Identity(None)));
}

#[test]
fn encoding_test_is_variant_helpers() {
    assert!(Encoding::Gzip(None).is_gzip());
    assert!(!Encoding::Gzip(None).is_identity());
    assert!(Encoding::Identity(None).is_identity());
    assert!(Encoding::Wildcard(None).is_wildcard());
}

#[test]
fn encoding_parse_gzip() {
    let encodings = Encoding::try_from_header(&make_header(b"gzip")).unwrap();
    assert_eq!(encodings.len(), 1);
    assert!(matches!(encodings[0], Encoding::Gzip(None)));
}

#[test]
fn encoding_parse_br_with_weight() {
    let encodings = Encoding::try_from_header(&make_header(b"br;q=0.9")).unwrap();
    assert_eq!(encodings.len(), 1);
    match &encodings[0] {
        Encoding::Br(Some(w)) => {
            let q: f32 = w.as_str().parse().unwrap();
            assert!((q - 0.9_f32).abs() < 1e-5)
        }
        other => panic!("expected Br(Some(≈0.9)), got {other:?}"),
    }
}

#[test]
fn encoding_parse_multiple_encodings() {
    let encodings = Encoding::try_from_header(&make_header(b"gzip deflate br")).unwrap();
    assert_eq!(encodings.len(), 3);
    assert!(matches!(encodings[0], Encoding::Gzip(None)));
    assert!(matches!(encodings[1], Encoding::Deflate(None)));
    assert!(matches!(encodings[2], Encoding::Br(None)));
}

#[test]
fn encoding_parse_wildcard() {
    let encodings = Encoding::try_from_header(&make_header(b"*")).unwrap();
    assert_eq!(encodings.len(), 1);
    assert!(matches!(encodings[0], Encoding::Wildcard(None)));
}

#[test]
fn encoding_parse_unknown_encoding() {
    let encodings = Encoding::try_from_header(&make_header(b"foobar")).unwrap();
    assert_eq!(encodings.len(), 1);
    assert!(matches!(encodings[0], Encoding::Unknown(None)));
}

#[test]
fn encoding_parse_invalid_utf8_returns_err() {
    let result = Encoding::try_from_header(&make_header(&[0xFF, 0xFE]));
    assert!(matches!(result, Err(ParseHeaderError::BadValue(_, _))));
}

#[test]
fn encoding_weight_none_for_unweighted() {
    assert!(Encoding::Gzip(None).weight_literal().is_none());
}

#[test]
fn encoding_weight_some_for_weighted() {
    let e = Encoding::Br(Weight::new("0.5"));
    let q: f32 = e.weight_literal().unwrap().as_str().parse().unwrap();
    assert_eq!(q, 0.5);
}

#[test]
fn encoding_display_all_variants() {
    assert_eq!(Encoding::Gzip(None).to_string(), "gzip");
    assert_eq!(Encoding::Compress(None).to_string(), "compress");
    assert_eq!(Encoding::Deflate(None).to_string(), "deflate");
    assert_eq!(Encoding::Br(None).to_string(), "br");
    assert_eq!(Encoding::Zstd(None).to_string(), "zstd");
    assert_eq!(Encoding::Dcb(None).to_string(), "dcb");
    assert_eq!(Encoding::Dcz(None).to_string(), "dcz");
    assert_eq!(Encoding::Identity(None).to_string(), "identity");
    assert_eq!(Encoding::Wildcard(None).to_string(), "*");
    assert_eq!(Encoding::Unknown(None).to_string(), "unknown");
}

#[test]
fn encoding_default_is_identity_none() {
    assert!(matches!(Encoding::default(), Encoding::Identity(None)));
}

#[test]
fn encoding_is_variant_helpers() {
    assert!(Encoding::Gzip(None).is_gzip());
    assert!(!Encoding::Gzip(None).is_identity());
    assert!(Encoding::Identity(None).is_identity());
    assert!(Encoding::Wildcard(None).is_wildcard());
}

#[test]
fn bad_weight_is_expected_float_with_its_text() {
    match Encoding::try_from_header(&make_header(b"gzip;q=abc")) {
        Err(ParseHeaderError::ExpectedFloat(name, text)) => {
            assert_eq!(name, "accept-encoding");
            assert_eq!(text, "abc");
        }
        other => panic!("expected ExpectedFloat, got {other:?}"),
    }
}

#[test]
fn weight_is_what_stands_after_the_separator() {
    let encodings = Encoding::try_from_header(&make_header(b"  zstd;q=1  dcz;q=0.25 ")).unwrap();
    assert_eq!(encodings.len(), 2);
    assert_eq!(encodings[0].kind(), EncodingKind::Zstd);
    assert_eq!(encodings[0].weight_literal().unwrap().as_str(), "1");
    assert_eq!(encodings[1].kind(), EncodingKind::Dcz);
    assert_eq!(encodings[1].weight_literal().unwrap().as_str(), "0.25");
}

#[test]
fn empty_value_names_no_encoding() {
    assert!(Encoding::try_from_header(&make_header(b"")).unwrap().is_empty());
    assert!(Encoding::try_from_header(&make_header(b"   ")).unwrap().is_empty());
}

#[test]
fn weight_accepts_float_literals_only() {
    assert!(Weight::new("1e3").is_some());
    assert!(Weight::new("-.5").is_some());
    assert!(Weight::new("inf").is_some());
    assert!(Weight::new("NaN").is_some());
    assert!(Weight::new("").is_none());
    assert!(Weight::new("0x1").is_none());
    assert!(Weight::new("1.2.3").is_none());
}

#[test]
fn new_builds_the_variant_of_its_kind() {
    let e = Encoding::new(EncodingKind::Deflate, Weight::new("0.1"));
    assert!(e.is_deflate());
    assert_eq!(e.weight_literal().unwrap().as_str(), "0.1");
}
