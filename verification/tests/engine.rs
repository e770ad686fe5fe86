//! Tests of the engine's internals: check digits, round trips,
//! validation rules, Digital Link conversion and scan-data framing.

use gs1encoders::checkdigit::{compute_check_digit, verify_check_digit};
use gs1encoders::{GS1Encoder, GS1EncoderError, Symbology, Validation};

#[test]
fn check_digit_compute_exact() {
    assert_eq!(compute_check_digit("1231231231231"), 9);
    assert_eq!(compute_check_digit("123456789012"), 8);
    assert_eq!(compute_check_digit("12345678901234567"), 5);
    assert_eq!(compute_check_digit(""), 0);
}

#[test]
fn check_digit_verify_agrees_with_compute() {
    // verify accepts exactly the value whose last digit is the computed
    // check digit of the rest
    for d in 0..10u32 {
        let mut v = String::from("1231231231231");
        v.push(char::from_digit(d, 10).unwrap());
        let expected = compute_check_digit("1231231231231") == d as u8;
        assert_eq!(verify_check_digit(&v), expected);
    }
}

#[test]
fn data_string_round_trip() {
    let mut enc = GS1Encoder::new().unwrap();
    enc.set_data_str("^011231231231231910ABC123^99TESTING").unwrap();
    let ds = enc.get_data_str();
    assert_eq!(ds, "^011231231231231910ABC123^99TESTING");
    let mut enc2 = GS1Encoder::new().unwrap();
    enc2.set_data_str(&ds).unwrap();
    assert_eq!(enc2.get_data_str(), ds);
    assert_eq!(enc2.get_ai_data_str(), enc.get_ai_data_str());
}

#[test]
fn ai_string_round_trip() {
    let mut enc = GS1Encoder::new().unwrap();
    let input = "(01)12312312312319(10)ABC123(99)TESTING";
    enc.set_ai_data_str(input).unwrap();
    assert_eq!(enc.get_ai_data_str().unwrap(), input);
}

#[test]
fn trailing_separator_is_tolerated() {
    let mut enc = GS1Encoder::new().unwrap();
    enc.set_data_str("^99TESTING^").unwrap();
    assert_eq!(enc.get_data_str(), "^99TESTING");
}

#[test]
fn rule_toggles_are_independent() {
    let mut enc = GS1Encoder::new().unwrap();
    // disabling the requisite rule must not disable the repeated rule
    enc.set_validation_enabled(Validation::RequisiteAis, false)
        .unwrap();
    let err = enc.set_data_str("^99AAA^99BBB").unwrap_err();
    assert!(matches!(err, GS1EncoderError::GS1ParameterError(_)));
    assert!(err.message().contains("repeated"), "{}", err.message());
    // and the requisite-only failure is now permitted
    enc.set_data_str("^0212312312312319").unwrap();
    // re-enabling rejects it again
    enc.set_validation_enabled(Validation::RequisiteAis, true)
        .unwrap();
    let err = enc.set_data_str("^0212312312312319").unwrap_err();
    assert!(err.message().contains("not satisfied"), "{}", err.message());
    // the failed call left the previously committed data in place
    assert_eq!(enc.get_data_str(), "^0212312312312319");
}

#[test]
fn every_rule_kind_toggles() {
    // repeated-AIs off: a duplicate AI commits
    let mut enc = GS1Encoder::new().unwrap();
    enc.set_validation_enabled(Validation::RepeatedAis, false)
        .unwrap();
    enc.set_data_str("^99AAA^99BBB").unwrap();
    assert_eq!(enc.get_ai_data_str().unwrap(), "(99)AAA(99)BBB");

    // mutex-AIs off: an excluded pair commits
    let mut enc = GS1Encoder::new().unwrap();
    enc.set_validation_enabled(Validation::MutexAis, false).unwrap();
    enc.set_validation_enabled(Validation::RequisiteAis, false)
        .unwrap();
    enc.set_ai_data_str("(01)12312312312319(02)12312312312319")
        .unwrap();

    // digital-signature rule off: a signature without a serialised key
    // commits
    let mut enc = GS1Encoder::new().unwrap();
    enc.set_validation_enabled(Validation::DigSigSerialKey, false)
        .unwrap();
    enc.set_ai_data_str("(01)12312312312319(8030)QUFBQUFB")
        .unwrap();

    // unknown-AI rule off: an unknown AI may ride as a query attribute
    let mut enc = GS1Encoder::new().unwrap();
    enc.set_permit_unknown_ais(true).unwrap();
    enc.set_validation_enabled(Validation::UnknownAiNotDlAttr, false)
        .unwrap();
    enc.set_data_str("^011231231231231947ABC").unwrap();
    assert_eq!(
        enc.get_dl_uri(None).unwrap(),
        "https://id.gs1.org/01/12312312312319?47=ABC"
    );
}

#[test]
fn mutex_ais_conflict() {
    let mut enc = GS1Encoder::new().unwrap();
    enc.set_validation_enabled(Validation::RequisiteAis, false)
        .unwrap();
    let err = enc
        .set_ai_data_str("(01)12312312312319(02)12312312312319")
        .unwrap_err();
    assert!(matches!(err, GS1EncoderError::GS1ParameterError(_)));
    assert!(err.message().contains("excluded"), "{}", err.message());
}

#[test]
fn digsig_requires_serialised_key() {
    let mut enc = GS1Encoder::new().unwrap();
    let err = enc
        .set_ai_data_str("(01)12312312312319(8030)QUFBQUFB")
        .unwrap_err();
    assert!(err.message().contains("serialised"), "{}", err.message());
    // a serial number makes the GTIN a serialised key
    enc.set_ai_data_str("(01)12312312312319(21)XYZ123(8030)QUFBQUFB")
        .unwrap();
    // an SSCC is serialised by itself
    enc.set_ai_data_str("(00)123456789012345675(8030)QUFBQUFB")
        .unwrap();
}

#[test]
fn unknown_ais_pass_through() {
    let mut enc = GS1Encoder::new().unwrap();
    let err = enc.set_data_str("^47ABC").unwrap_err();
    assert!(matches!(err, GS1EncoderError::GS1ParameterError(_)));

    enc.set_permit_unknown_ais(true).unwrap();
    enc.set_data_str("^47ABC").unwrap();
    assert_eq!(enc.get_ai_data_str().unwrap(), "(47)ABC");
    assert_eq!(enc.get_hri(), vec!["(47) ABC"]);
    // titles never apply to an unknown AI
    enc.set_include_data_titles_in_hri(true).unwrap();
    assert_eq!(enc.get_hri(), vec!["(47) ABC"]);
}

#[test]
fn unknown_ai_is_no_dl_attribute() {
    let mut enc = GS1Encoder::new().unwrap();
    enc.set_permit_unknown_ais(true).unwrap();
    enc.set_data_str("^011231231231231947ABC").unwrap();
    let err = enc.get_dl_uri(None).unwrap_err();
    assert!(matches!(err, GS1EncoderError::GS1DigitalLinkError(_)));
    assert!(err.message().contains("unknown"), "{}", err.message());
}

#[test]
fn dl_uri_qualifier_order_and_escaping() {
    let mut enc = GS1Encoder::new().unwrap();
    enc.set_ai_data_str("(21)S%1(10)AB/C(01)12312312312319(22)V1")
        .unwrap();
    assert_eq!(
        enc.get_dl_uri(None).unwrap(),
        "https://id.gs1.org/01/12312312312319/22/V1/10/AB%2FC/21/S%251"
    );
}

#[test]
fn dl_uri_parse_decodes_escapes() {
    let mut enc = GS1Encoder::new().unwrap();
    enc.set_data_str("https://id.gs1.org/01/12312312312319/10/AB%2FC")
        .unwrap();
    assert_eq!(enc.get_ai_data_str().unwrap(), "(01)12312312312319(10)AB/C");
}

#[test]
fn zero_suppressed_gtin_in_dl_uri() {
    let mut enc = GS1Encoder::new().unwrap();
    let err = enc.set_data_str("https://a/01/95212340").unwrap_err();
    assert!(matches!(err, GS1EncoderError::GS1ParameterError(_)));

    enc.set_permit_zero_suppressed_gtin_in_dl_uris(true).unwrap();
    enc.set_data_str("https://a/01/95212340").unwrap();
    assert_eq!(enc.get_hri(), vec!["(01) 00000095212340"]);
}

#[test]
fn dl_uri_rejects_element_string_only_ai() {
    let mut enc = GS1Encoder::new().unwrap();
    enc.set_ai_data_str("(01)12312312312319(02)12312312312319(37)12")
        .unwrap_err();
    // with the mutex pair avoided, a count AI still may not enter a URI
    enc.set_validation_enabled(Validation::RequisiteAis, false)
        .unwrap();
    enc.set_ai_data_str("(00)123456789012345675(37)12").unwrap();
    let err = enc.get_dl_uri(None).unwrap_err();
    assert!(matches!(err, GS1EncoderError::GS1DigitalLinkError(_)));
    assert!(err.message().contains("not permitted"), "{}", err.message());
}

#[test]
fn scan_data_plain_retail() {
    let mut enc = GS1Encoder::new().unwrap();
    enc.set_sym(Symbology::Ean13).unwrap();
    enc.set_data_str("2101234567890").unwrap();
    assert_eq!(enc.get_scan_data().unwrap(), "]E02101234567890");
    enc.set_add_check_digit(true).unwrap();
    assert_eq!(enc.get_scan_data().unwrap(), "]E021012345678908");
}

#[test]
fn scan_data_round_trip_qr() {
    let mut enc = GS1Encoder::new().unwrap();
    enc.set_ai_data_str("(01)12312312312319(10)LOT1(99)Z").unwrap();
    enc.set_sym(Symbology::Qr).unwrap();
    let scan = enc.get_scan_data().unwrap();
    assert_eq!(scan, "]Q3011231231231231910LOT1\u{1d}99Z");

    let mut enc2 = GS1Encoder::new().unwrap();
    enc2.set_scan_data(&scan).unwrap();
    assert_eq!(enc2.get_sym(), Symbology::Qr);
    assert_eq!(enc2.get_ai_data_str().unwrap(), "(01)12312312312319(10)LOT1(99)Z");
}

#[test]
fn scan_data_unknown_prefix() {
    let mut enc = GS1Encoder::new().unwrap();
    let err = enc.set_scan_data("]x9WHATEVER").unwrap_err();
    assert!(matches!(err, GS1EncoderError::GS1ScanDataError(_)));
}

#[test]
fn scan_data_digital_link_payload() {
    let mut enc = GS1Encoder::new().unwrap();
    enc.set_scan_data("]Q1https://id.gs1.org/01/12312312312319?99=A")
        .unwrap();
    assert_eq!(enc.get_sym(), Symbology::Qr);
    assert_eq!(enc.get_ai_data_str().unwrap(), "(01)12312312312319(99)A");
    assert_eq!(
        enc.get_data_str(),
        "https://id.gs1.org/01/12312312312319?99=A"
    );
}

#[test]
fn failed_set_preserves_state() {
    let mut enc = GS1Encoder::new().unwrap();
    enc.set_data_str("^99KEEP").unwrap();
    let err = enc.set_data_str("^011234567890128399ABC").unwrap_err();
    assert!(matches!(err, GS1EncoderError::GS1ParameterError(_)));
    assert_eq!(enc.get_data_str(), "^99KEEP");
    let err = enc.set_ai_data_str("(01)123").unwrap_err();
    assert!(matches!(err, GS1EncoderError::GS1ParameterError(_)));
    assert_eq!(enc.get_data_str(), "^99KEEP");
}

#[test]
fn format_errors_are_reported() {
    let mut enc = GS1Encoder::new().unwrap();
    // value too long for its AI
    let err = enc
        .set_ai_data_str("(10)ABCDEFGHIJKLMNOPQRSTU")
        .unwrap_err();
    assert!(err.message().contains("length"), "{}", err.message());
    // character outside the numeric set
    let err = enc.set_ai_data_str("(11)2401XX").unwrap_err();
    assert!(err.message().contains("character"), "{}", err.message());
    // fixed-length value cut short
    let err = enc.set_data_str("^011231").unwrap_err();
    assert!(err.message().contains("short"), "{}", err.message());
    // unrecognised AI
    let err = enc.set_ai_data_str("(47)ABC").unwrap_err();
    assert!(err.message().contains("unrecognised"), "{}", err.message());
}

#[test]
fn value_length_bounds_are_exact() {
    let mut enc = GS1Encoder::new().unwrap();
    // exactly twenty characters: the largest a batch/lot value may be
    enc.set_ai_data_str("(01)12312312312319(10)ABCDEFGHIJKLMNOPQRST")
        .unwrap();
    assert_eq!(
        enc.get_hri(),
        vec!["(01) 12312312312319", "(10) ABCDEFGHIJKLMNOPQRST"]
    );
    // one more character crosses the bound
    let err = enc
        .set_ai_data_str("(01)12312312312319(10)ABCDEFGHIJKLMNOPQRSTU")
        .unwrap_err();
    assert!(matches!(err, GS1EncoderError::GS1ParameterError(_)));
}

#[test]
fn empty_element_string_is_rejected() {
    let mut enc = GS1Encoder::new().unwrap();
    let err = enc.set_data_str("^").unwrap_err();
    assert!(matches!(err, GS1EncoderError::GS1ParameterError(_)));
    let err = enc.set_ai_data_str("").unwrap_err();
    assert!(matches!(err, GS1EncoderError::GS1ParameterError(_)));
}

#[test]
fn free_resets_the_engine() {
    let mut enc = GS1Encoder::new().unwrap();
    enc.set_ai_data_str("(01)12312312312319").unwrap();
    enc.set_sym(Symbology::Qr).unwrap();
    enc.free();
    assert_eq!(enc.get_sym(), Symbology::NoSymbology);
    assert_eq!(enc.get_data_str(), "");
    assert!(enc.get_ai_data_str().is_none());
}

#[test]
fn numeric_unknown_query_params_are_ignored() {
    let mut enc = GS1Encoder::new().unwrap();
    enc.set_data_str("https://a/01/12312312312319?47=Z&99=OK").unwrap();
    assert_eq!(enc.get_dl_ignored_query_params(), vec!["47=Z"]);
    assert_eq!(enc.get_hri(), vec!["(01) 12312312312319", "(99) OK"]);
}
