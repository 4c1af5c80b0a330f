use terin::error::{decode_failure, raise, Failure, Handler, Kind};

#[test]
fn each_kind_has_its_message() {
    assert_eq!(
        raise(Kind::InvalidOption, "x").message,
        "Option `'x'` was not recognized, try `'--help'` to see all options"
    );
    assert_eq!(
        raise(Kind::OptionsTooSimilar, "a").message,
        "There are too many options begining with `'a'`, can't assign a short name"
    );
    assert_eq!(
        raise(Kind::SchemaExtractionFailure, "[]").message,
        "The record `'[]'` is not a flat object, can't derive its options"
    );
    assert_eq!(raise(Kind::DecodeFailure, "as it is").message, "as it is");
}

#[test]
fn a_failure_ends_the_process_with_status_one() {
    let failure = raise(Kind::InvalidOption, "x");
    assert_eq!(failure.kind, Kind::InvalidOption);
    assert_eq!(failure.exit_code, 1);
}

#[test]
fn the_complaint_speaks_of_options_and_leaves_the_position_out() {
    let failure = decode_failure("missing field `index` at line 1 column 14");
    assert_eq!(failure.kind, Kind::DecodeFailure);
    assert_eq!(failure.message, "missing required option `index` ");
    assert_eq!(failure.exit_code, 1);
    assert_eq!(
        decode_failure("unknown field `x`, expected field `y`").message,
        "unknown required option `x`, expected required option `y`"
    );
    assert_eq!(decode_failure("at line 1").message, "");
    assert_eq!(decode_failure("").message, "");
}

#[test]
fn a_value_is_handed_through() {
    let fine: Result<u8, Failure> = Ok(3);
    assert_eq!(fine.handle(), Ok(3));
    let decoded: Result<u8, serde_json::Error> = serde_json::from_str("7");
    assert_eq!(decoded.handle(), Ok(7));
}

#[test]
fn a_failure_is_handed_through() {
    let failed: Result<u8, Failure> = Err(raise(Kind::InvalidOption, "x"));
    assert_eq!(failed.handle(), Err(raise(Kind::InvalidOption, "x")));
}

#[test]
fn the_error_of_the_decoder_becomes_a_decode_failure() {
    let decoded: Result<serde_json::Value, serde_json::Error> =
        serde_json::from_str("{ \"a\":, \"b\": 5 }");
    let failure = decoded.handle().unwrap_err();
    assert_eq!(failure.kind, Kind::DecodeFailure);
    assert_eq!(failure.message, "expected value ");
    assert_eq!(failure.exit_code, 1);
    let decoded: Result<u8, serde_json::Error> = serde_json::from_str("300");
    let failure = decoded.handle().unwrap_err();
    assert_eq!(failure.kind, Kind::DecodeFailure);
    assert_eq!(failure.message, "invalid value: integer `300`, expected u8 ");
}
