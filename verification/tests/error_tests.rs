use levelance::decode;
use levelance::parse;
use levelance::DecodeError;

#[test]
fn too_short_when_stripped_length_is_below_five() {
    assert!(matches!(decode("LPSL"), Err(DecodeError::TooShort)));
}

#[test]
fn too_short_counts_length_without_delimiters() {
    // eight characters, but only four once the delimiters are stripped
    assert!(matches!(decode("L.P.S.L."), Err(DecodeError::TooShort)));
}

#[test]
fn bad_envelope_on_wrong_start_marker() {
    assert!(matches!(decode("LPXAAALP"), Err(DecodeError::BadEnvelope)));
}

#[test]
fn bad_envelope_on_wrong_end_marker() {
    assert!(matches!(decode("LPSAAAPL"), Err(DecodeError::BadEnvelope)));
}

#[test]
fn bad_group_length_on_two_symbol_span() {
    match decode("LPSAALP") {
        Err(DecodeError::BadGroupLength(spans)) => {
            assert_eq!(spans, vec!["AA".to_string()]);
        }
        other => panic!("expected BadGroupLength, got {:?}", other),
    }
}

#[test]
fn bad_group_length_collects_every_offending_span() {
    match decode("LPSAA.AAAA.A.BBBLP") {
        Err(DecodeError::BadGroupLength(spans)) => {
            assert_eq!(
                spans,
                vec!["AA".to_string(), "AAAA".to_string(), "A".to_string()]
            );
        }
        other => panic!("expected BadGroupLength, got {:?}", other),
    }
}

#[test]
fn bad_group_length_wins_over_invalid_symbol() {
    assert!(matches!(
        decode("LPSA0LP"),
        Err(DecodeError::BadGroupLength(_))
    ));
}

#[test]
fn invalid_symbol_on_digit_in_body() {
    assert!(matches!(
        decode("LPS0AALP"),
        Err(DecodeError::InvalidSymbol('0'))
    ));
}

#[test]
fn invalid_symbol_on_lowercase_letter() {
    assert!(matches!(
        decode("LPSaAALP"),
        Err(DecodeError::InvalidSymbol('a'))
    ));
}

#[test]
fn invalid_symbol_reports_first_offending_character() {
    assert!(matches!(
        decode("LPSAxAByBLP"),
        Err(DecodeError::InvalidSymbol('x'))
    ));
}

#[test]
fn unrecognized_multibyte_character_is_invalid_symbol() {
    assert!(matches!(
        decode("LPS\u{e9}AALP"),
        Err(DecodeError::InvalidSymbol('\u{e9}'))
    ));
}

#[test]
fn decode_is_deterministic() {
    let first = decode("LPSAAA.BBB.JJJLP").unwrap();
    let second = decode("LPSAAA.BBB.JJJLP").unwrap();
    assert_eq!(first, second);
}

#[test]
fn every_group_renders_one_digit() {
    // groups of every symbol, decoded against the same stripped length
    let out = decode("LPSAAABBBCCCDDDEEEFFFGGGHHHIIIJJJKKKLLLMMMNNNOOOPPPQQQRRRSSSTTTUUUVVVWWWXXXYYYZZZLP").unwrap();
    assert_eq!(out.len(), 26);
    assert!(out.chars().all(|c| c.is_ascii_digit()));
}

#[test]
fn parse_exposes_tokens_rendered_in_order() {
    let chunks = parse("LPSAAA.BBBLP").unwrap();
    let parts = chunks.decode();
    assert_eq!(parts, vec!["3".to_string(), ".0".to_string()]);
}

#[test]
fn parse_renders_standalone_delimiters() {
    let chunks = parse("LPS..AAALP").unwrap();
    let parts = chunks.decode();
    assert_eq!(parts, vec![".".to_string(), ".3".to_string()]);
}

#[test]
fn delimiters_only_pass_through() {
    assert_eq!("....", decode("LPS....LP").unwrap());
}

#[test]
fn stripped_length_feeds_the_rules() {
    // J adds the stripped length: with the three dots stripped the length is
    // 11, not 14, so each J contributes 11 and the first group is 33 mod 10
    assert_eq!("3.0..", decode("LPSJJJ.BBB..LP").unwrap());
}
