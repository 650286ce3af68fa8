use macp::codec::{decode, encode};
use macp::error::MacpError;
use macp::mode::handoff_state::HandoffDisposition;
use macp::mode::multi_round::{parse_contribute_value, MultiRoundMode};
use macp::mode::multi_round_state::MultiRoundState;
use macp::security::{ConfigError, SecurityLayer};
use macp::text_map::TextMap;

fn rounds(text: &str) -> Result<MultiRoundState, MacpError> {
    MultiRoundMode::decode_state(text.as_bytes())
}

#[test]
fn a_field_is_named_once() {
    assert!(rounds(r#"{"round":1,"participants":[],"contributions":{}}"#).is_ok());
    assert_eq!(
        rounds(r#"{"round":1,"round":1,"participants":[],"contributions":{}}"#).unwrap_err(),
        MacpError::InvalidModeState
    );
    // Also where it has a default.
    assert!(rounds(
        r#"{"round":1,"participants":[],"contributions":{},"converged":true,"converged":true}"#
    )
    .is_err());
    // What no field has for a name may come as often as it likes.
    assert!(rounds(r#"{"x":1,"round":1,"x":2,"participants":[],"contributions":{}}"#).is_ok());
    assert_eq!(decode::<HandoffDisposition>(br#"{"Accepted":null}"#), Some(HandoffDisposition::Accepted));
    assert_eq!(decode::<HandoffDisposition>(br#"{"Accepted":null,"Accepted":null}"#), None);
    assert_eq!(
        parse_contribute_value(br#"{"value":"a","other":1}"#, 2),
        Ok("a".to_string())
    );
    assert_eq!(
        parse_contribute_value(br#"{"value":"a","value":"b"}"#, 2),
        Err(MacpError::InvalidPayload)
    );
}

#[test]
fn of_the_entries_of_a_map_the_last_counts() {
    let read = rounds(r#"{"round":1,"participants":[],"contributions":{"a":"x","a":"y"}}"#).unwrap();
    assert_eq!(read.contributions.get("a").map(String::as_str), Some("y"));
    assert_eq!(read.contributions.len(), 1);
    assert!(rounds(r#"{"round":1,"participants":[],"contributions":{"a":1,"a":"y"}}"#).is_err());
}

#[test]
fn members_that_no_field_names_are_passed_over() {
    let with = |member: &str| {
        rounds(&format!(
            r#"{{"round":1,{member},"participants":[],"contributions":{{}}}}"#
        ))
    };
    assert!(with(r#""x":1e999"#).is_ok());
    assert!(with(r#""x":"\ud800""#).is_ok());
    assert!(with(r#""x":{"\ud800":[]}"#).is_ok());
    assert!(with(&format!(r#""x":{}{}"#, "[".repeat(100_000), "]".repeat(100_000))).is_ok());
    // It must be JSON all the same, and its name a text.
    assert!(with(r#""x":01"#).is_err());
    assert!(with(r#""x":[}"#).is_err());
    assert!(with(r#""\ud800":1"#).is_err());
    assert!(with(r#"1:1"#).is_err());
    // A field is held to what it can hold.
    assert!(with(r#""convergence_type":"\ud800""#).is_err());
    assert!(with(r#""converged":1e999"#).is_err());
}

#[test]
fn space_makes_no_difference_and_nothing_may_follow() {
    let text = " {\n\t\"round\" : 7 ,\r\"participants\" : [ \"a\" , \"b\" ] , \
                \"contributions\" : { \"a\" : \"x\" } } ";
    let read = rounds(text).unwrap();
    assert_eq!(read.round, 7);
    assert_eq!(read.participants, ["a", "b"]);
    assert_eq!(read.contributions.get("a").map(String::as_str), Some("x"));
    assert!(rounds(&format!("{text}x")).is_err());
    assert!(rounds(&format!("{text},")).is_err());
    assert!(rounds(r#"{"round":1,"participants":[],"contributions":{},}"#).is_err());
    assert!(rounds(r#"{"round":1,"participants":["a",],"contributions":{}}"#).is_err());
    assert!(rounds(r#"{"round":1 "participants":[],"contributions":{}}"#).is_err());
    assert!(rounds("").is_err());
    assert!(rounds(" ").is_err());
}

#[test]
fn records_may_be_lists_of_their_fields() {
    let read = rounds(r#"[3,["a"],{"a":"x"},"all_equal",true]"#).unwrap();
    assert_eq!(read.round, 3);
    assert!(read.converged);
    assert!(rounds(r#"[3,[],{}]"#).is_ok());
    assert!(rounds(r#"[3,[]]"#).is_err());
    assert!(rounds(r#"[3,[],{},"",true,1]"#).is_err());
}

#[test]
fn values_read_back_from_their_texts() {
    let mut map: TextMap<Vec<String>> = TextMap::new();
    map.insert("},\":\\".into(), vec!["[".into(), String::new(), "\u{1F600}\n".into()]);
    map.insert(String::new(), vec![]);
    let text = encode(&map);
    let read = decode::<TextMap<Vec<String>>>(&text).unwrap();
    assert_eq!(read, map);
    assert_eq!(decode::<u64>(b" 18446744073709551615 "), Some(u64::MAX));
    assert_eq!(decode::<i64>(b"-9223372036854775808"), Some(i64::MIN));
    assert_eq!(decode::<u64>(b"1.0"), None);
    assert_eq!(decode::<u64>(b"1 1"), None);
}

#[test]
fn entries_for_tokens_name_a_field_once() {
    let parse = SecurityLayer::parse_identities;
    let twice = r#"[{"token":"t","sender":"a","sender":"b"}]"#;
    assert_eq!(parse(twice).unwrap_err(), ConfigError::Shape);
    let twice = r#"{"tokens":[],"tokens":[]}"#;
    assert_eq!(parse(twice).unwrap_err(), ConfigError::Shape);
    // A record with one field may be a list of one, which is no list of entries.
    let nested = parse(r#"[[{"token":"t","sender":"a"}]]"#).unwrap();
    assert_eq!(nested.get("t").unwrap().sender, "a");
    // The whole text must be a document.
    let beyond = r#"[{"token":"t","sender":"a","x":1e999}]"#;
    assert_eq!(parse(beyond).unwrap_err(), ConfigError::Syntax);
    let listed = parse(r#"[["t","a",["m"]]]"#);
    assert_eq!(listed.unwrap_err(), ConfigError::Shape);
    let listed = parse(r#"[["t","a",["m"],true,null,false,false]]"#).unwrap();
    assert!(listed.get("t").unwrap().allowed_modes.is_some());
}
