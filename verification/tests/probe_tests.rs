use ws_echo::probe::{parse_probe, Probe};

#[test]
fn plain_probe_parses() {
    assert_eq!(parse_probe("{\"seq\":1,\"ts\":2}"), Some(Probe { seq: 1, ts: 2 }));
}

#[test]
fn whitespace_between_tokens_is_allowed() {
    let text = " \t{ \"seq\" : 10 ,\n \"ts\" : 20 }\r\n";
    assert_eq!(parse_probe(text), Some(Probe { seq: 10, ts: 20 }));
}

#[test]
fn members_parse_in_either_order() {
    assert_eq!(parse_probe("{\"ts\":2,\"seq\":1}"), Some(Probe { seq: 1, ts: 2 }));
}

#[test]
fn zero_values_parse() {
    assert_eq!(parse_probe("{\"seq\":0,\"ts\":0}"), Some(Probe { seq: 0, ts: 0 }));
}

#[test]
fn largest_word_parses_and_one_more_does_not() {
    assert_eq!(
        parse_probe("{\"seq\":18446744073709551615,\"ts\":1}"),
        Some(Probe { seq: u64::MAX, ts: 1 })
    );
    assert_eq!(parse_probe("{\"seq\":18446744073709551616,\"ts\":1}"), None);
}

#[test]
fn leading_zeros_are_rejected() {
    assert_eq!(parse_probe("{\"seq\":01,\"ts\":2}"), None);
}

#[test]
fn signs_and_fractions_are_rejected() {
    assert_eq!(parse_probe("{\"seq\":-1,\"ts\":2}"), None);
    assert_eq!(parse_probe("{\"seq\":1.5,\"ts\":2}"), None);
}

#[test]
fn missing_member_is_rejected() {
    assert_eq!(parse_probe("{\"seq\":1}"), None);
}

// Parsing is strict: a probe carries exactly the two known members, and a
// message with extras is treated as ordinary (untracked) text.
#[test]
fn extra_member_is_rejected() {
    assert_eq!(parse_probe("{\"seq\":1,\"ts\":2,\"x\":3}"), None);
}

#[test]
fn duplicate_keys_are_rejected() {
    assert_eq!(parse_probe("{\"seq\":1,\"seq\":2}"), None);
}

#[test]
fn unknown_keys_are_rejected() {
    assert_eq!(parse_probe("{\"sequence\":1,\"ts\":2}"), None);
    assert_eq!(parse_probe("{\"SEQ\":1,\"ts\":2}"), None);
}

#[test]
fn escapes_in_keys_are_rejected() {
    assert_eq!(parse_probe("{\"s\\u0065q\":1,\"ts\":2}"), None);
}

#[test]
fn trailing_text_is_rejected() {
    assert_eq!(parse_probe("{\"seq\":1,\"ts\":2} x"), None);
}

#[test]
fn non_object_inputs_are_rejected() {
    assert_eq!(parse_probe(""), None);
    assert_eq!(parse_probe("   "), None);
    assert_eq!(parse_probe("42"), None);
    assert_eq!(parse_probe("[1,2]"), None);
    assert_eq!(parse_probe("{\"seq\":\"1\",\"ts\":2}"), None);
}

#[test]
fn unterminated_object_is_rejected() {
    assert_eq!(parse_probe("{\"seq\":1,\"ts\":2"), None);
}
