use udx710_backend::telephony::{forwarding_property, listed_call_direction, sets_no_reply_timeout};

#[test]
fn listed_calls_are_incoming_only_in_state_incoming() {
    assert_eq!(listed_call_direction("incoming"), "incoming");
    assert_eq!(listed_call_direction("alerting"), "outgoing");
    assert_eq!(listed_call_direction("active"), "outgoing");
}

#[test]
fn forwarding_kinds_map_to_properties() {
    assert_eq!(forwarding_property("unconditional"), Some("VoiceUnconditional"));
    assert_eq!(forwarding_property("busy"), Some("VoiceBusy"));
    assert_eq!(forwarding_property("noreply"), Some("VoiceNoReply"));
    assert_eq!(forwarding_property("notreachable"), Some("VoiceNotReachable"));
    assert_eq!(forwarding_property("always"), None);
}

#[test]
fn no_reply_timeout_only_with_noreply_and_a_timeout() {
    assert!(sets_no_reply_timeout("noreply", Some(30)));
    assert!(!sets_no_reply_timeout("noreply", None));
    assert!(!sets_no_reply_timeout("busy", Some(30)));
}
