use radio::track::{
    add_track_to_conn, keep_forwarding, keep_indicating, local_track_id, new_track_id,
    picture_loss, senders_to_remove, stream_id, PictureLoss, PliWrite, RtpWrite, PLI_PERIOD_SECS,
};

fn senders(names: &[Option<&str>]) -> Vec<Option<String>> {
    names.iter().map(|n| n.map(|s| s.to_owned())).collect()
}

#[test]
fn track_is_named_for_its_speaker() {
    assert_eq!(local_track_id("alice", "1"), "alice-1");
    assert_eq!(local_track_id("", ""), "-");
    assert_eq!(stream_id(), "webrtc-rs");
}

#[test]
fn new_track_ends_in_a_random_uuid() {
    let id = new_track_id("alice");
    let rest = id.strip_prefix("alice-").unwrap();
    assert_eq!(rest.len(), 36);
    for (i, c) in rest.chars().enumerate() {
        match i {
            8 | 13 | 18 | 23 => assert_eq!(c, '-'),
            14 => assert_eq!(c, '4'),
            19 => assert!("89ab".contains(c)),
            _ => assert!("0123456789abcdef".contains(c)),
        }
    }
    assert_ne!(id, new_track_id("alice"));
}

#[test]
fn track_is_added_once() {
    let track = "a-1".to_owned();
    assert!(add_track_to_conn(&senders(&[]), &track));
    assert!(add_track_to_conn(&senders(&[None, Some("a-2"), Some("a-")]), &track));
    assert!(!add_track_to_conn(&senders(&[None, Some("b-1"), Some("a-1")]), &track));
}

#[test]
fn senders_of_one_who_left() {
    let found = senders_to_remove(
        &senders(&[Some("a-1"), None, Some("b-1"), Some("ab-1"), Some("a"), Some("")]),
        &"a".to_owned(),
    );
    assert_eq!(found, vec![0, 3, 4]);
    assert_eq!(senders_to_remove(&senders(&[Some("b-a")]), &"a".to_owned()), Vec::<usize>::new());
    assert_eq!(senders_to_remove(&senders(&[Some("é-1")]), &"é".to_owned()), vec![0]);
}

#[test]
fn only_a_lasting_failure_ends_forwarding() {
    assert!(keep_forwarding(RtpWrite::Written));
    assert!(keep_forwarding(RtpWrite::ClosedPipe));
    assert!(!keep_forwarding(RtpWrite::Failed));
}

#[test]
fn indications_end_with_a_failure_or_the_connection() {
    assert_eq!(PLI_PERIOD_SECS, 3);
    assert!(keep_indicating(PliWrite::Sent));
    assert!(!keep_indicating(PliWrite::Failed));
    assert!(!keep_indicating(PliWrite::Gone));
    assert_eq!(picture_loss(7), PictureLoss { sender_ssrc: 0, media_ssrc: 7 });
}
