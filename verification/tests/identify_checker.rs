//! The check a connection is identified with.
use mars_stn::longlink_identify_checker::{IdentifyBuffer, IdentifyMode, LongLinkIdentifyChecker};
use mars_stn::task::Task;

/// The checker asks, and the app answers: what the app writes is a buffer, a
/// hash and a cmdid, of which the cmdid is filled in already.
fn asks(
    checker: &mut LongLinkIdentifyChecker,
    app: impl FnOnce(&str, &mut Vec<u8>, &mut Vec<u8>, &mut u32) -> IdentifyMode,
) -> Option<(Vec<u8>, u32)> {
    let mut cmdid = checker.question()?;
    let mut buffer = Vec::new();
    let mut hash = Vec::new();
    let mode = app(
        checker.channel_id(),
        &mut buffer,
        &mut hash,
        &mut cmdid,
    );
    checker.get_identify_buffer(IdentifyBuffer {
        mode,
        buffer,
        hash,
        cmdid,
    })
}

#[test]
fn a_check_that_is_never_made_ends_the_asking() {
    let mut checker = LongLinkIdentifyChecker::new("default", false);
    let never = |_: &str, buffer: &mut Vec<u8>, hash: &mut Vec<u8>, cmdid: &mut u32| {
        buffer.extend_from_slice(b"identify");
        hash.extend_from_slice(b"hash");
        *cmdid = 17;
        IdentifyMode::CheckNever
    };

    assert!(asks(&mut checker, never).is_none());
    assert!(checker.has_checked());
    // and once it is checked, the app is not asked again
    assert_eq!(checker.question(), None);
    assert!(asks(&mut checker, |_, _, _, _| unreachable!()).is_none());
    // the hash is what the response will be judged against, so it stays
    assert_eq!(checker.hash_code(), b"hash");
}

#[test]
fn a_check_that_waits_for_the_next_connect_is_asked_again() {
    let mut checker = LongLinkIdentifyChecker::new("default", false);
    let next = |_: &str, buffer: &mut Vec<u8>, hash: &mut Vec<u8>, cmdid: &mut u32| {
        buffer.extend_from_slice(b"identify");
        hash.extend_from_slice(b"hash");
        *cmdid = 17;
        IdentifyMode::CheckNext
    };

    assert!(asks(&mut checker, next).is_none());
    assert!(!checker.has_checked());
    // the buffer the app filled does not go out, but the hash stays
    assert_eq!(checker.hash_code(), b"hash");
    assert_eq!(checker.cmd_id(), 0, "only a check that is made now sets it");
    assert_eq!(checker.question(), Some(0), "and the app is asked again");
}

#[test]
fn a_check_that_is_made_now_goes_out_with_its_cmdid() {
    let mut checker = LongLinkIdentifyChecker::new("default", false);
    let now = |_: &str, buffer: &mut Vec<u8>, hash: &mut Vec<u8>, cmdid: &mut u32| {
        buffer.extend_from_slice(b"identify");
        hash.extend_from_slice(b"hash");
        *cmdid = 17;
        IdentifyMode::CheckNow
    };

    assert_eq!(
        asks(&mut checker, now),
        Some((b"identify".to_vec(), 17))
    );
    assert_eq!(checker.cmd_id(), 17);
    assert_eq!(checker.hash_code(), b"hash");
    assert!(!checker.has_checked(), "only the response marks it checked");
}

#[test]
fn a_minor_long_link_hands_its_mask_to_the_app_before_it_writes() {
    let mut checker = LongLinkIdentifyChecker::new("minor", true);
    let mut seen = 0u32;
    // the mask is already in the cmdid the app is handed
    let (_buffer, cmdid) = asks(&mut checker, |channel, _, _, cmdid| {
        assert_eq!(channel, "minor");
        seen = *cmdid;
        IdentifyMode::CheckNow
    })
    .unwrap();
    assert_eq!(seen, Task::MINOR_LONGLINK_CMD_MASK);
    assert_eq!(cmdid, Task::MINOR_LONGLINK_CMD_MASK);
    assert_eq!(checker.cmd_id(), Task::MINOR_LONGLINK_CMD_MASK);

    // ... and an app that writes one of its own overwrites the mask
    let mut checker = LongLinkIdentifyChecker::new("minor", true);
    let answer = asks(&mut checker, |_, _, _, cmdid| {
        *cmdid = 17;
        IdentifyMode::CheckNow
    });
    assert_eq!(answer.unwrap().1, 17);
}

#[test]
fn the_response_is_the_one_that_was_asked_for() {
    let mut checker = LongLinkIdentifyChecker::new("default", false);
    let _ = asks(&mut checker, |_, _, hash, cmdid| {
        hash.extend_from_slice(b"hash");
        *cmdid = 17;
        IdentifyMode::CheckNow
    });
    checker.set_id(42);

    // the task ids have to match, and neither may be 0
    assert!(checker.is_identify_resp(42));
    assert!(!checker.is_identify_resp(43));
    assert!(!checker.is_identify_resp(0));

    // what the app judges a response by
    let judged = (
        checker.channel_id().to_owned(),
        b"resp".to_vec(),
        checker.hash_code().to_vec(),
    );
    assert!(checker.on_identify_resp(true));
    assert!(checker.has_checked());
    assert_eq!(checker.taskid(), 0, "the id is cleared by the response");
    assert_eq!(
        judged,
        ("default".to_owned(), b"resp".to_vec(), b"hash".to_vec())
    );
}

#[test]
fn a_response_the_app_refuses_leaves_the_connection_unchecked() {
    let mut checker = LongLinkIdentifyChecker::new("default", false);
    checker.set_id(42);

    assert!(!checker.on_identify_resp(false));
    assert!(!checker.has_checked());
    assert_eq!(checker.taskid(), 0, "the task id is cleared anyway");
}

#[test]
fn reset_asks_again() {
    let mut checker = LongLinkIdentifyChecker::new("default", false);
    let _ = asks(&mut checker, |_, _, _, _| IdentifyMode::CheckNever);
    assert!(checker.has_checked());

    checker.reset();
    assert!(!checker.has_checked());
    assert_eq!(checker.cmd_id(), 0);
    assert_eq!(checker.taskid(), 0);
    assert_eq!(checker.hash_code(), b"");
    // and the check is made again
    assert!(asks(&mut checker, |_, _, _, _| IdentifyMode::CheckNever).is_none());
    assert!(checker.has_checked());
}

#[test]
fn without_the_app_the_answer_is_ask_again_and_not_checked() {
    let mut checker = LongLinkIdentifyChecker::default();
    // an app that says nothing asks for the next connect
    assert!(checker.get_identify_buffer(IdentifyBuffer::next(Vec::new())).is_none());
    assert!(!checker.has_checked());
    assert!(!checker.on_identify_resp(false));
    assert!(!checker.has_checked());
}

#[test]
fn the_three_answers_an_app_can_give() {
    let now = IdentifyBuffer::now(b"b".to_vec(), b"h".to_vec(), 3);
    assert_eq!((now.mode, now.cmdid), (IdentifyMode::CheckNow, 3));
    let next = IdentifyBuffer::next(b"h".to_vec());
    assert_eq!((next.mode, next.buffer.len()), (IdentifyMode::CheckNext, 0));
    let never = IdentifyBuffer::never(b"h".to_vec());
    assert_eq!((never.mode, never.hash), (IdentifyMode::CheckNever, b"h".to_vec()));
}
