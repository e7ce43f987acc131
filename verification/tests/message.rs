use koharu::message::{attachment_ids, AttachmentError, BinaryAttachment, WebMessage};

#[test]
fn attachment_ids_are_javascript_safe_decimal_strings() {
    assert!(BinaryAttachment::new("18446744073709551615", [1_u8, 2].as_slice()).is_ok());
    assert_eq!(
        BinaryAttachment::new("not-a-number", [1_u8].as_slice()),
        Err(AttachmentError::InvalidId)
    );
}

#[test]
fn duplicate_attachments_are_rejected() {
    let first = BinaryAttachment::new("7", [1_u8].as_slice()).unwrap();
    let second = BinaryAttachment::new("7", [2_u8].as_slice()).unwrap();
    assert_eq!(
        WebMessage::with_attachments("{}", vec![first, second]),
        Err(AttachmentError::DuplicateId("7".into()))
    );
}

#[test]
fn empty_ids_are_refused() {
    assert_eq!(
        BinaryAttachment::new("", [1_u8].as_slice()),
        Err(AttachmentError::InvalidId)
    );
}

#[test]
fn attachments_keep_their_bytes() {
    let attachment = BinaryAttachment::new("12", [3_u8, 4].as_slice()).unwrap();
    assert_eq!(attachment.id(), "12");
    assert_eq!(attachment.bytes(), &[3_u8, 4]);
}

#[test]
fn the_first_repeated_id_is_named() {
    let a = BinaryAttachment::new("1", [1_u8].as_slice()).unwrap();
    let b = BinaryAttachment::new("2", [1_u8].as_slice()).unwrap();
    let c = BinaryAttachment::new("2", [1_u8].as_slice()).unwrap();
    let d = BinaryAttachment::new("1", [1_u8].as_slice()).unwrap();
    assert_eq!(
        WebMessage::with_attachments("{}", vec![a, b, c, d]),
        Err(AttachmentError::DuplicateId("2".into()))
    );
}

#[test]
fn plain_messages_carry_no_attachments() {
    let message = WebMessage::json("{\"a\":1}");
    assert_eq!(message.json, "{\"a\":1}");
    assert!(message.attachments.is_empty());
    assert_eq!(message.attachment_id_list(), "");
}

#[test]
fn attachment_ids_round_trip_between_processes() {
    let a = BinaryAttachment::new("10", [1_u8].as_slice()).unwrap();
    let b = BinaryAttachment::new("3", [2_u8].as_slice()).unwrap();
    let message = WebMessage::with_attachments("{}", vec![a, b]).unwrap();
    let list = message.attachment_id_list();
    assert_eq!(list, "10\u{1f}3");
    assert_eq!(attachment_ids(&list), vec!["10".to_owned(), "3".to_owned()]);
}

#[test]
fn empty_pieces_are_skipped_when_reading_ids() {
    assert_eq!(
        attachment_ids("\u{1f}4\u{1f}\u{1f}5\u{1f}"),
        vec!["4".to_owned(), "5".to_owned()]
    );
    assert!(attachment_ids("").is_empty());
}

#[test]
fn attachment_errors_have_messages() {
    assert_eq!(
        AttachmentError::InvalidId.message(),
        "binary attachment IDs must be non-empty decimal strings"
    );
    assert_eq!(
        AttachmentError::DuplicateId("7".into()).message(),
        "binary attachment ID 7 is duplicated"
    );
}
