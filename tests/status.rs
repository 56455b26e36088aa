use pigg::info_row::InfoRow;
use pigg::status::StatusMessage::{Error, Info, Warning};
use pigg::status::StatusMessageQueue;

#[test]
fn errors_first() {
    let mut queue: StatusMessageQueue = Default::default();

    queue.add_message(Info("shown".into()));
    assert_eq!(queue.current_message(), &Some(Info("shown".into())));

    queue.add_message(Info("last".into()));
    queue.add_message(Error("first".into(), "Details".into()));
    queue.add_message(Warning("middle".into()));
    assert_eq!(queue.queue_len(), 3);

    assert!(queue.showing_info_message());

    queue.clear_message();
    assert_eq!(
        queue.current_message(),
        &Some(Error("first".into(), "Details".into()))
    );
}

#[test]
fn messages_leave_by_importance() {
    let mut queue = StatusMessageQueue::new();
    queue.add_message(Warning("shown".into()));
    queue.add_message(Info("info".into()));
    queue.add_message(Warning("warning".into()));
    queue.add_message(Error("error".into(), "d".into()));
    assert!(!queue.showing_info_message());
    queue.clear_message();
    assert_eq!(queue.current_message(), &Some(Error("error".into(), "d".into())));
    queue.clear_message();
    assert_eq!(queue.current_message(), &Some(Warning("warning".into())));
    queue.clear_message();
    assert_eq!(queue.current_message(), &Some(Info("info".into())));
    assert!(queue.showing_info_message());
    queue.clear_message();
    assert_eq!(queue.current_message(), &None);
    assert_eq!(queue.queue_len(), 0);
}

#[test]
fn message_text() {
    assert_eq!(Error("short".into(), "long".into()).text(), "short");
    assert_eq!(Warning("w".into()).text(), "w");
    assert_eq!(Info("i".into()).text(), "i");
}

#[test]
fn info_row_shows_first_message() {
    let mut row = InfoRow::new();
    assert_eq!(row.messages().current_message(), &None);
    row.add_info_message(Info("one".into()));
    row.add_info_message(Error("two".into(), "x".into()));
    assert_eq!(row.messages().current_message(), &Some(Info("one".into())));
    row.clear_message();
    assert_eq!(row.messages().current_message(), &Some(Error("two".into(), "x".into())));
}
