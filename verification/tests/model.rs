//! The mail model: labels a conversation carries, what an action does to
//! a row, and the text of a structured body.

use ruston_mail::model::{
    BlockKind, ConversationDetail, Folder, MailAction, MailboxError, MessageBody, RichBlock, RichBody, RichSpan,
};

#[test]
fn a_conversation_remembers_the_labels_it_carries() {
    let receipts = Folder::label("wN2", "Receipts");
    let mut detail = ConversationDetail {
        id: "c".to_owned(),
        subject: None,
        messages: Vec::new(),
        labels: vec!["0".to_owned()],
    };

    assert!(!detail.carries(&receipts));
    detail.set_label(&receipts, true);
    assert!(detail.carries(&receipts));

    // Giving the same label again records it once, not twice.
    detail.set_label(&receipts, true);
    assert_eq!(detail.labels.iter().filter(|id| *id == "wN2").count(), 1);

    detail.set_label(&receipts, false);
    assert!(!detail.carries(&receipts));
    // Proton's own folders are named in the Proton layer, so asking about
    // one here answers no rather than guessing at an identifier.
    assert!(!detail.carries(&Folder::inbox()));
    // Through all of it the folder the mail sits in is left alone.
    assert_eq!(detail.labels, ["0"]);
}

#[test]
fn a_label_change_is_not_a_move() {
    let action = MailAction::SetLabel {
        label: Folder::label("wN2", "Receipts"),
        on: true,
    };

    // Nothing left its folder, so there is nothing to take back.
    assert_eq!(action.destination(), None);
}

fn spans(text: &str) -> Vec<RichSpan> {
    vec![RichSpan {
        text: text.to_owned(),
        ..RichSpan::default()
    }]
}

fn block(kind: BlockKind, quote_depth: u8) -> RichBlock {
    RichBlock { kind, quote_depth }
}

#[test]
fn plain_text_keeps_structure_one_block_per_line() {
    let body = RichBody {
        blocks: vec![
            block(
                BlockKind::Heading {
                    level: 1,
                    spans: spans("Title"),
                },
                0,
            ),
            block(BlockKind::Paragraph(spans("Hello")), 0),
            block(
                BlockKind::ListItem {
                    marker: "•".to_owned(),
                    depth: 1,
                    spans: spans("One"),
                },
                0,
            ),
            block(
                BlockKind::Image {
                    description: "Logo".to_owned(),
                },
                0,
            ),
            block(BlockKind::Rule, 0),
            block(BlockKind::Paragraph(spans("Quoted")), 1),
            block(
                BlockKind::Preformatted("let x = 1;\n  indented".to_owned()),
                2,
            ),
        ],
    };

    assert_eq!(
        body.plain_text(),
        "Title\nHello\n• One\n[Image: Logo]\n---\n> Quoted\n> > let x = 1;\n> >   indented\n"
    );
}

#[test]
fn plain_text_covers_both_body_kinds() {
    let rich = MessageBody::Rich(RichBody {
        blocks: vec![block(BlockKind::Paragraph(spans("Hi")), 0)],
    });

    assert_eq!(MessageBody::PlainText("Hi".into()).plain_text(), "Hi");
    assert_eq!(rich.plain_text(), "Hi\n");
    assert_eq!(RichBody::default().plain_text(), "");
}


#[test]
fn each_failure_is_told_where_it_happened() {
    assert_eq!(
        MailboxError::Connection.conversation_message(),
        "Ruston Mail could not connect to load this conversation."
    );
    assert_eq!(
        MailboxError::Service.action_message(),
        "Proton Mail could not update this conversation. Try again later."
    );
    assert_eq!(
        MailboxError::SessionExpired.action_message(),
        "Your Proton session has expired. Sign in again."
    );
}
