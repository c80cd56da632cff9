//! Work for the interface's own thread.

use ruston_mail::effect::UiEffect;

#[test]
fn visual_effects_are_distinguished_from_non_visual() {
    assert!(UiEffect::FocusSearch.is_visual());
    assert!(UiEffect::ScrollReaderTop.is_visual());
    assert!(UiEffect::RevealConversation("conv-1".into()).is_visual());

    assert!(!UiEffect::CopyText("hello".into()).is_visual());
    assert!(
        !UiEffect::NotifyNewMail {
            sender: "a".into(),
            subject: "b".into(),
        }
        .is_visual()
    );
    assert!(!UiEffect::PickComposeAttachments.is_visual());
}
