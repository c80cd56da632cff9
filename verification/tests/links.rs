//! Links clicked in a message.

use ruston_mail::links::PendingLink;

#[test]
fn only_web_and_mail_links_are_offered() {
    let web = PendingLink::parse(" https://Example.com/path?x=1 ").unwrap();
    assert_eq!(web.url, "https://example.com/path?x=1");
    assert_eq!(web.target, "example.com");

    let mail = PendingLink::parse("mailto:alex@example.com").unwrap();
    assert_eq!(mail.target, "alex@example.com");

    assert!(PendingLink::parse("javascript:alert(1)").is_none());
    assert!(PendingLink::parse("file:///etc/passwd").is_none());
    assert!(PendingLink::parse("not a link").is_none());
}
