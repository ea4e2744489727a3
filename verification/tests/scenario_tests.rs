//! The whole flow on fixed wire bodies: list, select, read, render,
//! and name the artifact — with the path stable across re-selection.

use secmail::addr::MailAddr;
use secmail::html::gen_html_for_message;
use secmail::menu::{find_option, menu_options};
use secmail::osm::{get_messages, read_message, read_message_url, MessageId};
use secmail::tmp_dir::get_tmp_file_path;

#[test]
fn listing_to_artifact_end_to_end() {
    let mailbox = MailAddr { login: "me".to_string(), domain: "1secmail.com".to_string() };

    // the listing call returns one summary
    let listing = "[{\"id\":1,\"from\":\"x@y.com\",\"subject\":\"Hello\",\"date\":\"2023-01-01 00:00:00\"}]";
    let messages = get_messages(listing).unwrap();
    assert_eq!(messages.len(), 1);
    assert_eq!(messages[0].id, MessageId(1));
    assert_eq!(messages[0].from.to_text(), "x@y.com");
    assert_eq!(messages[0].subject, "Hello");
    assert_eq!(messages[0].date.format(), "2023-01-01 00:00:00");

    // the user picks it from the menu
    let menu = menu_options(&messages);
    let chosen = menu[0].clone();
    let index = find_option(&menu, &chosen).unwrap();
    assert_eq!(index, 0);
    let summary = &messages[index];

    // selecting it reads the message through its id
    let url = read_message_url(&mailbox, summary.id);
    assert_eq!(
        url,
        "https://www.1secmail.com/api/v1/?action=readMessage&login=me&domain=1secmail.com&id=1"
    );
    let response = "{\"from\":\"x@y.com\",\"subject\":\"Hello\",\"date\":\"2023-01-01 00:00:00\",\"attachments\":[],\"body\":\"<b>hi</b>\"}";
    let message = read_message(response).unwrap();

    // the rendered artifact holds the message's fields
    let html = gen_html_for_message(&message);
    assert!(html.contains("Hello"));
    assert!(html.contains("x@y.com"));
    assert!(html.contains("2023-01-01 00:00:00"));
    assert!(html.contains("<b>hi</b>"));

    // the artifact path is deterministic and reusable on re-selection
    let first_path = get_tmp_file_path(summary);
    let relisted = get_messages(listing).unwrap();
    let second_path = get_tmp_file_path(&relisted[0]);
    assert_eq!(first_path, second_path);
}
