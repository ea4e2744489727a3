use secmail::addr::MailAddr;
use secmail::html::gen_html_for_message;
use secmail::menu::{find_option, menu_label, menu_options};
use secmail::osm::{Message, MessageId, MessageInfo};
use secmail::timestamp::Timestamp;
use secmail::tmp_dir::{get_tmp_file_path, key_for, tmp_dir_path};

fn sample_summary() -> MessageInfo {
    MessageInfo {
        id: MessageId(1),
        from: MailAddr { login: "x".to_string(), domain: "y.com".to_string() },
        subject: "Hello".to_string(),
        date: Timestamp::parse("2023-01-01 00:00:00").unwrap(),
    }
}

#[test]
fn render_substitutes_all_fields_literally() {
    let msg = Message {
        from: MailAddr { login: "a".to_string(), domain: "b.com".to_string() },
        subject: "Hi".to_string(),
        date: Timestamp::parse("2023-05-01 10:00:00").unwrap(),
        attachments: Vec::new(),
        body: "<p>x</p>".to_string(),
    };
    let html = gen_html_for_message(&msg);
    assert!(html.contains("Hi"));
    assert!(html.contains("a@b.com"));
    assert!(html.contains("2023-05-01 10:00:00"));
    assert!(html.contains("<p>x</p>"));
    assert!(html.starts_with("<!DOCTYPE html>"));
    assert!(html.ends_with("</html>\n"));
}

#[test]
fn render_is_a_single_pass() {
    // A body spelling the template's own fragment names stays as it is.
    let msg = Message {
        from: MailAddr { login: "a".to_string(), domain: "b.com".to_string() },
        subject: "From: ".to_string(),
        date: Timestamp::parse("2023-05-01 10:00:00").unwrap(),
        attachments: Vec::new(),
        body: "Date: ".to_string(),
    };
    let html = gen_html_for_message(&msg);
    assert!(html.contains("<h1>From: </h1>"));
    assert!(html.contains("<hr>\nDate: \n</body>"));
}

#[test]
fn cache_key_is_deterministic() {
    let k1 = key_for(&sample_summary());
    let k2 = key_for(&sample_summary());
    assert_eq!(k1, k2);
}

#[test]
fn cache_key_is_fixed_width_hex() {
    let k = key_for(&sample_summary());
    assert_eq!(k.len(), 16);
    assert!(k.chars().all(|c| c.is_ascii_hexdigit()));
}

#[test]
fn cache_key_differs_when_any_field_differs() {
    let base = sample_summary();
    let mut other_id = sample_summary();
    other_id.id = MessageId(2);
    let mut other_subject = sample_summary();
    other_subject.subject = "Hello!".to_string();
    let mut other_from = sample_summary();
    other_from.from.login = "z".to_string();
    let mut other_date = sample_summary();
    other_date.date = Timestamp::parse("2023-01-01 00:00:01").unwrap();
    let k = key_for(&base);
    assert_ne!(k, key_for(&other_id));
    assert_ne!(k, key_for(&other_subject));
    assert_ne!(k, key_for(&other_from));
    assert_ne!(k, key_for(&other_date));
}

#[test]
fn artifact_path_is_stable_under_the_tmp_dir() {
    let first_path = get_tmp_file_path(&sample_summary());
    let second_path = get_tmp_file_path(&sample_summary());
    assert_eq!(first_path, second_path);
    let key = key_for(&sample_summary());
    assert_eq!(first_path, format!("{}/{}.html", tmp_dir_path(), key));
    assert!(first_path.starts_with("/tmp/osm/"));
    assert!(first_path.ends_with(".html"));
}

#[test]
fn menu_lists_labels_then_refresh() {
    let msgs = vec![sample_summary()];
    assert_eq!(menu_label(&msgs[0]), "Hello (from x@y.com)");
    let options = menu_options(&msgs);
    assert_eq!(options.len(), 2);
    assert_eq!(options[0], "Hello (from x@y.com)");
    assert_eq!(options[1], "Refresh Messages");
}

#[test]
fn find_option_resolves_a_choice() {
    let msgs = vec![sample_summary()];
    let options = menu_options(&msgs);
    assert_eq!(find_option(&options, &options[0].clone()), Some(0));
    assert_eq!(find_option(&options, &"Refresh Messages".to_string()), Some(1));
    assert_eq!(find_option(&options, &"absent".to_string()), None);
}

#[test]
fn selecting_a_summary_names_its_read_url() {
    // A listed summary, selected, is read back through its own id.
    let mailbox = MailAddr { login: "x".to_string(), domain: "y.com".to_string() };
    let m = sample_summary();
    let url = secmail::osm::read_message_url(&mailbox, m.id);
    assert_eq!(
        url,
        "https://www.1secmail.com/api/v1/?action=readMessage&login=x&domain=y.com&id=1"
    );
    // ... and a second selection of the same summary reuses the same artifact path.
    let first_path = get_tmp_file_path(&m);
    let second_path = get_tmp_file_path(&sample_summary());
    assert_eq!(first_path, second_path);
}
