use secmail::addr::MailAddr;
use secmail::osm::{
    get_domain_list, get_domain_list_url, get_messages, get_messages_url, read_message,
    read_message_url, MessageId,
};
use secmail::timestamp::Timestamp;

#[test]
fn timestamp_decodes_wire_value() {
    let t = Timestamp::parse("2023-05-01 10:00:00").unwrap();
    assert_eq!(t.year, 2023);
    assert_eq!(t.month, 5);
    assert_eq!(t.day, 1);
    assert_eq!(t.hour, 10);
    assert_eq!(t.minute, 0);
    assert_eq!(t.second, 0);
    assert_eq!(t.to_unix(), 1682935200);
}

#[test]
fn timestamp_rejects_other_shapes() {
    assert!(Timestamp::parse("05/01/2023").is_none());
    assert!(Timestamp::parse("2023-05-01T10:00:00Z").is_none());
    assert!(Timestamp::parse("2023-05-01 10:00").is_none());
    assert!(Timestamp::parse("").is_none());
}

#[test]
fn timestamp_rejects_impossible_dates() {
    assert!(Timestamp::parse("2023-02-29 00:00:00").is_none());
    assert!(Timestamp::parse("2023-13-01 00:00:00").is_none());
    assert!(Timestamp::parse("2023-04-31 00:00:00").is_none());
    assert!(Timestamp::parse("2023-05-01 24:00:00").is_none());
    assert!(Timestamp::parse("2023-05-00 10:00:00").is_none());
}

#[test]
fn timestamp_accepts_leap_day() {
    let t = Timestamp::parse("2024-02-29 12:34:56").unwrap();
    assert_eq!(t.day, 29);
}

#[test]
fn timestamp_format_round_trips() {
    let t = Timestamp::parse("1999-12-31 23:59:59").unwrap();
    assert_eq!(t.format(), "1999-12-31 23:59:59");
}

#[test]
fn timestamp_epoch_start() {
    let t = Timestamp::parse("1970-01-01 00:00:00").unwrap();
    assert_eq!(t.to_unix(), 0);
}

#[test]
fn domain_list_decodes() {
    let ds = get_domain_list("[\"1secmail.com\",\"wwjmp.com\"]").unwrap();
    assert_eq!(ds, vec!["1secmail.com".to_string(), "wwjmp.com".to_string()]);
}

#[test]
fn domain_list_tolerates_whitespace() {
    let ds = get_domain_list(" [ \"a.com\" , \"b.net\" ] \n").unwrap();
    assert_eq!(ds, vec!["a.com".to_string(), "b.net".to_string()]);
}

#[test]
fn domain_list_may_be_empty() {
    let ds = get_domain_list("[]").unwrap();
    assert!(ds.is_empty());
}

#[test]
fn domain_list_rejects_malformed_bodies() {
    assert!(get_domain_list("").is_err());
    assert!(get_domain_list("{}").is_err());
    assert!(get_domain_list("[\"a.com\"").is_err());
    assert!(get_domain_list("[\"a.com\"] trailing").is_err());
    assert!(get_domain_list("[42]").is_err());
}

#[test]
fn message_list_decodes_one_summary() {
    let body = "[{\"id\":1,\"from\":\"x@y.com\",\"subject\":\"Hello\",\"date\":\"2023-01-01 00:00:00\"}]";
    let ms = get_messages(body).unwrap();
    assert_eq!(ms.len(), 1);
    assert_eq!(ms[0].id, MessageId(1));
    assert_eq!(ms[0].from.login, "x");
    assert_eq!(ms[0].from.domain, "y.com");
    assert_eq!(ms[0].subject, "Hello");
    assert_eq!(ms[0].date.year, 2023);
    assert_eq!(ms[0].date.month, 1);
}

#[test]
fn message_list_decodes_several_with_whitespace() {
    let body = "[ {\"id\": 7, \"from\": \"a@b.c\", \"subject\": \"One\", \"date\": \"2023-06-15 08:30:00\"},\n  {\"id\": 9, \"from\": \"d@e.f\", \"subject\": \"Two\", \"date\": \"2023-06-16 09:45:10\"} ]";
    let ms = get_messages(body).unwrap();
    assert_eq!(ms.len(), 2);
    assert_eq!(ms[0].id, MessageId(7));
    assert_eq!(ms[1].id, MessageId(9));
    assert_eq!(ms[1].subject, "Two");
}

#[test]
fn message_list_may_be_empty() {
    assert!(get_messages("[]").unwrap().is_empty());
    assert!(get_messages(" [ ] ").unwrap().is_empty());
}

#[test]
fn message_list_decodes_escapes_in_subject() {
    let body = "[{\"id\":2,\"from\":\"x@y.com\",\"subject\":\"a\\\"b\\\\c\\nd\\u0041\",\"date\":\"2023-01-01 00:00:00\"}]";
    let ms = get_messages(body).unwrap();
    assert_eq!(ms[0].subject, "a\"b\\c\ndA");
}

#[test]
fn message_list_rejects_bad_records() {
    // sender that is not an address
    let body = "[{\"id\":1,\"from\":\"nodomain\",\"subject\":\"s\",\"date\":\"2023-01-01 00:00:00\"}]";
    assert!(get_messages(body).is_err());
    // date in the wrong shape
    let body = "[{\"id\":1,\"from\":\"x@y.com\",\"subject\":\"s\",\"date\":\"05/01/2023\"}]";
    assert!(get_messages(body).is_err());
    // missing field
    let body = "[{\"id\":1,\"from\":\"x@y.com\",\"date\":\"2023-01-01 00:00:00\"}]";
    assert!(get_messages(body).is_err());
    // number where a string is owed
    let body = "[{\"id\":\"1\",\"from\":\"x@y.com\",\"subject\":\"s\",\"date\":\"2023-01-01 00:00:00\"}]";
    assert!(get_messages(body).is_err());
}

#[test]
fn message_list_handles_id_bounds() {
    // the largest id a word holds is accepted ...
    let body = "[{\"id\":18446744073709551615,\"from\":\"x@y.com\",\"subject\":\"s\",\"date\":\"2023-01-01 00:00:00\"}]";
    assert_eq!(get_messages(body).unwrap()[0].id, MessageId(u64::MAX));
    // ... and one past it is refused
    let body = "[{\"id\":18446744073709551616,\"from\":\"x@y.com\",\"subject\":\"s\",\"date\":\"2023-01-01 00:00:00\"}]";
    assert!(get_messages(body).is_err());
}

#[test]
fn read_message_decodes_full_record() {
    let body = "{\"from\":\"x@y.com\",\"subject\":\"Hello\",\"date\":\"2023-01-01 00:00:00\",\"attachments\":[{\"filename\":\"a.pdf\",\"contentType\":\"application/pdf\",\"size\":123}],\"body\":\"<p>hi</p>\"}";
    let m = read_message(body).unwrap();
    assert_eq!(m.from.login, "x");
    assert_eq!(m.from.domain, "y.com");
    assert_eq!(m.subject, "Hello");
    assert_eq!(m.date.to_unix(), 1672531200);
    assert_eq!(m.attachments.len(), 1);
    assert_eq!(m.attachments[0].filename, "a.pdf");
    assert_eq!(m.attachments[0].content_type, "application/pdf");
    assert_eq!(m.attachments[0].size, 123);
    assert_eq!(m.body, "<p>hi</p>");
}

#[test]
fn read_message_allows_empty_attachments() {
    let body = "{\"from\":\"x@y.com\",\"subject\":\"s\",\"date\":\"2023-01-01 00:00:00\",\"attachments\":[],\"body\":\"b\"}";
    let m = read_message(body).unwrap();
    assert!(m.attachments.is_empty());
}

#[test]
fn read_message_rejects_malformed_bodies() {
    assert!(read_message("").is_err());
    assert!(read_message("[]").is_err());
    let body = "{\"from\":\"x@y.com\",\"subject\":\"s\",\"date\":\"2023-01-01 00:00:00\",\"attachments\":[],\"body\":\"b\"} x";
    assert!(read_message(body).is_err());
    let body = "{\"from\":\"x@y.com\",\"subject\":\"s\",\"date\":\"2023-01-01 00:00:00\",\"body\":\"b\"}";
    assert!(read_message(body).is_err());
}

#[test]
fn operation_urls_are_exact() {
    assert_eq!(
        get_domain_list_url(),
        "https://www.1secmail.com/api/v1/?action=getDomainList"
    );
    let addr = MailAddr { login: "x".to_string(), domain: "y.com".to_string() };
    assert_eq!(
        get_messages_url(&addr),
        "https://www.1secmail.com/api/v1/?action=getMessages&login=x&domain=y.com"
    );
    assert_eq!(
        read_message_url(&addr, MessageId(1)),
        "https://www.1secmail.com/api/v1/?action=readMessage&login=x&domain=y.com&id=1"
    );
    assert_eq!(
        read_message_url(&addr, MessageId(9876543210)),
        "https://www.1secmail.com/api/v1/?action=readMessage&login=x&domain=y.com&id=9876543210"
    );
}
