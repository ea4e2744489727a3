//! Rendering a fetched message as a self-contained HTML document: a
//! fixed template filled with subject, sender, date and body in a single
//! literal pass, so markers occurring inside the values are never
//! interpreted further.

use vstd::prelude::*;

use crate::addr::addr_text;
use crate::osm::Message;
use crate::timestamp::ts_text;

verus! {

/// The rendered document: the template's fixed fragments with the four
/// values spliced in between, nothing more.
pub open spec fn rendered_html(
    subject: Seq<char>,
    from: Seq<char>,
    date: Seq<char>,
    body: Seq<char>,
) -> Seq<char> {
    "<!DOCTYPE html>\n<html>\n<head>\n<meta charset=\"utf-8\">\n<title>"@ + subject
        + "</title>\n</head>\n<body>\n<h1>"@ + subject + "</h1>\n<p>From: "@ + from
        + "</p>\n<p>Date: "@ + date + "</p>\n<hr>\n"@ + body + "\n</body>\n</html>\n"@
}

/// Fills the fixed template with the message's subject, formatted
/// sender address, formatted date, and body. The body is trusted HTML
/// and is spliced in unchanged.
pub fn gen_html_for_message(message: &Message) -> (r: String)
    requires
        message.date.wf(),
    ensures
        r@ == rendered_html(
            message.subject@,
            addr_text(message.from.login@, message.from.domain@),
            ts_text(message.date),
            message.body@,
        ),
{
    let mut r = String::from_str("<!DOCTYPE html>\n<html>\n<head>\n<meta charset=\"utf-8\">\n<title>");
    r.append(message.subject.as_str());
    r.append("</title>\n</head>\n<body>\n<h1>");
    r.append(message.subject.as_str());
    r.append("</h1>\n<p>From: ");
    let from = message.from.to_text();
    r.append(from.as_str());
    r.append("</p>\n<p>Date: ");
    let date = message.date.format();
    r.append(date.as_str());
    r.append("</p>\n<hr>\n");
    r.append(message.body.as_str());
    r.append("\n</body>\n</html>\n");
    proof {
        assert(r@ =~= rendered_html(
            message.subject@,
            addr_text(message.from.login@, message.from.domain@),
            ts_text(message.date),
            message.body@,
        ));
    }
    r
}

} // verus!
