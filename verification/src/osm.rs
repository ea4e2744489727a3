//! The mailbox service's data model and wire format: message summaries,
//! full messages, attachments, the URLs of the three operations, and
//! verified decoders for the three response bodies.

use vstd::prelude::*;

use crate::addr::{addr_wf, parse_addr, MailAddr};
use crate::json::{
    member_key, parse_string, parse_u64, p_member_key, p_string, p_tok, p_u64, p_ws, skip_ws, tok,
};
use crate::text::{dec_digits, str_chars, string_from_chars, u64_dec_chars};
use crate::timestamp::{parse_ts, Timestamp};

verus! {

/// A response body that does not have the documented shape.
#[derive(Clone, Copy, PartialEq, Eq, Structural, Debug)]
pub struct DecodeError;

/// Identifier the service assigns to a message within one mailbox.
#[derive(Debug, Clone, Copy, PartialEq, Eq, Structural, PartialOrd, Ord, Hash)]
pub struct MessageId(pub u64);

impl MessageId {
    /// The decimal text of the identifier.
    pub fn to_dec_string(&self) -> (r: String)
        ensures
            r@ == dec_digits(self.0 as nat),
    {
        let v = u64_dec_chars(self.0);
        string_from_chars(&v)
    }
}

/// A listing entry: everything the service tells about a message short
/// of its body and attachments.
#[derive(Debug, Clone)]
pub struct MessageInfo {
    pub id: MessageId,
    pub from: MailAddr,
    pub subject: String,
    pub date: Timestamp,
}

/// A described attachment; contents are never fetched here.
#[derive(Debug, Clone)]
pub struct AttachmentInfo {
    pub filename: String,
    pub content_type: String,
    pub size: u64,
}

/// A fully fetched message. It carries no id of its own: the service
/// omits it, so a full message is always paired with its summary.
#[derive(Debug, Clone)]
pub struct Message {
    pub from: MailAddr,
    pub subject: String,
    pub date: Timestamp,
    pub attachments: Vec<AttachmentInfo>,
    pub body: String,
}

/// Specification-level image of a summary record.
pub ghost struct MsgRec {
    pub id: u64,
    pub login: Seq<char>,
    pub domain: Seq<char>,
    pub subject: Seq<char>,
    pub date: Timestamp,
}

/// Specification-level image of an attachment record.
pub ghost struct AttRec {
    pub filename: Seq<char>,
    pub content_type: Seq<char>,
    pub size: u64,
}

/// Specification-level image of a full message record.
pub ghost struct FullMsgRec {
    pub login: Seq<char>,
    pub domain: Seq<char>,
    pub subject: Seq<char>,
    pub date: Timestamp,
    pub attachments: Seq<AttRec>,
    pub body: Seq<char>,
}

/// What every decoded value satisfies: a date the calendar has and a
/// well-formed sender address, as the wire format admits nothing else.
pub open spec fn msg_info_wf(m: MessageInfo) -> bool {
    m.date.wf() && addr_wf(m.from)
}

pub open spec fn msg_info_matches(m: MessageInfo, r: MsgRec) -> bool {
    &&& m.id.0 == r.id
    &&& m.from.login@ == r.login
    &&& m.from.domain@ == r.domain
    &&& m.subject@ == r.subject
    &&& m.date == r.date
}

pub open spec fn att_matches(a: AttachmentInfo, r: AttRec) -> bool {
    &&& a.filename@ == r.filename
    &&& a.content_type@ == r.content_type
    &&& a.size == r.size
}

pub open spec fn message_matches(m: Message, r: FullMsgRec) -> bool {
    &&& m.from.login@ == r.login
    &&& m.from.domain@ == r.domain
    &&& m.subject@ == r.subject
    &&& m.date == r.date
    &&& m.attachments@.len() == r.attachments.len()
    &&& forall|k: int|
        0 <= k < r.attachments.len() ==> att_matches(m.attachments@[k], r.attachments[k])
    &&& m.body@ == r.body
}

/// One summary object of the listing response, fields in their
/// documented order; the sender must parse as an address and the date
/// must decode.
pub open spec fn parse_msg_obj(s: Seq<char>, i: int) -> Option<(MsgRec, int)> {
    match tok(s, i, '{') {
        None => None,
        Some(i1) => match member_key(s, i1, "\"id\""@) {
            None => None,
            Some(i2) => match parse_u64(s, i2) {
                None => None,
                Some((id, i3)) => match tok(s, i3, ',') {
                    None => None,
                    Some(i4) => match member_key(s, i4, "\"from\""@) {
                        None => None,
                        Some(i5) => match parse_string(s, i5) {
                            None => None,
                            Some((from_s, i6)) => match parse_addr(from_s) {
                                Err(_) => None,
                                Ok((login, domain)) => match tok(s, i6, ',') {
                                    None => None,
                                    Some(i7) => match member_key(s, i7, "\"subject\""@) {
                                        None => None,
                                        Some(i8) => match parse_string(s, i8) {
                                            None => None,
                                            Some((subject, i9)) => match tok(s, i9, ',') {
                                                None => None,
                                                Some(i10) => match member_key(
                                                    s,
                                                    i10,
                                                    "\"date\""@,
                                                ) {
                                                    None => None,
                                                    Some(i11) => match parse_string(s, i11) {
                                                        None => None,
                                                        Some((date_s, i12)) => match parse_ts(
                                                            date_s,
                                                        ) {
                                                            None => None,
                                                            Some(date) => match tok(s, i12, '}') {
                                                                None => None,
                                                                Some(j) => Some(
                                                                    (
                                                                        MsgRec {
                                                                            id,
                                                                            login,
                                                                            domain,
                                                                            subject,
                                                                            date,
                                                                        },
                                                                        j,
                                                                    ),
                                                                ),
                                                            },
                                                        },
                                                    },
                                                },
                                            },
                                        },
                                    },
                                },
                            },
                        },
                    },
                },
            },
        },
    }
}

/// The listing's remaining elements, entered just after a parsed one:
/// either the closing bracket or a comma and another element.
pub open spec fn parse_msg_list_rest(s: Seq<char>, i: int) -> Option<(Seq<MsgRec>, int)>
    decreases s.len() - i
    when 0 <= i <= s.len()
{
    match tok(s, i, ']') {
        Some(j) => Some((Seq::empty(), j)),
        None => match tok(s, i, ',') {
            None => None,
            Some(i1) => match parse_msg_obj(s, i1) {
                None => None,
                Some((m, k)) => {
                    if i < k <= s.len() {
                        match parse_msg_list_rest(s, k) {
                            None => None,
                            Some((rest, j)) => Some((seq![m] + rest, j)),
                        }
                    } else {
                        None
                    }
                },
            },
        },
    }
}

/// A whole listing response: a possibly empty array of summary objects
/// and nothing but whitespace after it.
pub open spec fn parse_msg_list(s: Seq<char>) -> Option<Seq<MsgRec>> {
    match tok(s, 0, '[') {
        None => None,
        Some(i1) => match tok(s, i1, ']') {
            Some(j) => {
                if 0 <= j <= s.len() && skip_ws(s, j) == s.len() {
                    Some(Seq::empty())
                } else {
                    None
                }
            },
            None => match parse_msg_obj(s, i1) {
                None => None,
                Some((m, k)) => {
                    if i1 < k <= s.len() {
                        match parse_msg_list_rest(s, k) {
                            None => None,
                            Some((rest, j)) => {
                                if 0 <= j <= s.len() && skip_ws(s, j) == s.len() {
                                    Some(seq![m] + rest)
                                } else {
                                    None
                                }
                            },
                        }
                    } else {
                        None
                    }
                },
            },
        },
    }
}

/// The domain list's remaining elements, entered just after a parsed one.
pub open spec fn parse_str_list_rest(s: Seq<char>, i: int) -> Option<(Seq<Seq<char>>, int)>
    decreases s.len() - i
    when 0 <= i <= s.len()
{
    match tok(s, i, ']') {
        Some(j) => Some((Seq::empty(), j)),
        None => match tok(s, i, ',') {
            None => None,
            Some(i1) => match parse_string(s, i1) {
                None => None,
                Some((d, k)) => {
                    if i < k <= s.len() {
                        match parse_str_list_rest(s, k) {
                            None => None,
                            Some((rest, j)) => Some((seq![d] + rest, j)),
                        }
                    } else {
                        None
                    }
                },
            },
        },
    }
}

/// A whole domain-list response: an array of strings and nothing but
/// whitespace after it.
pub open spec fn parse_domain_list(s: Seq<char>) -> Option<Seq<Seq<char>>> {
    match tok(s, 0, '[') {
        None => None,
        Some(i1) => match tok(s, i1, ']') {
            Some(j) => {
                if 0 <= j <= s.len() && skip_ws(s, j) == s.len() {
                    Some(Seq::empty())
                } else {
                    None
                }
            },
            None => match parse_string(s, i1) {
                None => None,
                Some((d, k)) => {
                    if i1 < k <= s.len() {
                        match parse_str_list_rest(s, k) {
                            None => None,
                            Some((rest, j)) => {
                                if 0 <= j <= s.len() && skip_ws(s, j) == s.len() {
                                    Some(seq![d] + rest)
                                } else {
                                    None
                                }
                            },
                        }
                    } else {
                        None
                    }
                },
            },
        },
    }
}

/// One attachment object, fields in their documented order.
pub open spec fn parse_att_obj(s: Seq<char>, i: int) -> Option<(AttRec, int)> {
    match tok(s, i, '{') {
        None => None,
        Some(i1) => match member_key(s, i1, "\"filename\""@) {
            None => None,
            Some(i2) => match parse_string(s, i2) {
                None => None,
                Some((filename, i3)) => match tok(s, i3, ',') {
                    None => None,
                    Some(i4) => match member_key(s, i4, "\"contentType\""@) {
                        None => None,
                        Some(i5) => match parse_string(s, i5) {
                            None => None,
                            Some((content_type, i6)) => match tok(s, i6, ',') {
                                None => None,
                                Some(i7) => match member_key(s, i7, "\"size\""@) {
                                    None => None,
                                    Some(i8) => match parse_u64(s, i8) {
                                        None => None,
                                        Some((size, i9)) => match tok(s, i9, '}') {
                                            None => None,
                                            Some(j) => Some(
                                                (AttRec { filename, content_type, size }, j),
                                            ),
                                        },
                                    },
                                },
                            },
                        },
                    },
                },
            },
        },
    }
}

/// The attachment array's remaining elements.
pub open spec fn parse_att_list_rest(s: Seq<char>, i: int) -> Option<(Seq<AttRec>, int)>
    decreases s.len() - i
    when 0 <= i <= s.len()
{
    match tok(s, i, ']') {
        Some(j) => Some((Seq::empty(), j)),
        None => match tok(s, i, ',') {
            None => None,
            Some(i1) => match parse_att_obj(s, i1) {
                None => None,
                Some((a, k)) => {
                    if i < k <= s.len() {
                        match parse_att_list_rest(s, k) {
                            None => None,
                            Some((rest, j)) => Some((seq![a] + rest, j)),
                        }
                    } else {
                        None
                    }
                },
            },
        },
    }
}

/// A possibly empty attachment array, with its end position.
pub open spec fn parse_att_list(s: Seq<char>, i: int) -> Option<(Seq<AttRec>, int)> {
    match tok(s, i, '[') {
        None => None,
        Some(i1) => match tok(s, i1, ']') {
            Some(j) => Some((Seq::empty(), j)),
            None => match parse_att_obj(s, i1) {
                None => None,
                Some((a, k)) => {
                    if i1 < k <= s.len() {
                        match parse_att_list_rest(s, k) {
                            None => None,
                            Some((rest, j)) => Some((seq![a] + rest, j)),
                        }
                    } else {
                        None
                    }
                },
            },
        },
    }
}

/// A whole read-message response, fields in their documented order.
pub open spec fn parse_full_msg(s: Seq<char>) -> Option<FullMsgRec> {
    match tok(s, 0, '{') {
        None => None,
        Some(i1) => match member_key(s, i1, "\"from\""@) {
            None => None,
            Some(i2) => match parse_string(s, i2) {
                None => None,
                Some((from_s, i3)) => match parse_addr(from_s) {
                    Err(_) => None,
                    Ok((login, domain)) => match tok(s, i3, ',') {
                        None => None,
                        Some(i4) => match member_key(s, i4, "\"subject\""@) {
                            None => None,
                            Some(i5) => match parse_string(s, i5) {
                                None => None,
                                Some((subject, i6)) => match tok(s, i6, ',') {
                                    None => None,
                                    Some(i7) => match member_key(s, i7, "\"date\""@) {
                                        None => None,
                                        Some(i8) => match parse_string(s, i8) {
                                            None => None,
                                            Some((date_s, i9)) => match parse_ts(date_s) {
                                                None => None,
                                                Some(date) => match tok(s, i9, ',') {
                                                    None => None,
                                                    Some(i10) => match member_key(
                                                        s,
                                                        i10,
                                                        "\"attachments\""@,
                                                    ) {
                                                        None => None,
                                                        Some(i11) => match parse_att_list(
                                                            s,
                                                            i11,
                                                        ) {
                                                            None => None,
                                                            Some((attachments, i12)) => match tok(
                                                                s,
                                                                i12,
                                                                ',',
                                                            ) {
                                                                None => None,
                                                                Some(i13) => match member_key(
                                                                    s,
                                                                    i13,
                                                                    "\"body\""@,
                                                                ) {
                                                                    None => None,
                                                                    Some(i14) => match parse_string(
                                                                        s,
                                                                        i14,
                                                                    ) {
                                                                        None => None,
                                                                        Some((body, i15)) => match tok(
                                                                            s,
                                                                            i15,
                                                                            '}',
                                                                        ) {
                                                                            None => None,
                                                                            Some(j) => {
                                                                                if 0 <= j <= s.len()
                                                                                    && skip_ws(s, j)
                                                                                    == s.len() {
                                                                                    Some(
                                                                                        FullMsgRec {
                                                                                            login,
                                                                                            domain,
                                                                                            subject,
                                                                                            date,
                                                                                            attachments,
                                                                                            body,
                                                                                        },
                                                                                    )
                                                                                } else {
                                                                                    None
                                                                                }
                                                                            },
                                                                        },
                                                                    },
                                                                },
                                                            },
                                                        },
                                                    },
                                                },
                                            },
                                        },
                                    },
                                },
                            },
                        },
                    },
                },
            },
        },
    }
}

/// Executable form of `parse_msg_obj`.
fn d_msg_obj(v: &Vec<char>, i: usize) -> (r: Option<(MessageInfo, usize)>)
    requires
        i <= v@.len(),
    ensures
        (r matches Some(p) ==> parse_msg_obj(v@, i as int) matches Some(q) && msg_info_matches(
            p.0,
            q.0,
        ) && msg_info_wf(p.0) && p.1 == q.1 && i < p.1 <= v@.len()),
        (r is None ==> parse_msg_obj(v@, i as int) is None),
{
    let i1 = match p_tok(v, i, '{') {
        Some(x) => x,
        None => return None,
    };
    let i2 = match p_member_key(v, i1, "\"id\"") {
        Some(x) => x,
        None => return None,
    };
    let (id, i3) = match p_u64(v, i2) {
        Some(x) => x,
        None => return None,
    };
    let i4 = match p_tok(v, i3, ',') {
        Some(x) => x,
        None => return None,
    };
    let i5 = match p_member_key(v, i4, "\"from\"") {
        Some(x) => x,
        None => return None,
    };
    let (from_cs, i6) = match p_string(v, i5) {
        Some(x) => x,
        None => return None,
    };
    let from_str = string_from_chars(&from_cs);
    let from = match MailAddr::parse(from_str.as_str()) {
        Ok(a) => a,
        Err(_) => return None,
    };
    let i7 = match p_tok(v, i6, ',') {
        Some(x) => x,
        None => return None,
    };
    let i8 = match p_member_key(v, i7, "\"subject\"") {
        Some(x) => x,
        None => return None,
    };
    let (subj_cs, i9) = match p_string(v, i8) {
        Some(x) => x,
        None => return None,
    };
    let i10 = match p_tok(v, i9, ',') {
        Some(x) => x,
        None => return None,
    };
    let i11 = match p_member_key(v, i10, "\"date\"") {
        Some(x) => x,
        None => return None,
    };
    let (date_cs, i12) = match p_string(v, i11) {
        Some(x) => x,
        None => return None,
    };
    let date_str = string_from_chars(&date_cs);
    let date = match Timestamp::parse(date_str.as_str()) {
        Some(t) => t,
        None => return None,
    };
    let j = match p_tok(v, i12, '}') {
        Some(x) => x,
        None => return None,
    };
    let subject = string_from_chars(&subj_cs);
    Some((MessageInfo { id: MessageId(id), from, subject, date }, j))
}

/// Executable form of `parse_msg_list_rest`.
fn d_msg_list_rest(v: &Vec<char>, i: usize) -> (r: Option<(Vec<MessageInfo>, usize)>)
    requires
        i <= v@.len(),
    ensures
        (r matches Some(p) ==> parse_msg_list_rest(v@, i as int) matches Some(q) && p.0@.len()
            == q.0.len() && (forall|k: int|
            0 <= k < q.0.len() ==> msg_info_matches(p.0@[k], q.0[k])) && (forall|k: int|
            0 <= k < p.0@.len() ==> msg_info_wf(p.0@[k])) && p.1 == q.1 && i < p.1 <= v@.len()),
        (r is None ==> parse_msg_list_rest(v@, i as int) is None),
    decreases v@.len() - i,
{
    match p_tok(v, i, ']') {
        Some(j) => {
            return Some((Vec::new(), j));
        },
        None => {},
    }
    let i1 = match p_tok(v, i, ',') {
        Some(x) => x,
        None => return None,
    };
    let (m, k) = match d_msg_obj(v, i1) {
        Some(x) => x,
        None => return None,
    };
    match d_msg_list_rest(v, k) {
        Some((rest, j)) => {
            let ghost q = parse_msg_list_rest(v@, i as int)->Some_0;
            let mut out: Vec<MessageInfo> = Vec::new();
            out.push(m);
            let mut rest = rest;
            let ghost rest_view = rest@;
            out.append(&mut rest);
            proof {
                assert(out@ =~= seq![m] + rest_view);
                assert forall|kk: int| 0 <= kk < q.0.len() implies msg_info_matches(
                    out@[kk],
                    q.0[kk],
                ) by {
                    if kk > 0 {
                        assert(out@[kk] == rest_view[kk - 1]);
                    }
                };
                assert forall|kk: int| 0 <= kk < out@.len() implies msg_info_wf(out@[kk]) by {
                    if kk > 0 {
                        assert(out@[kk] == rest_view[kk - 1]);
                    }
                };
            }
            Some((out, j))
        },
        None => None,
    }
}

/// Decodes a listing response: an array of summary records, possibly
/// empty (an empty mailbox is not an error).
pub fn get_messages(body: &str) -> (r: Result<Vec<MessageInfo>, DecodeError>)
    ensures
        (parse_msg_list(body@) matches Some(l) ==> r matches Ok(ms) && ms@.len() == l.len() && (
        forall|k: int| 0 <= k < l.len() ==> msg_info_matches(ms@[k], l[k]))),
        (r matches Ok(ms) ==> forall|k: int| 0 <= k < ms@.len() ==> msg_info_wf(ms@[k])),
        (parse_msg_list(body@) is None <==> r is Err),
{
    let v = str_chars(body);
    let n = v.len();
    let i1 = match p_tok(&v, 0, '[') {
        Some(x) => x,
        None => return Err(DecodeError),
    };
    match p_tok(&v, i1, ']') {
        Some(j) => {
            let e = p_ws(&v, j);
            if e == n {
                return Ok(Vec::new());
            } else {
                return Err(DecodeError);
            }
        },
        None => {},
    }
    let (m, k) = match d_msg_obj(&v, i1) {
        Some(x) => x,
        None => return Err(DecodeError),
    };
    match d_msg_list_rest(&v, k) {
        Some((rest, j)) => {
            let e = p_ws(&v, j);
            if e == n {
                let ghost l = parse_msg_list(body@)->Some_0;
                let mut out: Vec<MessageInfo> = Vec::new();
                out.push(m);
                let mut rest = rest;
                let ghost rest_view = rest@;
                out.append(&mut rest);
                proof {
                    assert(out@ =~= seq![m] + rest_view);
                    assert forall|kk: int| 0 <= kk < l.len() implies msg_info_matches(
                        out@[kk],
                        l[kk],
                    ) by {
                        if kk > 0 {
                            assert(out@[kk] == rest_view[kk - 1]);
                        }
                    };
                    assert forall|kk: int| 0 <= kk < out@.len() implies msg_info_wf(out@[kk]) by {
                        if kk > 0 {
                            assert(out@[kk] == rest_view[kk - 1]);
                        }
                    };
                }
                Ok(out)
            } else {
                Err(DecodeError)
            }
        },
        None => Err(DecodeError),
    }
}

/// Executable form of `parse_str_list_rest`.
fn d_str_list_rest(v: &Vec<char>, i: usize) -> (r: Option<(Vec<String>, usize)>)
    requires
        i <= v@.len(),
    ensures
        (r matches Some(p) ==> parse_str_list_rest(v@, i as int) matches Some(q) && p.0@.len()
            == q.0.len() && (forall|k: int| 0 <= k < q.0.len() ==> p.0@[k]@ == q.0[k]) && p.1
            == q.1 && i < p.1 <= v@.len()),
        (r is None ==> parse_str_list_rest(v@, i as int) is None),
    decreases v@.len() - i,
{
    match p_tok(v, i, ']') {
        Some(j) => {
            return Some((Vec::new(), j));
        },
        None => {},
    }
    let i1 = match p_tok(v, i, ',') {
        Some(x) => x,
        None => return None,
    };
    let (d_cs, k) = match p_string(v, i1) {
        Some(x) => x,
        None => return None,
    };
    let d = string_from_chars(&d_cs);
    match d_str_list_rest(v, k) {
        Some((rest, j)) => {
            let ghost q = parse_str_list_rest(v@, i as int)->Some_0;
            let mut out: Vec<String> = Vec::new();
            out.push(d);
            let mut rest = rest;
            let ghost rest_view = rest@;
            out.append(&mut rest);
            proof {
                assert(out@ =~= seq![out@[0]] + rest_view);
                assert forall|kk: int| 0 <= kk < q.0.len() implies out@[kk]@ == q.0[kk] by {
                    if kk > 0 {
                        assert(out@[kk] == rest_view[kk - 1]);
                    }
                };
            }
            Some((out, j))
        },
        None => None,
    }
}

/// Decodes a domain-list response: the domain suffixes a caller may
/// combine with a login.
pub fn get_domain_list(body: &str) -> (r: Result<Vec<String>, DecodeError>)
    ensures
        (parse_domain_list(body@) matches Some(l) ==> r matches Ok(ds) && ds@.len() == l.len() && (
        forall|k: int| 0 <= k < l.len() ==> ds@[k]@ == l[k])),
        (parse_domain_list(body@) is None <==> r is Err),
{
    let v = str_chars(body);
    let n = v.len();
    let i1 = match p_tok(&v, 0, '[') {
        Some(x) => x,
        None => return Err(DecodeError),
    };
    match p_tok(&v, i1, ']') {
        Some(j) => {
            let e = p_ws(&v, j);
            if e == n {
                return Ok(Vec::new());
            } else {
                return Err(DecodeError);
            }
        },
        None => {},
    }
    let (d_cs, k) = match p_string(&v, i1) {
        Some(x) => x,
        None => return Err(DecodeError),
    };
    let d = string_from_chars(&d_cs);
    match d_str_list_rest(&v, k) {
        Some((rest, j)) => {
            let e = p_ws(&v, j);
            if e == n {
                let ghost l = parse_domain_list(body@)->Some_0;
                let mut out: Vec<String> = Vec::new();
                out.push(d);
                let mut rest = rest;
                let ghost rest_view = rest@;
                out.append(&mut rest);
                proof {
                    assert(out@ =~= seq![out@[0]] + rest_view);
                    assert forall|kk: int| 0 <= kk < l.len() implies out@[kk]@ == l[kk] by {
                        if kk > 0 {
                            assert(out@[kk] == rest_view[kk - 1]);
                        }
                    };
                }
                Ok(out)
            } else {
                Err(DecodeError)
            }
        },
        None => Err(DecodeError),
    }
}

/// Executable form of `parse_att_obj`.
fn d_att_obj(v: &Vec<char>, i: usize) -> (r: Option<(AttachmentInfo, usize)>)
    requires
        i <= v@.len(),
    ensures
        (r matches Some(p) ==> parse_att_obj(v@, i as int) matches Some(q) && att_matches(
            p.0,
            q.0,
        ) && p.1 == q.1 && i < p.1 <= v@.len()),
        (r is None ==> parse_att_obj(v@, i as int) is None),
{
    let i1 = match p_tok(v, i, '{') {
        Some(x) => x,
        None => return None,
    };
    let i2 = match p_member_key(v, i1, "\"filename\"") {
        Some(x) => x,
        None => return None,
    };
    let (fname_cs, i3) = match p_string(v, i2) {
        Some(x) => x,
        None => return None,
    };
    let i4 = match p_tok(v, i3, ',') {
        Some(x) => x,
        None => return None,
    };
    let i5 = match p_member_key(v, i4, "\"contentType\"") {
        Some(x) => x,
        None => return None,
    };
    let (ctype_cs, i6) = match p_string(v, i5) {
        Some(x) => x,
        None => return None,
    };
    let i7 = match p_tok(v, i6, ',') {
        Some(x) => x,
        None => return None,
    };
    let i8 = match p_member_key(v, i7, "\"size\"") {
        Some(x) => x,
        None => return None,
    };
    let (size, i9) = match p_u64(v, i8) {
        Some(x) => x,
        None => return None,
    };
    let j = match p_tok(v, i9, '}') {
        Some(x) => x,
        None => return None,
    };
    let filename = string_from_chars(&fname_cs);
    let content_type = string_from_chars(&ctype_cs);
    Some((AttachmentInfo { filename, content_type, size }, j))
}

/// Executable form of `parse_att_list_rest`.
fn d_att_list_rest(v: &Vec<char>, i: usize) -> (r: Option<(Vec<AttachmentInfo>, usize)>)
    requires
        i <= v@.len(),
    ensures
        (r matches Some(p) ==> parse_att_list_rest(v@, i as int) matches Some(q) && p.0@.len()
            == q.0.len() && (forall|k: int| 0 <= k < q.0.len() ==> att_matches(p.0@[k], q.0[k]))
            && p.1 == q.1 && i < p.1 <= v@.len()),
        (r is None ==> parse_att_list_rest(v@, i as int) is None),
    decreases v@.len() - i,
{
    match p_tok(v, i, ']') {
        Some(j) => {
            return Some((Vec::new(), j));
        },
        None => {},
    }
    let i1 = match p_tok(v, i, ',') {
        Some(x) => x,
        None => return None,
    };
    let (a, k) = match d_att_obj(v, i1) {
        Some(x) => x,
        None => return None,
    };
    match d_att_list_rest(v, k) {
        Some((rest, j)) => {
            let ghost q = parse_att_list_rest(v@, i as int)->Some_0;
            let mut out: Vec<AttachmentInfo> = Vec::new();
            out.push(a);
            let mut rest = rest;
            let ghost rest_view = rest@;
            out.append(&mut rest);
            proof {
                assert(out@ =~= seq![out@[0]] + rest_view);
                assert forall|kk: int| 0 <= kk < q.0.len() implies att_matches(
                    out@[kk],
                    q.0[kk],
                ) by {
                    if kk > 0 {
                        assert(out@[kk] == rest_view[kk - 1]);
                    }
                };
            }
            Some((out, j))
        },
        None => None,
    }
}

/// Executable form of `parse_att_list`.
fn d_att_list(v: &Vec<char>, i: usize) -> (r: Option<(Vec<AttachmentInfo>, usize)>)
    requires
        i <= v@.len(),
    ensures
        (r matches Some(p) ==> parse_att_list(v@, i as int) matches Some(q) && p.0@.len()
            == q.0.len() && (forall|k: int| 0 <= k < q.0.len() ==> att_matches(p.0@[k], q.0[k]))
            && p.1 == q.1 && i < p.1 <= v@.len()),
        (r is None ==> parse_att_list(v@, i as int) is None),
{
    let i1 = match p_tok(v, i, '[') {
        Some(x) => x,
        None => return None,
    };
    match p_tok(v, i1, ']') {
        Some(j) => {
            return Some((Vec::new(), j));
        },
        None => {},
    }
    let (a, k) = match d_att_obj(v, i1) {
        Some(x) => x,
        None => return None,
    };
    match d_att_list_rest(v, k) {
        Some((rest, j)) => {
            let ghost q = parse_att_list(v@, i as int)->Some_0;
            let mut out: Vec<AttachmentInfo> = Vec::new();
            out.push(a);
            let mut rest = rest;
            let ghost rest_view = rest@;
            out.append(&mut rest);
            proof {
                assert(out@ =~= seq![out@[0]] + rest_view);
                assert forall|kk: int| 0 <= kk < q.0.len() implies att_matches(
                    out@[kk],
                    q.0[kk],
                ) by {
                    if kk > 0 {
                        assert(out@[kk] == rest_view[kk - 1]);
                    }
                };
            }
            Some((out, j))
        },
        None => None,
    }
}

/// Decodes a read-message response into a full message.
pub fn read_message(body: &str) -> (r: Result<Message, DecodeError>)
    ensures
        (parse_full_msg(body@) matches Some(q) ==> r matches Ok(m) && message_matches(m, q)),
        (r matches Ok(m) ==> m.date.wf() && addr_wf(m.from)),
        (parse_full_msg(body@) is None <==> r is Err),
{
    let v = str_chars(body);
    let n = v.len();
    let i1 = match p_tok(&v, 0, '{') {
        Some(x) => x,
        None => return Err(DecodeError),
    };
    let i2 = match p_member_key(&v, i1, "\"from\"") {
        Some(x) => x,
        None => return Err(DecodeError),
    };
    let (from_cs, i3) = match p_string(&v, i2) {
        Some(x) => x,
        None => return Err(DecodeError),
    };
    let from_str = string_from_chars(&from_cs);
    let from = match MailAddr::parse(from_str.as_str()) {
        Ok(a) => a,
        Err(_) => return Err(DecodeError),
    };
    let i4 = match p_tok(&v, i3, ',') {
        Some(x) => x,
        None => return Err(DecodeError),
    };
    let i5 = match p_member_key(&v, i4, "\"subject\"") {
        Some(x) => x,
        None => return Err(DecodeError),
    };
    let (subj_cs, i6) = match p_string(&v, i5) {
        Some(x) => x,
        None => return Err(DecodeError),
    };
    let i7 = match p_tok(&v, i6, ',') {
        Some(x) => x,
        None => return Err(DecodeError),
    };
    let i8 = match p_member_key(&v, i7, "\"date\"") {
        Some(x) => x,
        None => return Err(DecodeError),
    };
    let (date_cs, i9) = match p_string(&v, i8) {
        Some(x) => x,
        None => return Err(DecodeError),
    };
    let date_str = string_from_chars(&date_cs);
    let date = match Timestamp::parse(date_str.as_str()) {
        Some(t) => t,
        None => return Err(DecodeError),
    };
    let i10 = match p_tok(&v, i9, ',') {
        Some(x) => x,
        None => return Err(DecodeError),
    };
    let i11 = match p_member_key(&v, i10, "\"attachments\"") {
        Some(x) => x,
        None => return Err(DecodeError),
    };
    let (attachments, i12) = match d_att_list(&v, i11) {
        Some(x) => x,
        None => return Err(DecodeError),
    };
    let i13 = match p_tok(&v, i12, ',') {
        Some(x) => x,
        None => return Err(DecodeError),
    };
    let i14 = match p_member_key(&v, i13, "\"body\"") {
        Some(x) => x,
        None => return Err(DecodeError),
    };
    let (body_cs, i15) = match p_string(&v, i14) {
        Some(x) => x,
        None => return Err(DecodeError),
    };
    let j = match p_tok(&v, i15, '}') {
        Some(x) => x,
        None => return Err(DecodeError),
    };
    let e = p_ws(&v, j);
    if e == n {
        let subject = string_from_chars(&subj_cs);
        let msg_body = string_from_chars(&body_cs);
        Ok(Message { from, subject, date, attachments, body: msg_body })
    } else {
        Err(DecodeError)
    }
}

/// The URL of the domain-list operation.
pub fn get_domain_list_url() -> (r: String)
    ensures
        r@ == "https://www.1secmail.com/api/v1/?action=getDomainList"@,
{
    String::from_str("https://www.1secmail.com/api/v1/?action=getDomainList")
}

/// The URL of the listing operation for the given address.
pub fn get_messages_url(addr: &MailAddr) -> (r: String)
    ensures
        r@ == "https://www.1secmail.com/api/v1/?action=getMessages&login="@ + addr.login@
            + "&domain="@ + addr.domain@,
{
    let mut u = String::from_str("https://www.1secmail.com/api/v1/?action=getMessages&login=");
    u.append(addr.login.as_str());
    u.append("&domain=");
    u.append(addr.domain.as_str());
    u
}

/// The URL of the read-message operation for the given address and id.
pub fn read_message_url(addr: &MailAddr, id: MessageId) -> (r: String)
    ensures
        r@ == "https://www.1secmail.com/api/v1/?action=readMessage&login="@ + addr.login@
            + "&domain="@ + addr.domain@ + "&id="@ + dec_digits(id.0 as nat),
{
    let mut u = String::from_str("https://www.1secmail.com/api/v1/?action=readMessage&login=");
    u.append(addr.login.as_str());
    u.append("&domain=");
    u.append(addr.domain.as_str());
    u.append("&id=");
    let ds = id.to_dec_string();
    u.append(ds.as_str());
    u
}

} // verus!
