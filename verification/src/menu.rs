//! The computed side of the interactive message menu: the label shown
//! for each summary, the option list with its perpetual refresh entry,
//! and resolving a chosen option back to its position.

use vstd::prelude::*;

use crate::addr::addr_text;
use crate::osm::MessageInfo;

verus! {

/// The label of one summary in the menu.
pub open spec fn menu_label_text(m: MessageInfo) -> Seq<char> {
    m.subject@ + " (from "@ + addr_text(m.from.login@, m.from.domain@) + ")"@
}

/// The text of the option that re-issues the listing call.
pub open spec fn refresh_label_text() -> Seq<char> {
    "Refresh Messages"@
}

/// Renders one summary's menu label.
pub fn menu_label(m: &MessageInfo) -> (r: String)
    ensures
        r@ == menu_label_text(*m),
{
    let mut r = m.subject.clone();
    r.append(" (from ");
    let from = m.from.to_text();
    r.append(from.as_str());
    r.append(")");
    proof {
        assert(r@ =~= menu_label_text(*m));
    }
    r
}

/// The full option list: one label per summary, in listing order, with
/// the refresh option last.
pub fn menu_options(msgs: &Vec<MessageInfo>) -> (r: Vec<String>)
    ensures
        r@.len() == msgs@.len() + 1,
        forall|k: int| 0 <= k < msgs@.len() ==> r@[k]@ == menu_label_text(msgs@[k]),
        r@[msgs@.len() as int]@ == refresh_label_text(),
{
    let n = msgs.len();
    let mut r: Vec<String> = Vec::new();
    let mut i: usize = 0;
    while i < n
        invariant
            0 <= i <= n == msgs@.len(),
            r@.len() == i,
            forall|k: int| 0 <= k < i ==> r@[k]@ == menu_label_text(msgs@[k]),
        decreases n - i,
    {
        r.push(menu_label(&msgs[i]));
        i = i + 1;
    }
    r.push(String::from_str("Refresh Messages"));
    r
}

/// Position of the first option whose text equals the chosen one, as
/// the prompt hands the chosen text back rather than its index.
pub fn find_option(options: &Vec<String>, chosen: &String) -> (r: Option<usize>)
    ensures
        (r matches Some(i) ==> i < options@.len() && options@[i as int]@ == chosen@ && (forall|
            k: int,
        |
            0 <= k < i ==> options@[k]@ != chosen@)),
        (r is None ==> forall|k: int| 0 <= k < options@.len() ==> options@[k]@ != chosen@),
{
    let n = options.len();
    let mut i: usize = 0;
    while i < n
        invariant
            0 <= i <= n == options@.len(),
            forall|k: int| 0 <= k < i ==> options@[k]@ != chosen@,
        decreases n - i,
    {
        if options[i].eq(chosen) {
            return Some(i);
        }
        i = i + 1;
    }
    None
}

} // verus!
