//! Rendering of a history snapshot as one JSON array.

use crate::notification::{views, Notification, NotificationView};
use crate::outside::{json_string, json_string_of};
use vstd::prelude::*;
use vstd::string::*;

verus! {

/// The decimal digit for `d < 10`.
pub open spec fn digit_char(d: nat) -> char {
    if d == 0 { '0' }
    else if d == 1 { '1' }
    else if d == 2 { '2' }
    else if d == 3 { '3' }
    else if d == 4 { '4' }
    else if d == 5 { '5' }
    else if d == 6 { '6' }
    else if d == 7 { '7' }
    else if d == 8 { '8' }
    else { '9' }
}

/// The decimal rendering of `n`, without leading zeros.
pub open spec fn decimal(n: nat) -> Seq<char>
    decreases n,
{
    if n < 10 {
        seq![digit_char(n)]
    } else {
        decimal(n / 10) + seq![digit_char(n % 10)]
    }
}

/// One record as a JSON object, or `None` where a text cannot be encoded.
pub open spec fn record_text(n: NotificationView) -> Option<Seq<char>> {
    match (json_string_of(n.appname), json_string_of(n.summary), json_string_of(n.body), json_string_of(n.icon)) {
        (Some(a), Some(s), Some(b), Some(i)) => Some(
            "{\"appname\":"@ + a + ",\"summary\":"@ + s + ",\"body\":"@ + b + ",\"icon\":"@ + i
                + ",\"urgency\":"@ + decimal(n.urgency as nat) + ",\"id\":"@ + decimal(n.id as nat) + "}"@,
        ),
        _ => None,
    }
}

/// The records as comma-separated JSON objects, in order.
pub open spec fn records_text(s: Seq<NotificationView>) -> Option<Seq<char>>
    decreases s.len(),
{
    if s.len() == 0 {
        Some(Seq::empty())
    } else {
        match (records_text(s.drop_last()), record_text(s.last())) {
            (Some(p), Some(r)) => Some(if s.len() == 1 { r } else { p + ","@ + r }),
            _ => None,
        }
    }
}

/// The records as one JSON array, in order.
pub open spec fn snapshot_text(s: Seq<NotificationView>) -> Option<Seq<char>> {
    match records_text(s) {
        Some(t) => Some("["@ + t + "]"@),
        None => None,
    }
}

fn digit_str(d: u32) -> (r: &'static str)
    requires
        d < 10,
    ensures
        r@ == seq![digit_char(d as nat)],
{
    proof {
        reveal_strlit("0");
        reveal_strlit("1");
        reveal_strlit("2");
        reveal_strlit("3");
        reveal_strlit("4");
        reveal_strlit("5");
        reveal_strlit("6");
        reveal_strlit("7");
        reveal_strlit("8");
        reveal_strlit("9");
    }
    let r = if d == 0 { "0" }
        else if d == 1 { "1" }
        else if d == 2 { "2" }
        else if d == 3 { "3" }
        else if d == 4 { "4" }
        else if d == 5 { "5" }
        else if d == 6 { "6" }
        else if d == 7 { "7" }
        else if d == 8 { "8" }
        else { "9" };
    assert(r@ =~= seq![digit_char(d as nat)]);
    r
}

fn push_decimal(out: &mut String, n: u32)
    ensures
        final(out)@ == old(out)@ + decimal(n as nat),
    decreases n,
{
    if n >= 10 {
        push_decimal(out, n / 10);
    }
    out.append(digit_str(n % 10));
    assert(final(out)@ =~= old(out)@ + decimal(n as nat));
}

/// Renders one record as a JSON object.
pub fn record_json(n: &Notification) -> (r: Option<String>)
    ensures
        match r {
            Some(t) => record_text(n@) == Some(t@),
            None => record_text(n@) is None,
        },
{
    let a = json_string(&n.appname);
    let s = json_string(&n.summary);
    let b = json_string(&n.body);
    let i = json_string(&n.icon);
    match (a, s, b, i) {
        (Some(a), Some(s), Some(b), Some(i)) => {
            let mut out = String::new();
            out.append("{\"appname\":");
            out.append(a.as_str());
            out.append(",\"summary\":");
            out.append(s.as_str());
            out.append(",\"body\":");
            out.append(b.as_str());
            out.append(",\"icon\":");
            out.append(i.as_str());
            out.append(",\"urgency\":");
            push_decimal(&mut out, n.urgency as u32);
            out.append(",\"id\":");
            push_decimal(&mut out, n.id);
            out.append("}");
            assert(out@ =~= "{\"appname\":"@ + a@ + ",\"summary\":"@ + s@ + ",\"body\":"@ + b@ + ",\"icon\":"@ + i@
                + ",\"urgency\":"@ + decimal(n.urgency as nat) + ",\"id\":"@ + decimal(n.id as nat) + "}"@);
            Some(out)
        },
        _ => None,
    }
}

proof fn lemma_prefix_fails(s: Seq<NotificationView>, j: int)
    requires
        0 <= j <= s.len(),
        records_text(s.subrange(0, j)) is None,
    ensures
        records_text(s) is None,
    decreases s.len(),
{
    if s.len() == j {
        assert(s.subrange(0, j) =~= s);
    } else {
        assert(s.drop_last().subrange(0, j) =~= s.subrange(0, j));
        lemma_prefix_fails(s.drop_last(), j);
    }
}

/// Renders records, in the order given, as one JSON array; `None` where a
/// text field cannot be encoded.
pub fn snapshot_json(records: &Vec<Notification>) -> (r: Option<String>)
    ensures
        match r {
            Some(t) => snapshot_text(views(records@)) == Some(t@),
            None => snapshot_text(views(records@)) is None,
        },
{
    let ghost all = views(records@);
    let mut body = String::new();
    let mut i: usize = 0;
    assert(all.subrange(0, 0) =~= Seq::<NotificationView>::empty());
    while i < records.len()
        invariant
            all == views(records@),
            i <= records@.len(),
            records_text(all.subrange(0, i as int)) == Some(body@),
        decreases records@.len() - i,
    {
        let ghost pre = all.subrange(0, i as int);
        let ghost next = all.subrange(0, i as int + 1);
        assert(next.drop_last() =~= pre);
        assert(next.last() == records@[i as int]@);
        match record_json(&records[i]) {
            Some(t) => {
                if i > 0 {
                    body.append(",");
                }
                body.append(t.as_str());
                assert(records_text(next) == Some(body@));
            },
            None => {
                proof { lemma_prefix_fails(all, i as int + 1); }
                return None;
            },
        }
        i = i + 1;
    }
    assert(all.subrange(0, records@.len() as int) =~= all);
    let mut out = String::new();
    out.append("[");
    out.append(body.as_str());
    out.append("]");
    Some(out)
}

} // verus!
