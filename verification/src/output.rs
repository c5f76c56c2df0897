//! Text views of the account-experience documents: purpose-built blocks for
//! the shapes that are pinned down (billing summary, account profile,
//! devices, outages), and a generic `Key: value` rendering for the rest.

use vstd::prelude::*;

use crate::error::AppError;
use crate::json::{push_member, scalar, text_value, view_items, view_members, Json, JsonV};
use crate::profile::{nonempty_scalar, opt_string};
use crate::text::{
    before_char, before_first, decimal, push_decimal, push_str, string_from, to_chars, to_lowercase,
    unicode_lower,
};

verus! {

broadcast use {vstd::std_specs::vec::group_vec_axioms, vstd::seq::group_seq_axioms};

/// The lines of a list of strings.
pub open spec fn lines_view(v: Seq<String>) -> Seq<Seq<char>> {
    v.map_values(|s: String| s@)
}

/// `line` when `show`, else nothing.
pub open spec fn line_if(show: bool, line: Seq<char>) -> Seq<Seq<char>> {
    if show {
        seq![line]
    } else {
        Seq::empty()
    }
}

fn push_line(out: &mut Vec<String>, line: String)
    ensures
        lines_view(final(out)@) == lines_view(old(out)@).push(line@),
{
    let ghost before = out@;
    out.push(line);
    assert(lines_view(out@) =~= lines_view(before).push(line@));
}

fn cat(a: &str, b: &str) -> (res: String)
    ensures
        res@ == a@ + b@,
{
    let mut m = String::new();
    push_str(&mut m, a);
    push_str(&mut m, b);
    m
}

// ---------------------------------------------------------------------------
// Generic rendering
// ---------------------------------------------------------------------------

/// The document a resource read shows: the `data` member of an envelope,
/// else the document itself.
pub open spec fn unwrapped(v: JsonV) -> JsonV {
    match v.get("data"@) {
        Some(d) => d,
        None => v,
    }
}

/// `key: value` lines for the members of an object.
pub open spec fn member_lines(m: Seq<(Seq<char>, JsonV)>) -> Seq<Seq<char>> {
    m.map_values(|e: (Seq<char>, JsonV)| e.0 + ": "@ + scalar(e.1))
}

/// The lines of one value: an object as `key: value` lines, anything else
/// as its scalar text.
pub open spec fn value_lines(v: JsonV) -> Seq<Seq<char>> {
    match v {
        JsonV::Object(m) => member_lines(m),
        _ => seq![scalar(v)],
    }
}

/// The lines of an array's elements, a blank line between two elements.
pub open spec fn items_lines(a: Seq<JsonV>) -> Seq<Seq<char>>
    decreases a.len(),
{
    if a.len() == 0 {
        Seq::empty()
    } else if a.len() == 1 {
        value_lines(a[0])
    } else {
        items_lines(a.drop_last()) + seq![Seq::empty()] + value_lines(a.last())
    }
}

/// The generic text rendering of a resource read: the unwrapped document,
/// an object as `key: value` lines, an array element by element.
pub open spec fn rendered(v: JsonV) -> Seq<Seq<char>> {
    match unwrapped(v) {
        JsonV::Array(a) => items_lines(a),
        u => value_lines(u),
    }
}

fn member_lines_of(members: &Vec<(String, Json)>) -> (res: Vec<String>)
    ensures
        lines_view(res@) == member_lines(view_members(members@)),
{
    proof {
        crate::json::lemma_view_members(members@);
    }
    let ghost ms = view_members(members@);
    let mut out: Vec<String> = Vec::new();
    let mut i: usize = 0;
    while i < members.len()
        invariant
            i <= members@.len(),
            ms == view_members(members@),
            ms.len() == members@.len(),
            forall|k: int| 0 <= k < members@.len() ==> #[trigger] ms[k] == (members@[k].0@, members@[k].1@),
            lines_view(out@) == member_lines(ms.take(i as int)),
        decreases members@.len() - i,
    {
        let mut l = cat(members[i].0.as_str(), ": ");
        let sc = members[i].1.scalar();
        push_str(&mut l, sc.as_str());
        push_line(&mut out, l);
        assert(member_lines(ms.take(i + 1)) =~= member_lines(ms.take(i as int)).push(
            ms[i as int].0 + ": "@ + scalar(ms[i as int].1),
        ));
        i = i + 1;
    }
    assert(ms.take(members@.len() as int) == ms);
    out
}

fn value_lines_of(v: &Json) -> (res: Vec<String>)
    ensures
        lines_view(res@) == value_lines(v@),
{
    match v {
        Json::Object(m) => member_lines_of(m),
        _ => {
            let mut out: Vec<String> = Vec::new();
            push_line(&mut out, v.scalar());
            assert(lines_view(out@) =~= seq![scalar(v@)]);
            out
        },
    }
}

fn append_lines(out: &mut Vec<String>, more: Vec<String>)
    ensures
        lines_view(final(out)@) == lines_view(old(out)@) + lines_view(more@),
{
    let ghost before = out@;
    let mut more = more;
    let ghost m = more@;
    out.append(&mut more);
    assert(lines_view(out@) =~= lines_view(before) + lines_view(m));
}

/// The generic text rendering of a resource read.
pub fn render(v: &Json) -> (res: Vec<String>)
    ensures
        lines_view(res@) == rendered(v@),
{
    let u = match v.get("data") {
        Some(d) => d,
        None => v,
    };
    match u {
        Json::Array(items) => {
            proof {
                crate::json::lemma_view_items(items@);
            }
            let ghost a = view_items(items@);
            let mut out: Vec<String> = Vec::new();
            let mut i: usize = 0;
            while i < items.len()
                invariant
                    i <= items@.len(),
                    a == view_items(items@),
                    a.len() == items@.len(),
                    forall|k: int| 0 <= k < items@.len() ==> #[trigger] a[k] == items@[k]@,
                    lines_view(out@) == items_lines(a.take(i as int)),
                decreases items@.len() - i,
            {
                let ghost t = a.take(i + 1);
                assert(t.drop_last() == a.take(i as int));
                assert(t.last() == items@[i as int]@);
                if i > 0 {
                    push_line(&mut out, String::new());
                } else {
                    assert(a.take(0) =~= Seq::<JsonV>::empty());
                    assert(t.len() == 1);
                    assert(t[0] == items@[0]@);
                }
                append_lines(&mut out, value_lines_of(&items[i]));
                i = i + 1;
            }
            assert(a.take(items@.len() as int) == a);
            out
        },
        _ => value_lines_of(u),
    }
}

// ---------------------------------------------------------------------------
// Billing summary
// ---------------------------------------------------------------------------

/// A past-due amount that is nothing.
pub open spec fn zero_amount(t: Seq<char>) -> bool {
    t == Seq::<char>::empty() || t == "0"@ || t == "0.0"@ || t == "0.00"@
}

/// The autopay line of a billing summary, if any: `on` (with the draw date)
/// for an active or enrolled status, else the status lower-cased.
pub open spec fn autopay_line(bbds: JsonV) -> Seq<Seq<char>> {
    match bbds.pointer("/autopay/status"@) {
        Some(st) => {
            let s = scalar(st);
            if s == "ACTIVE"@ || s == "ENROLLED"@ {
                let d = match bbds.pointer("/autopay/date"@) {
                    Some(x) => before_char(scalar(x), 'T'),
                    None => Seq::empty(),
                };
                seq![
                    "Autopay:  on"@ + if d.len() > 0 {
                        " (draws "@ + d + ")"@
                    } else {
                        Seq::empty()
                    },
                ]
            } else if s.len() > 0 {
                seq!["Autopay:  "@ + unicode_lower(s)]
            } else {
                Seq::empty()
            }
        },
        None => Seq::empty(),
    }
}

/// The Balance / Due / Past due / Autopay block of a `BBDS` document, and
/// the delinquency line.
pub open spec fn summary_block(bbds: JsonV) -> Seq<Seq<char>> {
    (match bbds.pointer("/balance/balanceDue"@) {
        Some(b) => seq!["Balance:  $"@ + scalar(b)],
        None => Seq::empty(),
    }) + (match nonempty_scalar(bbds.get("dueDate"@)) {
        Some(d) => seq!["Due:      "@ + before_char(d, 'T')],
        None => Seq::empty(),
    }) + (match bbds.pointer("/balance/pastDueBalance"@) {
        Some(p) => if zero_amount(scalar(p)) {
            Seq::empty()
        } else {
            seq!["Past due: $"@ + scalar(p)]
        },
        None => Seq::empty(),
    }) + autopay_line(bbds) + line_if(
        bbds.pointer("/balance/isDelinquent"@) matches Some(JsonV::Bool(true)),
        "Status:   delinquent"@,
    )
}

/// Whether the block shows anything besides the delinquency line; when not,
/// the document is rendered generically instead.
pub open spec fn summary_printed(bbds: JsonV) -> bool {
    bbds.pointer("/balance/balanceDue"@) is Some || nonempty_scalar(bbds.get("dueDate"@)) is Some
        || (bbds.pointer("/balance/pastDueBalance"@) matches Some(p) && !zero_amount(scalar(p)))
        || autopay_line(bbds).len() > 0
}

fn autopay_lines(bbds: &Json) -> (res: Vec<String>)
    ensures
        lines_view(res@) == autopay_line(bbds@),
{
    let mut out: Vec<String> = Vec::new();
    match bbds.pointer("/autopay/status") {
        Some(st) => {
            let s = st.scalar();
            let sc = to_chars(s.as_str());
            if crate::text::is_text(&sc, "ACTIVE") || crate::text::is_text(&sc, "ENROLLED") {
                let d = match bbds.pointer("/autopay/date") {
                    Some(x) => {
                        let xs = x.scalar();
                        before_first(&to_chars(xs.as_str()), 'T')
                    },
                    None => Vec::new(),
                };
                let mut l = String::new();
                push_str(&mut l, "Autopay:  on");
                if d.len() > 0 {
                    push_str(&mut l, " (draws ");
                    push_str(&mut l, string_from(&d).as_str());
                    push_str(&mut l, ")");
                }
                proof {
                    let dd = d@;
                    if dd.len() == 0 {
                        assert(l@ =~= "Autopay:  on"@ + Seq::<char>::empty());
                    }
                }
                assert(l@ =~= "Autopay:  on"@ + if d@.len() > 0 {
                    " (draws "@ + d@ + ")"@
                } else {
                    Seq::<char>::empty()
                });
                push_line(&mut out, l);
                assert(lines_view(out@) =~= seq![l@]);
            } else if sc.len() > 0 {
                let low = to_lowercase(s.as_str());
                let l = cat("Autopay:  ", low.as_str());
                push_line(&mut out, l);
                assert(lines_view(out@) =~= seq![l@]);
            } else {
                assert(lines_view(out@) =~= Seq::<Seq<char>>::empty());
            }
        },
        None => {
            assert(lines_view(out@) =~= Seq::<Seq<char>>::empty());
        },
    }
    out
}

fn one_line(l: String) -> (res: Vec<String>)
    ensures
        lines_view(res@) == seq![l@],
{
    let mut out: Vec<String> = Vec::new();
    push_line(&mut out, l);
    assert(lines_view(out@) =~= seq![l@]);
    out
}

fn no_lines() -> (res: Vec<String>)
    ensures
        lines_view(res@) == Seq::<Seq<char>>::empty(),
{
    let out: Vec<String> = Vec::new();
    assert(lines_view(out@) =~= Seq::<Seq<char>>::empty());
    out
}

fn balance_part(bbds: &Json) -> (res: Vec<String>)
    ensures
        lines_view(res@) == match bbds@.pointer("/balance/balanceDue"@) {
            Some(b) => seq!["Balance:  $"@ + scalar(b)],
            None => Seq::<Seq<char>>::empty(),
        },
{
    match bbds.pointer("/balance/balanceDue") {
        Some(b) => one_line(cat("Balance:  $", b.scalar().as_str())),
        None => no_lines(),
    }
}

fn due_part(bbds: &Json) -> (res: Vec<String>)
    ensures
        lines_view(res@) == match nonempty_scalar(bbds@.get("dueDate"@)) {
            Some(d) => seq!["Due:      "@ + before_char(d, 'T')],
            None => Seq::<Seq<char>>::empty(),
        },
{
    match bbds.get("dueDate") {
        Some(due) => {
            let d = due.scalar();
            let dc = to_chars(d.as_str());
            if dc.len() > 0 {
                let before = before_first(&dc, 'T');
                one_line(cat("Due:      ", string_from(&before).as_str()))
            } else {
                no_lines()
            }
        },
        None => no_lines(),
    }
}

fn past_due_part(bbds: &Json) -> (res: Vec<String>)
    ensures
        lines_view(res@) == match bbds@.pointer("/balance/pastDueBalance"@) {
            Some(p) => if zero_amount(scalar(p)) {
                Seq::<Seq<char>>::empty()
            } else {
                seq!["Past due: $"@ + scalar(p)]
            },
            None => Seq::<Seq<char>>::empty(),
        },
{
    match bbds.pointer("/balance/pastDueBalance") {
        Some(p) => {
            let ps = p.scalar();
            let pc = to_chars(ps.as_str());
            let zero = pc.len() == 0 || crate::text::is_text(&pc, "0") || crate::text::is_text(
                &pc,
                "0.0",
            ) || crate::text::is_text(&pc, "0.00");
            proof {
                if pc@.len() == 0 {
                    assert(pc@ =~= Seq::<char>::empty());
                }
                if ps@ == Seq::<char>::empty() {
                    assert(pc@.len() == 0);
                }
            }
            if zero {
                no_lines()
            } else {
                one_line(cat("Past due: $", ps.as_str()))
            }
        },
        None => no_lines(),
    }
}

/// The billing summary of a `BBDS` document: the lines to print, and
/// whether to fall back to the generic rendering because none of the
/// summary fields was there.
pub fn billing_summary(bbds: &Json) -> (res: (Vec<String>, bool))
    ensures
        lines_view(res.0@) == summary_block(bbds@),
        res.1 == !summary_printed(bbds@),
{
    let mut out = balance_part(bbds);
    let due = due_part(bbds);
    let past = past_due_part(bbds);
    let auto = autopay_lines(bbds);
    let printed = out.len() > 0 || due.len() > 0 || past.len() > 0 || auto.len() > 0;
    append_lines(&mut out, due);
    append_lines(&mut out, past);
    append_lines(&mut out, auto);
    let delinquent = match bbds.pointer("/balance/isDelinquent") {
        Some(Json::Bool(b)) => *b,
        _ => false,
    };
    if delinquent {
        append_lines(&mut out, one_line("Status:   delinquent".to_owned()));
    } else {
        append_lines(&mut out, no_lines());
    }
    (out, !printed)
}

/// `xfin balance` in text: the balance, or a note that there is none.
pub fn balance_line(bbds: &Json) -> (res: String)
    ensures
        res@ == match nonempty_scalar(bbds@.pointer("/balance/balanceDue"@)) {
            Some(b) => "Balance:  $"@ + b,
            None => "Balance not available."@,
        },
{
    match bbds.pointer("/balance/balanceDue") {
        Some(b) => {
            let s = b.scalar();
            if to_chars(s.as_str()).len() > 0 {
                cat("Balance:  $", s.as_str())
            } else {
                "Balance not available.".to_owned()
            }
        },
        None => "Balance not available.".to_owned(),
    }
}

// ---------------------------------------------------------------------------
// Account, devices, outages
// ---------------------------------------------------------------------------

/// The scalar text of a member that is present and not null.
pub open spec fn present_scalar(v: JsonV, key: Seq<char>) -> Option<Seq<char>> {
    match v.get(key) {
        Some(JsonV::Null) => None,
        Some(x) => Some(scalar(x)),
        None => None,
    }
}

/// The scalar text of a member, or nothing.
pub open spec fn scalar_or_empty(v: JsonV, key: Seq<char>) -> Seq<char> {
    match v.get(key) {
        Some(x) => scalar(x),
        None => Seq::empty(),
    }
}

/// A `Label: value` line for a present value.
pub open spec fn labelled(label: Seq<char>, o: Option<Seq<char>>) -> Seq<Seq<char>> {
    match o {
        Some(t) => seq![label + t],
        None => Seq::empty(),
    }
}

/// A `Label: value` line for a present, non-empty value.
pub open spec fn labelled_nonempty(label: Seq<char>, o: Option<JsonV>) -> Seq<Seq<char>> {
    match o {
        Some(x) => if scalar(x).len() > 0 {
            seq![label + scalar(x)]
        } else {
            Seq::empty()
        },
        None => Seq::empty(),
    }
}

/// The account profile block of an `accountContext` document.
pub open spec fn account_block(d: JsonV) -> Seq<Seq<char>> {
    (match (present_scalar(d, "firstName"@), present_scalar(d, "lastName"@)) {
        (Some(f), Some(l)) => seq!["Name:     "@ + f + " "@ + l],
        _ => Seq::empty(),
    }) + labelled("Account:  "@, present_scalar(d, "accountNumber"@)) + labelled(
        "Status:   "@,
        present_scalar(d, "status"@),
    ) + labelled_nonempty("Phone:    "@, d.pointer("/contactInfo/homePhone"@)) + (match d.get(
        "address"@,
    ) {
        Some(a) => seq![
            "Address:  "@ + scalar_or_empty(a, "line1"@) + " "@ + scalar_or_empty(a, "city"@) + " "@
                + scalar_or_empty(a, "state"@) + " "@ + scalar_or_empty(a, "zip"@),
        ],
        None => Seq::empty(),
    }) + labelled_nonempty("Loyalty:  "@, d.pointer("/loyalty/loyaltyTier"@))
}

fn present_scalar_of(v: &Json, key: &str) -> (res: Option<String>)
    ensures
        opt_string(res) == present_scalar(v@, key@),
{
    match v.get(key) {
        Some(Json::Null) => None,
        Some(x) => Some(x.scalar()),
        None => None,
    }
}

fn scalar_or_empty_of(v: &Json, key: &str) -> (res: String)
    ensures
        res@ == scalar_or_empty(v@, key@),
{
    match v.get(key) {
        Some(x) => x.scalar(),
        None => String::new(),
    }
}

fn labelled_of(label: &str, o: Option<String>) -> (res: Vec<String>)
    ensures
        lines_view(res@) == labelled(label@, opt_string(o)),
{
    match o {
        Some(t) => one_line(cat(label, t.as_str())),
        None => no_lines(),
    }
}

fn labelled_nonempty_of(label: &str, o: Option<&Json>) -> (res: Vec<String>)
    ensures
        lines_view(res@) == labelled_nonempty(label@, crate::json::opt_view(o)),
{
    match o {
        Some(x) => {
            let t = x.scalar();
            if to_chars(t.as_str()).len() > 0 {
                one_line(cat(label, t.as_str()))
            } else {
                no_lines()
            }
        },
        None => no_lines(),
    }
}

/// The account profile block.
pub fn account(d: &Json) -> (res: Vec<String>)
    ensures
        lines_view(res@) == account_block(d@),
{
    let mut out = match (present_scalar_of(d, "firstName"), present_scalar_of(d, "lastName")) {
        (Some(f), Some(l)) => {
            let mut m = cat("Name:     ", f.as_str());
            push_str(&mut m, " ");
            push_str(&mut m, l.as_str());
            one_line(m)
        },
        _ => no_lines(),
    };
    append_lines(&mut out, labelled_of("Account:  ", present_scalar_of(d, "accountNumber")));
    append_lines(&mut out, labelled_of("Status:   ", present_scalar_of(d, "status")));
    append_lines(&mut out, labelled_nonempty_of("Phone:    ", d.pointer("/contactInfo/homePhone")));
    let addr = match d.get("address") {
        Some(a) => {
            let mut m = cat("Address:  ", scalar_or_empty_of(a, "line1").as_str());
            push_str(&mut m, " ");
            push_str(&mut m, scalar_or_empty_of(a, "city").as_str());
            push_str(&mut m, " ");
            push_str(&mut m, scalar_or_empty_of(a, "state").as_str());
            push_str(&mut m, " ");
            push_str(&mut m, scalar_or_empty_of(a, "zip").as_str());
            one_line(m)
        },
        None => no_lines(),
    };
    append_lines(&mut out, addr);
    append_lines(&mut out, labelled_nonempty_of("Loyalty:  ", d.pointer("/loyalty/loyaltyTier")));
    out
}

/// The row of one device.
pub open spec fn device_row(d: JsonV) -> Seq<char> {
    scalar_or_empty(d, "deviceMake"@) + " | "@ + scalar_or_empty(d, "deviceModel"@) + " | "@
        + scalar_or_empty(d, "deviceStatus"@) + " | "@ + scalar_or_empty(d, "macaddress"@) + " | "@
        + scalar_or_empty(d, "serialNumber"@)
}

/// The device table of an equipment list: a header and one row per device;
/// nothing for anything but a non-empty array (that is rendered
/// generically).
pub open spec fn device_table(e: JsonV) -> Option<Seq<Seq<char>>> {
    match e {
        JsonV::Array(a) => if a.len() > 0 {
            Some(
                seq!["MAKE | MODEL | STATUS | MAC | SERIAL"@] + a.map_values(|d: JsonV| device_row(d)),
            )
        } else {
            None
        },
        _ => None,
    }
}

fn device_row_of(d: &Json) -> (res: String)
    ensures
        res@ == device_row(d@),
{
    let mut m = scalar_or_empty_of(d, "deviceMake");
    push_str(&mut m, " | ");
    push_str(&mut m, scalar_or_empty_of(d, "deviceModel").as_str());
    push_str(&mut m, " | ");
    push_str(&mut m, scalar_or_empty_of(d, "deviceStatus").as_str());
    push_str(&mut m, " | ");
    push_str(&mut m, scalar_or_empty_of(d, "macaddress").as_str());
    push_str(&mut m, " | ");
    push_str(&mut m, scalar_or_empty_of(d, "serialNumber").as_str());
    m
}

/// The device table, when `equipment` is a non-empty list.
pub fn devices(equipment: &Json) -> (res: Option<Vec<String>>)
    ensures
        match device_table(equipment@) {
            Some(t) => res matches Some(v) && lines_view(v@) == t,
            None => res is None,
        },
{
    match equipment {
        Json::Array(items) => {
            proof {
                crate::json::lemma_view_items(items@);
            }
            if items.len() == 0 {
                return None;
            }
            let ghost a = view_items(items@);
            let mut out = one_line("MAKE | MODEL | STATUS | MAC | SERIAL".to_owned());
            let mut i: usize = 0;
            while i < items.len()
                invariant
                    i <= items@.len(),
                    a == view_items(items@),
                    a.len() == items@.len(),
                    forall|k: int| 0 <= k < items@.len() ==> #[trigger] a[k] == items@[k]@,
                    lines_view(out@) == seq!["MAKE | MODEL | STATUS | MAC | SERIAL"@] + a.take(
                        i as int,
                    ).map_values(|d: JsonV| device_row(d)),
                decreases items@.len() - i,
            {
                push_line(&mut out, device_row_of(&items[i]));
                assert(a.take(i + 1).map_values(|d: JsonV| device_row(d)) =~= a.take(
                    i as int,
                ).map_values(|d: JsonV| device_row(d)).push(device_row(a[i as int])));
                i = i + 1;
            }
            assert(a.take(items@.len() as int) == a);
            Some(out)
        },
        _ => None,
    }
}

/// A boolean member that is `true`.
pub open spec fn flag_set(v: JsonV, key: Seq<char>) -> bool {
    v.get(key) matches Some(JsonV::Bool(true))
}

/// The services an outage's `current` map marks as affected.
pub open spec fn affected(m: Seq<(Seq<char>, JsonV)>) -> Seq<Seq<char>>
    decreases m.len(),
{
    if m.len() == 0 {
        Seq::empty()
    } else {
        affected(m.drop_last()) + if m.last().1 == JsonV::Bool(true) {
            seq!["  "@ + m.last().0]
        } else {
            Seq::<Seq<char>>::empty()
        }
    }
}

/// The outage report of an `outageContext` document: the lines, and
/// whether the document is also to be rendered generically (an outage with
/// no `current` map).
pub open spec fn outage_report(oc: JsonV) -> (Seq<Seq<char>>, bool) {
    if !flag_set(oc, "isOutage"@) {
        (
            seq!["No active outages."@] + line_if(
                flag_set(oc, "futureOutage"@),
                "(future outage on record)"@,
            ) + line_if(flag_set(oc, "pastOutage"@), "(recent outage on record)"@),
            false,
        )
    } else {
        match oc.get("current"@) {
            Some(JsonV::Object(m)) => (seq!["OUTAGE — affected services:"@] + affected(m), false),
            _ => (seq!["OUTAGE — affected services:"@], true),
        }
    }
}

fn flag_set_of(v: &Json, key: &str) -> (res: bool)
    ensures
        res == flag_set(v@, key@),
{
    match v.get(key) {
        Some(Json::Bool(b)) => *b,
        _ => false,
    }
}

/// The outage report.
pub fn outages(oc: &Json) -> (res: (Vec<String>, bool))
    ensures
        (lines_view(res.0@), res.1) == outage_report(oc@),
{
    if !flag_set_of(oc, "isOutage") {
        let mut out = one_line("No active outages.".to_owned());
        if flag_set_of(oc, "futureOutage") {
            append_lines(&mut out, one_line("(future outage on record)".to_owned()));
        } else {
            append_lines(&mut out, no_lines());
        }
        if flag_set_of(oc, "pastOutage") {
            append_lines(&mut out, one_line("(recent outage on record)".to_owned()));
        } else {
            append_lines(&mut out, no_lines());
        }
        return (out, false);
    }
    let mut out = one_line("OUTAGE — affected services:".to_owned());
    match oc.get("current") {
        Some(Json::Object(m)) => {
            proof {
                crate::json::lemma_view_members(m@);
            }
            let ghost ms = view_members(m@);
            let ghost head = lines_view(out@);
            let mut i: usize = 0;
            while i < m.len()
                invariant
                    i <= m@.len(),
                    ms == view_members(m@),
                    ms.len() == m@.len(),
                    forall|k: int| 0 <= k < m@.len() ==> #[trigger] ms[k] == (m@[k].0@, m@[k].1@),
                    lines_view(out@) == head + affected(ms.take(i as int)),
                decreases m@.len() - i,
            {
                assert(ms.take(i + 1).drop_last() == ms.take(i as int));
                let up = match &m[i].1 {
                    Json::Bool(b) => *b,
                    _ => false,
                };
                if up {
                    append_lines(&mut out, one_line(cat("  ", m[i].0.as_str())));
                } else {
                    append_lines(&mut out, no_lines());
                }
                assert(lines_view(out@) =~= head + affected(ms.take(i + 1)));
                i = i + 1;
            }
            assert(ms.take(m@.len() as int) == ms);
            (out, false)
        },
        _ => (out, true),
    }
}

/// The JSON envelope a failure is reported with in `--json` mode: its exit
/// code and message under `error`.
pub open spec fn error_json(e: AppError) -> JsonV {
    JsonV::Object(
        seq![
            (
                "error"@,
                JsonV::Object(
                    seq![
                        ("code"@, JsonV::Number(decimal(e.code() as nat))),
                        ("message"@, JsonV::Str(e.text())),
                    ],
                ),
            ),
        ],
    )
}

/// The JSON envelope a failure is reported with in `--json` mode.
pub fn error_report(e: &AppError) -> (res: Json)
    ensures
        res@ == error_json(*e),
{
    let code = e.exit_code();
    let mut n = String::new();
    push_decimal(&mut n, code as u64);
    let msg = e.message();
    let mut inner: Vec<(String, Json)> = Vec::new();
    push_member(&mut inner, "code", Json::Number(n));
    push_member(&mut inner, "message", text_value(msg.as_str()));
    let mut outer: Vec<(String, Json)> = Vec::new();
    push_member(&mut outer, "error", Json::Object(inner));
    assert(view_members(inner@) =~= seq![
        ("code"@, JsonV::Number(decimal(e.code() as nat))),
        ("message"@, JsonV::Str(e.text())),
    ]);
    assert(view_members(outer@) =~= match error_json(*e) {
        JsonV::Object(ms) => ms,
        _ => Seq::empty(),
    });
    Json::Object(outer)
}

} // verus!
