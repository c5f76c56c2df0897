//! The utility profile mapping: converts Xfinity's provider-shaped `BBDS`
//! JSON into the shared DTOs (`utility-summary/v1`, `statement/v1`):
//! string-decimal [`Money`], ISO `YYYY-MM-DD` dates, best-effort on every
//! field because the provider's shapes drift.

use vstd::prelude::*;

use crate::client::opt_text;
use crate::json::{opt_view, push_item, push_member, scalar, text_value, view_items, view_members, Json, JsonV};
use crate::dates::{iso_ymd, parse_iso, parse_unsigned, parse_unsigned_chars, ymd_before};
use crate::text::{
    all_digits, before_char, before_first, decimal, digit_char, digit_value, digits_value, is_digit,
    lemma_before_char_at, parse_digits, push_char, push_decimal, split_from, split_on,
    is_text, string_from, to_chars, to_uppercase, trim, trimmed, unicode_upper, zero_pad,
};

verus! {

broadcast use {vstd::std_specs::vec::group_vec_axioms, vstd::seq::group_seq_axioms};

// ---------------------------------------------------------------------------
// Dates
// ---------------------------------------------------------------------------

/// The ISO text of a `M/D/YYYY` date, when its three parts read as a month,
/// a day and a four-or-more digit year.
pub open spec fn slash_date(d: Seq<char>) -> Option<Seq<char>> {
    let parts = split_on(d, '/');
    if parts.len() == 3 {
        match (
            parse_unsigned(parts[0], 4294967295),
            parse_unsigned(parts[1], 4294967295),
            parse_unsigned(parts[2], 9223372036854775807),
        ) {
            (Some(m), Some(day), Some(y)) => if 1 <= m <= 12 && 1 <= day <= 31 && y >= 1000 {
                Some(
                    decimal(y) + seq!['-'] + zero_pad(decimal(m), 2) + seq!['-'] + zero_pad(
                        decimal(day),
                        2,
                    ),
                )
            } else {
                None
            },
            _ => None,
        }
    } else {
        None
    }
}

/// A provider date normalised to ISO: the part before any `T` when it is a
/// calendar date, else a `M/D/YYYY` date rewritten, else the text verbatim.
pub open spec fn iso_date_text(s: Seq<char>) -> Seq<char> {
    let d = before_char(s, 'T');
    if iso_ymd(d) is Some {
        d
    } else if slash_date(d) is Some {
        slash_date(d).unwrap()
    } else {
        s
    }
}

/// Appends `n` with at least two digits.
fn push_two_digits(out: &mut String, n: u64)
    ensures
        final(out)@ == old(out)@ + zero_pad(decimal(n as nat), 2),
{
    proof {
        reveal_with_fuel(decimal, 3);
    }
    if n < 10 {
        push_char(out, '0');
        push_decimal(out, n);
        assert(decimal(n as nat).len() == 1);
        assert(zero_pad(decimal(n as nat), 2) =~= seq!['0'] + decimal(n as nat));
    } else {
        push_decimal(out, n);
        assert(decimal(n as nat).len() >= 2);
    }
}

/// Provider date (`YYYY-MM-DD[Thh:mm:ss]`, `MM/DD/YYYY`) to ISO `YYYY-MM-DD`;
/// unrecognised text passes through verbatim.
pub fn iso_date(s: &str) -> (res: String)
    ensures
        res@ == iso_date_text(s@),
{
    let sc = to_chars(s);
    let d = before_first(&sc, 'T');
    let ds = string_from(&d);
    if parse_iso(ds.as_str()).is_some() {
        return ds;
    }
    let parts = split_from(&d, 0, '/');
    assert(d@.subrange(0, d@.len() as int) == d@);
    if parts.len() == 3 {
        let m = parse_unsigned_chars(&parts[0], 4294967295);
        let day = parse_unsigned_chars(&parts[1], 4294967295);
        let y = parse_unsigned_chars(&parts[2], 9223372036854775807);
        match (m, day, y) {
            (Some(m), Some(day), Some(y)) => {
                if 1 <= m && m <= 12 && 1 <= day && day <= 31 && y >= 1000 {
                    let mut out = String::new();
                    push_decimal(&mut out, y);
                    push_char(&mut out, '-');
                    push_two_digits(&mut out, m);
                    push_char(&mut out, '-');
                    push_two_digits(&mut out, day);
                    assert(out@ =~= slash_date(d@).unwrap());
                    return out;
                }
            },
            _ => {},
        }
    }
    string_from(&sc)
}

/// The calendar date of an optional text, when it is one.
pub open spec fn opt_iso(o: Option<Seq<char>>) -> Option<(nat, nat, nat)> {
    match o {
        Some(t) => iso_ymd(t),
        None => None,
    }
}

/// Whether a record dated `date` passes the `since`/`until` bounds. With no
/// bound everything passes; with one, only records with a calendar date
/// that is not before `since` nor after `until` (a bound that is not a
/// calendar date bounds nothing).
pub open spec fn date_in_range(
    date: Option<Seq<char>>,
    since: Option<Seq<char>>,
    until: Option<Seq<char>>,
) -> bool {
    if since is None && until is None {
        true
    } else {
        match opt_iso(date) {
            None => false,
            Some(d) => !(opt_iso(since) matches Some(s) && ymd_before(d, s)) && !(opt_iso(
                until,
            ) matches Some(u) && ymd_before(u, d)),
        }
    }
}

fn opt_parse_iso(o: Option<&str>) -> (res: Option<(u32, u32, u32)>)
    ensures
        match res {
            Some((y, m, d)) => opt_iso(opt_text(o)) == Some((y as nat, m as nat, d as nat)),
            None => opt_iso(opt_text(o)) is None,
        },
{
    match o {
        Some(t) => parse_iso(t),
        None => None,
    }
}

fn before(a: (u32, u32, u32), b: (u32, u32, u32)) -> (res: bool)
    ensures
        res == ymd_before((a.0 as nat, a.1 as nat, a.2 as nat), (b.0 as nat, b.1 as nat, b.2 as nat)),
{
    a.0 < b.0 || (a.0 == b.0 && (a.1 < b.1 || (a.1 == b.1 && a.2 < b.2)))
}

/// Does `date` (ISO, from a DTO) fall inside the already-validated
/// `--since`/`--until` bounds? With a bound set, records without a
/// comparable date are excluded.
pub fn in_range(date: Option<&str>, since: Option<&str>, until: Option<&str>) -> (res: bool)
    ensures
        res == date_in_range(opt_text(date), opt_text(since), opt_text(until)),
{
    if since.is_none() && until.is_none() {
        return true;
    }
    let d = match opt_parse_iso(date) {
        Some(d) => d,
        None => return false,
    };
    if let Some(s) = opt_parse_iso(since) {
        if before(d, s) {
            return false;
        }
    }
    if let Some(u) = opt_parse_iso(until) {
        if before(u, d) {
            return false;
        }
    }
    true
}

// ---------------------------------------------------------------------------
// Money
// ---------------------------------------------------------------------------

/// An amount of money as a string decimal with two fraction digits, never a
/// float on the wire.
#[derive(Debug)]
pub struct Money {
    pub amount: String,
    pub currency: String,
}

/// The largest whole-dollar part an amount may have.
pub const MAX_DOLLARS: u64 = 1_000_000_000_000_000;

/// `s` without its commas.
pub open spec fn without_commas(s: Seq<char>) -> Seq<char>
    decreases s.len(),
{
    if s.len() == 0 {
        s
    } else if s.last() == ',' {
        without_commas(s.drop_last())
    } else {
        without_commas(s.drop_last()).push(s.last())
    }
}

/// Every character is a digit or a comma.
pub open spec fn digits_or_commas(s: Seq<char>) -> bool {
    forall|i: int| 0 <= i < s.len() ==> is_digit(#[trigger] s[i]) || s[i] == ','
}

/// Cents from the fraction digits of an amount, rounded half up.
pub open spec fn fraction_cents(f: Seq<char>) -> nat {
    (if f.len() >= 1 {
        digit_value(f[0]) * 10
    } else {
        0
    }) + (if f.len() >= 2 {
        digit_value(f[1])
    } else {
        0
    }) + (if f.len() >= 3 && f[2] >= '5' {
        1nat
    } else {
        0
    })
}

/// Cents of an unsigned amount `digits[,digits][.digits]`.
pub open spec fn unsigned_cents(v: Seq<char>) -> Option<nat> {
    let ip = before_char(v, '.');
    let has_dot = ip.len() < v.len();
    let frac = v.subrange(ip.len() + 1int, v.len() as int);
    let digits = without_commas(ip);
    if digits_or_commas(ip) && digits.len() > 0 && (!has_dot || (frac.len() > 0 && all_digits(
        frac,
    ))) && digits_value(digits) <= MAX_DOLLARS {
        Some(
            digits_value(digits) * 100 + if has_dot {
                fraction_cents(frac)
            } else {
                0
            },
        )
    } else {
        None
    }
}

/// The two-decimal text of `cents`, negative when `neg` and non-zero.
pub open spec fn money_text(neg: bool, cents: nat) -> Seq<char> {
    (if neg && cents > 0 {
        seq!['-']
    } else {
        Seq::empty()
    }) + decimal(cents / 100) + seq!['.'] + zero_pad(decimal(cents % 100), 2)
}

/// A money text is negative: after trimming it starts with `-`.
pub open spec fn amount_negative(s: Seq<char>) -> bool {
    trim(s).len() > 0 && trim(s)[0] == '-'
}

/// The unsigned part of a money text: trimmed, without a leading `-`, then
/// without a leading `$`.
pub open spec fn unsigned_part(s: Seq<char>) -> Seq<char> {
    let t = trim(s);
    let u = if amount_negative(s) {
        t.drop_first()
    } else {
        t
    };
    if u.len() > 0 && u[0] == '$' {
        u.drop_first()
    } else {
        u
    }
}

/// The amount a provider money text stands for: surrounding whitespace, an
/// optional `-`, then an optional `$`, then the unsigned amount.
pub open spec fn usd_amount(s: Seq<char>) -> Option<Seq<char>> {
    match unsigned_cents(unsigned_part(s)) {
        Some(c) => Some(money_text(amount_negative(s), c)),
        None => None,
    }
}

impl Money {
    /// A US-dollar amount written as given.
    pub fn usd(amount: &str) -> (res: Money)
        ensures
            res.amount@ == amount@,
            res.currency@ == "USD"@,
    {
        let a = to_chars(amount);
        let c = to_chars("USD");
        Money { amount: string_from(&a), currency: string_from(&c) }
    }

    /// Reads a provider money text (`45.33`, `"$1,234.50"`, `-12.3`) as US
    /// dollars with two fraction digits.
    pub fn parse_usd(s: &str) -> (res: Option<Money>)
        ensures
            match res {
                Some(m) => usd_amount(s@) == Some(m.amount@) && m.currency@ == "USD"@,
                None => usd_amount(s@) is None,
            },
    {
        let t = trimmed(s);
        let neg = t.len() > 0 && t[0] == '-';
        let mut i: usize = if neg {
            1
        } else {
            0
        };
        let ghost u = if neg {
            t@.drop_first()
        } else {
            t@
        };
        assert(u == t@.subrange(i as int, t@.len() as int));
        if i < t.len() && t[i] == '$' {
            i = i + 1;
        }
        let ghost v = t@.subrange(i as int, t@.len() as int);
        assert(v == (if u.len() > 0 && u[0] == '$' {
            u.drop_first()
        } else {
            u
        }));
        let cents = match Self::cents_from(&t, i) {
            Some(c) => c,
            None => return None,
        };
        let mut out = String::new();
        if neg && cents > 0 {
            push_char(&mut out, '-');
        }
        push_decimal(&mut out, cents / 100);
        push_char(&mut out, '.');
        push_two_digits(&mut out, cents % 100);
        assert(out@ =~= money_text(neg, cents as nat));
        let c = to_chars("USD");
        Some(Money { amount: out, currency: string_from(&c) })
    }

    /// Cents of the unsigned amount `t[from..]`.
    #[verifier::loop_isolation(false)]
    fn cents_from(t: &Vec<char>, from: usize) -> (res: Option<u64>)
        requires
            from <= t@.len(),
        ensures
            match res {
                Some(c) => unsigned_cents(t@.subrange(from as int, t@.len() as int)) == Some(
                    c as nat,
                ),
                None => unsigned_cents(t@.subrange(from as int, t@.len() as int)) is None,
            },
    {
        let ghost v = t@.subrange(from as int, t@.len() as int);
        let mut k = from;
        while k < t.len() && t[k] != '.'
            invariant
                from <= k <= t@.len(),
                forall|j: int| from <= j < k ==> (#[trigger] t@[j]) != '.',
            decreases t@.len() - k,
        {
            k = k + 1;
        }
        let ghost n = k - from;
        proof {
            assert forall|j: int| 0 <= j < n implies (#[trigger] v[j]) != '.' by {
                assert(v[j] == t@[j + from]);
            }
            lemma_before_char_at(v, '.', n);
        }
        let ghost ip = v.subrange(0, n);
        let mut digits: Vec<char> = Vec::new();
        let mut j = from;
        while j < k
            invariant
                from <= j <= k,
                digits@ == without_commas(ip.subrange(0, j - from)),
                all_digits(digits@),
                digits_or_commas(ip.subrange(0, j - from)),
            decreases k - j,
        {
            let c = t[j];
            assert(ip[j - from] == c);
            let ghost pre = ip.subrange(0, j - from + 1);
            assert(pre.drop_last() == ip.subrange(0, j - from));
            if c == ',' {
            } else if '0' <= c && c <= '9' {
                digits.push(c);
            } else {
                assert(!digits_or_commas(ip));
                return None;
            }
            j = j + 1;
        }
        assert(ip.subrange(0, n) == ip);
        if digits.len() == 0 {
            return None;
        }
        let has_dot = k < t.len();
        let ghost frac = v.subrange(n + 1, v.len() as int);
        let mut frac_cents: u64 = 0;
        if has_dot {
            if k + 1 == t.len() {
                return None;
            }
            let mut f = k + 1;
            while f < t.len()
                invariant
                    k + 1 <= f <= t@.len(),
                    forall|q: int| k + 1 <= q < f ==> is_digit(#[trigger] t@[q]),
                decreases t@.len() - f,
            {
                if !('0' <= t[f] && t[f] <= '9') {
                    assert(!is_digit(frac[f - k - 1]));
                    return None;
                }
                f = f + 1;
            }
            assert(all_digits(frac)) by {
                assert forall|q: int| 0 <= q < frac.len() implies is_digit(#[trigger] frac[q]) by {
                    assert(frac[q] == t@[q + k + 1]);
                }
            }
            let first = (t[k + 1] as u32 - 48) as u64;
            assert(frac[0] == t@[k + 1]);
            frac_cents = first * 10;
            if t.len() - k > 2 {
                assert(frac[1] == t@[k + 2]);
                frac_cents = frac_cents + (t[k + 2] as u32 - 48) as u64;
            }
            if t.len() - k > 3 {
                assert(frac[2] == t@[k + 3]);
                if t[k + 3] >= '5' {
                    frac_cents = frac_cents + 1;
                }
            }
            assert(frac_cents == fraction_cents(frac));
        }
        let dollars = match parse_digits(&digits, 0, digits.len(), MAX_DOLLARS) {
            Some(d) => d,
            None => {
                assert(digits@.subrange(0, digits@.len() as int) == digits@);
                return None;
            },
        };
        assert(digits@.subrange(0, digits@.len() as int) == digits@);
        Some(dollars * 100 + frac_cents)
    }
}

/// The amount a provider money value stands for: a JSON number or string
/// read as dollars; nothing for anything else.
pub open spec fn money_of(v: Option<JsonV>) -> Option<Seq<char>> {
    match v {
        Some(JsonV::Number(n)) => usd_amount(n),
        Some(JsonV::Str(t)) => usd_amount(t),
        _ => None,
    }
}

/// Provider money scalar (JSON number `45.33` or text `"$45.33"`) to
/// [`Money`].
pub fn money(v: Option<&Json>) -> (res: Option<Money>)
    ensures
        match res {
            Some(m) => money_of(opt_view(v)) == Some(m.amount@) && m.currency@ == "USD"@,
            None => money_of(opt_view(v)) is None,
        },
{
    match v {
        Some(x) => match x {
            Json::Number(_) | Json::Str(_) => {
                let t = x.scalar();
                Money::parse_usd(t.as_str())
            },
            _ => None,
        },
        None => None,
    }
}

/// `m`, or a zero balance.
fn money_or_zero(m: Option<Money>) -> (res: Money)
    ensures
        res.amount@ == match m {
            Some(x) => x.amount@,
            None => "0.00"@,
        },
        res.currency@ == match m {
            Some(x) => x.currency@,
            None => "USD"@,
        },
{
    match m {
        Some(x) => x,
        None => Money::usd("0.00"),
    }
}

// ---------------------------------------------------------------------------
// DTOs
// ---------------------------------------------------------------------------

/// The non-empty scalar text of an optional value.
pub open spec fn nonempty_scalar(v: Option<JsonV>) -> Option<Seq<char>> {
    match v {
        Some(x) => if scalar(x).len() > 0 {
            Some(scalar(x))
        } else {
            None
        },
        None => None,
    }
}

/// The first of two optional texts that is present.
pub open spec fn first_of(a: Option<Seq<char>>, b: Option<Seq<char>>) -> Option<Seq<char>> {
    if a is Some {
        a
    } else {
        b
    }
}

/// An optional text, normalised as a date.
pub open spec fn opt_iso_date(o: Option<Seq<char>>) -> Option<Seq<char>> {
    match o {
        Some(d) => Some(iso_date_text(d)),
        None => None,
    }
}

/// The view of an optional owned string.
pub open spec fn opt_string(o: Option<String>) -> Option<Seq<char>> {
    match o {
        Some(s) => Some(s@),
        None => None,
    }
}

fn nonempty_scalar_of(v: Option<&Json>) -> (res: Option<String>)
    ensures
        opt_string(res) == nonempty_scalar(opt_view(v)),
{
    match v {
        Some(x) => {
            let t = x.scalar();
            if to_chars(t.as_str()).len() > 0 {
                Some(t)
            } else {
                None
            }
        },
        None => None,
    }
}

fn first_string(a: Option<String>, b: Option<String>) -> (res: Option<String>)
    ensures
        opt_string(res) == first_of(opt_string(a), opt_string(b)),
{
    match a {
        Some(x) => Some(x),
        None => b,
    }
}

fn iso_date_opt(o: Option<String>) -> (res: Option<String>)
    ensures
        opt_string(res) == opt_iso_date(opt_string(o)),
{
    match o {
        Some(d) => Some(iso_date(d.as_str())),
        None => None,
    }
}

/// Autopay state from the provider's status text: on for `ON`, `ACTIVE` or
/// `ENROLLED` in any case, off for any other text, unknown without one.
pub open spec fn autopay_flag(status: Option<Seq<char>>) -> Option<bool> {
    match status {
        Some(s) => Some(
            unicode_upper(s) == "ON"@ || unicode_upper(s) == "ACTIVE"@ || unicode_upper(s)
                == "ENROLLED"@,
        ),
        None => None,
    }
}

/// Paid state from the provider's bill status: paid for `PAID`, unpaid for
/// `DUE`, `UNPAID`, `OPEN`, `OVERDUE`, `PAST DUE` or `PAST_DUE` (any case),
/// unknown otherwise.
pub open spec fn paid_flag(status: Option<Seq<char>>) -> Option<bool> {
    match status {
        Some(s) => {
            let u = unicode_upper(s);
            if u == "PAID"@ {
                Some(true)
            } else if u == "DUE"@ || u == "UNPAID"@ || u == "OPEN"@ || u == "OVERDUE"@ || u
                == "PAST DUE"@ || u == "PAST_DUE"@ {
                Some(false)
            } else {
                None
            }
        },
        None => None,
    }
}

/// The `utility-summary/v1` DTO.
#[derive(Debug)]
pub struct UtilitySummary {
    pub balance: Money,
    pub due_date: Option<String>,
    pub account: Option<String>,
    pub autopay: Option<bool>,
}

/// Mathematical value of a [`UtilitySummary`].
pub ghost struct SummaryV {
    pub balance: Seq<char>,
    pub currency: Seq<char>,
    pub due_date: Option<Seq<char>>,
    pub account: Option<Seq<char>>,
    pub autopay: Option<bool>,
}

impl View for UtilitySummary {
    type V = SummaryV;

    open spec fn view(&self) -> SummaryV {
        SummaryV {
            balance: self.balance.amount@,
            currency: self.balance.currency@,
            due_date: opt_string(self.due_date),
            account: opt_string(self.account),
            autopay: self.autopay,
        }
    }
}

impl UtilitySummary {
    /// A summary with a balance and nothing else known.
    pub fn new(balance: Money) -> (res: UtilitySummary)
        ensures
            res.balance == balance,
            res.due_date is None,
            res.account is None,
            res.autopay is None,
    {
        UtilitySummary { balance, due_date: None, account: None, autopay: None }
    }
}

/// The summary a `BBDS` document maps to, with `account` the caller's
/// override (the document carries no account number).
pub open spec fn summary_of(bbds: JsonV, account: Option<Seq<char>>) -> SummaryV {
    SummaryV {
        balance: match money_of(bbds.pointer("/balance/balanceDue"@)) {
            Some(a) => a,
            None => "0.00"@,
        },
        currency: "USD"@,
        due_date: opt_iso_date(nonempty_scalar(bbds.pointer("/dueDate"@))),
        account: match account {
            Some(a) => if a.len() > 0 {
                Some(a)
            } else {
                None
            },
            None => None,
        },
        autopay: autopay_flag(nonempty_scalar(bbds.pointer("/autopay/status"@))),
    }
}

fn autopay_of(status: Option<String>) -> (res: Option<bool>)
    ensures
        res == autopay_flag(opt_string(status)),
{
    match status {
        Some(s) => {
            let u = to_chars(to_uppercase(s.as_str()).as_str());
            Some(is_text(&u, "ON") || is_text(&u, "ACTIVE") || is_text(&u, "ENROLLED"))
        },
        None => None,
    }
}

/// `BBDS` to `utility-summary/v1`.
pub fn summary_dto(bbds: &Json, account: Option<String>) -> (res: UtilitySummary)
    ensures
        res@ == summary_of(bbds@, opt_string(account)),
{
    let mut dto = UtilitySummary::new(money_or_zero(money(bbds.pointer("/balance/balanceDue"))));
    dto.due_date = iso_date_opt(nonempty_scalar_of(bbds.pointer("/dueDate")));
    dto.account = match account {
        Some(a) => if to_chars(a.as_str()).len() > 0 {
            Some(a)
        } else {
            None
        },
        None => None,
    };
    dto.autopay = autopay_of(nonempty_scalar_of(bbds.pointer("/autopay/status")));
    dto
}

/// The `statement/v1` DTO.
#[derive(Debug)]
pub struct Statement {
    pub id: String,
    pub date: Option<String>,
    pub amount: Money,
    pub due_date: Option<String>,
    pub paid: Option<bool>,
}

/// Mathematical value of a [`Statement`].
pub ghost struct StatementV {
    pub id: Seq<char>,
    pub date: Option<Seq<char>>,
    pub amount: Seq<char>,
    pub currency: Seq<char>,
    pub due_date: Option<Seq<char>>,
    pub paid: Option<bool>,
}

impl View for Statement {
    type V = StatementV;

    open spec fn view(&self) -> StatementV {
        StatementV {
            id: self.id@,
            date: opt_string(self.date),
            amount: self.amount.amount@,
            currency: self.amount.currency@,
            due_date: opt_string(self.due_date),
            paid: self.paid,
        }
    }
}

/// The raw statement records of a `BBDS` document: the elements of a
/// `statementDetails` array, or a lone `statementDetails` object.
pub open spec fn statement_records(bbds: JsonV) -> Seq<JsonV> {
    match bbds.get("statementDetails"@) {
        Some(JsonV::Array(a)) => a,
        Some(JsonV::Object(m)) => seq![JsonV::Object(m)],
        _ => Seq::empty(),
    }
}

/// The raw statement records under `BBDS` `statementDetails`. The current
/// account experience reports a single summary object; a list is tolerated
/// in case the shape drifts.
pub fn statement_values(bbds: &Json) -> (res: Vec<Json>)
    ensures
        view_items(res@) == statement_records(bbds@),
{
    let mut out: Vec<Json> = Vec::new();
    match bbds.get("statementDetails") {
        Some(Json::Array(a)) => {
            let mut i: usize = 0;
            proof {
                crate::json::lemma_view_items(a@);
            }
            while i < a.len()
                invariant
                    i <= a@.len(),
                    view_items(out@) == view_items(a@).subrange(0, i as int),
                    view_items(a@).len() == a@.len(),
                    forall|k: int| 0 <= k < a@.len() ==> #[trigger] view_items(a@)[k] == a@[k]@,
                decreases a@.len() - i,
            {
                push_item(&mut out, a[i].copy());
                assert(view_items(a@).subrange(0, i + 1) == view_items(a@).subrange(0, i as int).push(
                    a@[i as int]@,
                ));
                i = i + 1;
            }
            assert(view_items(a@).subrange(0, a@.len() as int) == view_items(a@));
        },
        Some(Json::Object(m)) => {
            let v = bbds.get("statementDetails").unwrap().copy();
            push_item(&mut out, v);
            assert(view_items(out@) == seq![v@]);
        },
        _ => {},
    }
    out
}

/// The first non-empty scalar among two members.
pub open spec fn field2(raw: JsonV, a: Seq<char>, b: Seq<char>) -> Option<Seq<char>> {
    first_of(nonempty_scalar(raw.get(a)), nonempty_scalar(raw.get(b)))
}

/// The statement date text, before normalisation.
pub open spec fn raw_statement_date(raw: JsonV) -> Option<Seq<char>> {
    first_of(
        nonempty_scalar(raw.get("lastStatementDate"@)),
        field2(raw, "statementDate"@, "date"@),
    )
}

/// The first of two optional values that is present.
pub open spec fn first_value(a: Option<JsonV>, b: Option<JsonV>) -> Option<JsonV> {
    if a is Some {
        a
    } else {
        b
    }
}

/// The statement one raw record maps to; `pos` is its 1-based position, the
/// id of last resort when the record has neither an id nor a date.
pub open spec fn statement_of(raw: JsonV, pos: nat) -> StatementV {
    let date = opt_iso_date(raw_statement_date(raw));
    StatementV {
        id: match first_of(field2(raw, "statementId"@, "id"@), date) {
            Some(i) => i,
            None => decimal(pos),
        },
        date: date,
        amount: match money_of(first_value(raw.get("statementBalance"@), raw.get("amount"@))) {
            Some(a) => a,
            None => "0.00"@,
        },
        currency: "USD"@,
        due_date: opt_iso_date(nonempty_scalar(raw.get("dueDate"@))),
        paid: paid_flag(field2(raw, "billStatus"@, "status"@)),
    }
}

fn field_of(raw: &Json, key: &str) -> (res: Option<String>)
    ensures
        opt_string(res) == nonempty_scalar(raw@.get(key@)),
{
    nonempty_scalar_of(raw.get(key))
}

fn paid_of(status: Option<String>) -> (res: Option<bool>)
    ensures
        res == paid_flag(opt_string(status)),
{
    match status {
        Some(s) => {
            let u = to_chars(to_uppercase(s.as_str()).as_str());
            if is_text(&u, "PAID") {
                Some(true)
            } else if is_text(&u, "DUE") || is_text(&u, "UNPAID") || is_text(&u, "OPEN") || is_text(
                &u,
                "OVERDUE",
            ) || is_text(&u, "PAST DUE") || is_text(&u, "PAST_DUE") {
                Some(false)
            } else {
                None
            }
        },
        None => None,
    }
}

fn decimal_string(n: usize) -> (res: String)
    ensures
        res@ == decimal(n as nat),
{
    let mut out = String::new();
    push_decimal(&mut out, n as u64);
    out
}

fn clone_opt(o: &Option<String>) -> (res: Option<String>)
    ensures
        opt_string(res) == opt_string(*o),
{
    match o {
        Some(s) => Some(s.clone()),
        None => None,
    }
}

/// One raw statement record to `statement/v1`, best-effort: absent fields
/// are omitted, never panicked on.
pub fn statement_dto(raw: &Json, pos: usize) -> (res: Statement)
    ensures
        res@ == statement_of(raw@, pos as nat),
{
    let raw_date = first_string(
        field_of(raw, "lastStatementDate"),
        first_string(field_of(raw, "statementDate"), field_of(raw, "date")),
    );
    let date = iso_date_opt(raw_date);
    let id = match first_string(
        first_string(field_of(raw, "statementId"), field_of(raw, "id")),
        clone_opt(&date),
    ) {
        Some(i) => i,
        None => decimal_string(pos),
    };
    let source = match raw.get("statementBalance") {
        Some(v) => Some(v),
        None => raw.get("amount"),
    };
    let amount = money_or_zero(money(source));
    let due_date = iso_date_opt(field_of(raw, "dueDate"));
    let paid = paid_of(first_string(field_of(raw, "billStatus"), field_of(raw, "status")));
    Statement { id, date, amount, due_date, paid }
}

// ---------------------------------------------------------------------------
// DTOs as JSON
// ---------------------------------------------------------------------------

/// A money value as JSON.
pub open spec fn money_json(amount: Seq<char>, currency: Seq<char>) -> JsonV {
    JsonV::Object(seq![("amount"@, JsonV::Str(amount)), ("currency"@, JsonV::Str(currency))])
}

/// A string member that is present only with a value.
pub open spec fn text_member(key: Seq<char>, o: Option<Seq<char>>) -> Seq<(Seq<char>, JsonV)> {
    match o {
        Some(t) => seq![(key, JsonV::Str(t))],
        None => Seq::empty(),
    }
}

/// A boolean member that is present only with a value.
pub open spec fn bool_member(key: Seq<char>, o: Option<bool>) -> Seq<(Seq<char>, JsonV)> {
    match o {
        Some(b) => seq![(key, JsonV::Bool(b))],
        None => Seq::empty(),
    }
}

/// `utility-summary/v1` as JSON; absent fields are omitted.
pub open spec fn summary_json(s: SummaryV) -> JsonV {
    JsonV::Object(
        seq![
            ("schema"@, JsonV::Str("utility-summary/v1"@)),
            ("balance"@, money_json(s.balance, s.currency)),
        ] + text_member("due_date"@, s.due_date) + text_member("account"@, s.account)
            + bool_member("autopay"@, s.autopay),
    )
}

/// `statement/v1` as JSON; absent fields are omitted.
pub open spec fn statement_json(s: StatementV) -> JsonV {
    JsonV::Object(
        seq![("id"@, JsonV::Str(s.id))] + text_member("date"@, s.date) + seq![
            ("amount"@, money_json(s.amount, s.currency)),
        ] + text_member("due_date"@, s.due_date) + bool_member("paid"@, s.paid),
    )
}

/// `statement-list/v1`: the statements, with their count.
pub open spec fn statement_list_json(items: Seq<StatementV>) -> JsonV {
    JsonV::Object(
        seq![
            ("schema"@, JsonV::Str("statement-list/v1"@)),
            ("count"@, JsonV::Number(decimal(items.len()))),
            ("items"@, JsonV::Array(items.map_values(|s: StatementV| statement_json(s)))),
        ],
    )
}

fn money_value(m: &Money) -> (res: Json)
    ensures
        res@ == money_json(m.amount@, m.currency@),
{
    let mut members: Vec<(String, Json)> = Vec::new();
    push_member(&mut members, "amount", text_value(m.amount.as_str()));
    push_member(&mut members, "currency", text_value(m.currency.as_str()));
    assert(view_members(members@) =~= seq![
        ("amount"@, JsonV::Str(m.amount@)),
        ("currency"@, JsonV::Str(m.currency@)),
    ]);
    Json::Object(members)
}

fn push_text_member(members: &mut Vec<(String, Json)>, key: &str, o: &Option<String>)
    ensures
        view_members(final(members)@) == view_members(old(members)@) + text_member(
            key@,
            opt_string(*o),
        ),
{
    match o {
        Some(t) => {
            push_member(members, key, text_value(t.as_str()));
        },
        None => {
            assert(view_members(members@) =~= view_members(members@) + Seq::empty());
        },
    }
}

fn push_bool_member(members: &mut Vec<(String, Json)>, key: &str, o: Option<bool>)
    ensures
        view_members(final(members)@) == view_members(old(members)@) + bool_member(key@, o),
{
    match o {
        Some(b) => {
            push_member(members, key, Json::Bool(b));
        },
        None => {
            assert(view_members(members@) =~= view_members(members@) + Seq::empty());
        },
    }
}

impl UtilitySummary {
    /// This summary as `utility-summary/v1` JSON.
    pub fn to_json(&self) -> (res: Json)
        ensures
            res@ == summary_json(self@),
    {
        let mut members: Vec<(String, Json)> = Vec::new();
        push_member(&mut members, "schema", text_value("utility-summary/v1"));
        push_member(&mut members, "balance", money_value(&self.balance));
        let ghost head = view_members(members@);
        push_text_member(&mut members, "due_date", &self.due_date);
        push_text_member(&mut members, "account", &self.account);
        push_bool_member(&mut members, "autopay", self.autopay);
        assert(view_members(members@) =~= seq![
            ("schema"@, JsonV::Str("utility-summary/v1"@)),
            ("balance"@, money_json(self@.balance, self@.currency)),
        ] + text_member("due_date"@, self@.due_date) + text_member("account"@, self@.account)
            + bool_member("autopay"@, self@.autopay));
        Json::Object(members)
    }
}

impl Statement {
    /// This statement as `statement/v1` JSON.
    pub fn to_json(&self) -> (res: Json)
        ensures
            res@ == statement_json(self@),
    {
        let mut members: Vec<(String, Json)> = Vec::new();
        push_member(&mut members, "id", text_value(self.id.as_str()));
        push_text_member(&mut members, "date", &self.date);
        push_member(&mut members, "amount", money_value(&self.amount));
        push_text_member(&mut members, "due_date", &self.due_date);
        push_bool_member(&mut members, "paid", self.paid);
        assert(view_members(members@) =~= seq![("id"@, JsonV::Str(self@.id))] + text_member(
            "date"@,
            self@.date,
        ) + seq![("amount"@, money_json(self@.amount, self@.currency))] + text_member(
            "due_date"@,
            self@.due_date,
        ) + bool_member("paid"@, self@.paid));
        Json::Object(members)
    }
}

/// The views of a list of statements.
pub open spec fn statement_views(s: Seq<Statement>) -> Seq<StatementV> {
    s.map_values(|x: Statement| x@)
}

/// A list of statements as `statement-list/v1` JSON.
pub fn statement_list(items: &Vec<Statement>) -> (res: Json)
    ensures
        res@ == statement_list_json(statement_views(items@)),
{
    let mut arr: Vec<Json> = Vec::new();
    let mut i: usize = 0;
    while i < items.len()
        invariant
            i <= items@.len(),
            view_items(arr@) == statement_views(items@).subrange(0, i as int).map_values(
                |s: StatementV| statement_json(s),
            ),
        decreases items@.len() - i,
    {
        push_item(&mut arr, items[i].to_json());
        assert(statement_views(items@).subrange(0, i + 1).map_values(
            |s: StatementV| statement_json(s),
        ) =~= statement_views(items@).subrange(0, i as int).map_values(
            |s: StatementV| statement_json(s),
        ).push(statement_json(items@[i as int]@)));
        i = i + 1;
    }
    assert(statement_views(items@).subrange(0, items@.len() as int) =~= statement_views(items@));
    let mut members: Vec<(String, Json)> = Vec::new();
    push_member(&mut members, "schema", text_value("statement-list/v1"));
    let mut count = String::new();
    push_decimal(&mut count, items.len() as u64);
    push_member(&mut members, "count", Json::Number(count));
    push_member(&mut members, "items", Json::Array(arr));
    assert(view_members(members@) =~= seq![
        ("schema"@, JsonV::Str("statement-list/v1"@)),
        ("count"@, JsonV::Number(decimal(items@.len()))),
        (
            "items"@,
            JsonV::Array(statement_views(items@).map_values(|s: StatementV| statement_json(s))),
        ),
    ]);
    Json::Object(members)
}

// ---------------------------------------------------------------------------
// Laws
// ---------------------------------------------------------------------------

proof fn lemma_before_char_free(x: Seq<char>, c: char)
    ensures
        before_char(x, c).len() <= x.len(),
        forall|i: int| 0 <= i < before_char(x, c).len() ==> (#[trigger] before_char(x, c)[i]) != c,
    decreases x.len(),
{
    if x.len() > 0 && x[0] != c {
        lemma_before_char_free(x.drop_first(), c);
        let r = before_char(x.drop_first(), c);
        assert forall|i: int| 0 <= i < before_char(x, c).len() implies (#[trigger] before_char(
            x,
            c,
        )[i]) != c by {
            if i > 0 {
                assert(before_char(x, c)[i] == r[i - 1]);
            }
        }
    }
}

proof fn lemma_before_char_none(x: Seq<char>, c: char)
    requires
        forall|i: int| 0 <= i < x.len() ==> (#[trigger] x[i]) != c,
    ensures
        before_char(x, c) == x,
{
    lemma_before_char_at(x, c, x.len() as int);
    assert(x.subrange(0, x.len() as int) == x);
}

proof fn lemma_split_single(x: Seq<char>, sep: char)
    requires
        forall|i: int| 0 <= i < x.len() ==> (#[trigger] x[i]) != sep,
    ensures
        split_on(x, sep).len() == 1,
    decreases x.len(),
{
    if x.len() > 0 {
        assert forall|i: int| 0 <= i < x.drop_first().len() implies (#[trigger] x.drop_first()[i])
            != sep by {
            assert(x.drop_first()[i] == x[i + 1]);
        }
        lemma_split_single(x.drop_first(), sep);
    }
}

proof fn lemma_two_digits(n: nat)
    ensures
        forall|i: int| 0 <= i < zero_pad(decimal(n), 2).len() ==> is_digit(
            #[trigger] zero_pad(decimal(n), 2)[i],
        ),
        zero_pad(decimal(n), 2).len() >= 1,
{
    crate::text::lemma_decimal_digits(n);
    let d = decimal(n);
    let z = zero_pad(d, 2);
    assert forall|i: int| 0 <= i < z.len() implies is_digit(#[trigger] z[i]) by {
        if d.len() < 2 {
            if i < 2 - d.len() {
                assert(z[i] == '0');
            } else {
                assert(z[i] == d[i - (2 - d.len())]);
            }
        }
    }
}

/// A converted `M/D/YYYY` date holds only digits and dashes.
proof fn lemma_slash_date_chars(d: Seq<char>)
    requires
        slash_date(d) is Some,
    ensures
        forall|i: int|
            0 <= i < slash_date(d).unwrap().len() ==> is_digit(#[trigger] slash_date(d).unwrap()[i])
                || slash_date(d).unwrap()[i] == '-',
        slash_date(d).unwrap().len() > 0,
{
    let parts = split_on(d, '/');
    let m = parse_unsigned(parts[0], 4294967295).unwrap();
    let day = parse_unsigned(parts[1], 4294967295).unwrap();
    let y = parse_unsigned(parts[2], 9223372036854775807).unwrap();
    crate::text::lemma_decimal_digits(y);
    lemma_two_digits(m);
    lemma_two_digits(day);
    let a = decimal(y);
    let b = zero_pad(decimal(m), 2);
    let c = zero_pad(decimal(day), 2);
    let t = a + seq!['-'] + b + seq!['-'] + c;
    assert(slash_date(d).unwrap() == t);
    assert forall|i: int| 0 <= i < t.len() implies is_digit(#[trigger] t[i]) || t[i] == '-' by {
        if i < a.len() {
            assert(t[i] == a[i]);
        } else if i == a.len() {
        } else if i < a.len() + 1 + b.len() {
            assert(t[i] == b[i - a.len() - 1]);
        } else if i == a.len() + 1 + b.len() {
        } else {
            assert(t[i] == c[i - a.len() - 2 - b.len()]);
        }
    }
}

/// Normalising a provider date twice changes nothing: what `iso_date`
/// gives back is already in its final form.
pub proof fn iso_date_is_idempotent(s: Seq<char>)
    ensures
        iso_date_text(iso_date_text(s)) == iso_date_text(s),
{
    let d = before_char(s, 'T');
    lemma_before_char_free(s, 'T');
    if iso_ymd(d) is Some {
        lemma_before_char_none(d, 'T');
    } else if slash_date(d) is Some {
        let t = slash_date(d).unwrap();
        lemma_slash_date_chars(d);
        assert forall|i: int| 0 <= i < t.len() implies (#[trigger] t[i]) != 'T' && t[i] != '/' by {
            assert(is_digit(t[i]) || t[i] == '-');
        }
        lemma_before_char_none(t, 'T');
        lemma_split_single(t, '/');
    }
}

/// A normalised date of a non-empty text is not empty.
proof fn lemma_iso_date_nonempty(s: Seq<char>)
    requires
        s.len() > 0,
    ensures
        iso_date_text(s).len() > 0,
{
    let d = before_char(s, 'T');
    if slash_date(d) is Some {
        lemma_slash_date_chars(d);
    }
}

/// Every statement has a non-empty id: the provider's, else its ISO date,
/// else its position.
pub proof fn statement_id_is_never_empty(raw: JsonV, pos: nat)
    ensures
        statement_of(raw, pos).id.len() > 0,
{
    crate::text::lemma_decimal_digits(pos);
    match raw_statement_date(raw) {
        Some(d) => lemma_iso_date_nonempty(d),
        None => {},
    }
}

/// A date filter can only match records that have a date: with a bound
/// set, a record whose date is missing or not a calendar date is excluded;
/// with no bound, every record passes.
pub proof fn undated_records_fail_any_bound(
    date: Option<Seq<char>>,
    since: Option<Seq<char>>,
    until: Option<Seq<char>>,
)
    ensures
        (since is Some || until is Some) && opt_iso(date) is None ==> !date_in_range(
            date,
            since,
            until,
        ),
        since is None && until is None ==> date_in_range(date, since, until),
{
}

proof fn lemma_without_commas_digits(s: Seq<char>)
    requires
        all_digits(s),
    ensures
        without_commas(s) == s,
    decreases s.len(),
{
    if s.len() > 0 {
        let t = s.drop_last();
        assert(all_digits(t)) by {
            assert forall|k: int| 0 <= k < t.len() implies is_digit(#[trigger] t[k]) by {
                assert(t[k] == s[k]);
            }
        }
        lemma_without_commas_digits(t);
        assert(is_digit(s.last()));
        assert(t.push(s.last()) == s);
    }
}

/// The two-digit text of a number below 100 reads back as that number.
proof fn lemma_cents_digits(n: nat)
    requires
        n < 100,
    ensures
        zero_pad(decimal(n), 2).len() == 2,
        digit_value(zero_pad(decimal(n), 2)[0]) * 10 + digit_value(zero_pad(decimal(n), 2)[1])
            == n,
        all_digits(zero_pad(decimal(n), 2)),
{
    reveal_with_fuel(decimal, 3);
    lemma_two_digits(n);
    let z = zero_pad(decimal(n), 2);
    if n < 10 {
        assert(decimal(n).len() == 1);
        assert(z[0] == '0');
        assert(z[1] == decimal(n)[0]);
        assert(digit_value(digit_char(n)) == n);
    } else {
        assert(decimal(n) == seq![digit_char(n / 10)].push(digit_char(n % 10)));
        assert(digit_value(digit_char(n / 10)) == n / 10);
        assert(digit_value(digit_char(n % 10)) == n % 10);
    }
}

/// Money is a canonical string decimal: the text `Money::parse_usd` gives
/// reads back as itself (for amounts within the supported range).
pub proof fn money_text_reads_back(s: Seq<char>)
    requires
        usd_amount(s) is Some,
        unsigned_cents(unsigned_part(s)).unwrap() / 100 <= MAX_DOLLARS,
    ensures
        usd_amount(usd_amount(s).unwrap()) == usd_amount(s),
{
    let neg = amount_negative(s);
    let c = unsigned_cents(unsigned_part(s)).unwrap();
    let text = money_text(neg, c);
    assert(usd_amount(s) == Some(text));
    let a = decimal(c / 100);
    let f = zero_pad(decimal(c % 100), 2);
    crate::text::lemma_decimal_digits(c / 100);
    lemma_cents_digits(c % 100);
    let body = a + seq!['.'] + f;
    let sign = if neg && c > 0 {
        seq!['-']
    } else {
        Seq::<char>::empty()
    };
    assert(text =~= sign + body);
    // The text is already trimmed.
    assert(is_digit(a[0]));
    assert(is_digit(f[1]));
    assert(text.last() == f[1]);
    crate::client::lemma_trim_settled(text);
    // Sign and dollar sign.
    let u = if text.len() > 0 && text[0] == '-' {
        text.drop_first()
    } else {
        text
    };
    if neg && c > 0 {
        assert(u =~= body);
    } else {
        assert(text[0] == a[0]);
        assert(u == body);
    }
    assert(u[0] == a[0]);
    // The unsigned part.
    assert forall|j: int| 0 <= j < a.len() implies (#[trigger] body[j]) != '.' by {
        assert(body[j] == a[j]);
        assert(is_digit(a[j]));
    }
    lemma_before_char_at(body, '.', a.len() as int);
    assert(body.subrange(0, a.len() as int) == a);
    assert(body.subrange(a.len() + 1int, body.len() as int) =~= f);
    lemma_without_commas_digits(a);
    assert(digits_or_commas(a));
    assert(f.len() == 2);
    assert(fraction_cents(f) == c % 100);
    assert(c == (c / 100) * 100 + c % 100);
    assert(unsigned_cents(body) == Some(c));
    assert(money_text(neg && c > 0, c) == text);
}

/// A record's bill status decides whether its statement is paid: `PAID`
/// (in any case) and nothing else reads as paid; `DUE`, `UNPAID`, `OPEN`,
/// `OVERDUE`, `PAST DUE` and `PAST_DUE` (in any case) and nothing else read
/// as unpaid. In particular an `UNPAID` statement is never taken as paid.
pub proof fn bill_status_decides_paid(raw: JsonV, pos: nat, s: Seq<char>)
    requires
        raw.get("billStatus"@) == Some(JsonV::Str(s)),
        s.len() > 0,
    ensures
        statement_of(raw, pos).paid == Some(true) <==> unicode_upper(s) == "PAID"@,
        statement_of(raw, pos).paid == Some(false) <==> (unicode_upper(s) == "DUE"@ || unicode_upper(
            s,
        ) == "UNPAID"@ || unicode_upper(s) == "OPEN"@ || unicode_upper(s) == "OVERDUE"@
            || unicode_upper(s) == "PAST DUE"@ || unicode_upper(s) == "PAST_DUE"@),
        unicode_upper(s) == "UNPAID"@ ==> statement_of(raw, pos).paid == Some(false),
{
    reveal_strlit("PAID");
    reveal_strlit("DUE");
    reveal_strlit("UNPAID");
    reveal_strlit("OPEN");
    reveal_strlit("OVERDUE");
    reveal_strlit("PAST DUE");
    reveal_strlit("PAST_DUE");
    assert(scalar(JsonV::Str(s)) == s);
    assert(field2(raw, "billStatus"@, "status"@) == Some(s));
    let u = unicode_upper(s);
    if u == "UNPAID"@ || u == "OPEN"@ || u == "OVERDUE"@ || u == "PAST DUE"@ || u == "PAST_DUE"@ {
        assert(u != "PAID"@) by {
            if u == "UNPAID"@ || u == "OVERDUE"@ || u == "PAST DUE"@ || u == "PAST_DUE"@ {
                assert(u.len() != "PAID"@.len());
            } else {
                assert(u[0] != "PAID"@[0]);
            }
        }
    }
    if u == "DUE"@ {
        assert(u.len() != "PAID"@.len());
    }
}

/// The autopay status decides autopay: exactly `ON`, `ACTIVE` and
/// `ENROLLED` (in any case) mean enrolled; any other status, `INACTIVE`
/// among them, means not enrolled.
pub proof fn autopay_status_decides(bbds: JsonV, account: Option<Seq<char>>, s: Seq<char>)
    requires
        bbds.pointer("/autopay/status"@) == Some(JsonV::Str(s)),
        s.len() > 0,
    ensures
        summary_of(bbds, account).autopay == Some(
            unicode_upper(s) == "ON"@ || unicode_upper(s) == "ACTIVE"@ || unicode_upper(s)
                == "ENROLLED"@,
        ),
        unicode_upper(s) == "INACTIVE"@ ==> summary_of(bbds, account).autopay == Some(false),
{
    reveal_strlit("ON");
    reveal_strlit("ACTIVE");
    reveal_strlit("ENROLLED");
    reveal_strlit("INACTIVE");
    assert(scalar(JsonV::Str(s)) == s);
    let u = unicode_upper(s);
    if u == "INACTIVE"@ {
        assert(u.len() != "ON"@.len());
        assert(u.len() != "ACTIVE"@.len());
        assert(u[0] != "ENROLLED"@[0]);
    }
}

/// A calendar date as one number that orders as the calendar does.
pub open spec fn day_number(t: Seq<char>) -> int {
    match iso_ymd(t) {
        Some((y, m, d)) => (y * 10000 + m * 100 + d) as int,
        None => 0,
    }
}

/// The `--since`/`--until` bounds keep exactly the calendar dates from
/// `since` through `until`, each bound inclusive and compared by year, then
/// month, then day.
pub proof fn range_keeps_exactly_the_days_between(
    date: Seq<char>,
    since: Option<Seq<char>>,
    until: Option<Seq<char>>,
)
    requires
        iso_ymd(date) is Some,
        since is Some || until is Some,
        since matches Some(s) ==> iso_ymd(s) is Some,
        until matches Some(u) ==> iso_ymd(u) is Some,
    ensures
        date_in_range(Some(date), since, until) <==> ((since matches Some(s) ==> day_number(s)
            <= day_number(date)) && (until matches Some(u) ==> day_number(date) <= day_number(u))),
{
    let (y, m, d) = iso_ymd(date).unwrap();
    assert(1 <= m <= 12 && 1 <= d <= 31);
    if let Some(s) = since {
        let (ys, ms, ds) = iso_ymd(s).unwrap();
        assert(1 <= ms <= 12 && 1 <= ds <= 31);
        assert(ymd_before((y, m, d), (ys, ms, ds)) <==> day_number(date) < day_number(s));
    }
    if let Some(u) = until {
        let (yu, mu, du) = iso_ymd(u).unwrap();
        assert(1 <= mu <= 12 && 1 <= du <= 31);
        assert(ymd_before((yu, mu, du), (y, m, d)) <==> day_number(date) > day_number(u));
    }
}

} // verus!
