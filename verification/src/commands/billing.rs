//! `xfin billing`: balance/due summary, statement history, and statement
//! PDF download, one statement or a whole batch.

use vstd::prelude::*;

use crate::client::{err_view, opt_text};
use crate::dates::{iso_ymd, parse_iso, ymd_before};
use crate::error::AppError;
use crate::json::{push_item, push_member, text_value, view_items, view_members, Json, JsonV};
use crate::profile::{
    date_in_range, in_range, opt_string, statement_dto, statement_of, statement_records,
    statement_values, Statement, StatementV,
};
use crate::text::{
    debug_quoted, debug_str, decimal, push_char, push_decimal, push_str, split_from, split_on,
    to_chars,
};

verus! {

broadcast use {vstd::std_specs::vec::group_vec_axioms, vstd::seq::group_seq_axioms};

/// The `--since` / `--until` / `--limit` filter of a statement listing.
pub struct RangeArgs {
    /// Only statements dated on or after this ISO date.
    pub since: Option<String>,
    /// Only statements dated on or before this ISO date.
    pub until: Option<String>,
    /// At most this many statements.
    pub limit: Option<u32>,
}

/// Flags of `xfin billing download`.
pub struct DownloadArgs {
    /// The statement to fetch (its id or its ISO date).
    pub id: Option<String>,
    /// Fetch every statement in range instead.
    pub all: bool,
    /// A file, a directory, or `-` for stdout.
    pub output: Option<String>,
    /// The statements `all` covers.
    pub range: RangeArgs,
}

/// `xfin billing …`.
pub enum BillingCommand {
    /// Current balance, due date, and autopay status.
    Summary,
    /// The upcoming due date.
    DueDates,
    /// Prior statements.
    Statements(RangeArgs),
    /// One statement by id (not mapped yet).
    Statement { id: String },
    /// Statement PDFs.
    Download(DownloadArgs),
}

// ---------------------------------------------------------------------------
// Argument checks, made before any network or keychain access
// ---------------------------------------------------------------------------

/// The usage error for a bound that is not a calendar date.
pub open spec fn bad_bound_msg(flag: Seq<char>, value: Seq<char>) -> Seq<char> {
    flag + " expects a YYYY-MM-DD date, got "@ + debug_quoted(value)
}

/// The usage error for an inverted range.
pub open spec fn inverted_range_msg(since: Seq<char>, until: Seq<char>) -> Seq<char> {
    "--since "@ + since + " is after --until "@ + until
}

/// What checking a range gives: `None` when it is fine, else the usage
/// message.
pub open spec fn range_problem(since: Option<Seq<char>>, until: Option<Seq<char>>) -> Option<
    Seq<char>,
> {
    if since is Some && iso_ymd(since.unwrap()) is None {
        Some(bad_bound_msg("--since"@, since.unwrap()))
    } else if until is Some && iso_ymd(until.unwrap()) is None {
        Some(bad_bound_msg("--until"@, until.unwrap()))
    } else if since is Some && until is Some && ymd_before(
        iso_ymd(until.unwrap()).unwrap(),
        iso_ymd(since.unwrap()).unwrap(),
    ) {
        Some(inverted_range_msg(since.unwrap(), until.unwrap()))
    } else {
        None
    }
}

fn bad_bound(flag: &str, value: &str) -> (res: AppError)
    ensures
        res matches AppError::Usage(m) && m@ == bad_bound_msg(flag@, value@),
{
    let mut m = String::new();
    push_str(&mut m, flag);
    push_str(&mut m, " expects a YYYY-MM-DD date, got ");
    let q = debug_str(value);
    push_str(&mut m, q.as_str());
    AppError::Usage(m)
}

impl RangeArgs {
    /// Checks that each bound is a calendar date and that `since` is not
    /// after `until`.
    pub fn validate(&self) -> (res: Result<(), AppError>)
        ensures
            match range_problem(opt_string(self.since), opt_string(self.until)) {
                None => res is Ok,
                Some(m) => res matches Err(AppError::Usage(t)) && t@ == m,
            },
    {
        let s = match &self.since {
            Some(s) => match parse_iso(s.as_str()) {
                Some(d) => Some(d),
                None => return Err(bad_bound("--since", s.as_str())),
            },
            None => None,
        };
        let u = match &self.until {
            Some(u) => match parse_iso(u.as_str()) {
                Some(d) => Some(d),
                None => return Err(bad_bound("--until", u.as_str())),
            },
            None => None,
        };
        match (s, u) {
            (Some(a), Some(b)) => {
                if b.0 < a.0 || (b.0 == a.0 && (b.1 < a.1 || (b.1 == a.1 && b.2 < a.2))) {
                    let mut m = String::new();
                    push_str(&mut m, "--since ");
                    push_str(&mut m, self.since.as_ref().unwrap().as_str());
                    push_str(&mut m, " is after --until ");
                    push_str(&mut m, self.until.as_ref().unwrap().as_str());
                    return Err(AppError::Usage(m));
                }
            },
            _ => {},
        }
        Ok(())
    }

    /// No bound and no limit: the listing is unfiltered.
    pub fn unfiltered(&self) -> (res: bool)
        ensures
            res == (self.limit is None && self.since is None && self.until is None),
    {
        self.limit.is_none() && self.since.is_none() && self.until.is_none()
    }
}

/// The message of `billing statement <id>`, which is not mapped yet.
pub open spec fn statement_unmapped_msg() -> Seq<char> {
    "`billing statement <id>` isn't available yet on the new Xfinity account experience — use `billing statements`, or `billing download <id>` for the PDF — see docs/api.md"@
}

/// The usage error for a download with neither an id nor `--all`.
pub open spec fn download_target_msg() -> Seq<char> {
    "give a statement id (see `xfin billing statements`) or --all"@
}

/// The usage error for `--all` to stdout.
pub open spec fn batch_to_stdout_msg() -> Seq<char> {
    "--all can't stream to stdout; give a directory with -o, or omit it"@
}

/// What the checks made before any network access answer for a command.
pub open spec fn billing_check(cmd: BillingCommand) -> Result<(), (i32, Seq<char>)> {
    match cmd {
        BillingCommand::Statement { .. } => Err((1, statement_unmapped_msg())),
        BillingCommand::Statements(r) => match range_problem(opt_string(r.since), opt_string(r.until)) {
            Some(m) => Err((2, m)),
            None => Ok(()),
        },
        BillingCommand::Download(a) => match range_problem(
            opt_string(a.range.since),
            opt_string(a.range.until),
        ) {
            Some(m) => Err((2, m)),
            None => if !a.all && a.id is None {
                Err((2, download_target_msg()))
            } else if a.all && opt_string(a.output) == Some("-"@) {
                Err((2, batch_to_stdout_msg()))
            } else {
                Ok(())
            },
        },
        _ => Ok(()),
    }
}

fn owned(s: &str) -> (res: String)
    ensures
        res@ == s@,
{
    s.to_owned()
}

fn is_dash(o: &Option<String>) -> (res: bool)
    ensures
        res == (opt_string(*o) == Some("-"@)),
{
    match o {
        Some(s) => {
            let c = to_chars(s.as_str());
            crate::text::is_text(&c, "-")
        },
        None => false,
    }
}

/// The checks `billing` makes before any network or keychain access: the
/// unmapped `statement` command, malformed ranges, and a download with no
/// target or a batch aimed at stdout.
pub fn check(cmd: &BillingCommand) -> (res: Result<(), AppError>)
    ensures
        match billing_check(*cmd) {
            Ok(()) => res is Ok,
            Err(v) => res matches Err(e) && err_view(e) == v,
        },
{
    match cmd {
        BillingCommand::Statement { .. } => Err(
            AppError::Other(
                owned(
                    "`billing statement <id>` isn't available yet on the new Xfinity account experience — use `billing statements`, or `billing download <id>` for the PDF — see docs/api.md",
                ),
            ),
        ),
        BillingCommand::Statements(r) => r.validate(),
        BillingCommand::Download(a) => {
            match a.range.validate() {
                Ok(()) => {},
                Err(e) => return Err(e),
            }
            if !a.all && a.id.is_none() {
                return Err(
                    AppError::Usage(
                        owned("give a statement id (see `xfin billing statements`) or --all"),
                    ),
                );
            }
            if a.all && is_dash(&a.output) {
                return Err(
                    AppError::Usage(
                        owned("--all can't stream to stdout; give a directory with -o, or omit it"),
                    ),
                );
            }
            Ok(())
        },
        _ => Ok(()),
    }
}

// ---------------------------------------------------------------------------
// Statements
// ---------------------------------------------------------------------------

/// The raw records of a `BBDS` document, each with the statement it maps to
/// (numbered from 1).
pub open spec fn numbered(recs: Seq<JsonV>) -> Seq<(JsonV, StatementV)> {
    Seq::new(recs.len(), |i: int| (recs[i], statement_of(recs[i], (i + 1) as nat)))
}

/// The records whose statement date passes the bounds, in order.
pub open spec fn keep_in_range(
    s: Seq<(JsonV, StatementV)>,
    since: Option<Seq<char>>,
    until: Option<Seq<char>>,
) -> Seq<(JsonV, StatementV)>
    decreases s.len(),
{
    if s.len() == 0 {
        s
    } else {
        let r = keep_in_range(s.drop_last(), since, until);
        if date_in_range(s.last().1.date, since, until) {
            r.push(s.last())
        } else {
            r
        }
    }
}

/// At most `limit` of the first elements.
pub open spec fn limited<A>(s: Seq<A>, limit: Option<u32>) -> Seq<A> {
    match limit {
        Some(n) => if n < s.len() {
            s.take(n as int)
        } else {
            s
        },
        None => s,
    }
}

/// The records a listing with `range` shows.
pub open spec fn collected(bbds: JsonV, range: RangeArgs) -> Seq<(JsonV, StatementV)> {
    limited(
        keep_in_range(
            numbered(statement_records(bbds)),
            opt_string(range.since),
            opt_string(range.until),
        ),
        range.limit,
    )
}

/// The values of records carried with their statements.
pub open spec fn records_view(v: Seq<(Json, Statement)>) -> Seq<(JsonV, StatementV)> {
    v.map_values(|r: (Json, Statement)| (r.0@, r.1@))
}

/// An optional owned string, borrowed.
pub fn as_text(o: &Option<String>) -> (res: Option<&str>)
    ensures
        opt_text(res) == opt_string(*o),
{
    match o {
        Some(s) => Some(s.as_str()),
        None => None,
    }
}

/// The records that match `range`, each as (raw provider record, DTO).
pub fn collect_statements(bbds: &Json, range: &RangeArgs) -> (res: Vec<(Json, Statement)>)
    ensures
        records_view(res@) == collected(bbds@, *range),
{
    let values = statement_values(bbds);
    let ghost recs = statement_records(bbds@);
    proof {
        crate::json::lemma_view_items(values@);
    }
    let ghost all = numbered(recs);
    let ghost since = opt_string(range.since);
    let ghost until = opt_string(range.until);
    let mut out: Vec<(Json, Statement)> = Vec::new();
    let mut i: usize = 0;
    while i < values.len()
        invariant
            i <= values@.len(),
            recs == view_items(values@),
            recs.len() == values@.len(),
            forall|k: int| 0 <= k < values@.len() ==> #[trigger] recs[k] == values@[k]@,
            all == numbered(recs),
            since == opt_string(range.since),
            until == opt_string(range.until),
            records_view(out@) == keep_in_range(all.take(i as int), since, until),
        decreases values@.len() - i,
    {
        let dto = statement_dto(&values[i], i + 1);
        assert(all.take(i + 1).drop_last() == all.take(i as int));
        assert(all.take(i + 1).last() == (values@[i as int]@, dto@));
        if in_range(as_text(&dto.date), as_text(&range.since), as_text(&range.until)) {
            let ghost before = out@;
            out.push((values[i].copy(), dto));
            assert(records_view(out@) =~= records_view(before).push(all.take(i + 1).last()));
        }
        i = i + 1;
    }
    assert(all.take(values@.len() as int) == all);
    match range.limit {
        Some(n) => {
            let ghost before = out@;
            if (n as usize) < out.len() {
                out.truncate(n as usize);
                assert(records_view(out@) =~= records_view(before).take(n as int));
            }
        },
        None => {},
    }
    out
}

/// A statement is the one asked for by `id`: its id, or its ISO date.
pub open spec fn names(s: StatementV, id: Seq<char>) -> bool {
    s.id == id || s.date == Some(id)
}

/// The statements of a `BBDS` document, numbered from 1.
pub open spec fn statements_of(bbds: JsonV) -> Seq<StatementV> {
    let recs = statement_records(bbds);
    Seq::new(recs.len(), |i: int| statement_of(recs[i], (i + 1) as nat))
}

/// The not-found message for a statement id.
pub open spec fn statement_not_found_msg(id: Seq<char>) -> Seq<char> {
    "statement "@ + id + " not found — see `xfin billing statements`"@
}

/// Looks up a statement by its id or its ISO date (the account experience
/// often has no ids, so the date stands in); the first that matches.
pub fn resolve_statement(bbds: &Json, id: &str) -> (res: Result<Statement, AppError>)
    ensures
        match res {
            Ok(s) => exists|k: int|
                0 <= k < statements_of(bbds@).len() && #[trigger] statements_of(bbds@)[k] == s@
                    && names(s@, id@) && forall|j: int|
                    0 <= j < k ==> !names(#[trigger] statements_of(bbds@)[j], id@),
            Err(e) => e matches AppError::NotFound(m) && m@ == statement_not_found_msg(id@)
                && forall|j: int|
                0 <= j < statements_of(bbds@).len() ==> !names(
                    #[trigger] statements_of(bbds@)[j],
                    id@,
                ),
        },
{
    let values = statement_values(bbds);
    let ghost recs = statement_records(bbds@);
    let ghost sts = statements_of(bbds@);
    proof {
        crate::json::lemma_view_items(values@);
    }
    let idc = to_chars(id);
    let mut i: usize = 0;
    while i < values.len()
        invariant
            i <= values@.len(),
            recs == view_items(values@),
            recs.len() == values@.len(),
            forall|k: int| 0 <= k < values@.len() ==> #[trigger] recs[k] == values@[k]@,
            sts == statements_of(bbds@),
            recs == statement_records(bbds@),
            idc@ == id@,
            forall|j: int| 0 <= j < i ==> !names(#[trigger] sts[j], id@),
        decreases values@.len() - i,
    {
        let dto = statement_dto(&values[i], i + 1);
        assert(sts[i as int] == dto@);
        let hit = {
            let dc = to_chars(dto.id.as_str());
            crate::text::same_text(&dc, &idc) || match &dto.date {
                Some(d) => {
                    let ddc = to_chars(d.as_str());
                    crate::text::same_text(&ddc, &idc)
                },
                None => false,
            }
        };
        if hit {
            return Ok(dto);
        }
        i = i + 1;
    }
    let mut m = String::new();
    push_str(&mut m, "statement ");
    push_str(&mut m, id);
    push_str(&mut m, " not found — see `xfin billing statements`");
    Err(AppError::NotFound(m))
}

/// `/`, `\\` and NUL replaced by `-`, so a handle cannot escape a directory.
pub open spec fn safe_handle(h: Seq<char>) -> Seq<char> {
    h.map_values(
        |c: char|
            if c == '/' || c == '\\' || c == '\0' {
                '-'
            } else {
                c
            },
    )
}

/// The handle a saved statement is named by: its date, else its id.
pub open spec fn handle_of(s: StatementV) -> Seq<char> {
    match s.date {
        Some(d) => d,
        None => s.id,
    }
}

/// `xfin-statement-<handle>.pdf`.
pub open spec fn file_name_for(s: StatementV) -> Seq<char> {
    "xfin-statement-"@ + safe_handle(handle_of(s)) + ".pdf"@
}

/// Default file name for a saved statement: `xfin-statement-<date>.pdf`,
/// or the id when there is no date, made filesystem-safe.
pub fn default_file_name(s: &Statement) -> (res: String)
    ensures
        res@ == file_name_for(s@),
{
    let h = match &s.date {
        Some(d) => to_chars(d.as_str()),
        None => to_chars(s.id.as_str()),
    };
    let mut out = String::new();
    push_str(&mut out, "xfin-statement-");
    let ghost head = out@;
    let mut i: usize = 0;
    while i < h.len()
        invariant
            i <= h@.len(),
            out@ == head + safe_handle(h@.take(i as int)),
        decreases h@.len() - i,
    {
        let c = h[i];
        let d = if c == '/' || c == '\\' || c == '\0' {
            '-'
        } else {
            c
        };
        push_char(&mut out, d);
        assert(safe_handle(h@.take(i + 1)) =~= safe_handle(h@.take(i as int)).push(d));
        i = i + 1;
    }
    assert(h@.take(h@.len() as int) == h@);
    push_str(&mut out, ".pdf");
    out
}

/// `Statement <date>`, or `Statement <id>` without a date.
pub open spec fn statement_title(s: StatementV) -> Seq<char> {
    "Statement "@ + handle_of(s)
}

/// Human title for a statement.
pub fn statement_name(s: &Statement) -> (res: String)
    ensures
        res@ == statement_title(s@),
{
    let mut out = String::new();
    push_str(&mut out, "Statement ");
    match &s.date {
        Some(d) => push_str(&mut out, d.as_str()),
        None => push_str(&mut out, s.id.as_str()),
    }
    out
}

// ---------------------------------------------------------------------------
// Paths
// ---------------------------------------------------------------------------

/// `dir` joined with a relative `name`, as `Path::join` does: a separator is
/// added unless `dir` is empty or already ends in one.
pub open spec fn join_path(dir: Seq<char>, name: Seq<char>) -> Seq<char> {
    if dir.len() == 0 || dir.last() == '/' {
        dir + name
    } else {
        dir + seq!['/'] + name
    }
}

/// `dir` joined with `name`.
pub fn join(dir: &str, name: &str) -> (res: String)
    ensures
        res@ == join_path(dir@, name@),
{
    let d = to_chars(dir);
    let mut out = String::new();
    push_str(&mut out, dir);
    if d.len() > 0 && d[d.len() - 1] != '/' {
        push_char(&mut out, '/');
    }
    push_str(&mut out, name);
    out
}

/// Where a single downloaded statement goes: the default name in the
/// current directory, the given path as is, or the default name inside the
/// given directory (`output_is_dir` says whether the given path is one).
pub open spec fn output_path(output: Option<Seq<char>>, file_name: Seq<char>, output_is_dir: bool) -> Seq<
    char,
> {
    match output {
        None => file_name,
        Some(o) => if output_is_dir {
            join_path(o, file_name)
        } else {
            o
        },
    }
}

/// A file path as given, a file name joined onto a directory, or the
/// default file name in the current directory when nothing was asked for.
pub fn resolve_output(output: Option<&str>, file_name: &str, output_is_dir: bool) -> (res: String)
    ensures
        res@ == output_path(opt_text(output), file_name@, output_is_dir),
{
    match output {
        None => owned(file_name),
        Some(o) => if output_is_dir {
            join(o, file_name)
        } else {
            owned(o)
        },
    }
}

/// The normal components of a path's segments: not empty, not `.`.
pub open spec fn kept_segments(segs: Seq<Seq<char>>) -> Seq<Seq<char>>
    decreases segs.len(),
{
    if segs.len() == 0 {
        segs
    } else {
        let r = kept_segments(segs.drop_last());
        if segs.last().len() > 0 && segs.last() != "."@ {
            r.push(segs.last())
        } else {
            r
        }
    }
}

/// `Path::file_name` of a path, or nothing: the last component, unless the
/// path has none or ends in `..`.
pub open spec fn file_name_of(path: Seq<char>) -> Seq<char> {
    let c = kept_segments(split_on(path, '/'));
    if c.len() == 0 || c.last() == ".."@ {
        Seq::empty()
    } else {
        c.last()
    }
}

/// The file name of a path (empty when it has none).
pub fn file_name(path: &str) -> (res: String)
    ensures
        res@ == file_name_of(path@),
{
    let p = to_chars(path);
    let segs = split_from(&p, 0, '/');
    assert(p@.subrange(0, p@.len() as int) == p@);
    let ghost all = split_on(path@, '/');
    let mut last: Option<usize> = None;
    let mut i: usize = 0;
    while i < segs.len()
        invariant
            i <= segs@.len(),
            segs@.len() == all.len(),
            forall|k: int| 0 <= k < segs@.len() ==> (#[trigger] segs@[k])@ == all[k],
            match last {
                None => kept_segments(all.take(i as int)).len() == 0,
                Some(k) => k < i && kept_segments(all.take(i as int)).len() > 0 && kept_segments(
                    all.take(i as int),
                ).last() == all[k as int],
            },
        decreases segs@.len() - i,
    {
        assert(all.take(i + 1).drop_last() == all.take(i as int));
        let good = segs[i].len() > 0 && !(segs[i].len() == 1 && segs[i][0] == '.');
        proof {
            if segs@[i as int]@ == "."@ {
                reveal_strlit(".");
                assert(segs@[i as int]@.len() == 1);
            }
            if segs@[i as int]@.len() == 1 && segs@[i as int]@[0] == '.' {
                reveal_strlit(".");
                assert(segs@[i as int]@ =~= "."@);
            }
        }
        if good {
            last = Some(i);
        }
        i = i + 1;
    }
    assert(all.take(segs@.len() as int) == all);
    match last {
        None => String::new(),
        Some(k) => {
            let seg = &segs[k];
            let dots = seg.len() == 2 && seg[0] == '.' && seg[1] == '.';
            proof {
                reveal_strlit("..");
                if seg@ =~= ".."@ {
                    assert(dots);
                }
                if dots {
                    assert(seg@ =~= ".."@);
                }
            }
            if dots {
                String::new()
            } else {
                crate::text::string_from(seg)
            }
        },
    }
}

// ---------------------------------------------------------------------------
// Download reports
// ---------------------------------------------------------------------------

/// `document-download/v1` for one saved statement. It carries no financial
/// fields: a statement's amount belongs to `statement-list/v1`.
pub open spec fn saved_json(s: StatementV, path: Seq<char>, bytes: nat) -> JsonV {
    JsonV::Object(
        seq![
            ("bytes"@, JsonV::Number(decimal(bytes))),
            ("category"@, JsonV::Str("statement"@)),
            (
                "date"@,
                match s.date {
                    Some(d) => JsonV::Str(d),
                    None => JsonV::Null,
                },
            ),
            ("file"@, JsonV::Str(file_name_of(path))),
            ("id"@, JsonV::Str(s.id)),
            ("name"@, JsonV::Str(statement_title(s))),
            ("path"@, JsonV::Str(path)),
            ("schema"@, JsonV::Str("document-download/v1"@)),
        ],
    )
}

fn number(n: u64) -> (res: Json)
    ensures
        res@ == JsonV::Number(decimal(n as nat)),
{
    let mut t = String::new();
    push_decimal(&mut t, n);
    Json::Number(t)
}

/// One saved statement as `document-download/v1`.
pub fn saved_dto(s: &Statement, path: &str, bytes: usize) -> (res: Json)
    ensures
        res@ == saved_json(s@, path@, bytes as nat),
{
    let mut m: Vec<(String, Json)> = Vec::new();
    push_member(&mut m, "bytes", number(bytes as u64));
    push_member(&mut m, "category", text_value("statement"));
    let date = match &s.date {
        Some(d) => text_value(d.as_str()),
        None => Json::Null,
    };
    push_member(&mut m, "date", date);
    let f = file_name(path);
    push_member(&mut m, "file", text_value(f.as_str()));
    push_member(&mut m, "id", text_value(s.id.as_str()));
    let n = statement_name(s);
    push_member(&mut m, "name", text_value(n.as_str()));
    push_member(&mut m, "path", text_value(path));
    push_member(&mut m, "schema", text_value("document-download/v1"));
    assert(view_members(m@) =~= match saved_json(s@, path@, bytes as nat) {
        JsonV::Object(ms) => ms,
        _ => Seq::empty(),
    });
    Json::Object(m)
}

/// One statement a batch could not save.
pub open spec fn failure_json(id: Seq<char>, reason: Seq<char>) -> JsonV {
    JsonV::Object(seq![("error"@, JsonV::Str(reason)), ("id"@, JsonV::Str(id))])
}

/// One statement the batch could not save.
pub fn failure_dto(id: &str, reason: &str) -> (res: Json)
    ensures
        res@ == failure_json(id@, reason@),
{
    let mut m: Vec<(String, Json)> = Vec::new();
    push_member(&mut m, "error", text_value(reason));
    push_member(&mut m, "id", text_value(id));
    assert(view_members(m@) =~= seq![("error"@, JsonV::Str(reason@)), ("id"@, JsonV::Str(id@))]);
    Json::Object(m)
}

/// The batch envelope `document-download-batch/v1`; `failed` is present
/// only when something failed.
pub open spec fn batch_json(dir: Seq<char>, written: Seq<JsonV>, bytes_total: nat, failed: Seq<JsonV>) -> JsonV {
    JsonV::Object(
        seq![
            ("bytes_total"@, JsonV::Number(decimal(bytes_total))),
            ("count"@, JsonV::Number(decimal(written.len()))),
            ("dir"@, JsonV::Str(dir)),
        ] + (if failed.len() > 0 {
            seq![("failed"@, JsonV::Array(failed))]
        } else {
            Seq::empty()
        }) + seq![
            ("items"@, JsonV::Array(written)),
            ("schema"@, JsonV::Str("document-download-batch/v1"@)),
        ],
    )
}

fn copy_all(v: &Vec<Json>) -> (res: Vec<Json>)
    ensures
        view_items(res@) == view_items(v@),
{
    let mut out: Vec<Json> = Vec::new();
    let mut i: usize = 0;
    proof {
        crate::json::lemma_view_items(v@);
    }
    while i < v.len()
        invariant
            i <= v@.len(),
            view_items(out@) == view_items(v@).take(i as int),
            view_items(v@).len() == v@.len(),
            forall|k: int| 0 <= k < v@.len() ==> #[trigger] view_items(v@)[k] == v@[k]@,
        decreases v@.len() - i,
    {
        push_item(&mut out, v[i].copy());
        assert(view_items(v@).take(i + 1) =~= view_items(v@).take(i as int).push(v@[i as int]@));
        i = i + 1;
    }
    assert(view_items(v@).take(v@.len() as int) == view_items(v@));
    out
}

/// The batch envelope as `document-download-batch/v1`.
pub fn batch_dto(dir: &str, written: &Vec<Json>, bytes_total: u64, failed: &Vec<Json>) -> (res: Json)
    ensures
        res@ == batch_json(dir@, view_items(written@), bytes_total as nat, view_items(failed@)),
{
    proof {
        crate::json::lemma_view_items(written@);
        crate::json::lemma_view_items(failed@);
    }
    let mut m: Vec<(String, Json)> = Vec::new();
    push_member(&mut m, "bytes_total", number(bytes_total));
    push_member(&mut m, "count", number(written.len() as u64));
    push_member(&mut m, "dir", text_value(dir));
    if failed.len() > 0 {
        push_member(&mut m, "failed", Json::Array(copy_all(failed)));
    }
    push_member(&mut m, "items", Json::Array(copy_all(written)));
    push_member(&mut m, "schema", text_value("document-download-batch/v1"));
    assert(view_members(m@) =~= match batch_json(
        dir@,
        view_items(written@),
        bytes_total as nat,
        view_items(failed@),
    ) {
        JsonV::Object(ms) => ms,
        _ => Seq::empty(),
    });
    Json::Object(m)
}

/// A member's string value, or `?`.
pub open spec fn text_or_mark(v: JsonV, key: Seq<char>) -> Seq<char> {
    match v.get(key) {
        Some(JsonV::Str(s)) => s,
        _ => "?"@,
    }
}

/// The line a saved statement is reported with.
pub open spec fn saved_text(v: JsonV) -> Seq<char> {
    "Saved statement "@ + text_or_mark(v, "id"@) + " → "@ + text_or_mark(v, "path"@) + " ("@
        + decimal(
        match v.get("bytes"@) {
            Some(b) => match b.as_u64() {
                Some(n) => n,
                None => 0,
            },
            None => 0,
        },
    ) + " bytes)"@
}

fn push_text_or_mark(out: &mut String, v: &Json, key: &str)
    ensures
        final(out)@ == old(out)@ + text_or_mark(v@, key@),
{
    match v.get(key) {
        Some(Json::Str(s)) => push_str(out, s.as_str()),
        _ => push_str(out, "?"),
    }
}

/// The line a saved statement is reported with.
pub fn saved_line(v: &Json) -> (res: String)
    ensures
        res@ == saved_text(v@),
{
    let mut out = String::new();
    push_str(&mut out, "Saved statement ");
    push_text_or_mark(&mut out, v, "id");
    push_str(&mut out, " → ");
    push_text_or_mark(&mut out, v, "path");
    push_str(&mut out, " (");
    let n = match v.get("bytes") {
        Some(b) => match b.as_u64() {
            Some(n) => n,
            None => 0,
        },
        None => 0,
    };
    push_decimal(&mut out, n);
    push_str(&mut out, " bytes)");
    out
}

// ---------------------------------------------------------------------------
// Batch download
// ---------------------------------------------------------------------------

/// What a batch is waiting for.
pub enum Pending {
    /// Nothing: the next record is up.
    Idle,
    /// The PDF of the current record.
    Fetching,
    /// The current record's file, `len` bytes at `path`.
    Writing { path: String, len: usize },
}

/// What the caller reports back after performing a [`BatchAction`].
pub enum BatchEvent {
    /// Nothing to report (start, or after `Continue`).
    Proceed,
    /// The PDF of the current record, or why it could not be fetched.
    Fetched(Result<Vec<u8>, AppError>),
    /// The file was written, or the system's reason it was not.
    Written(Result<(), String>),
}

/// What the caller is to do next.
pub enum BatchAction {
    /// Fetch the PDF of the statement dated `date`.
    Fetch { date: String },
    /// Write `bytes` to the file at `path`.
    Write { path: String, bytes: Vec<u8> },
    /// Nothing; call again with [`BatchEvent::Proceed`].
    Continue,
    /// The batch is over: report it.
    Finished,
}

/// One step of a batch: an action, and a line for stderr (shown unless
/// quiet).
pub struct BatchStep {
    pub action: BatchAction,
    pub note: Option<String>,
}

/// A batch download of statement PDFs. Files land on disk one at a time,
/// so a failure never stops the batch from reporting what it already
/// wrote: per-statement outcomes are collected, the report always comes
/// out, and the exit code carries the failure. Only an expired or rejected
/// session stops it early, since every remaining fetch would fail the same
/// way.
pub struct DownloadBatch {
    dir: String,
    statements: Vec<Statement>,
    next: usize,
    pending: Pending,
    written: Vec<Json>,
    failed: Vec<Json>,
    bytes_total: u64,
    fatal: Option<AppError>,
}

/// Mathematical value of a [`Pending`]: stage (0 idle, 1 fetching,
/// 2 writing), path and length.
pub open spec fn pending_view(p: Pending) -> (int, Seq<char>, nat) {
    match p {
        Pending::Idle => (0, Seq::empty(), 0),
        Pending::Fetching => (1, Seq::empty(), 0),
        Pending::Writing { path, len } => (2, path@, len as nat),
    }
}

/// Mathematical value of a [`DownloadBatch`].
pub ghost struct BatchV {
    pub dir: Seq<char>,
    pub statements: Seq<StatementV>,
    pub next: nat,
    pub pending: (int, Seq<char>, nat),
    pub written: Seq<JsonV>,
    pub failed: Seq<JsonV>,
    pub bytes_total: nat,
    pub fatal: Option<(i32, Seq<char>)>,
}

/// The values of a list of statements.
pub open spec fn statement_list_view(s: Seq<Statement>) -> Seq<StatementV> {
    s.map_values(|x: Statement| x@)
}

impl View for DownloadBatch {
    type V = BatchV;

    closed spec fn view(&self) -> BatchV {
        BatchV {
            dir: self.dir@,
            statements: statement_list_view(self.statements@),
            next: self.next as nat,
            pending: pending_view(self.pending),
            written: view_items(self.written@),
            failed: view_items(self.failed@),
            bytes_total: self.bytes_total as nat,
            fatal: match self.fatal {
                Some(e) => Some(err_view(e)),
                None => None,
            },
        }
    }
}

/// Mathematical value of a [`BatchEvent`]: kind (0 proceed, 1 fetched,
/// 2 written), the fetched bytes or error, and the write error.
pub ghost enum EventV {
    Proceed,
    Fetched(Result<Seq<u8>, (i32, Seq<char>)>),
    Written(Result<(), Seq<char>>),
}

/// The value of an event.
pub open spec fn event_view(e: BatchEvent) -> EventV {
    match e {
        BatchEvent::Proceed => EventV::Proceed,
        BatchEvent::Fetched(Ok(b)) => EventV::Fetched(Ok(b@)),
        BatchEvent::Fetched(Err(e)) => EventV::Fetched(Err(err_view(e))),
        BatchEvent::Written(Ok(())) => EventV::Written(Ok(())),
        BatchEvent::Written(Err(w)) => EventV::Written(Err(w@)),
    }
}

/// Mathematical value of a [`BatchAction`].
pub ghost enum ActionV {
    Fetch(Seq<char>),
    Write(Seq<char>, Seq<u8>),
    Continue,
    Finished,
}

/// The value of an action.
pub open spec fn action_view(a: BatchAction) -> ActionV {
    match a {
        BatchAction::Fetch { date } => ActionV::Fetch(date@),
        BatchAction::Write { path, bytes } => ActionV::Write(path@, bytes@),
        BatchAction::Continue => ActionV::Continue,
        BatchAction::Finished => ActionV::Finished,
    }
}

/// The reason recorded for a statement without a date.
pub open spec fn no_date_reason() -> Seq<char> {
    "no date to key the download by"@
}

/// The message when a reply does not answer the pending action.
pub open spec fn batch_protocol_msg() -> Seq<char> {
    "batch reply does not match the pending action"@
}

/// The batch after the current record is done, idle again.
pub open spec fn advanced(b: BatchV) -> BatchV {
    BatchV { next: b.next + 1, pending: (0, Seq::empty(), 0), ..b }
}

/// `a + b`, capped at the largest `u64`.
pub open spec fn saturating_total(a: nat, b: nat) -> nat {
    if a + b > u64::MAX {
        u64::MAX as nat
    } else {
        a + b
    }
}

/// One step of a batch download, from its state and the outcome of the
/// last action to its next state, action and stderr note.
pub open spec fn batch_next(b: BatchV, ev: EventV) -> (BatchV, ActionV, Option<Seq<char>>) {
    let protocol = (
        BatchV { fatal: Some((1, batch_protocol_msg())), ..b },
        ActionV::Finished,
        None::<Seq<char>>,
    );
    if b.pending.0 == 0 {
        match ev {
            EventV::Proceed => if b.fatal is Some || b.next >= b.statements.len() {
                (b, ActionV::Finished, None)
            } else {
                let s = b.statements[b.next as int];
                match s.date {
                    None => (
                        BatchV {
                            failed: b.failed.push(failure_json(s.id, no_date_reason())),
                            ..advanced(b)
                        },
                        ActionV::Continue,
                        Some("skipping statement "@ + s.id + " — "@ + no_date_reason()),
                    ),
                    Some(d) => (
                        BatchV { pending: (1, Seq::empty(), 0), ..b },
                        ActionV::Fetch(d),
                        None,
                    ),
                }
            },
            _ => protocol,
        }
    } else if b.pending.0 == 1 {
        let s = b.statements[b.next as int];
        match ev {
            EventV::Fetched(Err(e)) => (
                BatchV {
                    failed: b.failed.push(failure_json(s.id, e.1)),
                    fatal: if e.0 == 3 {
                        Some(e)
                    } else {
                        b.fatal
                    },
                    ..advanced(b)
                },
                ActionV::Continue,
                Some("failed statement "@ + s.id + ": "@ + e.1),
            ),
            EventV::Fetched(Ok(bytes)) => {
                let path = join_path(b.dir, file_name_for(s));
                (
                    BatchV { pending: (2, path, bytes.len()), ..b },
                    ActionV::Write(path, bytes),
                    None,
                )
            },
            _ => protocol,
        }
    } else {
        let s = b.statements[b.next as int];
        let path = b.pending.1;
        match ev {
            EventV::Written(Err(why)) => {
                let msg = "writing "@ + path + ": "@ + why;
                (
                    BatchV { failed: b.failed.push(failure_json(s.id, msg)), ..advanced(b) },
                    ActionV::Continue,
                    Some("failed statement "@ + s.id + ": "@ + msg),
                )
            },
            EventV::Written(Ok(())) => (
                BatchV {
                    written: b.written.push(saved_json(s, path, b.pending.2)),
                    bytes_total: saturating_total(b.bytes_total, b.pending.2),
                    ..advanced(b)
                },
                ActionV::Continue,
                None,
            ),
            _ => protocol,
        }
    }
}

/// A batch is well formed: every handled record is either written or
/// failed, and a pending action is about a dated record.
pub open spec fn batch_wf(b: BatchV) -> bool {
    &&& b.next <= b.statements.len()
    &&& b.bytes_total <= u64::MAX
    &&& b.written.len() + b.failed.len() == b.next
    &&& 0 <= b.pending.0 <= 2
    &&& b.pending.0 != 0 ==> b.next < b.statements.len() && b.statements[b.next as int].date is Some
}

/// The statements of a list of records.
pub open spec fn dtos_of(r: Seq<(JsonV, StatementV)>) -> Seq<StatementV> {
    r.map_values(|x: (JsonV, StatementV)| x.1)
}

/// The directory a batch writes into, as reported: `.` for the current one.
pub open spec fn where_to_of(dir: Seq<char>) -> Seq<char> {
    if dir.len() == 0 {
        "."@
    } else {
        dir
    }
}

/// The error a finished batch exits with, if any: the session failure that
/// stopped it, else a count of the statements that failed.
pub open spec fn batch_outcome(b: BatchV) -> Result<(), (i32, Seq<char>)> {
    match b.fatal {
        Some(e) => Err(e),
        None => if b.failed.len() > 0 {
            Err(
                (
                    5,
                    decimal(b.failed.len()) + " of "@ + decimal(b.written.len() + b.failed.len())
                        + " statement(s) failed to download (see the report above); the "@
                        + decimal(b.written.len())
                        + " that succeeded are on disk and need no re-run"@,
                ),
            )
        } else {
            Ok(())
        },
    }
}

/// The text report of a finished batch: one line per saved statement, the
/// totals, and the number that failed when any did.
pub open spec fn batch_lines(b: BatchV) -> Seq<Seq<char>> {
    b.written.map_values(|v: JsonV| saved_text(v)) + seq![
        decimal(b.written.len()) + " statement(s), "@ + decimal(b.bytes_total) + " bytes → "@
            + where_to_of(b.dir),
    ] + if b.failed.len() > 0 {
        seq![decimal(b.failed.len()) + " failed"@]
    } else {
        Seq::empty()
    }
}

fn decimal_text(n: usize) -> (res: String)
    ensures
        res@ == decimal(n as nat),
{
    let mut t = String::new();
    push_decimal(&mut t, n as u64);
    t
}

impl DownloadBatch {
    /// A batch over the statements of `records`, writing into `dir` (the
    /// current directory when `None`).
    pub fn new(dir: Option<&str>, records: Vec<(Json, Statement)>) -> (res: DownloadBatch)
        ensures
            res@.dir == match opt_text(dir) {
                Some(d) => d,
                None => Seq::empty(),
            },
            res@.statements == dtos_of(records_view(records@)),
            res@.next == 0,
            res@.pending.0 == 0,
            res@.written.len() == 0,
            res@.failed.len() == 0,
            res@.bytes_total == 0,
            res@.fatal is None,
            batch_wf(res@),
    {
        let mut statements: Vec<Statement> = Vec::new();
        let mut records = records;
        let ghost all = records@;
        while records.len() > 0
            invariant
                records@.len() + statements@.len() == all.len(),
                records@ == all.take(records@.len() as int),
                statement_list_view(statements@) =~= dtos_of(records_view(all)).subrange(
                    records@.len() as int,
                    all.len() as int,
                ),
            decreases records@.len(),
        {
            let ghost before = statements@;
            let ghost k = records@.len() - 1;
            let (_, st) = records.pop().unwrap();
            assert(st == all[k].1);
            statements.insert(0, st);
            assert(statement_list_view(statements@) =~= seq![st@] + statement_list_view(before));
            assert(dtos_of(records_view(all)).subrange(k, all.len() as int) =~= seq![all[k].1@]
                + dtos_of(records_view(all)).subrange(k + 1, all.len() as int));
        }
        let d = match dir {
            Some(d) => owned(d),
            None => String::new(),
        };
        let b = DownloadBatch {
            dir: d,
            statements,
            next: 0,
            pending: Pending::Idle,
            written: Vec::new(),
            failed: Vec::new(),
            bytes_total: 0,
            fatal: None,
        };
        b
    }
}

impl DownloadBatch {
    fn protocol(&mut self) -> (res: BatchStep)
        ensures
            final(self)@ == (BatchV { fatal: Some((1, batch_protocol_msg())), ..old(self)@ }),
            action_view(res.action) == ActionV::Finished,
            res.note is None,
    {
        self.fatal = Some(AppError::Other(owned("batch reply does not match the pending action")));
        BatchStep { action: BatchAction::Finished, note: None }
    }

    /// Records a failure of the current record and moves to the next one.
    fn fail_current(&mut self, reason: &str) -> (res: String)
        requires
            batch_wf(old(self)@),
            old(self)@.next < old(self)@.statements.len(),
        ensures
            final(self)@ == (BatchV {
                failed: old(self)@.failed.push(
                    failure_json(old(self)@.statements[old(self)@.next as int].id, reason@),
                ),
                ..advanced(old(self)@)
            }),
            res@ == old(self)@.statements[old(self)@.next as int].id,
    {
        assert(statement_list_view(self.statements@).len() == self.statements@.len());
        let count = self.statements.len();
        assert(self.next < count);
        let id = self.statements[self.next].id.clone();
        push_item(&mut self.failed, failure_dto(id.as_str(), reason));
        self.next = self.next + 1;
        self.pending = Pending::Idle;
        id
    }

    /// Advances the batch by one step: `event` is the outcome of the last
    /// action ([`BatchEvent::Proceed`] at the start and after `Continue`).
    pub fn step(&mut self, event: BatchEvent) -> (res: BatchStep)
        requires
            batch_wf(old(self)@),
        ensures
            (final(self)@, action_view(res.action), opt_string(res.note)) == batch_next(
                old(self)@,
                event_view(event),
            ),
            batch_wf(final(self)@),
    {
        let stage: u8 = match &self.pending {
            Pending::Idle => 0,
            Pending::Fetching => 1,
            Pending::Writing { .. } => 2,
        };
        if stage == 0 {
            match event {
                BatchEvent::Proceed => {
                    if self.fatal.is_some() || self.next >= self.statements.len() {
                        return BatchStep { action: BatchAction::Finished, note: None };
                    }
                    let date = match &self.statements[self.next].date {
                        Some(d) => Some(d.clone()),
                        None => None,
                    };
                    match date {
                        None => {
                            let id = self.fail_current("no date to key the download by");
                            let mut note = String::new();
                            push_str(&mut note, "skipping statement ");
                            push_str(&mut note, id.as_str());
                            push_str(&mut note, " — ");
                            push_str(&mut note, "no date to key the download by");
                            BatchStep { action: BatchAction::Continue, note: Some(note) }
                        },
                        Some(d) => {
                            self.pending = Pending::Fetching;
                            BatchStep { action: BatchAction::Fetch { date: d }, note: None }
                        },
                    }
                },
                _ => self.protocol(),
            }
        } else if stage == 1 {
            match event {
                BatchEvent::Fetched(Err(e)) => {
                    let msg = e.message();
                    let auth = matches!(e, AppError::Auth(_));
                    let id = self.fail_current(msg.as_str());
                    if auth {
                        self.fatal = Some(e);
                    }
                    let mut note = String::new();
                    push_str(&mut note, "failed statement ");
                    push_str(&mut note, id.as_str());
                    push_str(&mut note, ": ");
                    push_str(&mut note, msg.as_str());
                    BatchStep { action: BatchAction::Continue, note: Some(note) }
                },
                BatchEvent::Fetched(Ok(bytes)) => {
                    let name = default_file_name(&self.statements[self.next]);
                    let path = join(self.dir.as_str(), name.as_str());
                    self.pending = Pending::Writing { path: path.clone(), len: bytes.len() };
                    BatchStep { action: BatchAction::Write { path, bytes }, note: None }
                },
                _ => self.protocol(),
            }
        } else {
            let (path, len) = match &self.pending {
                Pending::Writing { path, len } => (path.clone(), *len),
                _ => (String::new(), 0),
            };
            match event {
                BatchEvent::Written(Err(why)) => {
                    let mut msg = String::new();
                    push_str(&mut msg, "writing ");
                    push_str(&mut msg, path.as_str());
                    push_str(&mut msg, ": ");
                    push_str(&mut msg, why.as_str());
                    let id = self.fail_current(msg.as_str());
                    let mut note = String::new();
                    push_str(&mut note, "failed statement ");
                    push_str(&mut note, id.as_str());
                    push_str(&mut note, ": ");
                    push_str(&mut note, msg.as_str());
                    BatchStep { action: BatchAction::Continue, note: Some(note) }
                },
                BatchEvent::Written(Ok(())) => {
                    assert(statement_list_view(self.statements@).len() == self.statements@.len());
                    let count = self.statements.len();
                    assert(self.next < count);
                    let dto = saved_dto(&self.statements[self.next], path.as_str(), len);
                    push_item(&mut self.written, dto);
                    self.bytes_total = self.bytes_total.saturating_add(len as u64);
                    self.next = self.next + 1;
                    self.pending = Pending::Idle;
                    BatchStep { action: BatchAction::Continue, note: None }
                },
                _ => self.protocol(),
            }
        }
    }
}

impl DownloadBatch {
    /// The directory the batch writes into, as reported.
    pub fn where_to(&self) -> (res: String)
        ensures
            res@ == where_to_of(self@.dir),
    {
        if to_chars(self.dir.as_str()).len() == 0 {
            owned(".")
        } else {
            self.dir.clone()
        }
    }

    /// Nothing was written and nothing failed (the range was empty).
    pub fn nothing_done(&self) -> (res: bool)
        ensures
            res == (self@.written.len() == 0 && self@.failed.len() == 0),
    {
        proof {
            crate::json::lemma_view_items(self.written@);
            crate::json::lemma_view_items(self.failed@);
        }
        self.written.len() == 0 && self.failed.len() == 0
    }

    /// The `document-download-batch/v1` report of what the batch did.
    pub fn report(&self) -> (res: Json)
        ensures
            res@ == batch_json(where_to_of(self@.dir), self@.written, self@.bytes_total, self@.failed),
    {
        let w = self.where_to();
        batch_dto(w.as_str(), &self.written, self.bytes_total, &self.failed)
    }

    /// The text report of what the batch did.
    pub fn lines(&self) -> (res: Vec<String>)
        ensures
            res@.map_values(|l: String| l@) == batch_lines(self@),
    {
        proof {
            crate::json::lemma_view_items(self.written@);
            crate::json::lemma_view_items(self.failed@);
        }
        let ghost saved = self@.written.map_values(|v: JsonV| saved_text(v));
        let mut out: Vec<String> = Vec::new();
        let mut i: usize = 0;
        while i < self.written.len()
            invariant
                i <= self.written@.len(),
                self@.written.len() == self.written@.len(),
                forall|k: int| 0 <= k < self.written@.len() ==> #[trigger] self@.written[k] == self.written@[k]@,
                out@.map_values(|l: String| l@) == saved.take(i as int),
                saved == self@.written.map_values(|v: JsonV| saved_text(v)),
            decreases self.written@.len() - i,
        {
            let line = saved_line(&self.written[i]);
            let ghost before = out@;
            out.push(line);
            assert(out@.map_values(|l: String| l@) =~= before.map_values(|l: String| l@).push(line@));
            assert(saved.take(i + 1) =~= saved.take(i as int).push(saved[i as int]));
            i = i + 1;
        }
        assert(saved.take(self.written@.len() as int) == saved);
        let mut total = String::new();
        push_str(&mut total, decimal_text(self.written.len()).as_str());
        push_str(&mut total, " statement(s), ");
        push_decimal(&mut total, self.bytes_total);
        push_str(&mut total, " bytes → ");
        push_str(&mut total, self.where_to().as_str());
        let ghost before = out@;
        out.push(total);
        if self.failed.len() > 0 {
            let mut f = String::new();
            push_str(&mut f, decimal_text(self.failed.len()).as_str());
            push_str(&mut f, " failed");
            let ghost before2 = out@;
            out.push(f);
            assert(out@.map_values(|l: String| l@) =~= before2.map_values(|l: String| l@).push(f@));
        }
        assert(out@.map_values(|l: String| l@) =~= batch_lines(self@));
        out
    }

    /// How the finished batch exits: the session failure that stopped it,
    /// else an upstream error naming how many statements failed, else fine.
    pub fn finish(self) -> (res: Result<(), AppError>)
        requires
            batch_wf(self@),
        ensures
            match batch_outcome(self@) {
                Ok(()) => res is Ok,
                Err(v) => res matches Err(e) && err_view(e) == v,
            },
    {
        proof {
            crate::json::lemma_view_items(self.written@);
            crate::json::lemma_view_items(self.failed@);
        }
        match self.fatal {
            Some(e) => Err(e),
            None => if self.failed.len() > 0 {
                let w = self.written.len();
                let f = self.failed.len();
                let mut m = String::new();
                push_str(&mut m, decimal_text(f).as_str());
                push_str(&mut m, " of ");
                let count = self.statements.len();
                assert(statement_list_view(self.statements@).len() == self.statements@.len());
                assert(w + f <= count);
                push_str(&mut m, decimal_text(w + f).as_str());
                push_str(
                    &mut m,
                    " statement(s) failed to download (see the report above); the ",
                );
                push_str(&mut m, decimal_text(w).as_str());
                push_str(&mut m, " that succeeded are on disk and need no re-run");
                Err(AppError::Upstream(m))
            } else {
                Ok(())
            },
        }
    }
}

// ---------------------------------------------------------------------------
// Single download and listings
// ---------------------------------------------------------------------------

/// The not-found message for a statement that has no date.
pub open spec fn no_date_msg(id: Seq<char>) -> Seq<char> {
    "statement "@ + id
        + " has no date — Xfinity keys statement downloads by date; see `xfin billing statements`"@
}

/// The date a resolved statement is downloaded by; a statement without one
/// cannot be fetched.
pub fn download_date(statement: &Statement, id: &str) -> (res: Result<String, AppError>)
    ensures
        match statement@.date {
            Some(d) => res matches Ok(t) && t@ == d,
            None => res matches Err(AppError::NotFound(m)) && m@ == no_date_msg(id@),
        },
{
    match &statement.date {
        Some(d) => Ok(d.clone()),
        None => {
            let mut m = String::new();
            push_str(&mut m, "statement ");
            push_str(&mut m, id);
            push_str(
                &mut m,
                " has no date — Xfinity keys statement downloads by date; see `xfin billing statements`",
            );
            Err(AppError::NotFound(m))
        },
    }
}

/// Whether `-o -` asks for the PDF on stdout.
pub fn to_stdout(output: &Option<String>) -> (res: bool)
    ensures
        res == (opt_string(*output) == Some("-"@)),
{
    is_dash(output)
}

/// The stderr line after streaming a PDF to stdout.
pub fn stdout_note(len: usize, id: &str) -> (res: String)
    ensures
        res@ == "wrote "@ + decimal(len as nat) + " bytes (statement "@ + id@ + ") to stdout"@,
{
    let mut m = String::new();
    push_str(&mut m, "wrote ");
    push_str(&mut m, decimal_text(len).as_str());
    push_str(&mut m, " bytes (statement ");
    push_str(&mut m, id);
    push_str(&mut m, ") to stdout");
    m
}

/// The error when a file cannot be written.
pub fn write_failure(what: &str, why: &str) -> (res: AppError)
    ensures
        res matches AppError::Other(m) && m@ == what@ + ": "@ + why@,
{
    let mut m = String::new();
    push_str(&mut m, what);
    push_str(&mut m, ": ");
    push_str(&mut m, why);
    AppError::Other(m)
}

// ---------------------------------------------------------------------------
// One statement
// ---------------------------------------------------------------------------

/// The first statement `id` names, if any.
pub open spec fn first_named(sts: Seq<StatementV>, id: Seq<char>) -> Option<StatementV>
    decreases sts.len(),
{
    if sts.len() == 0 {
        None
    } else if names(sts[0], id) {
        Some(sts[0])
    } else {
        first_named(sts.drop_first(), id)
    }
}

proof fn lemma_first_named(sts: Seq<StatementV>, id: Seq<char>, k: int)
    requires
        0 <= k <= sts.len(),
        forall|j: int| 0 <= j < k ==> !names(#[trigger] sts[j], id),
    ensures
        first_named(sts, id) == if k < sts.len() && names(sts[k], id) {
            Some(sts[k])
        } else {
            first_named(sts.subrange(k, sts.len() as int), id)
        },
    decreases k,
{
    if k > 0 {
        assert(!names(sts[0], id));
        let rest = sts.drop_first();
        assert forall|j: int| 0 <= j < k - 1 implies !names(#[trigger] rest[j], id) by {
            assert(rest[j] == sts[j + 1]);
        }
        lemma_first_named(rest, id, k - 1);
        assert(rest.subrange(k - 1, rest.len() as int) =~= sts.subrange(k, sts.len() as int));
        if k < sts.len() {
            assert(rest[k - 1] == sts[k]);
        }
    } else {
        assert(sts.subrange(0, sts.len() as int) =~= sts);
        if sts.len() > 0 && names(sts[0], id) {
        }
    }
}

/// How far the download of one statement has come.
pub enum OneState {
    /// Nothing done yet.
    Start,
    /// Waiting for the PDF of `statement`.
    Fetching { statement: Statement },
    /// Waiting for `len` bytes to be written to stdout.
    Streaming { statement: Statement, len: usize },
    /// Waiting for `len` bytes to be written to `path`.
    Writing { statement: Statement, path: String, len: usize },
    /// Finished.
    Over,
}

/// What the caller reports back after performing a [`OneAction`].
pub enum OneEvent {
    /// Nothing performed yet.
    Start,
    /// The PDF, or why it could not be fetched.
    Fetched(Result<Vec<u8>, AppError>),
    /// The bytes were written, or why not.
    Wrote(Result<(), String>),
}

/// How a finished download ended well.
pub enum OneDone {
    /// The PDF went to stdout; this is the line for stderr.
    Streamed { note: String },
    /// The PDF was saved; this is its DTO.
    Saved { dto: Json },
}

/// What the download of one statement asks the caller to do next.
pub enum OneAction {
    /// Fetch the PDF of the statement dated `date`.
    Fetch { date: String },
    /// Write `bytes` to stdout.
    WriteStdout { bytes: Vec<u8> },
    /// Write `bytes` to the file `path`.
    WriteFile { path: String, bytes: Vec<u8> },
    /// Done.
    Finished(Result<OneDone, AppError>),
}

/// Mathematical value of a [`OneState`].
pub ghost enum OneStateV {
    Start,
    Fetching(StatementV),
    Streaming(StatementV, nat),
    Writing(StatementV, Seq<char>, nat),
    Over,
}

/// The value of a state.
pub open spec fn one_state_view(s: OneState) -> OneStateV {
    match s {
        OneState::Start => OneStateV::Start,
        OneState::Fetching { statement } => OneStateV::Fetching(statement@),
        OneState::Streaming { statement, len } => OneStateV::Streaming(statement@, len as nat),
        OneState::Writing { statement, path, len } => OneStateV::Writing(
            statement@,
            path@,
            len as nat,
        ),
        OneState::Over => OneStateV::Over,
    }
}

/// Mathematical value of a [`OneEvent`].
pub ghost enum OneEventV {
    Start,
    Fetched(Result<Seq<u8>, (i32, Seq<char>)>),
    Wrote(Result<(), Seq<char>>),
}

/// The value of an event.
pub open spec fn one_event_view(e: OneEvent) -> OneEventV {
    match e {
        OneEvent::Start => OneEventV::Start,
        OneEvent::Fetched(Ok(b)) => OneEventV::Fetched(Ok(b@)),
        OneEvent::Fetched(Err(x)) => OneEventV::Fetched(Err(err_view(x))),
        OneEvent::Wrote(Ok(())) => OneEventV::Wrote(Ok(())),
        OneEvent::Wrote(Err(w)) => OneEventV::Wrote(Err(w@)),
    }
}

/// Mathematical value of a [`OneDone`].
pub ghost enum OneDoneV {
    Streamed(Seq<char>),
    Saved(JsonV),
}

/// Mathematical value of a [`OneAction`].
pub ghost enum OneActionV {
    Fetch(Seq<char>),
    WriteStdout(Seq<u8>),
    WriteFile(Seq<char>, Seq<u8>),
    Finished(Result<OneDoneV, (i32, Seq<char>)>),
}

/// The value of an action.
pub open spec fn one_action_view(a: OneAction) -> OneActionV {
    match a {
        OneAction::Fetch { date } => OneActionV::Fetch(date@),
        OneAction::WriteStdout { bytes } => OneActionV::WriteStdout(bytes@),
        OneAction::WriteFile { path, bytes } => OneActionV::WriteFile(path@, bytes@),
        OneAction::Finished(Ok(OneDone::Streamed { note })) => OneActionV::Finished(
            Ok(OneDoneV::Streamed(note@)),
        ),
        OneAction::Finished(Ok(OneDone::Saved { dto })) => OneActionV::Finished(
            Ok(OneDoneV::Saved(dto@)),
        ),
        OneAction::Finished(Err(x)) => OneActionV::Finished(Err(err_view(x))),
    }
}

/// The stderr line after streaming `len` bytes of statement `id`.
pub open spec fn stdout_note_text(len: nat, id: Seq<char>) -> Seq<char> {
    "wrote "@ + decimal(len) + " bytes (statement "@ + id + ") to stdout"@
}

/// One step of downloading the statement `id` names in `bbds`: look it up
/// (not found, or without a date, ends it); fetch its PDF by date (a failed
/// fetch ends it with that error and nothing is written); with `-o -`
/// write exactly the fetched bytes to stdout and nothing else, otherwise
/// write exactly them to the file [`resolve_output`] names; a failed write
/// ends it with the reason; a saved file is reported by its DTO.
pub open spec fn one_next(
    bbds: JsonV,
    id: Seq<char>,
    output: Option<Seq<char>>,
    output_is_dir: bool,
    st: OneStateV,
    ev: OneEventV,
) -> (OneStateV, OneActionV) {
    let protocol = (
        OneStateV::Over,
        OneActionV::Finished(Err((1, crate::commands::auth::flow_protocol_msg()))),
    );
    match st {
        OneStateV::Start => match first_named(statements_of(bbds), id) {
            None => (OneStateV::Over, OneActionV::Finished(Err((4, statement_not_found_msg(id))))),
            Some(s) => match s.date {
                None => (OneStateV::Over, OneActionV::Finished(Err((4, no_date_msg(id))))),
                Some(d) => (OneStateV::Fetching(s), OneActionV::Fetch(d)),
            },
        },
        OneStateV::Fetching(s) => match ev {
            OneEventV::Fetched(Err(e)) => (OneStateV::Over, OneActionV::Finished(Err(e))),
            OneEventV::Fetched(Ok(b)) => if output == Some("-"@) {
                (OneStateV::Streaming(s, b.len()), OneActionV::WriteStdout(b))
            } else {
                let p = output_path(output, file_name_for(s), output_is_dir);
                (OneStateV::Writing(s, p, b.len()), OneActionV::WriteFile(p, b))
            },
            _ => protocol,
        },
        OneStateV::Streaming(s, n) => match ev {
            OneEventV::Wrote(Err(w)) => (
                OneStateV::Over,
                OneActionV::Finished(Err((1, "writing PDF to stdout"@ + ": "@ + w))),
            ),
            OneEventV::Wrote(Ok(())) => (
                OneStateV::Over,
                OneActionV::Finished(Ok(OneDoneV::Streamed(stdout_note_text(n, s.id)))),
            ),
            _ => protocol,
        },
        OneStateV::Writing(s, p, n) => match ev {
            OneEventV::Wrote(Err(w)) => (
                OneStateV::Over,
                OneActionV::Finished(Err((1, "writing "@ + p + ": "@ + w))),
            ),
            OneEventV::Wrote(Ok(())) => (
                OneStateV::Over,
                OneActionV::Finished(Ok(OneDoneV::Saved(saved_json(s, p, n)))),
            ),
            _ => protocol,
        },
        OneStateV::Over => protocol,
    }
}

fn one_over(e: AppError) -> (res: (OneState, OneAction))
    ensures
        one_state_view(res.0) == OneStateV::Over,
        one_action_view(res.1) == OneActionV::Finished(Err(err_view(e))),
{
    (OneState::Over, OneAction::Finished(Err(e)))
}

/// `billing download <id>`: call first with [`OneState::Start`] and
/// [`OneEvent::Start`]; perform each action and call again with the state
/// handed back and the outcome, until `Finished`. `output_is_dir` is
/// whether `output` names an existing directory.
pub fn download_one_step(
    bbds: &Json,
    id: &str,
    output: &Option<String>,
    output_is_dir: bool,
    state: OneState,
    ev: OneEvent,
) -> (res: (OneState, OneAction))
    ensures
        (one_state_view(res.0), one_action_view(res.1)) == one_next(
            bbds@,
            id@,
            opt_string(*output),
            output_is_dir,
            one_state_view(state),
            one_event_view(ev),
        ),
{
    let protocol = one_over(AppError::Other("reply does not match the pending action".to_owned()));
    match state {
        OneState::Start => {
            let statement = match resolve_statement(bbds, id) {
                Err(e) => {
                    proof {
                        lemma_first_named(statements_of(bbds@), id@, statements_of(bbds@).len() as int);
                    }
                    return one_over(e);
                },
                Ok(s) => s,
            };
            proof {
                let sts = statements_of(bbds@);
                let k = choose|k: int|
                    0 <= k < sts.len() && #[trigger] sts[k] == statement@ && names(statement@, id@)
                        && forall|j: int| 0 <= j < k ==> !names(#[trigger] sts[j], id@);
                lemma_first_named(sts, id@, k);
            }
            match download_date(&statement, id) {
                Err(e) => one_over(e),
                Ok(date) => (OneState::Fetching { statement }, OneAction::Fetch { date }),
            }
        },
        OneState::Fetching { statement } => match ev {
            OneEvent::Fetched(Err(e)) => one_over(e),
            OneEvent::Fetched(Ok(bytes)) => {
                let len = bytes.len();
                if to_stdout(output) {
                    (OneState::Streaming { statement, len }, OneAction::WriteStdout { bytes })
                } else {
                    let file_name = default_file_name(&statement);
                    let path = resolve_output(as_text(output), file_name.as_str(), output_is_dir);
                    (
                        OneState::Writing { statement, path: path.clone(), len },
                        OneAction::WriteFile { path, bytes },
                    )
                }
            },
            _ => protocol,
        },
        OneState::Streaming { statement, len } => match ev {
            OneEvent::Wrote(Err(why)) => one_over(write_failure("writing PDF to stdout", why.as_str())),
            OneEvent::Wrote(Ok(())) => (
                OneState::Over,
                OneAction::Finished(Ok(OneDone::Streamed { note: stdout_note(len, statement.id.as_str()) })),
            ),
            _ => protocol,
        },
        OneState::Writing { statement, path, len } => match ev {
            OneEvent::Wrote(Err(why)) => {
                let mut what = String::new();
                push_str(&mut what, "writing ");
                push_str(&mut what, path.as_str());
                one_over(write_failure(what.as_str(), why.as_str()))
            },
            OneEvent::Wrote(Ok(())) => {
                let dto = saved_dto(&statement, path.as_str(), len);
                (OneState::Over, OneAction::Finished(Ok(OneDone::Saved { dto })))
            },
            _ => protocol,
        },
        OneState::Over => protocol,
    }
}

/// With `-o -` a fetched PDF goes to stdout byte for byte and no file is
/// written; a failed fetch ends the download with its error and nothing is
/// written anywhere.
pub proof fn one_download_writes_only_what_was_fetched(
    bbds: JsonV,
    id: Seq<char>,
    output: Option<Seq<char>>,
    output_is_dir: bool,
    s: StatementV,
    fetched: Result<Seq<u8>, (i32, Seq<char>)>,
)
    ensures
        ({
            let r = one_next(
                bbds,
                id,
                output,
                output_is_dir,
                OneStateV::Fetching(s),
                OneEventV::Fetched(fetched),
            );
            &&& fetched matches Err(e) ==> r == (OneStateV::Over, OneActionV::Finished(Err(e)))
            &&& fetched matches Ok(b) ==> if output == Some("-"@) {
                r.1 == OneActionV::WriteStdout(b)
            } else {
                r.1 == OneActionV::WriteFile(output_path(output, file_name_for(s), output_is_dir), b)
            }
        }),
{
}

/// What `billing statements` shows.
pub enum Listing {
    /// The provider-shaped record(s), rendered as they are.
    Raw(Json),
    /// `statement-list/v1`.
    List(Json),
    /// `(none)`: nothing in range.
    Empty,
    /// The raw records in range, each rendered.
    Records(Vec<Json>),
}

/// The provider-shaped view of the statements: `statementDetails`, or the
/// whole document without it.
pub open spec fn raw_statements(bbds: JsonV) -> JsonV {
    match bbds.get("statementDetails"@) {
        Some(v) => v,
        None => bbds,
    }
}

/// `billing statements`: with `--json` the `statement-list/v1` envelope;
/// in text the provider-shaped rendering, unchanged when no range flag is
/// given, else the records in range or `(none)`.
pub fn statements_listing(bbds: &Json, range: &RangeArgs, json: bool) -> (res: Listing)
    ensures
        !json && range.limit is None && range.since is None && range.until is None ==> (res matches Listing::Raw(v) && v@ == raw_statements(bbds@)),
        json ==> (res matches Listing::List(v) && v@ == crate::profile::statement_list_json(
            dtos_of(collected(bbds@, *range)),
        )),
        !json && !(range.limit is None && range.since is None && range.until is None) ==> (
        if collected(bbds@, *range).len() == 0 {
            res is Empty
        } else {
            res matches Listing::Records(r) && view_items(r@) == collected(bbds@, *range).map_values(
                |x: (JsonV, StatementV)| x.0,
            )
        }),
{
    if !json && range.unfiltered() {
        let v = match bbds.get("statementDetails") {
            Some(v) => v.copy(),
            None => bbds.copy(),
        };
        return Listing::Raw(v);
    }
    let records = collect_statements(bbds, range);
    let ghost rv = records_view(records@);
    if json {
        let mut items: Vec<Statement> = Vec::new();
        let mut rest = records;
        let ghost all = rest@;
        while rest.len() > 0
            invariant
                rest@.len() + items@.len() == all.len(),
                rest@ == all.take(rest@.len() as int),
                crate::profile::statement_views(items@) =~= dtos_of(records_view(all)).subrange(
                    rest@.len() as int,
                    all.len() as int,
                ),
            decreases rest@.len(),
        {
            let ghost before = items@;
            let ghost k = rest@.len() - 1;
            let (_, st) = rest.pop().unwrap();
            assert(st == all[k].1);
            items.insert(0, st);
            assert(crate::profile::statement_views(items@) =~= seq![st@]
                + crate::profile::statement_views(before));
            assert(dtos_of(records_view(all)).subrange(k, all.len() as int) =~= seq![all[k].1@]
                + dtos_of(records_view(all)).subrange(k + 1, all.len() as int));
        }
        assert(dtos_of(records_view(all)).subrange(0, all.len() as int) =~= dtos_of(
            records_view(all),
        ));
        return Listing::List(crate::profile::statement_list(&items));
    }
    if records.len() == 0 {
        return Listing::Empty;
    }
    let mut raws: Vec<Json> = Vec::new();
    let mut i: usize = 0;
    while i < records.len()
        invariant
            i <= records@.len(),
            rv == records_view(records@),
            view_items(raws@) == rv.map_values(|x: (JsonV, StatementV)| x.0).take(i as int),
        decreases records@.len() - i,
    {
        push_item(&mut raws, records[i].0.copy());
        assert(rv.map_values(|x: (JsonV, StatementV)| x.0).take(i + 1) =~= rv.map_values(
            |x: (JsonV, StatementV)| x.0,
        ).take(i as int).push(records@[i as int].0@));
        i = i + 1;
    }
    assert(rv.map_values(|x: (JsonV, StatementV)| x.0).take(records@.len() as int) =~= rv.map_values(
        |x: (JsonV, StatementV)| x.0,
    ));
    Listing::Records(raws)
}

/// `billing due-dates`: the due date text when the document has one as a
/// string.
pub fn due_line(bbds: &Json) -> (res: Option<String>)
    ensures
        match bbds@.get("dueDate"@) {
            Some(JsonV::Str(d)) => res matches Some(l) && l@ == "Due: "@ + d,
            _ => res is None,
        },
{
    match bbds.get("dueDate") {
        Some(Json::Str(d)) => {
            let mut l = String::new();
            push_str(&mut l, "Due: ");
            push_str(&mut l, d.as_str());
            Some(l)
        },
        _ => None,
    }
}

// ---------------------------------------------------------------------------
// Laws
// ---------------------------------------------------------------------------

/// Two texts differ when their lengths differ or some position differs.
proof fn texts_differ(a: Seq<char>, b: Seq<char>, i: int)
    requires
        a.len() != b.len() || (0 <= i < a.len() && i < b.len() && a[i] != b[i]),
    ensures
        a != b,
{
}

/// A step of a batch never loses the record of what was already written or
/// failed: both lists only grow at their ends, every handled record is in
/// exactly one of them, the byte total never shrinks, and the statements
/// and directory stay as they were.
pub proof fn batch_step_keeps_the_record(b: BatchV, ev: EventV)
    requires
        batch_wf(b),
    ensures
        ({
            let n = batch_next(b, ev).0;
            &&& batch_wf(n)
            &&& n.written.take(b.written.len() as int) == b.written
            &&& n.failed.take(b.failed.len() as int) == b.failed
            &&& n.bytes_total >= b.bytes_total
            &&& n.statements == b.statements
            &&& n.dir == b.dir
        }),
{
    let n = batch_next(b, ev).0;
    assert(batch_wf(n));
    assert(n.written.take(b.written.len() as int) =~= b.written);
    assert(n.failed.take(b.failed.len() as int) =~= b.failed);
    assert(n.bytes_total >= b.bytes_total);
    assert(n.statements == b.statements);
}

/// An expired or rejected session stops a batch: after a fetch fails with
/// an auth error the failure is recorded and the next step finishes the
/// batch, which then exits with that error.
pub proof fn auth_failure_ends_the_batch(b: BatchV, e: (i32, Seq<char>))
    requires
        batch_wf(b),
        b.pending.0 == 1,
        e.0 == 3,
    ensures
        ({
            let n = batch_next(b, EventV::Fetched(Err(e))).0;
            &&& n.fatal == Some(e)
            &&& n.failed.len() == b.failed.len() + 1
            &&& batch_next(n, EventV::Proceed).1 == ActionV::Finished
            &&& batch_outcome(n) == Err::<(), (i32, Seq<char>)>(e)
        }),
{
}

/// The batch report counts exactly what landed, lists it under `items`,
/// and carries `failed` only when something failed.
pub proof fn batch_report_shape(dir: Seq<char>, written: Seq<JsonV>, total: nat, failed: Seq<JsonV>)
    ensures
        batch_json(dir, written, total, failed).get("count"@) == Some(
            JsonV::Number(decimal(written.len())),
        ),
        batch_json(dir, written, total, failed).get("items"@) == Some(JsonV::Array(written)),
        batch_json(dir, written, total, failed).get("failed"@) is Some <==> failed.len() > 0,
{
    reveal_strlit("bytes_total");
    reveal_strlit("count");
    reveal_strlit("dir");
    reveal_strlit("failed");
    reveal_strlit("items");
    reveal_strlit("schema");
    let m = match batch_json(dir, written, total, failed) {
        JsonV::Object(m) => m,
        _ => Seq::empty(),
    };
    let k = if failed.len() > 0 { 1int } else { 0int };
    assert(m.len() == 5 + k);
    assert(m[1].0 == "count"@);
    assert(m[0].0 != "count"@);
    crate::json::lemma_member_first(m, "count"@, 1);
    assert("count"@ != "items"@) by {
        assert("count"@[0] != "items"@[0]);
    }
    assert("schema"@ != "failed"@) by {
        assert("schema"@[0] != "failed"@[0]);
    }
    texts_differ("bytes_total"@, "items"@, 0);
    texts_differ("count"@, "items"@, 0);
    texts_differ("dir"@, "items"@, 0);
    texts_differ("failed"@, "items"@, 0);
    texts_differ("bytes_total"@, "failed"@, 0);
    texts_differ("count"@, "failed"@, 0);
    texts_differ("dir"@, "failed"@, 0);
    texts_differ("items"@, "failed"@, 0);
    texts_differ("schema"@, "failed"@, 0);
    assert forall|i: int| 0 <= i < 3 + k implies (#[trigger] m[i]).0 != "items"@ by {
        if i == 0 {
            assert(m[i].0 == "bytes_total"@);
        } else if i == 1 {
            assert(m[i].0 == "count"@);
        } else if i == 2 {
            assert(m[i].0 == "dir"@);
        } else {
            assert(m[i].0 == "failed"@);
        }
    }
    assert(m[3 + k].0 == "items"@);
    crate::json::lemma_member_first(m, "items"@, 3 + k);
    if failed.len() > 0 {
        assert forall|i: int| 0 <= i < 3 implies (#[trigger] m[i]).0 != "failed"@ by {
            if i == 0 {
                assert(m[i].0 == "bytes_total"@);
            } else if i == 1 {
                assert(m[i].0 == "count"@);
            } else {
                assert(m[i].0 == "dir"@);
            }
        }
        crate::json::lemma_member_first(m, "failed"@, 3);
    } else {
        assert forall|i: int| 0 <= i < m.len() implies (#[trigger] m[i]).0 != "failed"@ by {
            if i == 0 {
                assert(m[i].0 == "bytes_total"@);
            } else if i == 1 {
                assert(m[i].0 == "count"@);
            } else if i == 2 {
                assert(m[i].0 == "dir"@);
            } else if i == 3 {
                assert(m[i].0 == "items"@);
            } else {
                assert(m[i].0 == "schema"@);
            }
        }
        crate::json::lemma_member_absent(m, "failed"@);
    }
}

/// A saved-statement record carries no financial fields: a statement's
/// amount belongs to `statement-list/v1`, not to the file holding it.
pub proof fn saved_dto_carries_no_money(s: StatementV, path: Seq<char>, bytes: nat)
    ensures
        saved_json(s, path, bytes).get("amount"@) is None,
        saved_json(s, path, bytes).get("currency"@) is None,
        saved_json(s, path, bytes).get("balance"@) is None,
        saved_json(s, path, bytes).get("due_date"@) is None,
        saved_json(s, path, bytes).get("paid"@) is None,
{
    reveal_strlit("bytes");
    reveal_strlit("category");
    reveal_strlit("date");
    reveal_strlit("file");
    reveal_strlit("id");
    reveal_strlit("name");
    reveal_strlit("path");
    reveal_strlit("schema");
    reveal_strlit("amount");
    reveal_strlit("currency");
    reveal_strlit("balance");
    reveal_strlit("due_date");
    reveal_strlit("paid");
    let m = match saved_json(s, path, bytes) {
        JsonV::Object(m) => m,
        _ => Seq::empty(),
    };
    assert("amount"@ != "schema"@) by {
        assert("amount"@[0] != "schema"@[0]);
    }
    assert("currency"@ != "category"@) by {
        assert("currency"@[1] != "category"@[1]);
    }
    assert("due_date"@ != "category"@) by {
        assert("due_date"@[0] != "category"@[0]);
    }
    assert("paid"@ != "date"@) by {
        assert("paid"@[0] != "date"@[0]);
    }
    assert("paid"@ != "file"@) by {
        assert("paid"@[0] != "file"@[0]);
    }
    assert("paid"@ != "name"@) by {
        assert("paid"@[0] != "name"@[0]);
    }
    assert("paid"@ != "path"@) by {
        assert("paid"@[2] != "path"@[2]);
    }
    assert forall|i: int| 0 <= i < m.len() implies (#[trigger] m[i]).0 != "amount"@ && m[i].0
        != "currency"@ && m[i].0 != "balance"@ && m[i].0 != "due_date"@ && m[i].0 != "paid"@ by {
        if i == 0 {
            assert(m[i].0 == "bytes"@);
            texts_differ("bytes"@, "amount"@, 0);
            texts_differ("bytes"@, "currency"@, 1);
            texts_differ("bytes"@, "balance"@, 0);
            texts_differ("bytes"@, "due_date"@, 0);
            texts_differ("bytes"@, "paid"@, 2);
        } else if i == 1 {
            assert(m[i].0 == "category"@);
            texts_differ("category"@, "amount"@, 0);
            texts_differ("category"@, "currency"@, 1);
            texts_differ("category"@, "balance"@, 0);
            texts_differ("category"@, "due_date"@, 0);
            texts_differ("category"@, "paid"@, 2);
        } else if i == 2 {
            assert(m[i].0 == "date"@);
            texts_differ("date"@, "amount"@, 0);
            texts_differ("date"@, "currency"@, 1);
            texts_differ("date"@, "balance"@, 0);
            texts_differ("date"@, "due_date"@, 0);
            texts_differ("date"@, "paid"@, 2);
        } else if i == 3 {
            assert(m[i].0 == "file"@);
            texts_differ("file"@, "amount"@, 0);
            texts_differ("file"@, "currency"@, 1);
            texts_differ("file"@, "balance"@, 0);
            texts_differ("file"@, "due_date"@, 0);
            texts_differ("file"@, "paid"@, 2);
        } else if i == 4 {
            assert(m[i].0 == "id"@);
            texts_differ("id"@, "amount"@, 0);
            texts_differ("id"@, "currency"@, 1);
            texts_differ("id"@, "balance"@, 0);
            texts_differ("id"@, "due_date"@, 0);
            texts_differ("id"@, "paid"@, 2);
        } else if i == 5 {
            assert(m[i].0 == "name"@);
            texts_differ("name"@, "amount"@, 0);
            texts_differ("name"@, "currency"@, 1);
            texts_differ("name"@, "balance"@, 0);
            texts_differ("name"@, "due_date"@, 0);
            texts_differ("name"@, "paid"@, 2);
        } else if i == 6 {
            assert(m[i].0 == "path"@);
            texts_differ("path"@, "amount"@, 0);
            texts_differ("path"@, "currency"@, 1);
            texts_differ("path"@, "balance"@, 0);
            texts_differ("path"@, "due_date"@, 0);
            texts_differ("path"@, "paid"@, 2);
        } else {
            assert(m[i].0 == "schema"@);
            texts_differ("schema"@, "amount"@, 0);
            texts_differ("schema"@, "currency"@, 1);
            texts_differ("schema"@, "balance"@, 0);
            texts_differ("schema"@, "due_date"@, 0);
            texts_differ("schema"@, "paid"@, 2);
        }
    }
    crate::json::lemma_member_absent(m, "amount"@);
    crate::json::lemma_member_absent(m, "currency"@);
    crate::json::lemma_member_absent(m, "balance"@);
    crate::json::lemma_member_absent(m, "due_date"@);
    crate::json::lemma_member_absent(m, "paid"@);
}

/// A saved statement's file name holds no path separator and no NUL, so it
/// cannot escape the directory it is written into.
pub proof fn file_name_stays_in_its_directory(s: StatementV)
    ensures
        forall|i: int|
            0 <= i < file_name_for(s).len() ==> (#[trigger] file_name_for(s)[i]) != '/'
                && file_name_for(s)[i] != '\\' && file_name_for(s)[i] != '\0',
{
    reveal_strlit("xfin-statement-");
    reveal_strlit(".pdf");
    let h = safe_handle(handle_of(s));
    let f = file_name_for(s);
    assert forall|i: int| 0 <= i < f.len() implies (#[trigger] f[i]) != '/' && f[i] != '\\' && f[i]
        != '\0' by {
        if i < 15 {
            assert(f[i] == "xfin-statement-"@[i]);
        } else if i < 15 + h.len() {
            assert(f[i] == h[i - 15]);
        } else {
            assert(f[i] == ".pdf"@[i - 15 - h.len()]);
        }
    }
}

proof fn lemma_kept_in_range(s: Seq<(JsonV, StatementV)>, since: Option<Seq<char>>, until: Option<Seq<char>>)
    ensures
        keep_in_range(s, since, until).len() <= s.len(),
        forall|i: int|
            0 <= i < keep_in_range(s, since, until).len() ==> date_in_range(
                (#[trigger] keep_in_range(s, since, until)[i]).1.date,
                since,
                until,
            ),
    decreases s.len(),
{
    if s.len() > 0 {
        lemma_kept_in_range(s.drop_last(), since, until);
    }
}

/// A statement listing shows only statements whose date passes the
/// bounds, and never more than the limit.
pub proof fn listing_respects_range_and_limit(bbds: JsonV, range: RangeArgs)
    ensures
        forall|i: int|
            0 <= i < collected(bbds, range).len() ==> date_in_range(
                (#[trigger] collected(bbds, range)[i]).1.date,
                opt_string(range.since),
                opt_string(range.until),
            ),
        range.limit matches Some(n) ==> collected(bbds, range).len() <= n,
{
    lemma_kept_in_range(
        numbered(statement_records(bbds)),
        opt_string(range.since),
        opt_string(range.until),
    );
}

} // verus!
