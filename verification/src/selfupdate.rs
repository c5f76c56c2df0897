//! `xfin self-update`: replace the running binary with the latest GitHub
//! release. Discovery uses the public releases API for [`REPO`]; the asset
//! whose name matches this platform (`xfin-<os>-<arch>.tar.gz`) is
//! downloaded, its single `xfin` entry extracted, and swapped in over the
//! current executable (a temporary file in the same directory, then a
//! rename), so a crash leaves either the old binary or the new one.

use std::io::Read;

use vstd::prelude::*;

use crate::client::{err_view, push_without_leading, strip_leading};
use crate::error::AppError;
use crate::json::{json_of, parse_json, push_member, text_value, view_items, view_members, Json, JsonV};
use crate::profile::opt_string;
use crate::text::{decimal, push_decimal, push_str, to_chars, trim, trimmed};

verus! {

broadcast use {vstd::std_specs::vec::group_vec_axioms, vstd::seq::group_seq_axioms};

/// The GitHub repository releases come from.
pub const REPO: &'static str = "piekstra/xfinity-cli";

/// The latest-release endpoint of [`REPO`].
pub const RELEASES_URL: &'static str = "https://api.github.com/repos/piekstra/xfinity-cli/releases/latest";

/// What a self-update did.
#[derive(Debug)]
pub struct UpdateOutcome {
    pub current: String,
    pub latest: String,
    pub updated: bool,
    pub already_current: bool,
    pub installed_at: Option<String>,
}

/// Mathematical value of an [`UpdateOutcome`].
pub ghost struct OutcomeV {
    pub current: Seq<char>,
    pub latest: Seq<char>,
    pub updated: bool,
    pub already_current: bool,
    pub installed_at: Option<Seq<char>>,
}

impl View for UpdateOutcome {
    type V = OutcomeV;

    open spec fn view(&self) -> OutcomeV {
        OutcomeV {
            current: self.current@,
            latest: self.latest@,
            updated: self.updated,
            already_current: self.already_current,
            installed_at: opt_string(self.installed_at),
        }
    }
}

/// A version-ish text normalised for comparison: trimmed, leading `v`s
/// dropped (`v0.2.0` is `0.2.0`).
pub open spec fn normalized(v: Seq<char>) -> Seq<char> {
    strip_leading(trim(v), 'v')
}

/// Normalises a version for comparison.
pub fn norm(v: &str) -> (res: String)
    ensures
        res@ == normalized(v@),
{
    let t = trimmed(v);
    let ts = crate::text::string_from(&t);
    let mut out = String::new();
    push_without_leading(&mut out, ts.as_str(), 'v');
    out
}

/// The platform part of an asset name, for a supported OS and architecture.
pub open spec fn asset_for(os: Seq<char>, arch: Seq<char>) -> Result<Seq<char>, (i32, Seq<char>)> {
    if !(os == "macos"@ || os == "linux"@ || os == "windows"@) {
        Err((1, "unsupported OS for self-update: "@ + os))
    } else if !(arch == "x86_64"@ || arch == "aarch64"@) {
        Err((1, "unsupported architecture for self-update: "@ + arch))
    } else {
        Ok("xfin-"@ + os + "-"@ + arch + ".tar.gz"@)
    }
}

fn cat3(a: &str, b: &str, c: &str) -> (res: String)
    ensures
        res@ == a@ + b@ + c@,
{
    let mut m = String::new();
    push_str(&mut m, a);
    push_str(&mut m, b);
    push_str(&mut m, c);
    m
}

/// Asset basename for a platform (`std::env::consts::OS` and `ARCH`), e.g.
/// `xfin-macos-aarch64.tar.gz`.
pub fn asset_name(os: &str, arch: &str) -> (res: Result<String, AppError>)
    ensures
        match asset_for(os@, arch@) {
            Ok(n) => res matches Ok(s) && s@ == n,
            Err(v) => res matches Err(e) && err_view(e) == v,
        },
{
    proof {
        reveal_strlit("");
    }
    let o = to_chars(os);
    let a = to_chars(arch);
    if !(crate::text::is_text(&o, "macos") || crate::text::is_text(&o, "linux")
        || crate::text::is_text(&o, "windows")) {
        return Err(AppError::Other(cat3("unsupported OS for self-update: ", os, "")));
    }
    if !(crate::text::is_text(&a, "x86_64") || crate::text::is_text(&a, "aarch64")) {
        return Err(AppError::Other(cat3("unsupported architecture for self-update: ", arch, "")));
    }
    let mut n = cat3("xfin-", os, "-");
    push_str(&mut n, arch);
    push_str(&mut n, ".tar.gz");
    Ok(n)
}

// ---------------------------------------------------------------------------
// The release
// ---------------------------------------------------------------------------

/// The latest release as the API answered it: its tag and assets, or why
/// there is none.
pub open spec fn release_of(status: u16, body: Result<JsonV, Seq<char>>) -> Result<
    (Seq<char>, Seq<JsonV>),
    (i32, Seq<char>),
> {
    if status == 404 {
        Err((4, "no published release yet for xfinity-cli"@))
    } else if !(200 <= status <= 299) {
        Err((6, "GitHub releases API HTTP "@ + decimal(status as nat)))
    } else {
        match body {
            Err(why) => Err((6, "decoding the release: "@ + why)),
            Ok(v) => match v.get("tag_name"@) {
                Some(JsonV::Str(tag)) => Ok(
                    (
                        tag,
                        match v.get("assets"@) {
                            Some(JsonV::Array(a)) => a,
                            _ => Seq::empty(),
                        },
                    ),
                ),
                _ => Err((1, "release response had no tag_name"@)),
            },
        }
    }
}

/// A parsed body, by value.
pub open spec fn body_view(b: Result<Json, String>) -> Result<JsonV, Seq<char>> {
    match b {
        Ok(v) => Ok(v@),
        Err(w) => Err(w@),
    }
}

fn copy_items(a: &Vec<Json>) -> (res: Vec<Json>)
    ensures
        view_items(res@) == view_items(a@),
{
    let mut out: Vec<Json> = Vec::new();
    proof {
        crate::json::lemma_view_items(a@);
    }
    let mut i: usize = 0;
    while i < a.len()
        invariant
            i <= a@.len(),
            view_items(a@).len() == a@.len(),
            forall|k: int| 0 <= k < a@.len() ==> #[trigger] view_items(a@)[k] == a@[k]@,
            view_items(out@) == view_items(a@).take(i as int),
        decreases a@.len() - i,
    {
        crate::json::push_item(&mut out, a[i].copy());
        assert(view_items(a@).take(i + 1) =~= view_items(a@).take(i as int).push(a@[i as int]@));
        i = i + 1;
    }
    assert(view_items(a@).take(a@.len() as int) == view_items(a@));
    out
}

/// What a latest-release body holds: the document its bytes hold, or the
/// parser's message, or the error reading it.
pub open spec fn release_body(b: Result<Vec<u8>, String>) -> Result<JsonV, Seq<char>> {
    match b {
        Ok(v) => json_of(v@),
        Err(w) => Err(w@),
    }
}

/// Judges the latest-release response: `status` and the body as read (or
/// why it could not be read), which is read as JSON.
pub fn latest_release(status: u16, body: Result<Vec<u8>, String>) -> (res: Result<
    (String, Vec<Json>),
    AppError,
>)
    ensures
        match release_of(status, release_body(body)) {
            Ok((tag, assets)) => res matches Ok((t, a)) && t@ == tag && view_items(a@) == assets,
            Err(v) => res matches Err(e) && err_view(e) == v,
        },
{
    let parsed = match body {
        Ok(b) => parse_json(b.as_slice()),
        Err(w) => Err(w),
    };
    release_from(status, parsed)
}

/// [`latest_release`] on a body already read as JSON: `status` and the
/// parse of the body (the body is only read on success).
pub fn release_from(status: u16, body: Result<Json, String>) -> (res: Result<(String, Vec<Json>), AppError>)
    ensures
        match release_of(status, body_view(body)) {
            Ok((tag, assets)) => res matches Ok((t, a)) && t@ == tag && view_items(a@) == assets,
            Err(v) => res matches Err(e) && err_view(e) == v,
        },
{
    if status == 404 {
        return Err(AppError::NotFound("no published release yet for xfinity-cli".to_owned()));
    }
    if !(200 <= status && status <= 299) {
        let mut m = String::new();
        push_str(&mut m, "GitHub releases API HTTP ");
        push_decimal(&mut m, status as u64);
        return Err(AppError::Network(m));
    }
    let v = match body {
        Err(why) => {
            let mut m = String::new();
            push_str(&mut m, "decoding the release: ");
            push_str(&mut m, why.as_str());
            return Err(AppError::Network(m));
        },
        Ok(v) => v,
    };
    let tag = match v.get("tag_name") {
        Some(Json::Str(t)) => t.clone(),
        _ => return Err(AppError::Other("release response had no tag_name".to_owned())),
    };
    let assets = match v.get("assets") {
        Some(Json::Array(a)) => copy_items(a),
        _ => Vec::new(),
    };
    Ok((tag, assets))
}

/// The download URL of the asset named `want`: the first asset with that
/// name must carry one.
pub open spec fn asset_url_of(assets: Seq<JsonV>, want: Seq<char>, tag: Seq<char>) -> Result<Seq<char>, (i32, Seq<char>)>
    decreases assets.len(),
{
    if assets.len() == 0 {
        Err((4, "release "@ + tag + " has no asset named "@ + want))
    } else if assets[0].get("name"@) == Some(JsonV::Str(want)) {
        match assets[0].get("browser_download_url"@) {
            Some(JsonV::Str(u)) => Ok(u),
            _ => Err((1, "asset had no download URL"@)),
        }
    } else {
        asset_url_of(assets.drop_first(), want, tag)
    }
}

/// Finds the asset for this platform and its download URL.
pub fn asset_url(assets: &Vec<Json>, want: &str, tag: &str) -> (res: Result<String, AppError>)
    ensures
        match asset_url_of(view_items(assets@), want@, tag@) {
            Ok(u) => res matches Ok(s) && s@ == u,
            Err(v) => res matches Err(e) && err_view(e) == v,
        },
{
    proof {
        crate::json::lemma_view_items(assets@);
    }
    let ghost all = view_items(assets@);
    let wc = to_chars(want);
    assert(all.subrange(0, all.len() as int) == all);
    let mut i: usize = 0;
    while i < assets.len()
        invariant
            i <= assets@.len(),
            all == view_items(assets@),
            all.len() == assets@.len(),
            forall|k: int| 0 <= k < assets@.len() ==> #[trigger] all[k] == assets@[k]@,
            wc@ == want@,
            asset_url_of(all, want@, tag@) == asset_url_of(all.subrange(i as int, all.len() as int), want@, tag@),
        decreases assets@.len() - i,
    {
        let ghost rest = all.subrange(i as int, all.len() as int);
        assert(rest[0] == assets@[i as int]@);
        assert(rest.drop_first() == all.subrange(i + 1, all.len() as int));
        let named = match assets[i].get("name") {
            Some(Json::Str(n)) => {
                let nc = to_chars(n.as_str());
                crate::text::same_text(&nc, &wc)
            },
            _ => false,
        };
        if named {
            return match assets[i].get("browser_download_url") {
                Some(Json::Str(u)) => Ok(u.clone()),
                _ => Err(AppError::Other("asset had no download URL".to_owned())),
            };
        }
        i = i + 1;
    }
    assert(all.subrange(assets@.len() as int, all.len() as int).len() == 0);
    let mut m = cat3("release ", tag, " has no asset named ");
    push_str(&mut m, want);
    Err(AppError::NotFound(m))
}

/// The error for a failed asset download.
pub fn download_failure(status: u16) -> (res: AppError)
    ensures
        err_view(res) == (6i32, "downloading asset: HTTP "@ + decimal(status as nat)),
{
    let mut m = String::new();
    push_str(&mut m, "downloading asset: HTTP ");
    push_decimal(&mut m, status as u64);
    AppError::Network(m)
}

// ---------------------------------------------------------------------------
// The release tarball
// ---------------------------------------------------------------------------

/// One member of a tar archive as `tar` reads it.
pub enum TarMember {
    /// The archive cannot be read past this point, with the reason.
    Broken(String),
    /// A member: the file name of its path as text (`None` when the path
    /// has no file name or it is not UTF-8) or the error reading the path,
    /// and its contents or the error reading them.
    Member { name: Result<Option<String>, String>, data: Result<Vec<u8>, String> },
}

/// Mathematical value of a [`TarMember`]: the reason it is broken, its
/// file name, its contents.
pub open spec fn member_view(m: TarMember) -> (
    Option<Seq<char>>,
    Result<Option<Seq<char>>, Seq<char>>,
    Result<Seq<u8>, Seq<char>>,
) {
    match m {
        TarMember::Broken(why) => (Some(why@), Ok(None), Ok(Seq::empty())),
        TarMember::Member { name, data } => (
            None,
            match name {
                Ok(p) => Ok(opt_string(p)),
                Err(e) => Err(e@),
            },
            match data {
                Ok(d) => Ok(d@),
                Err(e) => Err(e@),
            },
        ),
    }
}

/// Mathematical value of a read archive listing.
pub open spec fn listing_view(l: Result<Vec<TarMember>, String>) -> Result<
    Seq<(Option<Seq<char>>, Result<Option<Seq<char>>, Seq<char>>, Result<Seq<u8>, Seq<char>>)>,
    Seq<char>,
> {
    match l {
        Ok(v) => Ok(v@.map_values(|m: TarMember| member_view(m))),
        Err(e) => Err(e@),
    }
}

/// What `tar` reads out of a gzip-compressed archive with `flate2`: the
/// members in order, ending after the first one it cannot read, or why it
/// cannot list them at all.
pub uninterp spec fn tar_gz_members(archive: Seq<u8>) -> Result<
    Seq<(Option<Seq<char>>, Result<Option<Seq<char>>, Seq<char>>, Result<Seq<u8>, Seq<char>>)>,
    Seq<char>,
>;

/// `tar::Archive::entries` over `flate2::read::GzDecoder`: each member's
/// file name (the last component of its path, as `Path::file_name` gives
/// it) and contents, read in order. The contract names the listing
/// `tar_gz_members` of the bytes; the crates' formats are not written out.
#[verifier::external_body]
fn read_tar_gz(archive: &[u8]) -> (res: Result<Vec<TarMember>, String>)
    ensures
        listing_view(res) == tar_gz_members(archive@),
{
    let mut tar = tar::Archive::new(flate2::read::GzDecoder::new(archive));
    let entries = tar.entries().map_err(|e| e.to_string())?;
    Ok(entries.map(|entry| match entry {
        Err(e) => TarMember::Broken(e.to_string()),
        Ok(mut m) => {
            let name = m
                .path()
                .map(|p| p.file_name().and_then(|n| n.to_str()).map(String::from))
                .map_err(|e| e.to_string());
            let mut buf = Vec::new();
            let data = m.read_to_end(&mut buf).map(|_| buf).map_err(|e| e.to_string());
            TarMember::Member { name, data }
        },
    }).collect())
}

/// The `xfin` binary among the members: the first member whose file name
/// is `xfin`, stopping at the first member that cannot be read.
pub open spec fn first_binary(
    ms: Seq<(Option<Seq<char>>, Result<Option<Seq<char>>, Seq<char>>, Result<Seq<u8>, Seq<char>>)>,
) -> Result<Seq<u8>, (i32, Seq<char>)>
    decreases ms.len(),
{
    if ms.len() == 0 {
        Err((1, "release tarball did not contain an `xfin` binary"@))
    } else {
        let m = ms[0];
        match m.0 {
            Some(why) => Err((1, "reading tar entry: "@ + why)),
            None => match m.1 {
                Err(why) => Err((1, "reading tar entry path: "@ + why)),
                Ok(n) => if n == Some("xfin"@) {
                    match m.2 {
                        Err(why) => Err((1, "extracting xfin: "@ + why)),
                        Ok(b) => Ok(b),
                    }
                } else {
                    first_binary(ms.drop_first())
                },
            },
        }
    }
}

/// The binary a listing holds, or why there is none.
pub open spec fn binary_in(
    listing: Result<
        Seq<(Option<Seq<char>>, Result<Option<Seq<char>>, Seq<char>>, Result<Seq<u8>, Seq<char>>)>,
        Seq<char>,
    >,
) -> Result<Seq<u8>, (i32, Seq<char>)> {
    match listing {
        Err(why) => Err((1, "reading tarball: "@ + why)),
        Ok(ms) => first_binary(ms),
    }
}

fn is_xfin(name: &str) -> (res: bool)
    ensures
        res == (name@ == "xfin"@),
{
    let c = to_chars(name);
    crate::text::is_text(&c, "xfin")
}

/// Picks the `xfin` binary out of a read archive listing.
#[verifier::loop_isolation(false)]
pub fn binary_from_members(listing: Result<Vec<TarMember>, String>) -> (res: Result<Vec<u8>, AppError>)
    ensures
        match binary_in(listing_view(listing)) {
            Ok(b) => res matches Ok(v) && v@ == b,
            Err(e) => res matches Err(x) && err_view(x) == e,
        },
{
    proof {
        reveal_strlit("");
    }
    let members = match listing {
        Err(why) => return Err(AppError::Other(cat3("reading tarball: ", why.as_str(), ""))),
        Ok(v) => v,
    };
    let ghost all = members@.map_values(|m: TarMember| member_view(m));
    let mut members = members;
    let ghost orig = members@;
    assert(all.subrange(0, all.len() as int) == all);
    while members.len() > 0
        invariant
            members@.len() <= orig.len(),
            members@ == orig.subrange(orig.len() - members@.len(), orig.len() as int),
            all == orig.map_values(|m: TarMember| member_view(m)),
            first_binary(all) == first_binary(
                all.subrange(all.len() - members@.len(), all.len() as int),
            ),
        decreases members@.len(),
    {
        let ghost n = members@.len();
        let ghost rest = all.subrange(all.len() - n, all.len() as int);
        let m = members.remove(0);
        assert(member_view(m) == rest[0]);
        assert(rest.drop_first() == all.subrange(all.len() - (n - 1), all.len() as int));
        match m {
            TarMember::Broken(why) => {
                return Err(AppError::Other(cat3("reading tar entry: ", why.as_str(), "")));
            },
            TarMember::Member { name, data } => match name {
                Err(why) => {
                    return Err(AppError::Other(cat3("reading tar entry path: ", why.as_str(), "")));
                },
                Ok(p) => {
                    let bin = match &p {
                        Some(t) => is_xfin(t.as_str()),
                        None => false,
                    };
                    if bin {
                        return match data {
                            Err(why) => Err(AppError::Other(cat3("extracting xfin: ", why.as_str(), ""))),
                            Ok(b) => Ok(b),
                        };
                    }
                },
            },
        }
    }
    Err(AppError::Other("release tarball did not contain an `xfin` binary".to_owned()))
}

/// Extracts the `xfin` binary from a gzip-compressed release tarball.
pub fn extract_binary(tar_gz: &[u8]) -> (res: Result<Vec<u8>, AppError>)
    ensures
        match binary_in(tar_gz_members(tar_gz@)) {
            Ok(b) => res matches Ok(v) && v@ == b,
            Err(e) => res matches Err(x) && err_view(x) == e,
        },
{
    binary_from_members(read_tar_gz(tar_gz))
}

// ---------------------------------------------------------------------------
// Installing
// ---------------------------------------------------------------------------

/// The text before the last `/`, when there is one.
pub open spec fn before_last_slash(t: Seq<char>) -> Option<Seq<char>>
    decreases t.len(),
{
    if t.len() == 0 {
        None
    } else if t.last() == '/' {
        Some(t.drop_last())
    } else {
        before_last_slash(t.drop_last())
    }
}

/// The directory a binary at `dest` lives in (`Path::parent`), when there is
/// one.
pub open spec fn install_dir(dest: Seq<char>) -> Option<Seq<char>> {
    let t = crate::client::strip_trailing(dest, '/');
    if t.len() == 0 {
        None
    } else {
        match before_last_slash(t) {
            None => Some(Seq::empty()),
            Some(p) => if p.len() == 0 {
                Some("/"@)
            } else {
                Some(p)
            },
        }
    }
}

/// The temporary file an update is written to before the rename: beside
/// the binary, named for the process.
pub open spec fn temp_path_for(dest: Seq<char>, pid: nat) -> Option<Seq<char>> {
    match install_dir(dest) {
        Some(d) => Some(crate::commands::billing::join_path(d, ".xfin-update-"@ + decimal(pid))),
        None => None,
    }
}

proof fn lemma_before_last_slash(t: Seq<char>, k: int)
    requires
        0 <= k <= t.len(),
        forall|j: int| k <= j < t.len() ==> (#[trigger] t[j]) != '/',
        k == 0 || t[k - 1] == '/',
    ensures
        before_last_slash(t) == if k == 0 {
            None::<Seq<char>>
        } else {
            Some(t.subrange(0, k - 1))
        },
    decreases t.len(),
{
    if t.len() > 0 {
        if t.len() == k {
            assert(t.drop_last() == t.subrange(0, k - 1));
        } else {
            lemma_before_last_slash(t.drop_last(), k);
            if k > 0 {
                assert(t.drop_last().subrange(0, k - 1) == t.subrange(0, k - 1));
            }
        }
    }
}

/// The temporary path for installing over `dest` in process `pid`.
pub fn temp_path(dest: &str, pid: u32) -> (res: Result<String, AppError>)
    ensures
        match temp_path_for(dest@, pid as nat) {
            Some(p) => res matches Ok(s) && s@ == p,
            None => res matches Err(AppError::Other(m)) && m@ == "cannot resolve install directory"@,
        },
{
    let t = to_chars(dest);
    let mut e = t.len();
    while e > 0 && t[e - 1] == '/'
        invariant
            e <= t@.len(),
            forall|j: int| e <= j < t@.len() ==> #[trigger] t@[j] == '/',
        decreases e,
    {
        e = e - 1;
    }
    proof {
        crate::client::lemma_strip_trailing_at(t@, '/', e as int);
    }
    if e == 0 {
        return Err(AppError::Other("cannot resolve install directory".to_owned()));
    }
    let ghost stripped = t@.subrange(0, e as int);
    let mut k = e;
    while k > 0 && t[k - 1] != '/'
        invariant
            k <= e <= t@.len(),
            forall|j: int| k <= j < e ==> (#[trigger] t@[j]) != '/',
        decreases k,
    {
        k = k - 1;
    }
    proof {
        assert forall|j: int| k <= j < stripped.len() implies (#[trigger] stripped[j]) != '/' by {
            assert(stripped[j] == t@[j]);
        }
        if k > 0 {
            assert(stripped[k - 1] == t@[k - 1]);
        }
        lemma_before_last_slash(stripped, k as int);
        if k > 0 {
            assert(stripped.subrange(0, k - 1) == t@.subrange(0, k - 1));
        }
    }
    let dir = if k == 0 {
        String::new()
    } else if k == 1 {
        "/".to_owned()
    } else {
        crate::text::string_of(&t, 0, k - 1)
    };
    let mut name = String::new();
    push_str(&mut name, ".xfin-update-");
    push_decimal(&mut name, pid as u64);
    proof {
        if k == 0 {
            assert(dir@ =~= Seq::<char>::empty());
        }
    }
    Ok(crate::commands::billing::join(dir.as_str(), name.as_str()))
}

// ---------------------------------------------------------------------------
// The update
// ---------------------------------------------------------------------------

/// What the update is run with.
pub struct UpdateSetup {
    /// The running version.
    pub current: String,
    /// Only report whether an update exists.
    pub check_only: bool,
    /// `std::env::consts::OS`.
    pub os: String,
    /// `std::env::consts::ARCH`.
    pub arch: String,
    /// The process id, naming the temporary file.
    pub pid: u32,
}

/// How far an update has come.
pub enum UpdateState {
    /// Nothing asked yet.
    Begin,
    /// Waiting for the latest release.
    AwaitRelease,
    /// Waiting for the asset tarball; `latest` is the release version.
    AwaitDownload { latest: String },
    /// Waiting for the path of the running binary.
    AwaitExe { latest: String, binary: Vec<u8> },
    /// Waiting for the new binary to be in place at `dest`.
    AwaitInstall { latest: String, dest: String },
    /// Over.
    Done,
}

/// What the caller reports back after performing an [`UpdateAction`].
pub enum UpdateEvent {
    /// Nothing performed yet.
    Proceed,
    /// The latest-release response: HTTP status and its body, or why the
    /// body could not be read.
    Release { status: u16, body: Result<Vec<u8>, String> },
    /// The asset response: HTTP status and its body, or why the body could
    /// not be read.
    Downloaded { status: u16, body: Result<Vec<u8>, String> },
    /// The path of the running binary (symlinks resolved), or why unknown.
    Located(Result<String, AppError>),
    /// The new binary is in place, or why not.
    Installed(Result<(), AppError>),
}

/// What the caller is to do next.
pub enum UpdateAction {
    /// `GET url` with `Accept: application/vnd.github+json`.
    FetchRelease { url: String },
    /// `GET url` with `Accept: application/octet-stream`.
    Download { url: String },
    /// Find the running binary.
    LocateExe,
    /// Write `bytes` to `temp`, make it executable, and rename it over
    /// `dest` (removing `temp` if the rename fails).
    Install { dest: String, temp: String, bytes: Vec<u8> },
    /// The update is over.
    Finished(Result<UpdateOutcome, AppError>),
}

/// Mathematical value of an [`UpdateState`]: stage, latest version, binary,
/// destination.
pub open spec fn update_state_view(s: UpdateState) -> (int, Seq<char>, Seq<u8>, Seq<char>) {
    match s {
        UpdateState::Begin => (0, Seq::empty(), Seq::empty(), Seq::empty()),
        UpdateState::AwaitRelease => (1, Seq::empty(), Seq::empty(), Seq::empty()),
        UpdateState::AwaitDownload { latest } => (2, latest@, Seq::empty(), Seq::empty()),
        UpdateState::AwaitExe { latest, binary } => (3, latest@, binary@, Seq::empty()),
        UpdateState::AwaitInstall { latest, dest } => (4, latest@, Seq::empty(), dest@),
        UpdateState::Done => (5, Seq::empty(), Seq::empty(), Seq::empty()),
    }
}

/// Mathematical value of an [`UpdateAction`].
pub ghost enum UpdateActionV {
    FetchRelease(Seq<char>),
    Download(Seq<char>),
    LocateExe,
    Install(Seq<char>, Seq<char>, Seq<u8>),
    Finished(Result<OutcomeV, (i32, Seq<char>)>),
}

/// The value of an action.
pub open spec fn update_action_view(a: UpdateAction) -> UpdateActionV {
    match a {
        UpdateAction::FetchRelease { url } => UpdateActionV::FetchRelease(url@),
        UpdateAction::Download { url } => UpdateActionV::Download(url@),
        UpdateAction::LocateExe => UpdateActionV::LocateExe,
        UpdateAction::Install { dest, temp, bytes } => UpdateActionV::Install(dest@, temp@, bytes@),
        UpdateAction::Finished(Ok(o)) => UpdateActionV::Finished(Ok(o@)),
        UpdateAction::Finished(Err(e)) => UpdateActionV::Finished(Err(err_view(e))),
    }
}

/// The done state.
pub open spec fn done_state() -> (int, Seq<char>, Seq<u8>, Seq<char>) {
    (5, Seq::empty(), Seq::empty(), Seq::empty())
}

/// An update that ends with `outcome`.
pub open spec fn update_ends(outcome: Result<OutcomeV, (i32, Seq<char>)>) -> ((int, Seq<char>, Seq<u8>, Seq<char>), UpdateActionV) {
    (done_state(), UpdateActionV::Finished(outcome))
}

/// One step of a self-update.
pub open spec fn update_next(
    setup: (Seq<char>, bool, Seq<char>, Seq<char>, nat),
    st: (int, Seq<char>, Seq<u8>, Seq<char>),
    ev: UpdateEvent,
) -> ((int, Seq<char>, Seq<u8>, Seq<char>), UpdateActionV) {
    let (current, check_only, os, arch, pid) = setup;
    let protocol = update_ends(Err((1, "reply does not match the pending action"@)));
    if st.0 == 0 {
        match ev {
            UpdateEvent::Proceed => (
                (1, Seq::empty(), Seq::empty(), Seq::empty()),
                UpdateActionV::FetchRelease(RELEASES_URL@),
            ),
            _ => protocol,
        }
    } else if st.0 == 1 {
        match ev {
            UpdateEvent::Release { status, body } => match release_of(status, release_body(body)) {
                Err(e) => update_ends(Err(e)),
                Ok((tag, assets)) => {
                    let latest = normalized(tag);
                    let already = normalized(current) == latest;
                    if check_only || already {
                        update_ends(
                            Ok(
                                OutcomeV {
                                    current: current,
                                    latest: latest,
                                    updated: false,
                                    already_current: already,
                                    installed_at: None,
                                },
                            ),
                        )
                    } else {
                        match asset_for(os, arch) {
                            Err(e) => update_ends(Err(e)),
                            Ok(want) => match asset_url_of(assets, want, tag) {
                                Err(e) => update_ends(Err(e)),
                                Ok(url) => (
                                    (2, latest, Seq::empty(), Seq::empty()),
                                    UpdateActionV::Download(url),
                                ),
                            },
                        }
                    }
                },
            },
            _ => protocol,
        }
    } else if st.0 == 2 {
        match ev {
            UpdateEvent::Downloaded { status, body } => if !(200 <= status <= 299) {
                update_ends(Err((6, "downloading asset: HTTP "@ + decimal(status as nat))))
            } else {
                match body {
                    Err(w) => update_ends(Err((6, w@))),
                    Ok(bytes) => match binary_in(tar_gz_members(bytes@)) {
                        Err(e) => update_ends(Err(e)),
                        Ok(bin) => ((3, st.1, bin, Seq::empty()), UpdateActionV::LocateExe),
                    },
                }
            },
            _ => protocol,
        }
    } else if st.0 == 3 {
        match ev {
            UpdateEvent::Located(Err(e)) => update_ends(Err(err_view(e))),
            UpdateEvent::Located(Ok(dest)) => match temp_path_for(dest@, pid) {
                None => update_ends(Err((1, "cannot resolve install directory"@))),
                Some(temp) => (
                    (4, st.1, Seq::empty(), dest@),
                    UpdateActionV::Install(dest@, temp, st.2),
                ),
            },
            _ => protocol,
        }
    } else if st.0 == 4 {
        match ev {
            UpdateEvent::Installed(Err(e)) => update_ends(Err(err_view(e))),
            UpdateEvent::Installed(Ok(())) => update_ends(
                Ok(
                    OutcomeV {
                        current: current,
                        latest: st.1,
                        updated: true,
                        already_current: false,
                        installed_at: Some(st.3),
                    },
                ),
            ),
            _ => protocol,
        }
    } else {
        protocol
    }
}

/// The setup, by value.
pub open spec fn setup_view(s: &UpdateSetup) -> (Seq<char>, bool, Seq<char>, Seq<char>, nat) {
    (s.current@, s.check_only, s.os@, s.arch@, s.pid as nat)
}

fn outcome(current: &str, latest: String, updated: bool, already: bool, at: Option<String>) -> (res: UpdateOutcome)
    ensures
        res@ == (OutcomeV {
            current: current@,
            latest: latest@,
            updated,
            already_current: already,
            installed_at: opt_string(at),
        }),
{
    UpdateOutcome {
        current: current.to_owned(),
        latest,
        updated,
        already_current: already,
        installed_at: at,
    }
}

fn update_finish(outcome: Result<UpdateOutcome, AppError>) -> (res: (UpdateState, UpdateAction))
    ensures
        (update_state_view(res.0), update_action_view(res.1)) == update_ends(
            match outcome {
                Ok(o) => Ok(o@),
                Err(e) => Err(err_view(e)),
            },
        ),
{
    (UpdateState::Done, UpdateAction::Finished(outcome))
}

/// One step of `xfin self-update`: from where the update is and the outcome
/// of the last action, the next state and action. Check the latest
/// release; stop there when only checking or already current; else fetch
/// this platform's asset, extract the binary, and install it over the
/// running one.
pub fn run(setup: &UpdateSetup, state: UpdateState, event: UpdateEvent) -> (res: (UpdateState, UpdateAction))
    ensures
        (update_state_view(res.0), update_action_view(res.1)) == update_next(
            setup_view(setup),
            update_state_view(state),
            event,
        ),
{
    let protocol = AppError::Other("reply does not match the pending action".to_owned());
    match state {
        UpdateState::Begin => match event {
            UpdateEvent::Proceed => (
                UpdateState::AwaitRelease,
                UpdateAction::FetchRelease { url: RELEASES_URL.to_owned() },
            ),
            _ => update_finish(Err(protocol)),
        },
        UpdateState::AwaitRelease => match event {
            UpdateEvent::Release { status, body } => match latest_release(status, body) {
                Err(e) => update_finish(Err(e)),
                Ok((tag, assets)) => {
                    let latest = norm(tag.as_str());
                    let cur = norm(setup.current.as_str());
                    let lc = to_chars(latest.as_str());
                    let cc = to_chars(cur.as_str());
                    let already = crate::text::same_text(&cc, &lc);
                    if setup.check_only || already {
                        return update_finish(
                            Ok(outcome(setup.current.as_str(), latest, false, already, None)),
                        );
                    }
                    let want = match asset_name(setup.os.as_str(), setup.arch.as_str()) {
                        Err(e) => return update_finish(Err(e)),
                        Ok(w) => w,
                    };
                    match asset_url(&assets, want.as_str(), tag.as_str()) {
                        Err(e) => update_finish(Err(e)),
                        Ok(url) => (UpdateState::AwaitDownload { latest }, UpdateAction::Download { url }),
                    }
                },
            },
            _ => update_finish(Err(protocol)),
        },
        UpdateState::AwaitDownload { latest } => match event {
            UpdateEvent::Downloaded { status, body } => if !(200 <= status && status <= 299) {
                update_finish(Err(download_failure(status)))
            } else {
                match body {
                    Err(w) => update_finish(Err(AppError::Network(w))),
                    Ok(bytes) => match extract_binary(bytes.as_slice()) {
                        Err(e) => update_finish(Err(e)),
                        Ok(binary) => (
                            UpdateState::AwaitExe { latest, binary },
                            UpdateAction::LocateExe,
                        ),
                    },
                }
            },
            _ => update_finish(Err(protocol)),
        },
        UpdateState::AwaitExe { latest, binary } => match event {
            UpdateEvent::Located(Err(e)) => update_finish(Err(e)),
            UpdateEvent::Located(Ok(dest)) => match temp_path(dest.as_str(), setup.pid) {
                Err(e) => update_finish(Err(e)),
                Ok(temp) => (
                    UpdateState::AwaitInstall { latest, dest: dest.clone() },
                    UpdateAction::Install { dest, temp, bytes: binary },
                ),
            },
            _ => update_finish(Err(protocol)),
        },
        UpdateState::AwaitInstall { latest, dest } => match event {
            UpdateEvent::Installed(Err(e)) => update_finish(Err(e)),
            UpdateEvent::Installed(Ok(())) => update_finish(
                Ok(outcome(setup.current.as_str(), latest, true, false, Some(dest))),
            ),
            _ => update_finish(Err(protocol)),
        },
        UpdateState::Done => update_finish(Err(protocol)),
    }
}

// ---------------------------------------------------------------------------
// Reporting
// ---------------------------------------------------------------------------

/// The `--json` report of a self-update.
pub open spec fn outcome_json(o: OutcomeV) -> JsonV {
    JsonV::Object(
        seq![
            ("current"@, JsonV::Str(o.current)),
            ("latest"@, JsonV::Str(o.latest)),
            ("updated"@, JsonV::Bool(o.updated)),
            ("already_current"@, JsonV::Bool(o.already_current)),
            (
                "installed_at"@,
                match o.installed_at {
                    Some(p) => JsonV::Str(p),
                    None => JsonV::Null,
                },
            ),
        ],
    )
}

/// The `--json` report of a self-update.
pub fn outcome_report(o: &UpdateOutcome) -> (res: Json)
    ensures
        res@ == outcome_json(o@),
{
    let mut m: Vec<(String, Json)> = Vec::new();
    push_member(&mut m, "current", text_value(o.current.as_str()));
    push_member(&mut m, "latest", text_value(o.latest.as_str()));
    push_member(&mut m, "updated", Json::Bool(o.updated));
    push_member(&mut m, "already_current", Json::Bool(o.already_current));
    let at = match &o.installed_at {
        Some(p) => text_value(p.as_str()),
        None => Json::Null,
    };
    push_member(&mut m, "installed_at", at);
    assert(view_members(m@) =~= match outcome_json(o@) {
        JsonV::Object(ms) => ms,
        _ => Seq::empty(),
    });
    Json::Object(m)
}

/// The line a self-update reports: what was installed, that nothing newer
/// exists, or that a newer version is available.
pub open spec fn outcome_text(o: OutcomeV) -> Seq<char> {
    if o.updated {
        "updated xfin "@ + o.current + " → "@ + o.latest
    } else if o.already_current {
        "xfin "@ + o.current + " is up to date"@
    } else {
        "xfin "@ + o.current + " → "@ + o.latest + " available (run `xfin self-update`)"@
    }
}

/// The line a self-update reports.
pub fn outcome_line(o: &UpdateOutcome) -> (res: String)
    ensures
        res@ == outcome_text(o@),
{
    let mut m = String::new();
    if o.updated {
        push_str(&mut m, "updated xfin ");
        push_str(&mut m, o.current.as_str());
        push_str(&mut m, " → ");
        push_str(&mut m, o.latest.as_str());
    } else if o.already_current {
        push_str(&mut m, "xfin ");
        push_str(&mut m, o.current.as_str());
        push_str(&mut m, " is up to date");
    } else {
        push_str(&mut m, "xfin ");
        push_str(&mut m, o.current.as_str());
        push_str(&mut m, " → ");
        push_str(&mut m, o.latest.as_str());
        push_str(&mut m, " available (run `xfin self-update`)");
    }
    m
}

} // verus!
