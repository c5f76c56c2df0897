//! A JSON document model.

use vstd::prelude::*;

use crate::text::{
    all_digits, digits_value, is_digit, parse_digits, push_char, push_str, same_text, split_from,
    split_on, starts_with, to_chars,
};

verus! {

broadcast use {vstd::std_specs::vec::group_vec_axioms, vstd::seq::group_seq_axioms};

/// Mathematical value of a JSON document.
pub ghost enum JsonV {
    Null,
    Bool(bool),
    Number(Seq<char>),
    Str(Seq<char>),
    Array(Seq<JsonV>),
    Object(Seq<(Seq<char>, JsonV)>),
}

/// A JSON document. Numbers keep the exact text they were written with;
/// object members keep their order.
#[derive(Debug)]
pub enum Json {
    Null,
    Bool(bool),
    Number(String),
    Str(String),
    Array(Vec<Json>),
    Object(Vec<(String, Json)>),
}

impl View for Json {
    type V = JsonV;

    open spec fn view(&self) -> JsonV
        decreases self,
    {
        match self {
            Json::Null => JsonV::Null,
            Json::Bool(b) => JsonV::Bool(*b),
            Json::Number(n) => JsonV::Number(n@),
            Json::Str(s) => JsonV::Str(s@),
            Json::Array(items) => JsonV::Array(view_items(items@)),
            Json::Object(members) => JsonV::Object(view_members(members@)),
        }
    }
}

/// The values of a sequence of documents.
pub open spec fn view_items(s: Seq<Json>) -> Seq<JsonV>
    decreases s,
{
    if s.len() == 0 {
        Seq::empty()
    } else {
        view_items(s.drop_last()).push(s.last().view())
    }
}

/// The values of a sequence of object members.
pub open spec fn view_members(s: Seq<(String, Json)>) -> Seq<(Seq<char>, JsonV)>
    decreases s,
{
    if s.len() == 0 {
        Seq::empty()
    } else {
        view_members(s.drop_last()).push((s.last().0@, s.last().1.view()))
    }
}

pub proof fn lemma_view_items(s: Seq<Json>)
    ensures
        view_items(s).len() == s.len(),
        forall|i: int| 0 <= i < s.len() ==> #[trigger] view_items(s)[i] == s[i]@,
    decreases s.len(),
{
    if s.len() > 0 {
        lemma_view_items(s.drop_last());
        assert(view_items(s) == view_items(s.drop_last()).push(s.last().view()));
    } else {
        assert(view_items(s) == Seq::<JsonV>::empty());
    }
}

pub proof fn lemma_view_members(s: Seq<(String, Json)>)
    ensures
        view_members(s).len() == s.len(),
        forall|i: int| 0 <= i < s.len() ==> #[trigger] view_members(s)[i] == (s[i].0@, s[i].1@),
    decreases s.len(),
{
    if s.len() > 0 {
        lemma_view_members(s.drop_last());
        assert(view_members(s) == view_members(s.drop_last()).push((s.last().0@, s.last().1.view())));
    } else {
        assert(view_members(s) == Seq::<(Seq<char>, JsonV)>::empty());
    }
}

/// The value of the first member named `key`.
pub open spec fn member(m: Seq<(Seq<char>, JsonV)>, key: Seq<char>) -> Option<JsonV>
    decreases m.len(),
{
    if m.len() == 0 {
        None
    } else if m[0].0 == key {
        Some(m[0].1)
    } else {
        member(m.drop_first(), key)
    }
}

/// Position of the first member named `key`.
pub open spec fn member_index(m: Seq<(Seq<char>, JsonV)>, key: Seq<char>) -> int
    decreases m.len(),
{
    if m.len() == 0 {
        -1
    } else if m[0].0 == key {
        0
    } else {
        let r = member_index(m.drop_first(), key);
        if r < 0 {
            -1
        } else {
            r + 1
        }
    }
}

pub proof fn lemma_member_index(m: Seq<(Seq<char>, JsonV)>, key: Seq<char>)
    ensures
        -1 <= member_index(m, key) < m.len(),
        member_index(m, key) >= 0 ==> m[member_index(m, key)].0 == key && member(m, key) == Some(
            m[member_index(m, key)].1,
        ),
        member_index(m, key) >= 0 ==> forall|j: int|
            0 <= j < member_index(m, key) ==> (#[trigger] m[j]).0 != key,
        member_index(m, key) < 0 ==> member(m, key) is None && forall|j: int|
            0 <= j < m.len() ==> (#[trigger] m[j]).0 != key,
    decreases m.len(),
{
    if m.len() > 0 && m[0].0 != key {
        lemma_member_index(m.drop_first(), key);
        assert forall|j: int| 1 <= j < m.len() implies #[trigger] m[j] == m.drop_first()[j - 1] by {}
    }
}

impl JsonV {
    /// `Value::get` with a string key: the member of an object.
    pub open spec fn get(self, key: Seq<char>) -> Option<JsonV> {
        match self {
            JsonV::Object(m) => member(m, key),
            _ => None,
        }
    }

    /// `Value::as_str`.
    pub open spec fn as_str(self) -> Option<Seq<char>> {
        match self {
            JsonV::Str(s) => Some(s),
            _ => None,
        }
    }

    /// `Value::as_u64`: a number written as plain decimal digits that fits
    /// in a `u64`.
    pub open spec fn as_u64(self) -> Option<nat> {
        match self {
            JsonV::Number(t) => if t.len() > 0 && all_digits(t) && digits_value(t) <= u64::MAX {
                Some(digits_value(t))
            } else {
                None
            },
            _ => None,
        }
    }

    /// `Value::as_bool`.
    pub open spec fn as_bool(self) -> Option<bool> {
        match self {
            JsonV::Bool(b) => Some(b),
            _ => None,
        }
    }

    /// One step of a pointer: an object member, or an array element by index.
    pub open spec fn step(self, token: Seq<char>) -> Option<JsonV> {
        match self {
            JsonV::Object(m) => member(m, token),
            JsonV::Array(a) => if index_token(token) && digits_value(token) < a.len() {
                Some(a[digits_value(token) as int])
            } else {
                None
            },
            _ => None,
        }
    }

    /// Follows reference tokens from this value.
    pub open spec fn walk(self, tokens: Seq<Seq<char>>) -> Option<JsonV>
        decreases tokens.len(),
    {
        if tokens.len() == 0 {
            Some(self)
        } else {
            match self.step(tokens[0]) {
                Some(next) => next.walk(tokens.drop_first()),
                None => None,
            }
        }
    }

    /// `Value::pointer` (RFC 6901).
    pub open spec fn pointer(self, ptr: Seq<char>) -> Option<JsonV> {
        if ptr.len() == 0 {
            Some(self)
        } else if ptr[0] != '/' {
            None
        } else {
            self.walk(split_on(ptr.drop_first(), '/').map_values(|t: Seq<char>| unescape(t)))
        }
    }
}

/// A token that names an array index: decimal digits, no leading zero.
pub open spec fn index_token(t: Seq<char>) -> bool {
    t.len() > 0 && all_digits(t) && !(t[0] == '0' && t.len() != 1)
}

/// `str::replace`: every non-overlapping occurrence of `pat`, left to right,
/// replaced by `rep`.
pub open spec fn replace_all(s: Seq<char>, pat: Seq<char>, rep: Seq<char>) -> Seq<char>
    decreases s.len(),
{
    if pat.len() == 0 || s.len() == 0 {
        s
    } else if starts_with(s, pat) {
        rep + replace_all(s.subrange(pat.len() as int, s.len() as int), pat, rep)
    } else {
        seq![s[0]] + replace_all(s.drop_first(), pat, rep)
    }
}

/// RFC 6901 token unescaping: `~1` becomes `/`, then `~0` becomes `~`.
pub open spec fn unescape(t: Seq<char>) -> Seq<char> {
    replace_all(replace_all(t, seq!['~', '1'], seq!['/']), seq!['~', '0'], seq!['~'])
}

pub proof fn lemma_member_first(m: Seq<(Seq<char>, JsonV)>, key: Seq<char>, i: int)
    requires
        0 <= i < m.len(),
        m[i].0 == key,
        forall|j: int| 0 <= j < i ==> (#[trigger] m[j]).0 != key,
    ensures
        member(m, key) == Some(m[i].1),
    decreases i,
{
    if i > 0 {
        assert forall|j: int| 0 <= j < i - 1 implies (#[trigger] m.drop_first()[j]).0 != key by {
            assert(m.drop_first()[j] == m[j + 1]);
        }
        lemma_member_first(m.drop_first(), key, i - 1);
    }
}

/// Looking a key up in two member lists joined: the first list wins.
pub proof fn lemma_member_concat(a: Seq<(Seq<char>, JsonV)>, b: Seq<(Seq<char>, JsonV)>, key: Seq<char>)
    ensures
        member(a + b, key) == if member(a, key) is Some {
            member(a, key)
        } else {
            member(b, key)
        },
    decreases a.len(),
{
    if a.len() > 0 {
        assert((a + b).drop_first() == a.drop_first() + b);
        assert((a + b)[0] == a[0]);
        lemma_member_concat(a.drop_first(), b, key);
    } else {
        assert(a + b == b);
    }
}

pub proof fn lemma_member_absent(m: Seq<(Seq<char>, JsonV)>, key: Seq<char>)
    requires
        forall|j: int| 0 <= j < m.len() ==> (#[trigger] m[j]).0 != key,
    ensures
        member(m, key) is None,
    decreases m.len(),
{
    if m.len() > 0 {
        assert forall|j: int| 0 <= j < m.len() - 1 implies (#[trigger] m.drop_first()[j]).0 != key by {
            assert(m.drop_first()[j] == m[j + 1]);
        }
        lemma_member_absent(m.drop_first(), key);
    }
}

/// Lower-case hexadecimal digit.
pub open spec fn hex_digit(d: nat) -> char {
    if d < 10 {
        ((d + 48) as u8) as char
    } else {
        ((d + 87) as u8) as char
    }
}

/// The JSON string escape of one character (as `serde_json` writes it).
pub open spec fn escape_char(c: char) -> Seq<char> {
    if c == '"' {
        seq!['\\', '"']
    } else if c == '\\' {
        seq!['\\', '\\']
    } else if c == '\u{8}' {
        seq!['\\', 'b']
    } else if c == '\u{c}' {
        seq!['\\', 'f']
    } else if c == '\n' {
        seq!['\\', 'n']
    } else if c == '\r' {
        seq!['\\', 'r']
    } else if c == '\t' {
        seq!['\\', 't']
    } else if (c as u32) < 0x20 {
        seq!['\\', 'u', '0', '0', hex_digit((c as u32 / 16) as nat), hex_digit((c as u32 % 16) as nat)]
    } else {
        seq![c]
    }
}

/// JSON string escaping of a text.
pub open spec fn escape(s: Seq<char>) -> Seq<char>
    decreases s.len(),
{
    if s.len() == 0 {
        Seq::empty()
    } else {
        escape(s.drop_last()) + escape_char(s.last())
    }
}

/// A JSON string literal.
pub open spec fn quote(s: Seq<char>) -> Seq<char> {
    seq!['"'] + escape(s) + seq!['"']
}

/// Compact JSON text of a value (no whitespace, members in order).
pub open spec fn compact(v: JsonV) -> Seq<char>
    decreases v,
{
    match v {
        JsonV::Null => seq!['n', 'u', 'l', 'l'],
        JsonV::Bool(b) => if b {
            seq!['t', 'r', 'u', 'e']
        } else {
            seq!['f', 'a', 'l', 's', 'e']
        },
        JsonV::Number(n) => n,
        JsonV::Str(s) => quote(s),
        JsonV::Array(a) => seq!['['] + compact_items(a) + seq![']'],
        JsonV::Object(m) => seq!['{'] + compact_members(m) + seq!['}'],
    }
}

/// Comma-separated compact texts of array items.
pub open spec fn compact_items(a: Seq<JsonV>) -> Seq<char>
    decreases a,
{
    if a.len() == 0 {
        Seq::empty()
    } else if a.len() == 1 {
        compact(a[0])
    } else {
        compact_items(a.drop_last()) + seq![','] + compact(a.last())
    }
}

/// Comma-separated `"key":value` texts of object members.
pub open spec fn compact_members(m: Seq<(Seq<char>, JsonV)>) -> Seq<char>
    decreases m,
{
    if m.len() == 0 {
        Seq::empty()
    } else if m.len() == 1 {
        quote(m[0].0) + seq![':'] + compact(m[0].1)
    } else {
        compact_members(m.drop_last()) + seq![','] + quote(m.last().0) + seq![':'] + compact(
            m.last().1,
        )
    }
}

/// The text a value renders as in a `Key: value` line: a string as is,
/// null as nothing, anything else as its compact JSON.
pub open spec fn scalar(v: JsonV) -> Seq<char> {
    match v {
        JsonV::Str(s) => s,
        JsonV::Null => Seq::empty(),
        _ => compact(v),
    }
}

/// The value behind an optional reference.
pub open spec fn opt_view(o: Option<&Json>) -> Option<JsonV> {
    match o {
        Some(r) => Some(r@),
        None => None,
    }
}

/// `replace_all(s[from..], pat, rep)`, computed.
fn replace_from(s: &Vec<char>, from: usize, pat: &Vec<char>, rep: &Vec<char>) -> (res: Vec<char>)
    requires
        from <= s@.len(),
        pat@.len() > 0,
    ensures
        res@ == replace_all(s@.subrange(from as int, s@.len() as int), pat@, rep@),
    decreases s@.len() - from,
{
    let ghost t = s@.subrange(from as int, s@.len() as int);
    if from == s.len() {
        return Vec::new();
    }
    let n = s.len();
    let here = pat.len() <= n - from && crate::text::matches_at(s, pat, from);
    let (mut head, next) = if here {
        proof {
            assert(t.subrange(0, pat@.len() as int) == s@.subrange(from as int, from + pat@.len()));
        }
        let mut h: Vec<char> = Vec::new();
        let mut j: usize = 0;
        while j < rep.len()
            invariant
                j <= rep@.len(),
                h@ == rep@.subrange(0, j as int),
            decreases rep@.len() - j,
        {
            h.push(rep[j]);
            assert(rep@.subrange(0, j + 1) == rep@.subrange(0, j as int).push(rep@[j as int]));
            j = j + 1;
        }
        assert(rep@.subrange(0, rep@.len() as int) == rep@);
        (h, from + pat.len())
    } else {
        proof {
            if pat@.len() <= t.len() {
                assert(t.subrange(0, pat@.len() as int) == s@.subrange(from as int, from + pat@.len()));
            }
        }
        let mut h: Vec<char> = Vec::new();
        h.push(s[from]);
        (h, from + 1)
    };
    let tail = replace_from(s, next, pat, rep);
    proof {
        if here {
            assert(t.subrange(pat@.len() as int, t.len() as int) == s@.subrange(next as int, s@.len() as int));
        } else {
            assert(t.drop_first() == s@.subrange(next as int, s@.len() as int));
        }
    }
    let ghost h0 = head@;
    let mut j: usize = 0;
    while j < tail.len()
        invariant
            j <= tail@.len(),
            head@ == h0 + tail@.subrange(0, j as int),
        decreases tail@.len() - j,
    {
        head.push(tail[j]);
        assert(tail@.subrange(0, j + 1) == tail@.subrange(0, j as int).push(tail@[j as int]));
        j = j + 1;
    }
    assert(tail@.subrange(0, tail@.len() as int) == tail@);
    head
}

/// RFC 6901 unescaping of one token.
fn unescape_token(t: &Vec<char>) -> (res: Vec<char>)
    ensures
        res@ == unescape(t@),
{
    let mut p1: Vec<char> = Vec::new();
    p1.push('~');
    p1.push('1');
    let mut r1: Vec<char> = Vec::new();
    r1.push('/');
    let mut p0: Vec<char> = Vec::new();
    p0.push('~');
    p0.push('0');
    let mut r0: Vec<char> = Vec::new();
    r0.push('~');
    assert(p1@ == seq!['~', '1'] && r1@ == seq!['/'] && p0@ == seq!['~', '0'] && r0@ == seq!['~']);
    let a = replace_from(t, 0, &p1, &r1);
    assert(t@.subrange(0, t@.len() as int) == t@);
    let b = replace_from(&a, 0, &p0, &r0);
    assert(a@.subrange(0, a@.len() as int) == a@);
    b
}

fn hex_of(d: u32) -> (res: char)
    requires
        d < 16,
    ensures
        res == hex_digit(d as nat),
{
    if d < 10 {
        ((d as u8) + 48) as char
    } else {
        ((d as u8) + 87) as char
    }
}

/// Appends the JSON escape of `c`.
fn push_escaped(out: &mut String, c: char)
    ensures
        final(out)@ == old(out)@ + escape_char(c),
{
    let ghost start = out@;
    if c == '"' {
        push_char(out, '\\');
        push_char(out, '"');
    } else if c == '\\' {
        push_char(out, '\\');
        push_char(out, '\\');
    } else if c == '\u{8}' {
        push_char(out, '\\');
        push_char(out, 'b');
    } else if c == '\u{c}' {
        push_char(out, '\\');
        push_char(out, 'f');
    } else if c == '\n' {
        push_char(out, '\\');
        push_char(out, 'n');
    } else if c == '\r' {
        push_char(out, '\\');
        push_char(out, 'r');
    } else if c == '\t' {
        push_char(out, '\\');
        push_char(out, 't');
    } else if (c as u32) < 0x20 {
        push_char(out, '\\');
        push_char(out, 'u');
        push_char(out, '0');
        push_char(out, '0');
        push_char(out, hex_of(c as u32 / 16));
        push_char(out, hex_of(c as u32 % 16));
    } else {
        push_char(out, c);
    }
    assert(out@ =~= start + escape_char(c));
}

/// Appends a JSON string literal holding `s`.
pub fn push_quoted(out: &mut String, s: &str)
    ensures
        final(out)@ == old(out)@ + quote(s@),
{
    let cs = to_chars(s);
    let ghost start = out@;
    push_char(out, '"');
    let mut i: usize = 0;
    while i < cs.len()
        invariant
            i <= cs@.len(),
            cs@ == s@,
            out@ == start + seq!['"'] + escape(cs@.subrange(0, i as int)),
        decreases cs@.len() - i,
    {
        let ghost before = out@;
        push_escaped(out, cs[i]);
        assert(cs@.subrange(0, i + 1).drop_last() == cs@.subrange(0, i as int));
        i = i + 1;
    }
    assert(cs@.subrange(0, cs@.len() as int) == cs@);
    push_char(out, '"');
    assert(out@ =~= start + quote(s@));
}

impl Json {
    /// Appends the compact JSON text of this value.
    #[verifier::loop_isolation(false)]
    #[verifier::rlimit(40)]
    pub fn write_compact(&self, out: &mut String)
        ensures
            final(out)@ == old(out)@ + compact(self@),
        decreases self,
    {
        let ghost start = out@;
        match self {
            Json::Null => push_str(out, "null"),
            Json::Bool(b) => if *b {
                push_str(out, "true")
            } else {
                push_str(out, "false")
            },
            Json::Number(n) => push_str(out, n.as_str()),
            Json::Str(s) => push_quoted(out, s.as_str()),
            Json::Array(items) => {
                proof {
                    lemma_view_items(items@);
                }
                let ghost vs = view_items(items@);
                push_char(out, '[');
                let mut i: usize = 0;
                while i < items.len()
                    invariant
                        i <= items@.len() == vs.len(),
                        out@ == start + seq!['['] + compact_items(vs.subrange(0, i as int)),
                    decreases items@.len() - i,
                {
                    proof {
                        assert(decreases_to!(*self => *items));
                        assert(decreases_to!(*items => items@));
                        assert(decreases_to!(items@ => items@[i as int]));
                    }
                    if i > 0 {
                        push_char(out, ',');
                    }
                    items[i].write_compact(out);
                    proof {
                        let t = vs.subrange(0, i + 1);
                        assert(t.drop_last() == vs.subrange(0, i as int));
                        assert(t.last() == items@[i as int]@);
                        if i == 0 {
                            assert(t.len() == 1);
                            assert(compact_items(vs.subrange(0, 0)) == Seq::<char>::empty());
                        }
                    }
                    i = i + 1;
                }
                assert(vs.subrange(0, vs.len() as int) == vs);
                push_char(out, ']');
            },
            Json::Object(members) => {
                proof {
                    lemma_view_members(members@);
                }
                let ghost ms = view_members(members@);
                push_char(out, '{');
                let mut i: usize = 0;
                while i < members.len()
                    invariant
                        i <= members@.len() == ms.len(),
                        out@ == start + seq!['{'] + compact_members(ms.subrange(0, i as int)),
                    decreases members@.len() - i,
                {
                    proof {
                        assert(decreases_to!(*self => *members));
                        assert(decreases_to!(*members => members@));
                        assert(decreases_to!(members@ => members@[i as int]));
                        assert(decreases_to!(members@[i as int] => members@[i as int].1));
                    }
                    if i > 0 {
                        push_char(out, ',');
                    }
                    push_quoted(out, members[i].0.as_str());
                    push_char(out, ':');
                    members[i].1.write_compact(out);
                    proof {
                        let t = ms.subrange(0, i + 1);
                        assert(t.drop_last() == ms.subrange(0, i as int));
                        assert(t.last() == (members@[i as int].0@, members@[i as int].1@));
                        if i == 0 {
                            assert(t.len() == 1);
                            assert(compact_members(ms.subrange(0, 0)) == Seq::<char>::empty());
                        }
                    }
                    i = i + 1;
                }
                assert(ms.subrange(0, ms.len() as int) == ms);
                push_char(out, '}');
            },
        }
        proof {
            reveal_strlit("null");
            reveal_strlit("true");
            reveal_strlit("false");
        }
        assert(out@ =~= start + compact(self@));
    }

    /// The text of this value in a `Key: value` line.
    pub fn scalar(&self) -> (res: String)
        ensures
            res@ == scalar(self@),
    {
        match self {
            Json::Str(s) => s.clone(),
            Json::Null => String::new(),
            _ => {
                let mut out = String::new();
                self.write_compact(&mut out);
                assert(out@ =~= scalar(self@));
                out
            },
        }
    }

    /// `Value::get` with a string key.
    #[verifier::loop_isolation(false)]
    pub fn get(&self, key: &str) -> (res: Option<&Json>)
        ensures
            opt_view(res) == self@.get(key@),
    {
        match self {
            Json::Object(m) => {
                let kc = to_chars(key);
                let ghost ms = view_members(m@);
                proof {
                    lemma_view_members(m@);
                }
                let mut i: usize = 0;
                while i < m.len()
                    invariant
                        i <= m@.len(),
                        ms == view_members(m@),
                        ms.len() == m@.len(),
                        forall|k: int| 0 <= k < m@.len() ==> #[trigger] ms[k] == (m@[k].0@, m@[k].1@),
                        kc@ == key@,
                        forall|j: int| 0 <= j < i ==> (#[trigger] ms[j]).0 != key@,
                    decreases m@.len() - i,
                {
                    let mk = to_chars(m[i].0.as_str());
                    if same_text(&mk, &kc) {
                        proof {
                            lemma_member_first(ms, key@, i as int);
                        }
                        return Some(&m[i].1);
                    }
                    i = i + 1;
                }
                proof {
                    lemma_member_absent(ms, key@);
                }
                None
            },
            _ => None,
        }
    }

    /// `Value::as_str`.
    pub fn as_str(&self) -> (res: Option<&str>)
        ensures
            match res {
                Some(s) => self@.as_str() == Some(s@),
                None => self@.as_str() is None,
            },
    {
        match self {
            Json::Str(s) => Some(s.as_str()),
            _ => None,
        }
    }

    /// `Value::as_bool`.
    pub fn as_bool(&self) -> (res: Option<bool>)
        ensures
            res == self@.as_bool(),
    {
        match self {
            Json::Bool(b) => Some(*b),
            _ => None,
        }
    }

    /// `Value::is_null`.
    pub fn is_null(&self) -> (res: bool)
        ensures
            res == (self@ == JsonV::Null),
    {
        match self {
            Json::Null => true,
            _ => false,
        }
    }

    /// One pointer step from this value.
    #[verifier::loop_isolation(false)]
    pub fn step(&self, token: &Vec<char>) -> (res: Option<&Json>)
        ensures
            opt_view(res) == self@.step(token@),
    {
        match self {
            Json::Object(m) => {
                let ghost ms = view_members(m@);
                proof {
                    lemma_view_members(m@);
                }
                let mut i: usize = 0;
                while i < m.len()
                    invariant
                        i <= m@.len(),
                        ms == view_members(m@),
                        ms.len() == m@.len(),
                        forall|k: int| 0 <= k < m@.len() ==> #[trigger] ms[k] == (m@[k].0@, m@[k].1@),
                        forall|j: int| 0 <= j < i ==> (#[trigger] ms[j]).0 != token@,
                    decreases m@.len() - i,
                {
                    let mk = to_chars(m[i].0.as_str());
                    if same_text(&mk, token) {
                        proof {
                            lemma_member_first(ms, token@, i as int);
                        }
                        return Some(&m[i].1);
                    }
                    i = i + 1;
                }
                proof {
                    lemma_member_absent(ms, token@);
                }
                None
            },
            Json::Array(a) => {
                proof {
                    lemma_view_items(a@);
                }
                let alen = a.len();
                let n = token.len();
                if n == 0 || (token[0] == '0' && n != 1) {
                    assert(!index_token(token@));
                    return None;
                }
                let mut k: usize = 0;
                while k < n
                    invariant
                        k <= n == token@.len(),
                        forall|j: int| 0 <= j < k ==> is_digit(#[trigger] token@[j]),
                    decreases n - k,
                {
                    if !('0' <= token[k] && token[k] <= '9') {
                        assert(!all_digits(token@));
                        return None;
                    }
                    k = k + 1;
                }
                assert(token@.subrange(0, n as int) == token@);
                assert(index_token(token@));
                match parse_digits(token, 0, n, usize::MAX as u64) {
                    Some(v) => {
                        let idx = v as usize;
                        if idx < a.len() {
                            assert(self@.step(token@) == Some(a@[idx as int]@));
                            Some(&a[idx])
                        } else {
                            assert(self@.step(token@) is None);
                            None
                        }
                    },
                    None => {
                        assert(digits_value(token@) > usize::MAX);
                        assert(view_items(a@).len() == a@.len());
                        assert(a@.len() <= usize::MAX);
                        assert(usize::MAX as u64 == usize::MAX);
                        assert(self@ == JsonV::Array(view_items(a@)));
                        assert(!(digits_value(token@) < view_items(a@).len()));
                        assert(self@.step(token@) is None);
                        None
                    },
                }
            },
            _ => None,
        }
    }

    /// `Value::pointer` (RFC 6901): the value a JSON Pointer names.
    pub fn pointer(&self, ptr: &str) -> (res: Option<&Json>)
        ensures
            opt_view(res) == self@.pointer(ptr@),
    {
        let p = to_chars(ptr);
        if p.len() == 0 {
            return Some(self);
        }
        if p[0] != '/' {
            return None;
        }
        let raw = split_from(&p, 1, '/');
        assert(p@.subrange(1, p@.len() as int) == p@.drop_first());
        let ghost tokens = split_on(p@.drop_first(), '/').map_values(|t: Seq<char>| unescape(t));
        let mut cur: &Json = self;
        let mut i: usize = 0;
        assert(tokens.subrange(0, tokens.len() as int) == tokens);
        while i < raw.len()
            invariant
                i <= raw@.len() == tokens.len(),
                p@ == ptr@,
                p@.len() > 0,
                p@[0] == '/',
                tokens == split_on(p@.drop_first(), '/').map_values(|t: Seq<char>| unescape(t)),
                forall|k: int| 0 <= k < raw@.len() ==> (#[trigger] raw@[k])@ == split_on(p@.drop_first(), '/')[k],
                self@.walk(tokens) == cur@.walk(tokens.subrange(i as int, tokens.len() as int)),
            decreases raw@.len() - i,
        {
            let tok = unescape_token(&raw[i]);
            let ghost rest = tokens.subrange(i as int, tokens.len() as int);
            assert(rest[0] == tok@);
            assert(rest.drop_first() == tokens.subrange(i + 1, tokens.len() as int));
            match cur.step(&tok) {
                Some(next) => {
                    cur = next;
                },
                None => {
                    assert(cur@.walk(rest) is None);
                    return None;
                },
            }
            i = i + 1;
        }
        proof {
            assert(tokens.subrange(i as int, tokens.len() as int).len() == 0);
        }
        Some(cur)
    }

    #[verifier::loop_isolation(false)]
    pub fn copy(&self) -> (res: Json)
        ensures
            res@ == self@,
        decreases self,
    {
        match self {
            Json::Null => Json::Null,
            Json::Bool(b) => Json::Bool(*b),
            Json::Number(n) => Json::Number(n.clone()),
            Json::Str(s) => Json::Str(s.clone()),
            Json::Array(items) => {
                let mut out: Vec<Json> = Vec::new();
                let mut i: usize = 0;
                while i < items.len()
                    invariant
                        i <= items@.len(),
                        out@.len() == i,
                        forall|j: int| 0 <= j < i ==> (#[trigger] out@[j])@ == items@[j]@,
                    decreases items@.len() - i,
                {
                    proof {
                        assert(decreases_to!(*self => *items));
                        assert(decreases_to!(*items => items@));
                        assert(decreases_to!(items@ => items@[i as int]));
                    }
                    out.push(items[i].copy());
                    i = i + 1;
                }
                proof {
                    lemma_view_items(out@);
                    lemma_view_items(items@);
                    assert(view_items(out@) =~= view_items(items@));
                }
                Json::Array(out)
            },
            Json::Object(members) => {
                let mut out: Vec<(String, Json)> = Vec::new();
                let mut i: usize = 0;
                while i < members.len()
                    invariant
                        i <= members@.len(),
                        out@.len() == i,
                        forall|j: int|
                            0 <= j < i ==> (#[trigger] out@[j]).0@ == members@[j].0@ && out@[j].1@
                                == members@[j].1@,
                    decreases members@.len() - i,
                {
                    proof {
                        assert(decreases_to!(*self => *members));
                        assert(decreases_to!(*members => members@));
                        assert(decreases_to!(members@ => members@[i as int]));
                        assert(decreases_to!(members@[i as int] => members@[i as int].1));
                    }
                    out.push((members[i].0.clone(), members[i].1.copy()));
                    i = i + 1;
                }
                proof {
                    lemma_view_members(out@);
                    lemma_view_members(members@);
                    assert(view_members(out@) =~= view_members(members@));
                }
                Json::Object(out)
            },
        }
    }
}

/// A string document.
pub fn text_value(s: &str) -> (res: Json)
    ensures
        res@ == JsonV::Str(s@),
{
    Json::Str(s.to_owned())
}

/// Appends the member `key: v` to an object's members.
pub fn push_member(members: &mut Vec<(String, Json)>, key: &str, v: Json)
    ensures
        view_members(final(members)@) == view_members(old(members)@).push((key@, v@)),
{
    let ghost before = members@;
    members.push((key.to_owned(), v));
    assert(members@.drop_last() == before);
}

/// Appends an element to an array's items.
pub fn push_item(items: &mut Vec<Json>, v: Json)
    ensures
        view_items(final(items)@) == view_items(old(items)@).push(v@),
{
    let ghost before = items@;
    items.push(v);
    assert(items@.drop_last() == before);
}

impl Json {
    /// `Value::as_u64`.
    #[verifier::loop_isolation(false)]
    pub fn as_u64(&self) -> (res: Option<u64>)
        ensures
            match res {
                Some(n) => self@.as_u64() == Some(n as nat),
                None => self@.as_u64() is None,
            },
    {
        match self {
            Json::Number(t) => {
                let c = to_chars(t.as_str());
                if c.len() == 0 {
                    return None;
                }
                let mut i: usize = 0;
                while i < c.len()
                    invariant
                        i <= c@.len(),
                        forall|j: int| 0 <= j < i ==> is_digit(#[trigger] c@[j]),
                    decreases c@.len() - i,
                {
                    if !('0' <= c[i] && c[i] <= '9') {
                        return None;
                    }
                    i = i + 1;
                }
                assert(c@.subrange(0, c@.len() as int) == c@);
                parse_digits(&c, 0, c.len(), u64::MAX)
            },
            _ => None,
        }
    }
}

// ---------------------------------------------------------------------------
// Reading JSON text
// ---------------------------------------------------------------------------

#[verifier::external_type_specification]
#[verifier::external_body]
pub struct ExJsonValue(serde_json::Value);

/// What `serde_json::from_slice::<serde_json::Value>` reads from `bytes`,
/// taken as a document, or the parser's message. It depends on the bytes
/// alone; the grammar is serde_json's and is not written out here.
pub uninterp spec fn json_of(bytes: Seq<u8>) -> Result<JsonV, Seq<char>>;

/// A `serde_json::Value` as a document, variant for variant: numbers keep
/// serde_json's text for them, object members come in serde_json's order.
#[verifier::external_body]
fn json_from_value(v: serde_json::Value) -> Json {
    match v {
        serde_json::Value::Null => Json::Null,
        serde_json::Value::Bool(b) => Json::Bool(b),
        serde_json::Value::Number(n) => Json::Number(n.to_string()),
        serde_json::Value::String(t) => Json::Str(t),
        serde_json::Value::Array(a) => Json::Array(a.into_iter().map(json_from_value).collect()),
        serde_json::Value::Object(m) => Json::Object(
            m.into_iter().map(|(k, x)| (k, json_from_value(x))).collect(),
        ),
    }
}

/// `serde_json::from_slice::<serde_json::Value>`: the document `bytes`
/// hold, or the parser's message; the contract names the outcome
/// `json_of` of the bytes.
#[verifier::external_body]
pub(crate) fn parse_json(bytes: &[u8]) -> (res: Result<Json, String>)
    ensures
        match res {
            Ok(v) => json_of(bytes@) == Ok::<JsonV, Seq<char>>(v@),
            Err(e) => json_of(bytes@) == Err::<JsonV, Seq<char>>(e@),
        },
{
    serde_json::from_slice::<serde_json::Value>(bytes).map(json_from_value).map_err(|e| e.to_string())
}

/// The document a text holds, if it holds one.
pub open spec fn text_json(t: Seq<char>) -> Option<JsonV> {
    match json_of(vstd::utf8::encode_utf8(t)) {
        Ok(v) => Some(v),
        Err(_) => None,
    }
}

/// The document a text holds, if it holds one.
pub fn parse_text(t: &str) -> (res: Option<Json>)
    ensures
        match res {
            Some(v) => text_json(t@) == Some(v@),
            None => text_json(t@) is None,
        },
{
    match parse_json(t.as_bytes()) {
        Ok(v) => Some(v),
        Err(_) => None,
    }
}

} // verus!
