//! Header ordering: from the caller's ordered headers, the body's metadata and
//! the effective cookies, the exact sequence of headers a browser would put on
//! the wire, and the order descriptor handed to the transport.
use vstd::prelude::*;

use crate::cookies::{cookie_pair, cookie_pair_list, cookies_joined, join_cookies};
use crate::header_map::{index_map_entries, index_map_entry_list, Entry, IndexMapSSR};

verus! {

/// What `str::to_lowercase` makes of a string.
pub uninterp spec fn lower_of(s: Seq<char>) -> Seq<char>;

/// What `str::trim` makes of a string.
pub uninterp spec fn trim_of(s: Seq<char>) -> Seq<char>;

/// Relies on `str::to_lowercase`: the Unicode lowercase mapping of the
/// characters, a function of them alone.
#[verifier::external_body]
pub(crate) fn lowercase(s: &str) -> (r: String)
    ensures
        r@ == lower_of(s@),
{
    s.to_lowercase()
}

/// Relies on `str::trim`: the text without leading and trailing white
/// space, a function of the characters alone; an empty text stays empty.
#[verifier::external_body]
fn trimmed(s: &str) -> (r: String)
    ensures
        r@ == trim_of(s@),
        s@.len() == 0 ==> r@.len() == 0,
{
    s.trim().to_string()
}

/// What is known of the request body when headers are ordered.
#[derive(Clone, Copy, Debug, PartialEq, Eq, Structural)]
pub enum BodyShape {
    /// No body is sent.
    Absent,
    /// A body of this many bytes.
    Sized(usize),
    /// A multipart form, whose length is known only once it is serialised.
    Multipart,
}

/// A header set or appended after the header map, in order.
pub struct ExtraHeader {
    pub name: String,
    pub value: String,
    /// Appended beside any header of the same name, rather than replacing it.
    pub append: bool,
}

/// The headers of one request, as they are to be handed to the transport.
pub struct HeaderPlan {
    /// The header map, in order.
    pub headers: Vec<(String, String)>,
    /// The literal on-wire order of the header names, where one is imposed.
    pub wire_order: Option<Vec<String>>,
    /// Headers applied after the map, in order.
    pub extra: Vec<ExtraHeader>,
}

pub type Extra = (Seq<char>, Seq<char>, bool);

pub type PlanView = (Seq<Entry>, Option<Seq<Seq<char>>>, Seq<Extra>);

impl View for HeaderPlan {
    type V = PlanView;

    open spec fn view(&self) -> PlanView {
        (
            self.headers.deep_view(),
            match self.wire_order {
                Some(w) => Some(w.deep_view()),
                None => None,
            },
            self.extra@.map_values(|x: ExtraHeader| (x.name@, x.value@, x.append)),
        )
    }
}

/// The header name `k` is `name` once lowercased.
pub open spec fn named(k: Seq<char>, name: Seq<char>) -> bool {
    lower_of(k) == name
}

/// The value stored under exactly the key `k`.
pub open spec fn value_under(s: Seq<Entry>, k: Seq<char>) -> Option<Seq<char>>
    decreases s.len(),
{
    if s.len() == 0 {
        None
    } else if s[s.len() - 1].0 == k {
        Some(s[s.len() - 1].1)
    } else {
        value_under(s.drop_last(), k)
    }
}

/// The `Host` value, looked up as `Host`, then `host`, then `HOST`.
pub open spec fn host_value(s: Seq<Entry>) -> Option<Seq<char>> {
    match value_under(s, "Host"@) {
        Some(v) => Some(v),
        None => match value_under(s, "host"@) {
            Some(v) => Some(v),
            None => value_under(s, "HOST"@),
        },
    }
}

/// The last entry whose name is `name` once lowercased.
pub open spec fn last_named(s: Seq<Entry>, name: Seq<char>) -> Option<Entry>
    decreases s.len(),
{
    if s.len() == 0 {
        None
    } else if named(s[s.len() - 1].0, name) {
        Some(s[s.len() - 1])
    } else {
        last_named(s.drop_last(), name)
    }
}

/// Some entry's name is `name` once lowercased.
pub open spec fn any_named(s: Seq<Entry>, name: Seq<char>) -> bool {
    exists|i: int| 0 <= i < s.len() && named(#[trigger] s[i].0, name)
}

/// Headers placed apart from the bulk copy: `host` and `content-length` are
/// placed (or dropped) up front, `priority` and `cookie` are deferred.
pub open spec fn set_apart(k: Seq<char>) -> bool {
    named(k, "host"@) || named(k, "content-length"@) || named(k, "priority"@) || named(
        k,
        "cookie"@,
    )
}

/// The bulk copy: every entry not set apart, in the caller's order.
pub open spec fn bulk(s: Seq<Entry>) -> Seq<Entry>
    decreases s.len(),
{
    if s.len() == 0 {
        Seq::empty()
    } else {
        let p = bulk(s.drop_last());
        if set_apart(s[s.len() - 1].0) {
            p
        } else {
            p.push(s[s.len() - 1])
        }
    }
}

pub open spec fn digit_char(d: nat) -> char {
    if d == 0 {
        '0'
    } else if d == 1 {
        '1'
    } else if d == 2 {
        '2'
    } else if d == 3 {
        '3'
    } else if d == 4 {
        '4'
    } else if d == 5 {
        '5'
    } else if d == 6 {
        '6'
    } else if d == 7 {
        '7'
    } else if d == 8 {
        '8'
    } else {
        '9'
    }
}

/// The decimal digits of `n`.
pub open spec fn decimal(n: nat) -> Seq<char>
    decreases n,
{
    if n < 10 {
        seq![digit_char(n)]
    } else {
        decimal(n / 10).push(digit_char(n % 10))
    }
}

/// `Host`, `Content-Length` and `Content-Type`, as far as each is present.
pub open spec fn lead(s: Seq<Entry>, body: BodyShape, content_type: Option<Seq<char>>) -> Seq<
    Entry,
> {
    (match host_value(s) {
        Some(h) => seq![("Host"@, h)],
        None => Seq::empty(),
    }) + (match body {
        BodyShape::Sized(n) => seq![("Content-Length"@, decimal(n as nat))],
        BodyShape::Multipart => seq![("Content-Length"@, "0"@)],
        BodyShape::Absent => Seq::empty(),
    }) + (match content_type {
        Some(c) => if any_named(s, "content-type"@) {
            Seq::empty()
        } else {
            seq![("Content-Type"@, c)]
        },
        None => Seq::empty(),
    })
}

/// The fields of `v` between semicolons, as `str::split(';')` yields them.
pub open spec fn semicolon_fields(v: Seq<char>) -> Seq<Seq<char>>
    decreases v.len(),
{
    if v.len() == 0 {
        seq![Seq::empty()]
    } else {
        let f = semicolon_fields(v.drop_last());
        if v[v.len() - 1] == ';' {
            f.push(Seq::empty())
        } else {
            f.update(f.len() - 1, f[f.len() - 1].push(v[v.len() - 1]))
        }
    }
}

/// The trimmed fields that are not empty, in order.
pub open spec fn nonempty_trimmed(f: Seq<Seq<char>>) -> Seq<Seq<char>>
    decreases f.len(),
{
    if f.len() == 0 {
        Seq::empty()
    } else {
        let p = nonempty_trimmed(f.drop_last());
        let t = trim_of(f[f.len() - 1]);
        if t.len() == 0 {
            p
        } else {
            p.push(t)
        }
    }
}

/// The cookies of a `cookie` header's value, one per `;`-separated part.
pub open spec fn cookie_parts(v: Seq<char>) -> Seq<Seq<char>> {
    nonempty_trimmed(semicolon_fields(v))
}

pub open spec fn names_of(s: Seq<Entry>) -> Seq<Seq<char>> {
    s.map_values(|e: Entry| e.0)
}

pub open spec fn opt_seq<T>(o: Option<T>) -> Seq<T> {
    match o {
        Some(x) => seq![x],
        None => Seq::empty(),
    }
}

/// Merged style: the one `cookie` header, from the effective cookies or
/// else from the caller's own `cookie` header.
pub open spec fn merged_cookie(s: Seq<Entry>, cookies: Option<Seq<Entry>>) -> Seq<Entry> {
    match cookies {
        Some(c) => if c.len() > 0 {
            seq![("cookie"@, cookies_joined(c))]
        } else {
            Seq::empty()
        },
        None => opt_seq(last_named(s, "cookie"@)),
    }
}

/// Split style: the value of each `cookie` header, in order.
pub open spec fn split_cookie_values(s: Seq<Entry>, cookies: Option<Seq<Entry>>) -> Seq<Seq<char>> {
    match cookies {
        Some(c) => c.map_values(|e: Entry| cookie_pair(e)),
        None => match last_named(s, "cookie"@) {
            Some(e) => cookie_parts(e.1),
            None => Seq::empty(),
        },
    }
}

/// The index of the last entry whose name is `name` once lowercased, or -1.
pub open spec fn last_named_at(s: Seq<Entry>, name: Seq<char>) -> int
    decreases s.len(),
{
    if s.len() == 0 {
        -1
    } else if named(s[s.len() - 1].0, name) {
        s.len() - 1
    } else {
        last_named_at(s.drop_last(), name)
    }
}

/// The bulk copy with the entries `c` placed where the entry at index `j`
/// stood.
pub open spec fn bulk_with(s: Seq<Entry>, j: int, c: Seq<Entry>) -> Seq<Entry>
    decreases s.len(),
{
    if s.len() == 0 {
        Seq::empty()
    } else {
        let p = bulk_with(s.drop_last(), j, c);
        let q = if s.len() - 1 == j {
            p + c
        } else {
            p
        };
        if set_apart(s[s.len() - 1].0) {
            q
        } else {
            q.push(s[s.len() - 1])
        }
    }
}

/// Merged style: the copied headers with the cookie header where the
/// caller's own `cookie` header stood, or after them where there was none.
pub open spec fn merged_body(s: Seq<Entry>, cookies: Option<Seq<Entry>>) -> Seq<Entry> {
    let j = last_named_at(s, "cookie"@);
    let c = merged_cookie(s, cookies);
    if j < 0 {
        bulk(s) + c
    } else {
        bulk_with(s, j, c)
    }
}

/// The plan for ordered headers `s`.
pub open spec fn ordered_plan(
    s: Seq<Entry>,
    body: BodyShape,
    content_type: Option<Seq<char>>,
    cookies: Option<Seq<Entry>>,
    split: bool,
) -> PlanView {
    let front = lead(s, body, content_type) + bulk(s);
    let priority = opt_seq(last_named(s, "priority"@));
    if split {
        let values = split_cookie_values(s, cookies);
        (
            front,
            Some(names_of(front) + values.map_values(|v: Seq<char>| "cookie"@) + names_of(priority)),
            values.map_values(|v: Seq<char>| ("cookie"@, v, true)) + priority.map_values(
                |e: Entry| (e.0, e.1, true),
            ),
        )
    } else {
        let all = lead(s, body, content_type) + merged_body(s, cookies) + priority;
        (all, Some(names_of(all)), Seq::empty())
    }
}

/// Cookies sent beside unordered headers: one `Cookie` header in merged
/// style, one appended `cookie` header per pair in split style.
pub open spec fn unordered_cookies(cookies: Option<Seq<Entry>>, split: bool) -> Seq<Extra> {
    match cookies {
        Some(c) => if c.len() == 0 {
            Seq::empty()
        } else if split {
            c.map_values(|e: Entry| ("cookie"@, cookie_pair(e), true))
        } else {
            seq![("Cookie"@, cookies_joined(c), false)]
        },
        None => Seq::empty(),
    }
}

/// The plan where no ordered headers are given: the request's own headers
/// (if any) as they are, and the cookies after them.
pub open spec fn unordered_plan(
    headers: Option<Seq<Entry>>,
    cookies: Option<Seq<Entry>>,
    split: bool,
) -> PlanView {
    (
        match headers {
            Some(h) => h,
            None => Seq::empty(),
        },
        None,
        unordered_cookies(cookies, split),
    )
}

pub open spec fn opt_entries(m: Option<IndexMapSSR>) -> Option<Seq<Entry>> {
    match m {
        Some(x) => Some(index_map_entries(x)),
        None => None,
    }
}

pub open spec fn opt_view(s: Option<String>) -> Option<Seq<char>> {
    match s {
        Some(x) => Some(x@),
        None => None,
    }
}

/// The plan of a request: request-level ordered headers, else client-level
/// ones, else the request's unordered headers.
pub open spec fn request_plan(
    request_ordered: Option<Seq<Entry>>,
    client_ordered: Option<Seq<Entry>>,
    headers: Option<Seq<Entry>>,
    body: BodyShape,
    content_type: Option<Seq<char>>,
    cookies: Option<Seq<Entry>>,
    split: bool,
) -> PlanView {
    match request_ordered {
        Some(s) => ordered_plan(s, body, content_type, cookies, split),
        None => match client_ordered {
            Some(s) => ordered_plan(s, body, content_type, cookies, split),
            None => unordered_plan(headers, cookies, split),
        },
    }
}

/// The two names are equal once lowercased.
pub(crate) fn same_name(a: &String, b: &String) -> (r: bool)
    ensures
        r == (lower_of(a@) == lower_of(b@)),
{
    let x = lowercase(a.as_str());
    let y = lowercase(b.as_str());
    x == y
}

/// `lower_of(k) == name`.
fn is_named(k: &String, name: &str) -> (r: bool)
    ensures
        r == named(k@, name@),
{
    let l = lowercase(k.as_str());
    let n = String::from_str(name);
    l == n
}

fn find_value(s: &Vec<(String, String)>, k: &str) -> (r: Option<String>)
    ensures
        opt_view(r) == value_under(s.deep_view(), k@),
{
    let key = String::from_str(k);
    let mut found: Option<String> = None;
    let mut i: usize = 0;
    while i < s.len()
        invariant
            0 <= i <= s.len(),
            key@ == k@,
            opt_view(found) == value_under(s.deep_view().take(i as int), k@),
        decreases s.len() - i,
    {
        proof {
            assert(s.deep_view().take(i as int + 1).drop_last() =~= s.deep_view().take(i as int));
        }
        if s[i].0 == key {
            found = Some(s[i].1.clone());
        }
        i = i + 1;
    }
    proof {
        assert(s.deep_view().take(s.len() as int) =~= s.deep_view());
    }
    found
}

fn find_host(s: &Vec<(String, String)>) -> (r: Option<String>)
    ensures
        opt_view(r) == host_value(s.deep_view()),
{
    match find_value(s, "Host") {
        Some(v) => Some(v),
        None => match find_value(s, "host") {
            Some(v) => Some(v),
            None => find_value(s, "HOST"),
        },
    }
}

fn find_last_named(s: &Vec<(String, String)>, name: &str) -> (r: Option<(String, String)>)
    ensures
        match r {
            Some(e) => last_named(s.deep_view(), name@) == Some((e.0@, e.1@)),
            None => last_named(s.deep_view(), name@).is_none(),
        },
{
    let mut found: Option<(String, String)> = None;
    let mut i: usize = 0;
    while i < s.len()
        invariant
            0 <= i <= s.len(),
            match found {
                Some(e) => last_named(s.deep_view().take(i as int), name@) == Some((e.0@, e.1@)),
                None => last_named(s.deep_view().take(i as int), name@).is_none(),
            },
        decreases s.len() - i,
    {
        proof {
            assert(s.deep_view().take(i as int + 1).drop_last() =~= s.deep_view().take(i as int));
        }
        if is_named(&s[i].0, name) {
            found = Some((s[i].0.clone(), s[i].1.clone()));
        }
        i = i + 1;
    }
    proof {
        assert(s.deep_view().take(s.len() as int) =~= s.deep_view());
    }
    found
}

fn has_named(s: &Vec<(String, String)>, name: &str) -> (r: bool)
    ensures
        r == any_named(s.deep_view(), name@),
{
    let mut i: usize = 0;
    while i < s.len()
        invariant
            0 <= i <= s.len(),
            forall|j: int| 0 <= j < i ==> !named(#[trigger] s.deep_view()[j].0, name@),
        decreases s.len() - i,
    {
        if is_named(&s[i].0, name) {
            assert(named(s.deep_view()[i as int].0, name@));
            return true;
        }
        i = i + 1;
    }
    false
}

fn is_set_apart(k: &String) -> (r: bool)
    ensures
        r == set_apart(k@),
{
    is_named(k, "host") || is_named(k, "content-length") || is_named(k, "priority") || is_named(
        k,
        "cookie",
    )
}

/// Appends the bulk copy of `s` to `out`.
fn push_bulk(out: &mut Vec<(String, String)>, s: &Vec<(String, String)>)
    ensures
        final(out).deep_view() == old(out).deep_view() + bulk(s.deep_view()),
{
    let ghost start = out.deep_view();
    let mut i: usize = 0;
    while i < s.len()
        invariant
            0 <= i <= s.len(),
            out.deep_view() == start + bulk(s.deep_view().take(i as int)),
        decreases s.len() - i,
    {
        proof {
            assert(s.deep_view().take(i as int + 1).drop_last() =~= s.deep_view().take(i as int));
        }
        if !is_set_apart(&s[i].0) {
            let ghost before = out.deep_view();
            out.push((s[i].0.clone(), s[i].1.clone()));
            proof {
                assert(out.deep_view() =~= before.push(s.deep_view()[i as int]));
                assert(out.deep_view() =~= start + bulk(s.deep_view().take(i as int + 1)));
            }
        }
        i = i + 1;
    }
    proof {
        assert(s.deep_view().take(s.len() as int) =~= s.deep_view());
    }
}

fn find_last_named_at(s: &Vec<(String, String)>, name: &str) -> (r: Option<usize>)
    ensures
        match r {
            Some(j) => last_named_at(s.deep_view(), name@) == j as int,
            None => last_named_at(s.deep_view(), name@) == -1,
        },
{
    let mut found: Option<usize> = None;
    let mut i: usize = 0;
    while i < s.len()
        invariant
            0 <= i <= s.len(),
            match found {
                Some(j) => last_named_at(s.deep_view().take(i as int), name@) == j as int,
                None => last_named_at(s.deep_view().take(i as int), name@) == -1,
            },
        decreases s.len() - i,
    {
        proof {
            assert(s.deep_view().take(i as int + 1).drop_last() =~= s.deep_view().take(i as int));
        }
        if is_named(&s[i].0, name) {
            found = Some(i);
        }
        i = i + 1;
    }
    proof {
        assert(s.deep_view().take(s.len() as int) =~= s.deep_view());
    }
    found
}

/// Appends the bulk copy of `s` to `out`, with `c` where index `j` stood.
fn push_bulk_with(
    out: &mut Vec<(String, String)>,
    s: &Vec<(String, String)>,
    j: usize,
    c: &Vec<(String, String)>,
)
    ensures
        final(out).deep_view() == old(out).deep_view() + bulk_with(s.deep_view(), j as int, c.deep_view()),
{
    let ghost start = out.deep_view();
    let mut i: usize = 0;
    while i < s.len()
        invariant
            0 <= i <= s.len(),
            out.deep_view() == start + bulk_with(s.deep_view().take(i as int), j as int, c.deep_view()),
        decreases s.len() - i,
    {
        let ghost t = s.deep_view().take(i as int + 1);
        proof {
            assert(t.drop_last() =~= s.deep_view().take(i as int));
        }
        let ghost p = out.deep_view();
        if i == j {
            append_entries(out, c);
        }
        let ghost q = out.deep_view();
        proof {
            assert(q == p + (if t.len() - 1 == j as int { c.deep_view() } else { Seq::<Entry>::empty() }));
            assert(q =~= start + (if t.len() - 1 == j as int {
                bulk_with(t.drop_last(), j as int, c.deep_view()) + c.deep_view()
            } else {
                bulk_with(t.drop_last(), j as int, c.deep_view())
            }));
        }
        if !is_set_apart(&s[i].0) {
            out.push((s[i].0.clone(), s[i].1.clone()));
            proof {
                assert(out.deep_view() =~= q.push(s.deep_view()[i as int]));
            }
        }
        proof {
            assert(out.deep_view() =~= start + bulk_with(t, j as int, c.deep_view()));
        }
        i = i + 1;
    }
    proof {
        assert(s.deep_view().take(s.len() as int) =~= s.deep_view());
    }
}

fn digit_text(d: usize) -> (r: &'static str)
    requires
        d < 10,
    ensures
        r@ == seq![digit_char(d as nat)],
{
    proof {
        reveal_strlit("0");
        reveal_strlit("1");
        reveal_strlit("2");
        reveal_strlit("3");
        reveal_strlit("4");
        reveal_strlit("5");
        reveal_strlit("6");
        reveal_strlit("7");
        reveal_strlit("8");
        reveal_strlit("9");
    }
    if d == 0 {
        "0"
    } else if d == 1 {
        "1"
    } else if d == 2 {
        "2"
    } else if d == 3 {
        "3"
    } else if d == 4 {
        "4"
    } else if d == 5 {
        "5"
    } else if d == 6 {
        "6"
    } else if d == 7 {
        "7"
    } else if d == 8 {
        "8"
    } else {
        "9"
    }
}

/// The decimal text of `n`, as `usize::to_string` writes it.
pub fn decimal_text(n: usize) -> (r: String)
    ensures
        r@ == decimal(n as nat),
    decreases n,
{
    if n < 10 {
        String::from_str(digit_text(n))
    } else {
        let mut s = decimal_text(n / 10);
        s.append(digit_text(n % 10));
        assert(s@ =~= decimal((n / 10) as nat).push(digit_char((n % 10) as nat)));
        s
    }
}

/// The non-empty trimmed parts of a `cookie` header value split at `;`.
pub fn split_cookie_header(v: &String) -> (r: Vec<String>)
    ensures
        r.deep_view() == cookie_parts(v@),
{
    let text = v.as_str();
    let n = text.unicode_len();
    let mut parts: Vec<String> = Vec::new();
    let ghost mut done: Seq<Seq<char>> = Seq::empty();
    let mut start: usize = 0;
    let mut i: usize = 0;
    proof {
        assert(text@.take(0) =~= Seq::<char>::empty());
        assert(text@.subrange(0, 0) =~= Seq::<char>::empty());
        assert(semicolon_fields(Seq::<char>::empty()) =~= done.push(Seq::<char>::empty()));
    }
    while i < n
        invariant
            n == text@.len(),
            text@ == v@,
            0 <= start <= i <= n,
            semicolon_fields(text@.take(i as int)) == done.push(text@.subrange(start as int, i as int)),
            parts.deep_view() == nonempty_trimmed(done),
        decreases n - i,
    {
        let c = text.get_char(i);
        proof {
            let t = text@.take(i as int + 1);
            assert(t.drop_last() =~= text@.take(i as int));
            assert(t[t.len() - 1] == c);
        }
        if c == ';' {
            let field = text.substring_char(start, i);
            let t = trimmed(field);
            let ghost old_done = done;
            if t.unicode_len() > 0 {
                parts.push(t);
            }
            proof {
                done = old_done.push(field@);
                assert(done.drop_last() =~= old_done);
                assert(text@.subrange(i as int + 1, i as int + 1) =~= Seq::<char>::empty());
            }
            start = i + 1;
        } else {
            proof {
                assert(text@.subrange(start as int, i as int + 1) =~= text@.subrange(
                    start as int,
                    i as int,
                ).push(c));
                assert(done.push(text@.subrange(start as int, i as int)).update(
                    done.len() as int,
                    text@.subrange(start as int, i as int + 1),
                ) =~= done.push(text@.subrange(start as int, i as int + 1)));
            }
        }
        i = i + 1;
    }
    let field = text.substring_char(start, n);
    let t = trimmed(field);
    let ghost old_done = done;
    if t.unicode_len() > 0 {
        parts.push(t);
    }
    proof {
        done = old_done.push(field@);
        assert(done.drop_last() =~= old_done);
        assert(text@.take(n as int) =~= text@);
    }
    parts
}

fn names_vec(s: &Vec<(String, String)>) -> (r: Vec<String>)
    ensures
        r.deep_view() == names_of(s.deep_view()),
{
    let mut out: Vec<String> = Vec::new();
    let mut i: usize = 0;
    while i < s.len()
        invariant
            0 <= i <= s.len(),
            out.deep_view() == names_of(s.deep_view().take(i as int)),
        decreases s.len() - i,
    {
        let ghost before = out.deep_view();
        out.push(s[i].0.clone());
        proof {
            assert(s.deep_view()[i as int].0 == s[i as int].0@);
            assert(out.deep_view() =~= before.push(s[i as int].0@));
            assert(s.deep_view().take(i as int + 1) =~= s.deep_view().take(i as int).push(
                s.deep_view()[i as int],
            ));
            assert(out.deep_view() =~= names_of(s.deep_view().take(i as int + 1)));
        }
        i = i + 1;
    }
    proof {
        assert(s.deep_view().take(s.len() as int) =~= s.deep_view());
    }
    out
}

fn lead_vec(s: &Vec<(String, String)>, body: BodyShape, content_type: &Option<String>) -> (r: Vec<
    (String, String),
>)
    ensures
        r.deep_view() == lead(s.deep_view(), body, opt_view(*content_type)),
{
    let mut front: Vec<(String, String)> = Vec::new();
    match find_host(s) {
        Some(h) => front.push((String::from_str("Host"), h)),
        None => {},
    }
    match body {
        BodyShape::Sized(n) => front.push((String::from_str("Content-Length"), decimal_text(n))),
        BodyShape::Multipart => front.push(
            (String::from_str("Content-Length"), String::from_str("0")),
        ),
        BodyShape::Absent => {},
    }
    match content_type {
        Some(c) => {
            if !has_named(s, "content-type") {
                front.push((String::from_str("Content-Type"), c.clone()));
            }
        },
        None => {},
    }
    proof {
        assert(front.deep_view() =~= lead(s.deep_view(), body, opt_view(*content_type)));
    }
    front
}

pub open spec fn opt_pair_view(o: Option<(String, String)>) -> Option<Entry> {
    match o {
        Some(p) => Some((p.0@, p.1@)),
        None => None,
    }
}

pub open spec fn opt_cookies(c: Option<Vec<(String, String)>>) -> Option<Seq<Entry>> {
    match c {
        Some(c) => Some(c.deep_view()),
        None => None,
    }
}

pub open spec fn extras_view(v: Seq<ExtraHeader>) -> Seq<Extra> {
    v.map_values(|x: ExtraHeader| (x.name@, x.value@, x.append))
}

fn split_values(s: &Vec<(String, String)>, cookies: &Option<Vec<(String, String)>>) -> (r: Vec<
    String,
>)
    ensures
        r.deep_view() == split_cookie_values(s.deep_view(), opt_cookies(*cookies)),
{
    match cookies {
        Some(c) => {
            let v = cookie_pair_list(c);
            assert(v.deep_view() =~= c.deep_view().map_values(|e: Entry| cookie_pair(e)));
            v
        },
        None => match find_last_named(s, "cookie") {
            Some(e) => split_cookie_header(&e.1),
            None => {
                let v: Vec<String> = Vec::new();
                assert(v.deep_view() =~= Seq::<Seq<char>>::empty());
                v
            },
        },
    }
}

/// Split style: the wire order after `names`, and the appended headers.
fn split_tail(names: Vec<String>, values: &Vec<String>, priority: Option<(String, String)>) -> (r: (
    Vec<String>,
    Vec<ExtraHeader>,
))
    ensures
        r.0.deep_view() == names.deep_view() + values.deep_view().map_values(
            |v: Seq<char>| "cookie"@,
        ) + names_of(
            opt_seq(
                opt_pair_view(priority),
            ),
        ),
        extras_view(r.1@) == values.deep_view().map_values(|v: Seq<char>| ("cookie"@, v, true))
            + opt_seq(
            opt_pair_view(priority),
        ).map_values(|e: Entry| (e.0, e.1, true)),
{
    let ghost vv = values.deep_view();
    let ghost wire0 = names.deep_view();
    let mut wire = names;
    let mut extra: Vec<ExtraHeader> = Vec::new();
    let mut i: usize = 0;
    while i < values.len()
        invariant
            0 <= i <= values.len(),
            values.deep_view() == vv,
            extra.len() == i,
            wire.deep_view() == wire0 + vv.take(i as int).map_values(|v: Seq<char>| "cookie"@),
            extras_view(extra@) == vv.take(i as int).map_values(
                |v: Seq<char>| ("cookie"@, v, true),
            ),
        decreases values.len() - i,
    {
        let ghost w0 = wire.deep_view();
        let ghost e0 = extra@;
        wire.push(String::from_str("cookie"));
        extra.push(
            ExtraHeader { name: String::from_str("cookie"), value: values[i].clone(), append: true },
        );
        proof {
            assert(wire.deep_view() =~= w0.push("cookie"@));
            assert(vv.take(i as int + 1) =~= vv.take(i as int).push(vv[i as int]));
            assert(wire.deep_view() =~= wire0 + vv.take(i as int + 1).map_values(
                |v: Seq<char>| "cookie"@,
            ));
            assert(extra@ =~= e0.push(extra@[i as int]));
            assert(values.deep_view()[i as int] == values[i as int]@);
            assert(extra@[i as int].value@ == vv[i as int]);
            assert(extras_view(extra@) =~= extras_view(e0).push(("cookie"@, vv[i as int], true)));
            assert(vv.take(i as int + 1).map_values(|v: Seq<char>| ("cookie"@, v, true))
                =~= vv.take(i as int).map_values(|v: Seq<char>| ("cookie"@, v, true)).push(
                ("cookie"@, vv[i as int], true),
            ));
        }
        i = i + 1;
    }
    proof {
        assert(vv.take(values.len() as int) =~= vv);
    }
    let ghost w1 = wire.deep_view();
    let ghost e1 = extra@;
    let ghost pv = opt_seq(
        opt_pair_view(priority),
    );
    match priority {
        Some(p) => {
            wire.push(p.0.clone());
            extra.push(ExtraHeader { name: p.0, value: p.1, append: true });
        },
        None => {},
    }
    proof {
        assert(wire.deep_view() =~= w1 + names_of(pv));
        assert(extras_view(extra@) =~= extras_view(e1) + pv.map_values(
            |e: Entry| (e.0, e.1, true),
        ));
    }
    (wire, extra)
}

fn merged_cookie_vec(s: &Vec<(String, String)>, cookies: &Option<Vec<(String, String)>>) -> (r: Vec<
    (String, String),
>)
    ensures
        r.deep_view() == merged_cookie(s.deep_view(), opt_cookies(*cookies)),
{
    let mut out: Vec<(String, String)> = Vec::new();
    match cookies {
        Some(c) => {
            if c.len() > 0 {
                out.push((String::from_str("cookie"), join_cookies(c)));
            }
        },
        None => match find_last_named(s, "cookie") {
            Some(e) => out.push(e),
            None => {},
        },
    }
    proof {
        assert(out.deep_view() =~= merged_cookie(s.deep_view(), opt_cookies(*cookies)));
    }
    out
}

fn append_entries(out: &mut Vec<(String, String)>, more: &Vec<(String, String)>)
    ensures
        final(out).deep_view() == old(out).deep_view() + more.deep_view(),
{
    let ghost start = out.deep_view();
    let mut i: usize = 0;
    while i < more.len()
        invariant
            0 <= i <= more.len(),
            out.deep_view() == start + more.deep_view().take(i as int),
        decreases more.len() - i,
    {
        let ghost before = out.deep_view();
        out.push((more[i].0.clone(), more[i].1.clone()));
        proof {
            assert(out.deep_view() =~= before.push(more.deep_view()[i as int]));
            assert(more.deep_view().take(i as int + 1) =~= more.deep_view().take(i as int).push(
                more.deep_view()[i as int],
            ));
            assert(out.deep_view() =~= start + more.deep_view().take(i as int + 1));
        }
        i = i + 1;
    }
    proof {
        assert(more.deep_view().take(more.len() as int) =~= more.deep_view());
    }
}

fn opt_entry_vec(e: Option<(String, String)>) -> (r: Vec<(String, String)>)
    ensures
        r.deep_view() == opt_seq(
            opt_pair_view(e),
        ),
{
    let ghost ev = opt_seq(
        opt_pair_view(e),
    );
    let mut out: Vec<(String, String)> = Vec::new();
    match e {
        Some(p) => out.push(p),
        None => {},
    }
    proof {
        assert(out.deep_view() =~= ev);
    }
    out
}

/// Orders headers as a browser does: `Host`, `Content-Length`, the inferred
/// `Content-Type`, the caller's other headers in order, the cookies, and
/// `priority` last.
pub fn plan_ordered(
    s: &Vec<(String, String)>,
    body: BodyShape,
    content_type: &Option<String>,
    cookies: &Option<Vec<(String, String)>>,
    split: bool,
) -> (r: HeaderPlan)
    ensures
        r@ == ordered_plan(s.deep_view(), body, opt_view(*content_type), opt_cookies(*cookies), split),
{
    let priority = find_last_named(s, "priority");
    if split {
        let mut front = lead_vec(s, body, content_type);
        push_bulk(&mut front, s);
        let names = names_vec(&front);
        let values = split_values(s, cookies);
        let (wire, extra) = split_tail(names, &values, priority);
        HeaderPlan { headers: front, wire_order: Some(wire), extra }
    } else {
        let mut all = lead_vec(s, body, content_type);
        let mc = merged_cookie_vec(s, cookies);
        match find_last_named_at(s, "cookie") {
            Some(j) => push_bulk_with(&mut all, s, j, &mc),
            None => {
                push_bulk(&mut all, s);
                append_entries(&mut all, &mc);
            },
        }
        let mut front = all;
        append_entries(&mut front, &opt_entry_vec(priority));
        let wire = names_vec(&front);
        let extra: Vec<ExtraHeader> = Vec::new();
        proof {
            assert(extras_view(extra@) =~= Seq::<Extra>::empty());
        }
        HeaderPlan { headers: front, wire_order: Some(wire), extra }
    }
}

fn unordered_cookie_headers(cookies: &Option<Vec<(String, String)>>, split: bool) -> (r: Vec<
    ExtraHeader,
>)
    ensures
        extras_view(r@) == unordered_cookies(opt_cookies(*cookies), split),
{
    let mut extra: Vec<ExtraHeader> = Vec::new();
    match cookies {
        Some(c) => {
            if c.len() > 0 {
                if split {
                    let mut i: usize = 0;
                    while i < c.len()
                        invariant
                            0 <= i <= c.len(),
                            extra.len() == i,
                            extras_view(extra@) == c.deep_view().take(i as int).map_values(
                                |e: Entry| ("cookie"@, cookie_pair(e), true),
                            ),
                        decreases c.len() - i,
                    {
                        let ghost e0 = extra@;
                        extra.push(
                            ExtraHeader {
                                name: String::from_str("cookie"),
                                value: crate::cookies::cookie_pair_text(&c[i].0, &c[i].1),
                                append: true,
                            },
                        );
                        proof {
                            assert(extra@ =~= e0.push(extra@[i as int]));
                            assert(c.deep_view()[i as int] == (c[i as int].0@, c[i as int].1@));
                            assert(extras_view(extra@) =~= extras_view(e0).push(
                                ("cookie"@, cookie_pair(c.deep_view()[i as int]), true),
                            ));
                            assert(c.deep_view().take(i as int + 1).map_values(
                                |e: Entry| ("cookie"@, cookie_pair(e), true),
                            ) =~= c.deep_view().take(i as int).map_values(
                                |e: Entry| ("cookie"@, cookie_pair(e), true),
                            ).push(("cookie"@, cookie_pair(c.deep_view()[i as int]), true)));
                        }
                        i = i + 1;
                    }
                    proof {
                        assert(c.deep_view().take(c.len() as int) =~= c.deep_view());
                    }
                } else {
                    extra.push(
                        ExtraHeader {
                            name: String::from_str("Cookie"),
                            value: join_cookies(c),
                            append: false,
                        },
                    );
                }
            }
        },
        None => {},
    }
    proof {
        assert(extras_view(extra@) =~= unordered_cookies(opt_cookies(*cookies), split));
    }
    extra
}

/// Headers as given (none where no map is given), with the cookies after
/// them: one `Cookie` header, or one appended `cookie` header per cookie in
/// split style.
pub fn plan_unordered(
    headers: &Option<IndexMapSSR>,
    cookies: &Option<Vec<(String, String)>>,
    split: bool,
) -> (r: HeaderPlan)
    ensures
        r@ == unordered_plan(opt_entries(*headers), opt_cookies(*cookies), split),
{
    let entries: Vec<(String, String)> = match headers {
        Some(h) => index_map_entry_list(h),
        None => Vec::new(),
    };
    proof {
        assert(entries.deep_view() =~= unordered_plan(opt_entries(*headers), opt_cookies(*cookies), split).0);
    }
    let extra = unordered_cookie_headers(cookies, split);
    HeaderPlan { headers: entries, wire_order: None, extra }
}

/// The headers of one request: the request's ordered headers, else the
/// client's, else the request's unordered headers.
pub fn plan_headers(
    request_ordered: &Option<IndexMapSSR>,
    client_ordered: &Option<IndexMapSSR>,
    headers: &Option<IndexMapSSR>,
    body: BodyShape,
    content_type: &Option<String>,
    cookies: &Option<IndexMapSSR>,
    split: bool,
) -> (r: HeaderPlan)
    ensures
        r@ == request_plan(
            opt_entries(*request_ordered),
            opt_entries(*client_ordered),
            opt_entries(*headers),
            body,
            opt_view(*content_type),
            opt_entries(*cookies),
            split,
        ),
{
    let cookie_list: Option<Vec<(String, String)>> = match cookies {
        Some(c) => Some(index_map_entry_list(c)),
        None => None,
    };
    let ordered = match request_ordered {
        Some(s) => Some(s),
        None => match client_ordered {
            Some(s) => Some(s),
            None => None,
        },
    };
    match ordered {
        Some(m) => {
            let s = index_map_entry_list(m);
            plan_ordered(&s, body, content_type, &cookie_list, split)
        },
        None => plan_unordered(headers, &cookie_list, split),
    }
}

proof fn lemma_bulk_set_apart_free(s: Seq<Entry>)
    ensures
        forall|i: int| 0 <= i < bulk(s).len() ==> !set_apart(#[trigger] bulk(s)[i].0),
    decreases s.len(),
{
    if s.len() > 0 {
        lemma_bulk_set_apart_free(s.drop_last());
        let p = bulk(s.drop_last());
        if !set_apart(s[s.len() - 1].0) {
            assert forall|i: int| 0 <= i < bulk(s).len() implies !set_apart(#[trigger] bulk(s)[i].0) by {
                if i < p.len() {
                    assert(bulk(s)[i] == p[i]);
                }
            }
        }
    }
}

proof fn lemma_last_named_is_named(s: Seq<Entry>, name: Seq<char>)
    ensures
        last_named(s, name).is_some() ==> named(last_named(s, name).unwrap().0, name),
    decreases s.len(),
{
    if s.len() > 0 {
        lemma_last_named_is_named(s.drop_last(), name);
    }
}

proof fn lemma_bulk_with_members(s: Seq<Entry>, j: int, c: Seq<Entry>)
    ensures
        forall|i: int|
            0 <= i < bulk_with(s, j, c).len() ==> !set_apart(#[trigger] bulk_with(s, j, c)[i].0)
                || c.contains(bulk_with(s, j, c)[i]),
    decreases s.len(),
{
    if s.len() > 0 {
        lemma_bulk_with_members(s.drop_last(), j, c);
        let p = bulk_with(s.drop_last(), j, c);
        let q = if s.len() - 1 == j {
            p + c
        } else {
            p
        };
        let r = bulk_with(s, j, c);
        assert forall|i: int| 0 <= i < r.len() implies !set_apart(#[trigger] r[i].0) || c.contains(
            r[i],
        ) by {
            if i < p.len() {
                assert(r[i] == p[i]);
            } else if i < q.len() {
                assert(r[i] == c[i - p.len()]);
            }
        }
    }
}

/// Whatever the ordered headers, body and cookies: `Host`, when the caller
/// gave one, is the first header; the computed `Content-Length` comes right
/// after it and the inferred `Content-Type` right after that. Every later
/// header is one of the caller's copied headers (none named `host` or
/// `content-length`), the cookie header, or `priority`.
pub proof fn lemma_lead_order(
    s: Seq<Entry>,
    body: BodyShape,
    content_type: Option<Seq<char>>,
    cookies: Option<Seq<Entry>>,
    split: bool,
)
    ensures
        ({
            let h = ordered_plan(s, body, content_type, cookies, split).0;
            let k: int = if host_value(s).is_some() { 1 } else { 0 };
            let m: int = if body is Absent { k } else { k + 1 };
            let n: int = if content_type.is_some() && !any_named(s, "content-type"@) { m + 1 } else { m };
            &&& host_value(s).is_some() ==> h[0] == ("Host"@, host_value(s).unwrap())
            &&& body is Sized ==> h[k] == ("Content-Length"@, decimal(body->Sized_0 as nat))
            &&& body is Multipart ==> h[k] == ("Content-Length"@, "0"@)
            &&& (content_type.is_some() && !any_named(s, "content-type"@)) ==> h[m] == (
                "Content-Type"@,
                content_type.unwrap(),
            )
            &&& n <= h.len()
            &&& h.subrange(0, n) == lead(s, body, content_type)
            &&& forall|i: int|
                n <= i < h.len() ==> !set_apart(#[trigger] h[i].0) || h[i].0 == "cookie"@ || named(
                    h[i].0,
                    "cookie"@,
                ) || named(h[i].0, "priority"@)
        }),
{
    lemma_bulk_set_apart_free(s);
    lemma_last_named_is_named(s, "cookie"@);
    lemma_last_named_is_named(s, "priority"@);
    let l = lead(s, body, content_type);
    let h = ordered_plan(s, body, content_type, cookies, split).0;
    let pr = opt_seq(last_named(s, "priority"@));
    let mc = merged_cookie(s, cookies);
    let j = last_named_at(s, "cookie"@);
    lemma_bulk_with_members(s, j, mc);
    let rest = if split {
        bulk(s)
    } else {
        merged_body(s, cookies) + pr
    };
    assert(h =~= l + rest);
    assert(h.subrange(0, l.len() as int) =~= l);
    assert forall|i: int| l.len() <= i < h.len() implies !set_apart(#[trigger] h[i].0) || h[i].0
        == "cookie"@ || named(h[i].0, "cookie"@) || named(h[i].0, "priority"@) by {
        let x = h[i];
        assert(x == rest[i - l.len()]);
        if !split {
            let b = if j < 0 {
                bulk(s) + mc
            } else {
                bulk_with(s, j, mc)
            };
            let t = i - l.len();
            if t < b.len() {
                if j < 0 {
                    if t >= bulk(s).len() {
                        assert(x == mc[t - bulk(s).len()]);
                    }
                } else {
                    assert(x == b[t]);
                    if mc.contains(x) {
                        let w = choose|w: int| 0 <= w < mc.len() && mc[w] == x;
                        assert(mc[w] == x);
                    }
                }
            } else {
                assert(x == pr[t - b.len()]);
            }
        }
    }
}

/// Whatever the cookie set, in merged style the cookies make one `cookie`
/// header holding `k1=v1; k2=v2; ...` in the set's order, placed where the
/// caller's own `cookie` header stood (after the caller's headers where it
/// gave none) and before `priority`; in split style each pair is one
/// appended `cookie` header, in the same order, with one `cookie` slot for
/// each in the wire order. Without ordered headers, whether or not a header
/// map `h` is given, merged style adds one `Cookie` header and split style
/// one appended `cookie` header per pair.
pub proof fn lemma_cookie_style(
    s: Seq<Entry>,
    body: BodyShape,
    content_type: Option<Seq<char>>,
    c: Seq<Entry>,
    h: Option<Seq<Entry>>,
)
    requires
        c.len() > 0,
    ensures
        ({
            let merged = ordered_plan(s, body, content_type, Some(c), false);
            let cookie = seq![("cookie"@, cookies_joined(c))];
            let j = last_named_at(s, "cookie"@);
            &&& merged.0 == lead(s, body, content_type) + (if j < 0 {
                bulk(s) + cookie
            } else {
                bulk_with(s, j, cookie)
            }) + opt_seq(last_named(s, "priority"@))
            &&& merged.2.len() == 0
        }),
        ({
            let split = ordered_plan(s, body, content_type, Some(c), true);
            let front = lead(s, body, content_type) + bulk(s);
            &&& split.0 == front
            &&& split.2.len() >= c.len()
            &&& forall|i: int|
                0 <= i < c.len() ==> #[trigger] split.2[i] == ("cookie"@, cookie_pair(c[i]), true)
            &&& split.1 == Some(
                names_of(front) + Seq::new(c.len(), |i: int| "cookie"@) + names_of(
                    opt_seq(last_named(s, "priority"@)),
                ),
            )
        }),
        unordered_plan(h, Some(c), false).2 == seq![("Cookie"@, cookies_joined(c), false)],
        ({
            let x = unordered_plan(h, Some(c), true).2;
            &&& x.len() == c.len()
            &&& forall|i: int| 0 <= i < c.len() ==> #[trigger] x[i] == ("cookie"@, cookie_pair(c[i]), true)
        }),
{
    let split = ordered_plan(s, body, content_type, Some(c), true);
    let values = c.map_values(|e: Entry| cookie_pair(e));
    assert(values.map_values(|v: Seq<char>| "cookie"@) =~= Seq::new(c.len(), |i: int| "cookie"@));
    assert forall|i: int| 0 <= i < c.len() implies #[trigger] split.2[i] == (
        "cookie"@,
        cookie_pair(c[i]),
        true,
    ) by {
        assert(split.2[i] == values.map_values(|v: Seq<char>| ("cookie"@, v, true))[i]);
    }
}

} // verus!
