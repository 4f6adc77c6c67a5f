//! The cookie overlay: the underlying jar only appends and overwrites, and
//! lists expired records too, so deletion is a set of tombstoned names that
//! every read filters by. Also the text written into the jar and the
//! `cookie` header values built from a cookie set.
use vstd::prelude::*;

use crate::header_map::{
    entries_merged, entry_inserted, has_key, index_map_entries, index_map_entry_list, index_map_insert,
    new_index_map, Entry, IndexMapSSR,
};

verus! {

#[verifier::external_type_specification]
#[verifier::external_body]
pub struct ExUri(http::Uri);

#[verifier::external_type_specification]
#[verifier::external_body]
pub struct ExInvalidUri(http::uri::InvalidUri);

/// Whether `http::Uri` parses the text as a URI.
pub uninterp spec fn is_uri_text(s: Seq<char>) -> bool;

/// Relies on `http::Uri`'s `FromStr`: the text is parsed as a URI or
/// refused, depending on the text alone.
#[verifier::external_body]
fn parse_uri(s: &str) -> (r: Result<http::Uri, http::uri::InvalidUri>)
    ensures
        r.is_ok() == is_uri_text(s@),
{
    s.parse::<http::Uri>()
}

/// Relies on `http::Uri::from_static`: it parses the fixed URL
/// `http://0.0.0.0/`, which is a valid URI (it panics only on invalid text).
#[verifier::external_body]
fn wildcard_uri() -> (r: http::Uri) {
    http::Uri::from_static("http://0.0.0.0/")
}

pub open spec fn opt_chars(o: Option<String>) -> Option<Seq<char>> {
    match o {
        Some(x) => Some(x@),
        None => None,
    }
}

/// A failure of a cookie operation.
#[derive(Debug, PartialEq, Eq, Structural)]
pub enum CookieError {
    /// The domain and path do not make a valid URL.
    InvalidUrl,
}

/// `k=v`, the text of one cookie.
pub open spec fn cookie_pair(e: Entry) -> Seq<char> {
    e.0 + "="@ + e.1
}

/// The pairs of a cookie set joined by `"; "`, as one `cookie` header holds them.
pub open spec fn cookies_joined(c: Seq<Entry>) -> Seq<char>
    decreases c.len(),
{
    if c.len() == 0 {
        Seq::empty()
    } else if c.len() == 1 {
        cookie_pair(c[0])
    } else {
        cookies_joined(c.drop_last()) + "; "@ + cookie_pair(c[c.len() - 1])
    }
}

/// Builds `k=v`.
pub fn cookie_pair_text(k: &String, v: &String) -> (r: String)
    ensures
        r@ == cookie_pair((k@, v@)),
{
    let mut s = k.clone();
    s.append("=");
    s.append(v.as_str());
    s
}

/// Joins the pairs of a cookie set with `"; "`.
pub fn join_cookies(c: &Vec<(String, String)>) -> (r: String)
    ensures
        r@ == cookies_joined(c.deep_view()),
{
    let mut s = String::new();
    let mut i: usize = 0;
    while i < c.len()
        invariant
            0 <= i <= c.len(),
            s@ == cookies_joined(c.deep_view().take(i as int)),
        decreases c.len() - i,
    {
        let pair = cookie_pair_text(&c[i].0, &c[i].1);
        if i > 0 {
            s.append("; ");
        }
        s.append(pair.as_str());
        proof {
            let t = c.deep_view().take(i as int + 1);
            assert(t.drop_last() =~= c.deep_view().take(i as int));
            if i == 0 {
                assert(c.deep_view().take(0) =~= Seq::<Entry>::empty());
                assert(s@ =~= cookie_pair(t[0]));
            }
        }
        i = i + 1;
    }
    proof {
        assert(c.deep_view().take(c.len() as int) =~= c.deep_view());
    }
    s
}

/// Each pair of a cookie set as its own text, in order.
pub fn cookie_pair_list(c: &Vec<(String, String)>) -> (r: Vec<String>)
    ensures
        r.len() == c.len(),
        forall|i: int| 0 <= i < c.len() ==> #[trigger] r[i]@ == cookie_pair(c.deep_view()[i]),
{
    let mut out: Vec<String> = Vec::new();
    let mut i: usize = 0;
    while i < c.len()
        invariant
            0 <= i <= c.len(),
            out.len() == i,
            forall|j: int| 0 <= j < i ==> #[trigger] out[j]@ == cookie_pair(c.deep_view()[j]),
        decreases c.len() - i,
    {
        out.push(cookie_pair_text(&c[i].0, &c[i].1));
        i = i + 1;
    }
    out
}

/// The value of the first entry named `k`, if any.
pub open spec fn first_value(s: Seq<Entry>, k: Seq<char>) -> Option<Seq<char>>
    decreases s.len(),
{
    if s.len() == 0 {
        None
    } else {
        let p = first_value(s.drop_last(), k);
        if p.is_some() {
            p
        } else if s[s.len() - 1].0 == k {
            Some(s[s.len() - 1].1)
        } else {
            None
        }
    }
}

/// The entries of `s` whose name is not tombstoned, in order.
pub open spec fn live_entries(dead: Set<Seq<char>>, s: Seq<Entry>) -> Seq<Entry>
    decreases s.len(),
{
    if s.len() == 0 {
        Seq::empty()
    } else {
        let p = live_entries(dead, s.drop_last());
        if dead.contains(s[s.len() - 1].0) {
            p
        } else {
            p.push(s[s.len() - 1])
        }
    }
}

/// What `get_all` shows of a jar listing: the live records, gathered into an
/// ordered map (a name listed twice keeps its first place and its last value).
pub open spec fn visible_cookies(dead: Set<Seq<char>>, listing: Seq<Entry>) -> Seq<Entry> {
    entries_merged(Seq::empty(), live_entries(dead, listing))
}

/// What `get` shows of a jar listing for one name.
pub open spec fn visible_cookie(dead: Set<Seq<char>>, listing: Seq<Entry>, name: Seq<char>) -> Option<
    Seq<char>,
> {
    if dead.contains(name) {
        None
    } else {
        first_value(listing, name)
    }
}

/// The jar record that sets a cookie: `name=value`.
pub open spec fn set_record(name: Seq<char>, value: Seq<char>) -> Seq<char> {
    name + "="@ + value
}

/// The jar record that expires a cookie at once.
pub open spec fn expire_record(name: Seq<char>) -> Seq<char> {
    name + "=; Max-Age=0"@
}

/// The jar record that expires a cookie when the whole jar is cleared.
pub open spec fn clear_record(name: Seq<char>) -> Seq<char> {
    name + "=; Expires=Thu, 01 Jan 1970 00:00:00 GMT; Max-Age=0"@
}

/// The URL that scopes a record: `http://{domain}{path}`, with the wildcard
/// domain `0.0.0.0` and the path `/` where none is given.
pub open spec fn scope_url(domain: Option<Seq<char>>, path: Option<Seq<char>>) -> Seq<char> {
    "http://"@ + (match domain {
        Some(d) => d,
        None => "0.0.0.0"@,
    }) + (match path {
        Some(p) => p,
        None => "/"@,
    })
}

/// Builds the scope URL of a record.
pub fn scope_url_text(domain: &Option<String>, path: &Option<String>) -> (r: String)
    ensures
        r@ == scope_url(opt_chars(*domain), opt_chars(*path)),
{
    let mut s = String::from_str("http://");
    match domain {
        Some(d) => s.append(d.as_str()),
        None => s.append("0.0.0.0"),
    }
    match path {
        Some(p) => s.append(p.as_str()),
        None => s.append("/"),
    }
    s
}

/// One write into the jar: a record and the URL it is scoped to.
pub struct CookieWrite {
    pub record: String,
    pub url: http::Uri,
}

/// Writes for several records under one URL.
pub struct CookieWrites {
    pub records: Vec<String>,
    pub url: http::Uri,
}

/// The tombstone set laid over the jar.
pub struct CookieOverlay {
    deleted: Vec<String>,
}

/// `n` is one of the names of `v`.
pub open spec fn listed(v: Seq<String>, n: Seq<char>) -> bool {
    exists|j: int| 0 <= j < v.len() && v[j]@ == n
}

proof fn lemma_listed_push(v: Seq<String>, x: String)
    ensures
        forall|n: Seq<char>| #[trigger] listed(v.push(x), n) <==> (listed(v, n) || x@ == n),
{
    assert forall|n: Seq<char>| #[trigger] listed(v.push(x), n) <==> (listed(v, n) || x@ == n) by {
        let w = v.push(x);
        if listed(w, n) {
            let j = choose|j: int| 0 <= j < w.len() && w[j]@ == n;
            if j < v.len() {
                assert(v[j]@ == n);
            }
        }
        if listed(v, n) {
            let j = choose|j: int| 0 <= j < v.len() && v[j]@ == n;
            assert(w[j]@ == n);
        }
        if x@ == n {
            assert(w[v.len() as int]@ == n);
        }
    }
}

impl CookieOverlay {
    /// The names considered deleted.
    pub closed spec fn dead(&self) -> Set<Seq<char>> {
        Set::new(|n: Seq<char>| listed(self.deleted@, n))
    }

    pub fn new() -> (r: CookieOverlay)
        ensures
            r.dead() == Set::<Seq<char>>::empty(),
    {
        let r = CookieOverlay { deleted: Vec::new() };
        assert(r.dead() =~= Set::<Seq<char>>::empty());
        r
    }

    pub fn is_deleted(&self, name: &String) -> (r: bool)
        ensures
            r == self.dead().contains(name@),
    {
        let mut i: usize = 0;
        while i < self.deleted.len()
            invariant
                0 <= i <= self.deleted.len(),
                forall|j: int| 0 <= j < i ==> self.deleted[j]@ != name@,
            decreases self.deleted.len() - i,
        {
            if self.deleted[i] == *name {
                return true;
            }
            i = i + 1;
        }
        false
    }

    /// Tombstones a name.
    pub fn mark(&mut self, name: String)
        ensures
            final(self).dead() == old(self).dead().insert(name@),
    {
        if !self.is_deleted(&name) {
            let ghost before = self.deleted@;
            self.deleted.push(name);
            proof {
                lemma_listed_push(before, name);
            }
        }
        assert(self.dead() =~= old(self).dead().insert(name@));
    }

    /// Lifts the tombstone of a name, if it has one.
    pub fn unmark(&mut self, name: &String)
        ensures
            final(self).dead() == old(self).dead().remove(name@),
    {
        let mut kept: Vec<String> = Vec::new();
        let mut i: usize = 0;
        while i < self.deleted.len()
            invariant
                0 <= i <= self.deleted.len(),
                forall|n: Seq<char>|
                    #[trigger] listed(kept@, n) <==> (n != name@ && listed(
                        self.deleted@.take(i as int),
                        n,
                    )),
            decreases self.deleted.len() - i,
        {
            let ghost before = kept@;
            let ghost prefix = self.deleted@.take(i as int);
            let ghost next = self.deleted@.take(i as int + 1);
            proof {
                assert(next =~= prefix.push(self.deleted@[i as int]));
                lemma_listed_push(prefix, self.deleted@[i as int]);
            }
            if self.deleted[i] != *name {
                kept.push(self.deleted[i].clone());
                proof {
                    assert(kept@ =~= before.push(self.deleted@[i as int]));
                    lemma_listed_push(before, self.deleted@[i as int]);
                }
            }
            i = i + 1;
        }
        proof {
            assert(self.deleted@.take(self.deleted.len() as int) =~= self.deleted@);
        }
        self.deleted = kept;
        assert(self.dead() =~= old(self).dead().remove(name@));
    }

    /// `get_all`: the live cookies of a jar listing, as an ordered map.
    pub fn get_all_cookies(&self, listing: &Vec<(String, String)>) -> (r: IndexMapSSR)
        ensures
            index_map_entries(r) == visible_cookies(self.dead(), listing.deep_view()),
    {
        let mut m = new_index_map();
        let mut i: usize = 0;
        while i < listing.len()
            invariant
                0 <= i <= listing.len(),
                index_map_entries(m) == entries_merged(
                    Seq::empty(),
                    live_entries(self.dead(), listing.deep_view().take(i as int)),
                ),
            decreases listing.len() - i,
        {
            let ghost t = listing.deep_view().take(i as int + 1);
            proof {
                assert(t.drop_last() =~= listing.deep_view().take(i as int));
            }
            if !self.is_deleted(&listing[i].0) {
                let ghost p = live_entries(self.dead(), listing.deep_view().take(i as int));
                index_map_insert(&mut m, listing[i].0.clone(), listing[i].1.clone());
                proof {
                    let q = live_entries(self.dead(), t);
                    assert(q == p.push(t[t.len() - 1]));
                    assert(q.drop_last() =~= p);
                }
            }
            i = i + 1;
        }
        proof {
            assert(listing.deep_view().take(listing.len() as int) =~= listing.deep_view());
        }
        m
    }

    /// `get`: the value of a live cookie of a jar listing.
    pub fn get_cookie(&self, listing: &Vec<(String, String)>, name: &String) -> (r: Option<String>)
        ensures
            match r {
                Some(v) => visible_cookie(self.dead(), listing.deep_view(), name@) == Some(v@),
                None => visible_cookie(self.dead(), listing.deep_view(), name@).is_none(),
            },
    {
        if self.is_deleted(name) {
            return None;
        }
        let mut i: usize = 0;
        while i < listing.len()
            invariant
                0 <= i <= listing.len(),
                first_value(listing.deep_view().take(i as int), name@).is_none(),
                !self.dead().contains(name@),
            decreases listing.len() - i,
        {
            let ghost t = listing.deep_view().take(i as int + 1);
            proof {
                assert(t.drop_last() =~= listing.deep_view().take(i as int));
            }
            if listing[i].0 == *name {
                proof {
                    assert(listing.deep_view()[i as int].0 == listing[i as int].0@);
                    assert(listing.deep_view()[i as int].1 == listing[i as int].1@);
                    lemma_first_value_extends(listing.deep_view(), name@, i as int + 1);
                    assert(listing.deep_view().take(listing.len() as int) =~= listing.deep_view());
                    assert(first_value(listing.deep_view().take(listing.len() as int), name@) == Some(
                        listing[i as int].1@,
                    ));
                }
                let v = listing[i].1.clone();
                return Some(v);
            }
            i = i + 1;
        }
        proof {
            assert(listing.deep_view().take(listing.len() as int) =~= listing.deep_view());
        }
        None
    }

    /// `set`: the record that sets one cookie under its scope; the name's
    /// tombstone is lifted. An invalid scope URL changes nothing.
    pub fn set_cookie(
        &mut self,
        name: String,
        value: &String,
        domain: &Option<String>,
        path: &Option<String>,
    ) -> (r: Result<CookieWrite, CookieError>)
        ensures
            r.is_ok() == is_uri_text(scope_url(opt_chars(*domain), opt_chars(*path))),
            match r {
                Ok(w) => w.record@ == set_record(name@, value@) && final(self).dead() == old(self).dead().remove(name@),
                Err(e) => e == CookieError::InvalidUrl && final(self).dead() == old(self).dead(),
            },
    {
        let url_text = scope_url_text(domain, path);
        match parse_uri(url_text.as_str()) {
            Err(_) => Err(CookieError::InvalidUrl),
            Ok(url) => {
                let record = cookie_pair_text(&name, value);
                self.unmark(&name);
                Ok(CookieWrite { record, url })
            },
        }
    }

    /// `update_many`: records that set every cookie of `cookies`, in order,
    /// under one scope; each name's tombstone is lifted. An invalid scope URL
    /// changes nothing.
    pub fn update_cookies(
        &mut self,
        cookies: &IndexMapSSR,
        domain: &Option<String>,
        path: &Option<String>,
    ) -> (r: Result<CookieWrites, CookieError>)
        ensures
            r.is_ok() == is_uri_text(scope_url(opt_chars(*domain), opt_chars(*path))),
            match r {
                Ok(w) => {
                    &&& w.records.len() == index_map_entries(*cookies).len()
                    &&& forall|i: int|
                        0 <= i < w.records.len() ==> #[trigger] w.records[i]@ == set_record(
                            index_map_entries(*cookies)[i].0,
                            index_map_entries(*cookies)[i].1,
                        )
                    &&& final(self).dead() == old(self).dead().difference(
                        Set::new(|n: Seq<char>| has_key(index_map_entries(*cookies), n)),
                    )
                },
                Err(e) => e == CookieError::InvalidUrl && final(self).dead() == old(self).dead(),
            },
    {
        let url_text = scope_url_text(domain, path);
        let url = match parse_uri(url_text.as_str()) {
            Err(_) => {
                return Err(CookieError::InvalidUrl);
            },
            Ok(u) => u,
        };
        let items = index_map_entry_list(cookies);
        let ghost s = items.deep_view();
        let mut records: Vec<String> = Vec::new();
        let mut i: usize = 0;
        while i < items.len()
            invariant
                0 <= i <= items.len(),
                s == items.deep_view(),
                s == index_map_entries(*cookies),
                records.len() == i,
                forall|j: int|
                    0 <= j < i ==> #[trigger] records[j]@ == set_record(s[j].0, s[j].1),
                self.dead() == old(self).dead().difference(
                    Set::new(|n: Seq<char>| exists|j: int| 0 <= j < i && s[j].0 == n),
                ),
            decreases items.len() - i,
        {
            records.push(cookie_pair_text(&items[i].0, &items[i].1));
            let ghost before = self.dead();
            self.unmark(&items[i].0);
            proof {
                let a = Set::new(|n: Seq<char>| exists|j: int| 0 <= j < i && s[j].0 == n);
                let b = Set::new(|n: Seq<char>| exists|j: int| 0 <= j < i + 1 && s[j].0 == n);
                assert(b =~= a.insert(s[i as int].0));
                assert(old(self).dead().difference(b) =~= before.remove(s[i as int].0));
            }
            i = i + 1;
        }
        proof {
            let a = Set::new(|n: Seq<char>| exists|j: int| 0 <= j < items.len() && s[j].0 == n);
            let b = Set::new(|n: Seq<char>| has_key(s, n));
            assert(a =~= b);
        }
        Ok(CookieWrites { records, url })
    }

    /// `delete`: the record that expires one cookie, under the wildcard
    /// URL; the name is tombstoned.
    pub fn delete_cookie(&mut self, name: String) -> (r: CookieWrite)
        ensures
            r.record@ == expire_record(name@),
            final(self).dead() == old(self).dead().insert(name@),
    {
        let url = wildcard_uri();
        let mut record = name.clone();
        record.append("=; Max-Age=0");
        self.mark(name);
        CookieWrite { record, url }
    }

    /// `clear`: records that expire every name the jar lists, in order,
    /// under the wildcard URL; every one of them is tombstoned.
    pub fn clear_cookies(&mut self, names: Vec<String>) -> (r: CookieWrites)
        ensures
            r.records.len() == names.len(),
            forall|i: int| 0 <= i < names.len() ==> #[trigger] r.records[i]@ == clear_record(names[i]@),
            final(self).dead() == old(self).dead().union(
                Set::new(|n: Seq<char>| exists|i: int| 0 <= i < names.len() && names[i]@ == n),
            ),
    {
        let url = wildcard_uri();
        let mut records: Vec<String> = Vec::new();
        let mut i: usize = 0;
        while i < names.len()
            invariant
                0 <= i <= names.len(),
                records.len() == i,
                forall|j: int| 0 <= j < i ==> #[trigger] records[j]@ == clear_record(names[j]@),
                self.dead() == old(self).dead().union(
                    Set::new(|n: Seq<char>| exists|j: int| 0 <= j < i && names[j]@ == n),
                ),
            decreases names.len() - i,
        {
            let mut record = names[i].clone();
            record.append("=; Expires=Thu, 01 Jan 1970 00:00:00 GMT; Max-Age=0");
            records.push(record);
            let ghost before = self.dead();
            self.mark(names[i].clone());
            proof {
                let a = Set::new(|n: Seq<char>| exists|j: int| 0 <= j < i && names[j]@ == n);
                let b = Set::new(|n: Seq<char>| exists|j: int| 0 <= j < i + 1 && names[j]@ == n);
                assert(b =~= a.insert(names[i as int]@));
                assert(old(self).dead().union(b) =~= before.insert(names[i as int]@));
            }
            i = i + 1;
        }
        CookieWrites { records, url }
    }
}

proof fn lemma_live_excludes(dead: Set<Seq<char>>, s: Seq<Entry>, name: Seq<char>)
    requires
        dead.contains(name),
    ensures
        !has_key(live_entries(dead, s), name),
    decreases s.len(),
{
    if s.len() > 0 {
        lemma_live_excludes(dead, s.drop_last(), name);
        let p = live_entries(dead, s.drop_last());
        if !dead.contains(s[s.len() - 1].0) {
            let q = p.push(s[s.len() - 1]);
            assert forall|i: int| 0 <= i < q.len() implies q[i].0 != name by {
                if i < p.len() {
                    assert(q[i] == p[i]);
                }
            }
        }
    }
}

proof fn lemma_merge_excludes(s: Seq<Entry>, t: Seq<Entry>, name: Seq<char>)
    requires
        !has_key(s, name),
        !has_key(t, name),
    ensures
        !has_key(entries_merged(s, t), name),
    decreases t.len(),
{
    if t.len() > 0 {
        let u = t.drop_last();
        assert forall|i: int| 0 <= i < u.len() implies u[i].0 != name by {
            assert(u[i] == t[i]);
        }
        lemma_merge_excludes(s, u, name);
        let p = entries_merged(s, u);
        let last = t[t.len() - 1];
        let q = entry_inserted(p, last.0, last.1);
        if has_key(p, last.0) {
            let j = choose|j: int| 0 <= j < p.len() && p[j].0 == last.0;
            assert forall|i: int| 0 <= i < q.len() implies q[i].0 != name by {
                if i != j {
                    assert(q[i] == p[i]);
                }
            }
        } else {
            assert forall|i: int| 0 <= i < q.len() implies q[i].0 != name by {
                if i < p.len() {
                    assert(q[i] == p[i]);
                }
            }
        }
    }
}

/// A tombstoned name is never read back, whatever the jar still lists under
/// it (an expired record included): `get_all` has no entry for it and `get`
/// gives nothing. Lifting the tombstone, as setting the cookie again does,
/// makes the jar's record for the name visible again.
pub proof fn lemma_tombstone_hides(dead: Set<Seq<char>>, listing: Seq<Entry>, name: Seq<char>)
    ensures
        !has_key(visible_cookies(dead.insert(name), listing), name),
        visible_cookie(dead.insert(name), listing, name).is_none(),
        visible_cookie(dead.remove(name), listing, name) == first_value(listing, name),
{
    let d = dead.insert(name);
    lemma_live_excludes(d, listing, name);
    lemma_merge_excludes(Seq::empty(), live_entries(d, listing), name);
}

proof fn lemma_first_value_extends(s: Seq<Entry>, k: Seq<char>, n: int)
    requires
        0 < n <= s.len(),
        first_value(s.take(n - 1), k).is_none(),
        s[n - 1].0 == k,
    ensures
        forall|m: int| n <= m <= s.len() ==> first_value(s.take(m), k) == Some(s[n - 1].1),
    decreases s.len() - n,
{
    assert(s.take(n).drop_last() =~= s.take(n - 1));
    if n < s.len() {
        lemma_first_value_keeps(s, k, n);
    }
}

proof fn lemma_first_value_keeps(s: Seq<Entry>, k: Seq<char>, n: int)
    requires
        0 < n <= s.len(),
        first_value(s.take(n), k).is_some(),
    ensures
        forall|m: int| n <= m <= s.len() ==> first_value(s.take(m), k) == first_value(s.take(n), k),
    decreases s.len() - n,
{
    assert forall|m: int| n <= m <= s.len() implies first_value(s.take(m), k) == first_value(
        s.take(n),
        k,
    ) by {
        lemma_first_value_prefix(s, k, n, m);
    }
}

proof fn lemma_first_value_prefix(s: Seq<Entry>, k: Seq<char>, n: int, m: int)
    requires
        0 < n <= m <= s.len(),
        first_value(s.take(n), k).is_some(),
    ensures
        first_value(s.take(m), k) == first_value(s.take(n), k),
    decreases m - n,
{
    if m > n {
        lemma_first_value_prefix(s, k, n, m - 1);
        assert(s.take(m).drop_last() =~= s.take(m - 1));
    }
}

} // verus!
