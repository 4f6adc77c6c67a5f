//! The client: its configuration, the plan a client handle is built from,
//! the handle that each rebuild replaces all at once, and the preparation of
//! one request from per-request overrides and the client's defaults.
use vstd::prelude::*;

use vstd::utf8::encode_utf8;

use crate::body::{
    body_kind, body_shape, bytes_match, encode_body, kind_content_type, multipart_matches, opt_text,
    plan_multipart,
    BodyKind, EncodedBody, FileEntry, JsonValue, MultipartPlan,
};
use crate::cookies::{visible_cookies, CookieOverlay};
use crate::header_map::{
    headers_merged, headers_updated, index_map_clone, index_map_entries, index_map_entry_list,
    index_map_len, new_index_map, Entry, IndexMapSSR,
};
use crate::headers::{opt_entries, plan_headers, request_plan, HeaderPlan};

verus! {

#[verifier::external_type_specification]
#[verifier::external_body]
pub struct ExMethod(http::Method);

#[verifier::external_type_specification]
#[verifier::external_body]
pub struct ExInvalidMethod(http::method::InvalidMethod);

/// A character that may stand in an HTTP method token: a digit, a letter,
/// or one of ``!#$%&'*+-.^_`|~``.
pub open spec fn is_token_char(c: u8) -> bool {
    (48 <= c <= 57) || (65 <= c <= 90) || (97 <= c <= 122) || c == 33 || (35 <= c <= 39) || c
        == 42 || c == 43 || c == 45 || c == 46 || (94 <= c <= 96) || c == 124 || c == 126
}

/// A valid HTTP method: a non-empty run of token characters.
pub open spec fn is_method_token(b: Seq<u8>) -> bool {
    b.len() > 0 && forall|i: int| 0 <= i < b.len() ==> is_token_char(#[trigger] b[i])
}

/// Relies on `http::Method::from_bytes`: it accepts exactly the non-empty
/// byte strings made of token characters.
#[verifier::external_body]
fn method_from_bytes(b: &[u8]) -> (r: Result<http::Method, http::method::InvalidMethod>)
    ensures
        r.is_ok() == is_method_token(b@),
{
    http::Method::from_bytes(b)
}

/// A failure of the client.
#[derive(Debug, PartialEq, Eq, Structural)]
pub enum ClientError {
    /// The method is not a valid HTTP method token.
    Method,
    /// The body could not be encoded.
    Encoding,
}

/// How redirects are followed.
#[derive(Clone, Copy, Debug, PartialEq, Eq, Structural)]
pub enum Redirects {
    /// Follow at most this many hops.
    Limited(usize),
    /// Do not follow redirects.
    Disabled,
}

/// Which HTTP version the client restricts itself to.
#[derive(Clone, Copy, Debug, PartialEq, Eq, Structural)]
pub enum HttpVersion {
    Any,
    Http1Only,
    Http2Only,
}

/// The configuration options of a client, but for its durations.
pub struct ClientConfig {
    pub auth: Option<(String, Option<String>)>,
    pub auth_bearer: Option<String>,
    pub params: Option<IndexMapSSR>,
    pub headers: Option<IndexMapSSR>,
    pub ordered_headers: Option<IndexMapSSR>,
    pub cookie_store: Option<bool>,
    pub split_cookies: Option<bool>,
    pub referer: Option<bool>,
    pub proxy: Option<String>,
    pub impersonate: Option<String>,
    pub impersonate_os: Option<String>,
    pub follow_redirects: Option<bool>,
    pub max_redirects: Option<usize>,
    pub verify: Option<bool>,
    pub ca_cert_file: Option<String>,
    pub https_only: Option<bool>,
    pub http1_only: Option<bool>,
    pub http2_only: Option<bool>,
    pub pool_max_idle_per_host: Option<usize>,
    pub tcp_nodelay: Option<bool>,
}

/// What a client handle is built from.
pub struct ClientPlan {
    /// The browser to impersonate and, where given, the operating system.
    pub emulation: Option<(String, Option<String>)>,
    /// Default headers baked into the client: the unordered headers, only
    /// where no ordered headers are configured.
    pub default_headers: Option<Vec<(String, String)>>,
    pub cookie_provider: bool,
    pub referer: bool,
    pub proxy: Option<String>,
    pub redirects: Redirects,
    /// A CA bundle file to trust instead of the built-in roots.
    pub ca_bundle: Option<String>,
    /// Whether certificates are verified.
    pub verify: bool,
    pub https_only: bool,
    pub http_version: HttpVersion,
    pub pool_max_idle_per_host: Option<usize>,
    pub tcp_nodelay: bool,
}

pub open spec fn or_default(o: Option<bool>, d: bool) -> bool {
    match o {
        Some(b) => b,
        None => d,
    }
}

pub open spec fn opt_str(o: Option<String>) -> Option<Seq<char>> {
    match o {
        Some(s) => Some(s@),
        None => None,
    }
}

/// The HTTP-version restriction: HTTP/1 only wins when both are asked for.
pub open spec fn version_of(http1_only: Option<bool>, http2_only: Option<bool>) -> HttpVersion {
    if http1_only == Some(true) {
        HttpVersion::Http1Only
    } else if http2_only == Some(true) {
        HttpVersion::Http2Only
    } else {
        HttpVersion::Any
    }
}

/// The redirect policy: bounded (20 hops unless given) when following.
pub open spec fn redirects_of(follow: Option<bool>, max: Option<usize>) -> Redirects {
    if or_default(follow, true) {
        Redirects::Limited(
            match max {
                Some(m) => m,
                None => 20,
            },
        )
    } else {
        Redirects::Disabled
    }
}

/// The plan for a configuration, with the proxy from the environment as the
/// fallback for an unset proxy.
pub open spec fn plan_matches(p: ClientPlan, c: ClientConfig, env_proxy: Option<String>) -> bool {
    &&& match c.impersonate {
        Some(i) => p.emulation.is_some() && p.emulation.unwrap().0@ == i@ && opt_str(
            p.emulation.unwrap().1,
        ) == opt_str(c.impersonate_os),
        None => p.emulation.is_none(),
    }
    &&& match c.ordered_headers {
        Some(_) => p.default_headers.is_none(),
        None => match c.headers {
            Some(h) => p.default_headers.is_some() && p.default_headers.unwrap().deep_view()
                == index_map_entries(h),
            None => p.default_headers.is_none(),
        },
    }
    &&& p.cookie_provider == or_default(c.cookie_store, true)
    &&& p.referer == or_default(c.referer, true)
    &&& opt_str(p.proxy) == match c.proxy {
        Some(x) => Some(x@),
        None => opt_str(env_proxy),
    }
    &&& p.redirects == redirects_of(c.follow_redirects, c.max_redirects)
    &&& opt_str(p.ca_bundle) == opt_str(c.ca_cert_file)
    &&& p.verify == or_default(c.verify, true)
    &&& p.https_only == (c.https_only == Some(true))
    &&& p.http_version == version_of(c.http1_only, c.http2_only)
    &&& p.pool_max_idle_per_host == c.pool_max_idle_per_host
    &&& p.tcp_nodelay == (c.tcp_nodelay == Some(true))
}

fn clone_opt(o: &Option<String>) -> (r: Option<String>)
    ensures
        opt_str(r) == opt_str(*o),
{
    match o {
        Some(s) => Some(s.clone()),
        None => None,
    }
}

fn bool_or(o: Option<bool>, d: bool) -> (r: bool)
    ensures
        r == or_default(o, d),
{
    match o {
        Some(b) => b,
        None => d,
    }
}

impl ClientConfig {
    /// The plan a client handle is built from.
    pub fn plan(&self, env_proxy: Option<String>) -> (r: ClientPlan)
        ensures
            plan_matches(r, *self, env_proxy),
    {
        let emulation = match &self.impersonate {
            Some(i) => Some((i.clone(), clone_opt(&self.impersonate_os))),
            None => None,
        };
        let default_headers = match &self.ordered_headers {
            Some(_) => None,
            None => match &self.headers {
                Some(h) => Some(index_map_entry_list(h)),
                None => None,
            },
        };
        let proxy = match &self.proxy {
            Some(p) => Some(p.clone()),
            None => env_proxy,
        };
        let redirects = if bool_or(self.follow_redirects, true) {
            Redirects::Limited(
                match self.max_redirects {
                    Some(m) => m,
                    None => 20,
                },
            )
        } else {
            Redirects::Disabled
        };
        let http_version = if self.http1_only == Some(true) {
            HttpVersion::Http1Only
        } else if self.http2_only == Some(true) {
            HttpVersion::Http2Only
        } else {
            HttpVersion::Any
        };
        ClientPlan {
            emulation,
            default_headers,
            cookie_provider: bool_or(self.cookie_store, true),
            referer: bool_or(self.referer, true),
            proxy,
            redirects,
            ca_bundle: clone_opt(&self.ca_cert_file),
            verify: bool_or(self.verify, true),
            https_only: self.https_only == Some(true),
            http_version,
            pool_max_idle_per_host: self.pool_max_idle_per_host,
            tcp_nodelay: self.tcp_nodelay == Some(true),
        }
    }
}

/// Which CA certificates a verifying client trusts.
#[derive(Debug, PartialEq, Eq)]
pub enum CaSource {
    /// The PEM bundle in this file.
    File(String),
    /// The built-in trusted roots.
    BuiltIn,
}

/// The CA bundle named by the environment (`PRIMP_CA_BUNDLE`, else
/// `CA_CERT_FILE`), else the built-in roots.
pub fn ca_source(primp_ca_bundle: Option<String>, ca_cert_file: Option<String>) -> (r: CaSource)
    ensures
        match r {
            CaSource::File(p) => match primp_ca_bundle {
                Some(b) => p@ == b@,
                None => ca_cert_file.is_some() && p@ == ca_cert_file.unwrap()@,
            },
            CaSource::BuiltIn => primp_ca_bundle.is_none() && ca_cert_file.is_none(),
        },
{
    match primp_ca_bundle {
        Some(b) => CaSource::File(b),
        None => match ca_cert_file {
            Some(c) => CaSource::File(c),
            None => CaSource::BuiltIn,
        },
    }
}

/// A CA bundle file that cannot be read falls back to the built-in roots.
pub fn ca_after_read(source: CaSource, readable: bool) -> (r: CaSource)
    ensures
        r == if readable { source } else { CaSource::BuiltIn },
{
    if readable {
        source
    } else {
        CaSource::BuiltIn
    }
}

/// What installing the outcome `built` of a rebuild does: the configuration
/// and the cookie overlay stay; a new handle replaces the old one, a failed
/// build leaves the old one and its error is returned.
pub open spec fn installed<H, E>(
    before: RClient<H>,
    after: RClient<H>,
    built: Result<H, E>,
    r: Result<(), E>,
) -> bool {
    &&& after.config == before.config
    &&& after.cookies == before.cookies
    &&& match built {
        Ok(h) => r.is_ok() && after.current() == h,
        Err(e) => r == Err::<(), E>(e) && after.current() == before.current(),
    }
}

/// A rebuild is all or nothing: when building the new handle fails, the
/// client keeps the handle it had, and every later request is sent with it,
/// with the configuration and cookies as they were; when it succeeds, the new
/// handle is used.
pub proof fn lemma_rebuild_atomic<H, E>(
    before: RClient<H>,
    after: RClient<H>,
    built: Result<H, E>,
    r: Result<(), E>,
)
    requires
        installed(before, after, built, r),
    ensures
        built is Err ==> r.is_err() && after.handle == before.handle && after.config
            == before.config && after.cookies == before.cookies,
        built is Ok ==> r.is_ok() && after.handle == built->Ok_0,
{
}

/// A client: its configuration, its cookie overlay, and the handle `H` built
/// from its configuration, replaced whole on every successful rebuild.
pub struct RClient<H> {
    pub config: ClientConfig,
    pub cookies: CookieOverlay,
    pub handle: H,
}

impl<H> RClient<H> {
    pub open spec fn current(&self) -> H {
        self.handle
    }

    /// A client whose handle was built from `config`.
    pub fn new(config: ClientConfig, handle: H) -> (r: RClient<H>)
        ensures
            r.config == config,
            r.current() == handle,
            r.cookies.dead() == Set::<Seq<char>>::empty(),
    {
        RClient { config, cookies: CookieOverlay::new(), handle }
    }

    /// The handle requests are sent with.
    pub fn client(&self) -> (r: &H)
        ensures
            *r == self.current(),
    {
        &self.handle
    }

    /// Installs the outcome of a rebuild: a new handle replaces the old one;
    /// a failed build leaves the old handle in place and reports the error.
    pub fn install<E>(&mut self, built: Result<H, E>) -> (r: Result<(), E>)
        ensures
            installed(*old(self), *final(self), built, r),
    {
        match built {
            Ok(h) => {
                self.handle = h;
                Ok(())
            },
            Err(e) => Err(e),
        }
    }

    /// The unordered headers, or an empty map.
    pub fn get_headers(&self) -> (r: IndexMapSSR)
        ensures
            index_map_entries(r) == match self.config.headers {
                Some(h) => index_map_entries(h),
                None => Seq::<Entry>::empty(),
            },
    {
        match &self.config.headers {
            Some(h) => index_map_clone(h),
            None => new_index_map(),
        }
    }

    /// Replaces the unordered headers.
    pub fn set_headers(&mut self, new_headers: Option<IndexMapSSR>)
        ensures
            final(self).config.headers == new_headers,
            final(self).config.ordered_headers == old(self).config.ordered_headers,
            final(self).current() == old(self).current(),
    {
        self.config.headers = new_headers;
    }

    /// Merges entries into the unordered headers (see `headers_updated`).
    pub fn headers_update(&mut self, new_headers: Option<IndexMapSSR>)
        ensures
            new_headers.is_none() ==> final(self).config.headers == old(self).config.headers,
            new_headers.is_some() && old(self).config.headers.is_none() ==> final(self).config.headers == new_headers,
            new_headers.is_some() && old(self).config.headers.is_some() ==> final(self).config.headers.is_some() && index_map_entries(final(self).config.headers.unwrap())
                == headers_merged(
                index_map_entries(old(self).config.headers.unwrap()),
                index_map_entries(new_headers.unwrap()),
            ),
            final(self).config.ordered_headers == old(self).config.ordered_headers,
            final(self).current() == old(self).current(),
    {
        let current = self.config.headers.take();
        self.config.headers = headers_updated(current, new_headers);
    }

    /// The ordered headers, or an empty map.
    pub fn get_ordered_headers(&self) -> (r: IndexMapSSR)
        ensures
            index_map_entries(r) == match self.config.ordered_headers {
                Some(h) => index_map_entries(h),
                None => Seq::<Entry>::empty(),
            },
    {
        match &self.config.ordered_headers {
            Some(h) => index_map_clone(h),
            None => new_index_map(),
        }
    }

    /// Replaces the ordered headers.
    pub fn set_ordered_headers(&mut self, new_headers: Option<IndexMapSSR>)
        ensures
            final(self).config.ordered_headers == new_headers,
            final(self).config.headers == old(self).config.headers,
            final(self).current() == old(self).current(),
    {
        self.config.ordered_headers = new_headers;
    }

    /// Merges entries into the ordered headers: existing names keep their
    /// place, new ones go last.
    pub fn ordered_headers_update(&mut self, new_headers: Option<IndexMapSSR>)
        ensures
            new_headers.is_none() ==> final(self).config.ordered_headers == old(self).config.ordered_headers,
            new_headers.is_some() && old(self).config.ordered_headers.is_none() ==> final(self).config.ordered_headers == new_headers,
            new_headers.is_some() && old(self).config.ordered_headers.is_some() ==> final(self).config.ordered_headers.is_some() && index_map_entries(
                final(self).config.ordered_headers.unwrap(),
            ) == headers_merged(
                index_map_entries(old(self).config.ordered_headers.unwrap()),
                index_map_entries(new_headers.unwrap()),
            ),
            final(self).config.headers == old(self).config.headers,
            final(self).current() == old(self).current(),
    {
        let current = self.config.ordered_headers.take();
        self.config.ordered_headers = headers_updated(current, new_headers);
    }

    pub fn get_proxy(&self) -> (r: Option<String>)
        ensures
            opt_str(r) == opt_str(self.config.proxy),
    {
        clone_opt(&self.config.proxy)
    }

    pub fn set_proxy(&mut self, proxy: String)
        ensures
            opt_str(final(self).config.proxy) == Some(proxy@),
            final(self).current() == old(self).current(),
    {
        self.config.proxy = Some(proxy);
    }

    pub fn set_impersonate(&mut self, impersonate: String)
        ensures
            opt_str(final(self).config.impersonate) == Some(impersonate@),
            final(self).current() == old(self).current(),
    {
        self.config.impersonate = Some(impersonate);
    }

    pub fn set_impersonate_os(&mut self, impersonate_os: String)
        ensures
            opt_str(final(self).config.impersonate_os) == Some(impersonate_os@),
            final(self).current() == old(self).current(),
    {
        self.config.impersonate_os = Some(impersonate_os);
    }
}

/// How a request authenticates.
pub enum Auth {
    Basic(String, Option<String>),
    Bearer(String),
}

/// What one request overrides of the client's defaults.
pub struct RequestOverrides {
    pub params: Option<IndexMapSSR>,
    pub headers: Option<IndexMapSSR>,
    pub ordered_headers: Option<IndexMapSSR>,
    pub cookies: Option<IndexMapSSR>,
    pub content: Option<Vec<u8>>,
    pub data: Option<JsonValue>,
    pub json: Option<JsonValue>,
    pub files: Vec<FileEntry>,
    pub auth: Option<(String, Option<String>)>,
    pub auth_bearer: Option<String>,
}

/// A request ready to dispatch, but for its timeout.
pub struct PreparedRequest {
    pub method: http::Method,
    pub params: Option<IndexMapSSR>,
    pub headers: HeaderPlan,
    pub body: EncodedBody,
    /// The multipart form, when files are sent with a body-carrying method.
    pub multipart: Option<MultipartPlan>,
    pub auth: Option<Auth>,
}

/// The method carries a body.
pub open spec fn carries_body(m: Seq<char>) -> bool {
    m == "POST"@ || m == "PUT"@ || m == "PATCH"@
}

fn str_eq(a: &str, b: &str) -> (r: bool)
    ensures
        r == (a@ == b@),
{
    let x = String::from_str(a);
    let y = String::from_str(b);
    x == y
}

/// Whether the method is POST, PUT or PATCH.
pub fn method_carries_body(m: &str) -> (r: bool)
    ensures
        r == carries_body(m@),
{
    str_eq(m, "POST") || str_eq(m, "PUT") || str_eq(m, "PATCH")
}

/// The cookies a request sends: its own, if given (even none), else the
/// jar's visible cookies when there are any.
pub fn effective_cookies(explicit: Option<IndexMapSSR>, jar: IndexMapSSR) -> (r: Option<IndexMapSSR>)
    ensures
        match explicit {
            Some(c) => r == Some(c),
            None => if index_map_entries(jar).len() > 0 {
                r == Some(jar)
            } else {
                r.is_none()
            },
        },
{
    match explicit {
        Some(c) => Some(c),
        None => {
            if index_map_len(&jar) > 0 {
                Some(jar)
            } else {
                None
            }
        },
    }
}

/// The authentication a request uses: basic when a user is given (by the
/// request, else the client), else a bearer token (likewise).
pub open spec fn auth_matches(
    r: Option<Auth>,
    req_auth: Option<(String, Option<String>)>,
    cfg_auth: Option<(String, Option<String>)>,
    req_bearer: Option<String>,
    cfg_bearer: Option<String>,
) -> bool {
    let basic = if req_auth.is_some() { req_auth } else { cfg_auth };
    let bearer = if req_bearer.is_some() { req_bearer } else { cfg_bearer };
    match basic {
        Some(b) => r.is_some() && r.unwrap() is Basic && r.unwrap()->Basic_0@ == b.0@ && opt_str(
            r.unwrap()->Basic_1,
        ) == opt_str(b.1),
        None => match bearer {
            Some(t) => r.is_some() && r.unwrap() is Bearer && r.unwrap()->Bearer_0@ == t@,
            None => r.is_none(),
        },
    }
}

fn resolve_auth(
    req_auth: Option<(String, Option<String>)>,
    cfg_auth: &Option<(String, Option<String>)>,
    req_bearer: Option<String>,
    cfg_bearer: &Option<String>,
) -> (r: Option<Auth>)
    ensures
        auth_matches(r, req_auth, *cfg_auth, req_bearer, *cfg_bearer),
{
    let basic = match req_auth {
        Some(a) => Some(a),
        None => match cfg_auth {
            Some(a) => Some((a.0.clone(), clone_opt(&a.1))),
            None => None,
        },
    };
    match basic {
        Some(b) => Some(Auth::Basic(b.0, b.1)),
        None => match req_bearer {
            Some(t) => Some(Auth::Bearer(t)),
            None => match cfg_bearer {
                Some(t) => Some(Auth::Bearer(t.clone())),
                None => None,
            },
        },
    }
}

/// The body metadata that header ordering sees.
pub open spec fn shape_of(b: EncodedBody) -> crate::headers::BodyShape {
    match b.bytes {
        Some(x) => crate::headers::BodyShape::Sized(x.len()),
        None => if b.kind == BodyKind::Multipart {
            crate::headers::BodyShape::Multipart
        } else {
            crate::headers::BodyShape::Absent
        },
    }
}

/// The cookies a request sends, as entries.
pub open spec fn cookies_sent(
    explicit: Option<IndexMapSSR>,
    dead: Set<Seq<char>>,
    jar: Seq<Entry>,
) -> Option<Seq<Entry>> {
    match explicit {
        Some(c) => Some(index_map_entries(c)),
        None => if visible_cookies(dead, jar).len() > 0 {
            Some(visible_cookies(dead, jar))
        } else {
            None
        },
    }
}

pub open spec fn opt_json(o: &Option<JsonValue>) -> Option<&JsonValue> {
    match o {
        Some(d) => Some(d),
        None => None,
    }
}

impl<H> RClient<H> {
    /// Prepares one request: checks the method, resolves overrides over the
    /// client's defaults, encodes the body (only for POST, PUT and PATCH) and
    /// orders the headers. `jar` lists the jar's records as (name, value).
    pub fn prepare_request(
        &self,
        method: &str,
        req: RequestOverrides,
        jar: &Vec<(String, String)>,
    ) -> (r: Result<PreparedRequest, ClientError>)
        ensures
            (r == Err::<PreparedRequest, ClientError>(ClientError::Method)) <==> !is_method_token(
                encode_utf8(method@),
            ),
            is_method_token(encode_utf8(method@)) && body_kind(
                carries_body(method@),
                req.files.len() > 0,
                req.content.is_some(),
                opt_json(&req.data),
                req.json.is_some(),
            ) != BodyKind::UrlEncoded ==> r.is_ok(),
            r == Err::<PreparedRequest, ClientError>(ClientError::Encoding) ==> body_kind(
                carries_body(method@),
                req.files.len() > 0,
                req.content.is_some(),
                opt_json(&req.data),
                req.json.is_some(),
            ) == BodyKind::UrlEncoded,
            match r {
                Ok(p) => {
                    &&& p.body.kind == body_kind(
                        carries_body(method@),
                        req.files.len() > 0,
                        req.content.is_some(),
                        opt_json(&req.data),
                        req.json.is_some(),
                    )
                    &&& opt_text(p.body.content_type) == kind_content_type(p.body.kind)
                    &&& (p.body.kind == BodyKind::NoBody || p.body.kind == BodyKind::Multipart)
                        <==> p.body.bytes.is_none()
                    &&& bytes_match(p.body, req.content, req.data)
                    &&& p.multipart.is_some() == (p.body.kind == BodyKind::Multipart)
                    &&& p.multipart.is_some() ==> multipart_matches(
                        p.multipart.unwrap(),
                        req.data,
                        req.files@,
                    )
                    &&& p.headers@ == request_plan(
                        opt_entries(req.ordered_headers),
                        opt_entries(self.config.ordered_headers),
                        opt_entries(req.headers),
                        shape_of(p.body),
                        opt_text(p.body.content_type),
                        cookies_sent(req.cookies, self.cookies.dead(), jar.deep_view()),
                        or_default(self.config.split_cookies, false),
                    )
                    &&& auth_matches(
                        p.auth,
                        req.auth,
                        self.config.auth,
                        req.auth_bearer,
                        self.config.auth_bearer,
                    )
                    &&& opt_entries(p.params) == if req.params.is_some() {
                        opt_entries(req.params)
                    } else {
                        opt_entries(self.config.params)
                    }
                },
                Err(e) => e == ClientError::Method || e == ClientError::Encoding,
            },
    {
        let m = match method_from_bytes(method.as_bytes()) {
            Ok(m) => m,
            Err(_) => {
                return Err(ClientError::Method);
            },
        };
        let body_method = method_carries_body(method);
        let has_files = req.files.len() > 0;
        let body = match encode_body(body_method, has_files, &req.content, &req.data, &req.json) {
            Ok(b) => b,
            Err(_) => {
                return Err(ClientError::Encoding);
            },
        };
        let multipart = if body.kind == BodyKind::Multipart {
            Some(plan_multipart(&req.data, &req.files))
        } else {
            None
        };
        let visible = self.cookies.get_all_cookies(jar);
        let cookies = effective_cookies(req.cookies, visible);
        let shape = body_shape(&body);
        let headers = plan_headers(
            &req.ordered_headers,
            &self.config.ordered_headers,
            &req.headers,
            shape,
            &body.content_type,
            &cookies,
            bool_or(self.config.split_cookies, false),
        );
        let auth = resolve_auth(req.auth, &self.config.auth, req.auth_bearer, &self.config.auth_bearer);
        let params = match req.params {
            Some(p) => Some(p),
            None => match &self.config.params {
                Some(p) => Some(index_map_clone(p)),
                None => None,
            },
        };
        Ok(PreparedRequest { method: m, params, headers, body, multipart, auth })
    }
}

} // verus!
