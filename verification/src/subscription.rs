//! Subscription handling: decoding a subscription body, finding its first
//! VLESS link, parsing that link into a `VlessConfig`.
use vstd::prelude::*;
use vstd::utf8::{
    decode_utf8, encode_scalar, encode_utf8, encode_utf8_decode_utf8, encode_utf8_valid_utf8,
    valid_utf8,
};

use base64::Engine;

use crate::json::{
    get_index, get_key, json_str, json_view, lemma_member_absent, lemma_member_at, ArrayBuilder, Json,
    JsonView, ObjectBuilder,
};
use crate::text::{
    chars_of, find_line_end, has_prefix, is_unicode_whitespace, is_whitespace, lemma_line_end,
    line_end, push_char, range_starts_with, str_eq, string_from_chars, to_owned_string, trim,
    trim_bounds,
};

verus! {

/// The parameters of a VLESS Reality server, as read from a `vless://` link.
#[derive(Debug)]
pub struct VlessConfig {
    pub uuid: String,
    pub host: String,
    pub port: u16,
    pub encryption: String,
    pub public_key: String,
    pub short_id: String,
    pub sni: String,
    pub fingerprint: String,
    pub flow: String,
    pub spider_x: String,
    pub remark: String,
}

pub struct VlessConfigView {
    pub uuid: Seq<char>,
    pub host: Seq<char>,
    pub port: u16,
    pub encryption: Seq<char>,
    pub public_key: Seq<char>,
    pub short_id: Seq<char>,
    pub sni: Seq<char>,
    pub fingerprint: Seq<char>,
    pub flow: Seq<char>,
    pub spider_x: Seq<char>,
    pub remark: Seq<char>,
}

impl View for VlessConfig {
    type V = VlessConfigView;

    open spec fn view(&self) -> VlessConfigView {
        VlessConfigView {
            uuid: self.uuid@,
            host: self.host@,
            port: self.port,
            encryption: self.encryption@,
            public_key: self.public_key@,
            short_id: self.short_id@,
            sni: self.sni@,
            fingerprint: self.fingerprint@,
            flow: self.flow@,
            spider_x: self.spider_x@,
            remark: self.remark@,
        }
    }
}

impl VlessConfig {
    /// A copy of this configuration.
    pub fn duplicate(&self) -> (r: VlessConfig)
        ensures
            r@ == self@,
    {
        VlessConfig {
            uuid: self.uuid.clone(),
            host: self.host.clone(),
            port: self.port,
            encryption: self.encryption.clone(),
            public_key: self.public_key.clone(),
            short_id: self.short_id.clone(),
            sni: self.sni.clone(),
            fingerprint: self.fingerprint.clone(),
            flow: self.flow.clone(),
            spider_x: self.spider_x.clone(),
            remark: self.remark.clone(),
        }
    }
}

/// Why a `vless://` link was refused.
#[derive(Debug, Clone, Copy, PartialEq, Eq, Structural)]
pub enum VlessError {
    InvalidUrl,
    MissingUuid,
    MissingHost,
    MissingPort,
    MissingPublicKey,
}

impl VlessError {
    pub open spec fn spec_message(self) -> Seq<char> {
        match self {
            VlessError::InvalidUrl => "invalid vless url"@,
            VlessError::MissingUuid => "missing uuid in vless url"@,
            VlessError::MissingHost => "missing host"@,
            VlessError::MissingPort => "missing port"@,
            VlessError::MissingPublicKey => "missing pbk (public key) in vless url"@,
        }
    }

    /// The text shown to the user for this error.
    pub fn message(&self) -> (r: String)
        ensures
            r@ == self.spec_message(),
    {
        match self {
            VlessError::InvalidUrl => to_owned_string("invalid vless url"),
            VlessError::MissingUuid => to_owned_string("missing uuid in vless url"),
            VlessError::MissingHost => to_owned_string("missing host"),
            VlessError::MissingPort => to_owned_string("missing port"),
            VlessError::MissingPublicKey => to_owned_string("missing pbk (public key) in vless url"),
        }
    }
}

/// Why a subscription body yielded no configuration.
#[derive(Debug, Clone, Copy, PartialEq, Eq, Structural)]
pub enum SubscriptionError {
    NoVlessConfig,
    Vless(VlessError),
}

impl SubscriptionError {
    pub open spec fn spec_message(self) -> Seq<char> {
        match self {
            SubscriptionError::NoVlessConfig => "no vless config in subscription"@,
            SubscriptionError::Vless(e) => e.spec_message(),
        }
    }

    /// The text shown to the user for this error.
    pub fn message(&self) -> (r: String)
        ensures
            r@ == self.spec_message(),
    {
        match self {
            SubscriptionError::NoVlessConfig => to_owned_string("no vless config in subscription"),
            SubscriptionError::Vless(e) => e.message(),
        }
    }
}

// ---------------------------------------------------------------------------
// URL components
// ---------------------------------------------------------------------------

/// What the link parser reads of a parsed URL: the user name, host, explicit
/// port, the decoded query pairs in order, and the fragment.
pub struct UrlParts {
    pub username: String,
    pub host: Option<String>,
    pub port: Option<u16>,
    pub query_pairs: Vec<(String, String)>,
    pub fragment: Option<String>,
}

pub struct UrlPartsView {
    pub username: Seq<char>,
    pub host: Option<Seq<char>>,
    pub port: Option<u16>,
    pub query_pairs: Seq<(Seq<char>, Seq<char>)>,
    pub fragment: Option<Seq<char>>,
}

impl View for UrlParts {
    type V = UrlPartsView;

    open spec fn view(&self) -> UrlPartsView {
        UrlPartsView {
            username: self.username@,
            host: self.host.deep_view(),
            port: self.port,
            query_pairs: self.query_pairs.deep_view(),
            fragment: self.fragment.deep_view(),
        }
    }
}

/// The components that the WHATWG URL parser of the `url` crate gives for
/// `input`, or `None` where it refuses `input`.
pub uninterp spec fn url_parse(input: Seq<char>) -> Option<UrlPartsView>;

/// Parses `input` with `url::Url::parse` and reads `username`, `host_str`,
/// `port`, `query_pairs` and `fragment` of the result. Claimed: the result
/// is `url_parse` of the input; nothing is stated of what that is.
#[verifier::external_body]
fn parse_url(input: &str) -> (r: Option<UrlParts>)
    ensures
        r.is_some() == url_parse(input@).is_some(),
        r matches Some(p) ==> url_parse(input@) == Some(p@),
{
    let u = url::Url::parse(input).ok()?;
    Some(
        UrlParts {
            username: u.username().to_string(),
            host: u.host_str().map(|h| h.to_string()),
            port: u.port(),
            query_pairs: u.query_pairs().map(|(k, v)| (k.into_owned(), v.into_owned())).collect(),
            fragment: u.fragment().map(|f| f.to_string()),
        },
    )
}

// ---------------------------------------------------------------------------
// Percent decoding of the remark
// ---------------------------------------------------------------------------

pub open spec fn hex_value(b: u8) -> Option<u8> {
    if 48 <= b <= 57 {
        Some((b - 48) as u8)
    } else if 65 <= b <= 70 {
        Some((b - 55) as u8)
    } else if 97 <= b <= 102 {
        Some((b - 87) as u8)
    } else {
        None
    }
}

/// Percent-decoding of bytes: each `%` followed by two hex digits becomes
/// the byte they spell; every other byte, `+` included, stays as it is.
pub open spec fn percent_decode_bytes(b: Seq<u8>) -> Seq<u8>
    decreases b.len(),
{
    if b.len() == 0 {
        b
    } else if b[0] == 37 && b.len() >= 3 && hex_value(b[1]) is Some && hex_value(b[2]) is Some {
        seq![(hex_value(b[1])->0 * 16 + hex_value(b[2])->0) as u8] + percent_decode_bytes(
            b.skip(3),
        )
    } else {
        seq![b[0]] + percent_decode_bytes(b.skip(1))
    }
}

/// The text that percent-decoding `s` yields, or `None` where the decoded
/// bytes are not UTF-8.
pub open spec fn percent_decoded(s: Seq<char>) -> Option<Seq<char>> {
    let b = percent_decode_bytes(encode_utf8(s));
    if valid_utf8(b) {
        Some(decode_utf8(b))
    } else {
        None
    }
}

/// `urlencoding::decode`: percent-decodes the UTF-8 bytes of `s` and reads
/// the result as UTF-8, failing where it is not.
#[verifier::external_body]
fn url_decode(s: &str) -> (r: Option<String>)
    ensures
        r.is_some() == percent_decoded(s@).is_some(),
        r matches Some(t) ==> percent_decoded(s@) == Some(t@),
{
    urlencoding::decode(s).ok().map(|c| c.into_owned())
}

/// The remark of a link: its fragment, percent-decoded where that yields
/// UTF-8, else as it stands; empty without a fragment.
pub open spec fn remark_of(fragment: Option<Seq<char>>) -> Seq<char> {
    match fragment {
        None => Seq::empty(),
        Some(f) => match percent_decoded(f) {
            Some(t) => t,
            None => f,
        },
    }
}

pub fn decode_remark(fragment: &Option<String>) -> (r: String)
    ensures
        r@ == remark_of(fragment.deep_view()),
{
    match fragment {
        None => String::new(),
        Some(f) => match url_decode(f.as_str()) {
            Some(t) => t,
            None => f.clone(),
        },
    }
}

// ---------------------------------------------------------------------------
// vless:// links
// ---------------------------------------------------------------------------

/// The value of the last query pair named `key`.
pub open spec fn query_value(pairs: Seq<(Seq<char>, Seq<char>)>, key: Seq<char>) -> Option<
    Seq<char>,
>
    decreases pairs.len(),
{
    if pairs.len() == 0 {
        None
    } else if pairs.last().0 == key {
        Some(pairs.last().1)
    } else {
        query_value(pairs.drop_last(), key)
    }
}

/// The value of the last query pair named `key`, or `default`.
pub open spec fn query_or(pairs: Seq<(Seq<char>, Seq<char>)>, key: Seq<char>, default: Seq<char>) -> Seq<char> {
    match query_value(pairs, key) {
        Some(v) => v,
        None => default,
    }
}

/// The configuration that a link with components `p` describes, or the
/// first of its faults: no user (uuid), no host, no port, no `pbk`
/// (public key). `sni` defaults to the host, `encryption` to `none`,
/// `fp` to `chrome`, the other parameters to the empty string.
pub open spec fn vless_from_parts(p: UrlPartsView) -> Result<VlessConfigView, VlessError> {
    let q = p.query_pairs;
    if p.username.len() == 0 {
        Err(VlessError::MissingUuid)
    } else if p.host is None {
        Err(VlessError::MissingHost)
    } else if p.port is None {
        Err(VlessError::MissingPort)
    } else if query_or(q, "pbk"@, Seq::empty()).len() == 0 {
        Err(VlessError::MissingPublicKey)
    } else {
        let host = p.host->0;
        let sni = query_or(q, "sni"@, Seq::empty());
        Ok(
            VlessConfigView {
                uuid: p.username,
                host: host,
                port: p.port->0,
                encryption: query_or(q, "encryption"@, "none"@),
                public_key: query_or(q, "pbk"@, Seq::empty()),
                short_id: query_or(q, "sid"@, Seq::empty()),
                sni: if sni.len() == 0 {
                    host
                } else {
                    sni
                },
                fingerprint: query_or(q, "fp"@, "chrome"@),
                flow: query_or(q, "flow"@, Seq::empty()),
                spider_x: query_or(q, "spx"@, Seq::empty()),
                remark: remark_of(p.fragment),
            },
        )
    }
}

/// What `parse_vless_url` gives for the link text `raw`.
pub open spec fn vless_from_link(raw: Seq<char>) -> Result<VlessConfigView, VlessError> {
    match url_parse(raw) {
        None => Err(VlessError::InvalidUrl),
        Some(p) => vless_from_parts(p),
    }
}

pub open spec fn result_view(r: Result<VlessConfig, VlessError>) -> Result<VlessConfigView, VlessError> {
    match r {
        Ok(c) => Ok(c@),
        Err(e) => Err(e),
    }
}

proof fn lemma_query_value_step(pairs: Seq<(Seq<char>, Seq<char>)>, i: int, key: Seq<char>)
    requires
        0 <= i < pairs.len(),
    ensures
        query_value(pairs.take(i + 1), key) == if pairs[i].0 == key {
            Some(pairs[i].1)
        } else {
            query_value(pairs.take(i), key)
        },
{
    assert(pairs.take(i + 1).drop_last() =~= pairs.take(i));
}

/// Builds the configuration from the components of a parsed link.
pub fn vless_config_from_url(parts: UrlParts) -> (r: Result<VlessConfig, VlessError>)
    ensures
        result_view(r) == vless_from_parts(parts@),
{
    let ghost q = parts@.query_pairs;
    if parts.username.as_str().is_empty() {
        return Err(VlessError::MissingUuid);
    }
    let host = match parts.host {
        Some(h) => h,
        None => {
            return Err(VlessError::MissingHost);
        },
    };
    let port = match parts.port {
        Some(p) => p,
        None => {
            return Err(VlessError::MissingPort);
        },
    };
    let mut encryption = to_owned_string("none");
    let mut public_key = String::new();
    let mut short_id = String::new();
    let mut sni = String::new();
    let mut fingerprint = to_owned_string("chrome");
    let mut flow = String::new();
    let mut spider_x = String::new();
    let pairs = &parts.query_pairs;
    let mut i: usize = 0;
    proof {
        assert(q.take(0) =~= Seq::<(Seq<char>, Seq<char>)>::empty());
    }
    while i < pairs.len()
        invariant
            i <= pairs@.len(),
            q == pairs.deep_view(),
            q.len() == pairs@.len(),
            encryption@ == query_or(q.take(i as int), "encryption"@, "none"@),
            public_key@ == query_or(q.take(i as int), "pbk"@, Seq::empty()),
            short_id@ == query_or(q.take(i as int), "sid"@, Seq::empty()),
            sni@ == query_or(q.take(i as int), "sni"@, Seq::empty()),
            fingerprint@ == query_or(q.take(i as int), "fp"@, "chrome"@),
            flow@ == query_or(q.take(i as int), "flow"@, Seq::empty()),
            spider_x@ == query_or(q.take(i as int), "spx"@, Seq::empty()),
        decreases pairs@.len() - i,
    {
        let (k, v) = &pairs[i];
        proof {
            assert(q[i as int] == (k@, v@));
            lemma_query_value_step(q, i as int, "encryption"@);
            lemma_query_value_step(q, i as int, "pbk"@);
            lemma_query_value_step(q, i as int, "sid"@);
            lemma_query_value_step(q, i as int, "sni"@);
            lemma_query_value_step(q, i as int, "fp"@);
            lemma_query_value_step(q, i as int, "flow"@);
            lemma_query_value_step(q, i as int, "spx"@);
        }
        let k = k.as_str();
        if str_eq(k, "encryption") {
            encryption = v.clone();
        }
        if str_eq(k, "pbk") {
            public_key = v.clone();
        }
        if str_eq(k, "sid") {
            short_id = v.clone();
        }
        if str_eq(k, "sni") {
            sni = v.clone();
        }
        if str_eq(k, "fp") {
            fingerprint = v.clone();
        }
        if str_eq(k, "flow") {
            flow = v.clone();
        }
        if str_eq(k, "spx") {
            spider_x = v.clone();
        }
        i = i + 1;
    }
    proof {
        assert(q.take(q.len() as int) =~= q);
    }
    if public_key.as_str().is_empty() {
        return Err(VlessError::MissingPublicKey);
    }
    if sni.as_str().is_empty() {
        sni = host.clone();
    }
    let remark = decode_remark(&parts.fragment);
    Ok(
        VlessConfig {
            uuid: parts.username,
            host,
            port,
            encryption,
            public_key,
            short_id,
            sni,
            fingerprint,
            flow,
            spider_x,
            remark,
        },
    )
}

/// Parses a `vless://` link.
pub fn parse_vless_url(raw: &str) -> (r: Result<VlessConfig, VlessError>)
    ensures
        result_view(r) == vless_from_link(raw@),
{
    match parse_url(raw) {
        None => Err(VlessError::InvalidUrl),
        Some(parts) => vless_config_from_url(parts),
    }
}

// ---------------------------------------------------------------------------
// Subscription bodies
// ---------------------------------------------------------------------------

/// The bytes that decoding `text` as standard Base64 (RFC 4648 alphabet,
/// canonical `=` padding, no stray trailing bits) gives, or `None` where the
/// decoder of the `base64` crate refuses it.
pub uninterp spec fn base64_standard_decode(text: Seq<char>) -> Option<Seq<u8>>;

/// `base64::engine::general_purpose::STANDARD.decode`. Claimed: the result
/// is `base64_standard_decode` of the text; nothing is stated of what that is.
#[verifier::external_body]
fn base64_decode(text: &str) -> (r: Option<Vec<u8>>)
    ensures
        r.is_some() == base64_standard_decode(text@).is_some(),
        r matches Some(v) ==> base64_standard_decode(text@) == Some(v@),
{
    base64::engine::general_purpose::STANDARD.decode(text).ok()
}

/// `String::from_utf8`: succeeds exactly on valid UTF-8 and then holds the
/// characters that the bytes encode.
#[verifier::external_body]
fn string_from_utf8(bytes: Vec<u8>) -> (r: Option<String>)
    ensures
        r.is_some() == valid_utf8(bytes@),
        r matches Some(s) ==> s@ == decode_utf8(bytes@),
{
    String::from_utf8(bytes).ok()
}

/// `s` without any whitespace character.
pub open spec fn remove_whitespace(s: Seq<char>) -> Seq<char>
    decreases s.len(),
{
    if s.len() == 0 {
        s
    } else if is_unicode_whitespace(s.last()) {
        remove_whitespace(s.drop_last())
    } else {
        remove_whitespace(s.drop_last()).push(s.last())
    }
}

/// The text of a subscription body: the body read as Base64 once all
/// whitespace is removed, where that decodes to UTF-8; the body itself
/// otherwise. `decoded` is what Base64 decoding gave.
pub open spec fn subscription_text_from(body: Seq<char>, decoded: Option<Seq<u8>>) -> Seq<char> {
    match decoded {
        Some(b) => if valid_utf8(b) {
            decode_utf8(b)
        } else {
            body
        },
        None => body,
    }
}

/// The text of a subscription body.
pub open spec fn subscription_text(body: Seq<char>) -> Seq<char> {
    subscription_text_from(body, base64_standard_decode(remove_whitespace(body)))
}

/// `body` with all whitespace removed.
pub fn strip_whitespace(body: &str) -> (r: String)
    ensures
        r@ == remove_whitespace(body@),
{
    let v = chars_of(body);
    let mut out = String::new();
    let mut i: usize = 0;
    proof {
        assert(v@.take(0) =~= Seq::<char>::empty());
    }
    while i < v.len()
        invariant
            i <= v@.len(),
            v@ == body@,
            out@ == remove_whitespace(v@.take(i as int)),
        decreases v@.len() - i,
    {
        proof {
            assert(v@.take(i + 1).drop_last() =~= v@.take(i as int));
        }
        if !is_whitespace(v[i]) {
            push_char(&mut out, v[i]);
        }
        i = i + 1;
    }
    proof {
        assert(v@.take(v@.len() as int) =~= v@);
    }
    out
}

pub open spec fn bytes_view(b: Option<Vec<u8>>) -> Option<Seq<u8>> {
    match b {
        Some(v) => Some(v@),
        None => None,
    }
}

/// Picks the subscription text once Base64 decoding has given `decoded`.
pub fn subscription_text_after_decode(body: &str, decoded: Option<Vec<u8>>) -> (r: String)
    ensures
        r@ == subscription_text_from(body@, bytes_view(decoded)),
{
    match decoded {
        Some(bytes) => {
            let ghost b = bytes@;
            match string_from_utf8(bytes) {
                Some(s) => s,
                None => to_owned_string(body),
            }
        },
        None => to_owned_string(body),
    }
}

/// Decodes a subscription body (see `subscription_text`).
pub fn decode_subscription_body(body: &str) -> (r: String)
    ensures
        r@ == subscription_text(body@),
{
    let cleaned = strip_whitespace(body);
    let decoded = base64_decode(cleaned.as_str());
    subscription_text_after_decode(body, decoded)
}

/// The first line of `s` (lines end at `'\n'`) that, trimmed, starts with
/// `vless://`, trimmed.
pub open spec fn first_vless_line(s: Seq<char>) -> Option<Seq<char>>
    decreases s.len(),
{
    let e = line_end(s);
    let line = trim(s.take(e));
    if has_prefix(line, "vless://"@) {
        Some(line)
    } else if e >= s.len() {
        None
    } else {
        proof {
            lemma_line_end(s);
        }
        first_vless_line(s.skip(e + 1))
    }
}

/// Finds the first `vless://` line of `text` (see `first_vless_line`).
pub fn find_vless_line(text: &str) -> (r: Option<String>)
    ensures
        r.deep_view() == first_vless_line(text@),
{
    let v = chars_of(text);
    let mut start: usize = 0;
    proof {
        assert(v@.skip(0) =~= v@);
    }
    while start <= v.len()
        invariant
            start <= v@.len(),
            v@ == text@,
            first_vless_line(v@) == first_vless_line(v@.skip(start as int)),
        decreases v@.len() + 1 - start,
    {
        let ghost s = v@.skip(start as int);
        let e = find_line_end(&v, start);
        proof {
            lemma_line_end(s);
            assert(s.take(e - start) =~= v@.subrange(start as int, e as int));
        }
        let (lo, hi) = trim_bounds(&v, start, e);
        if range_starts_with(&v, lo, hi, "vless://") {
            return Some(string_from_chars(&v, lo, hi));
        }
        if e >= v.len() {
            return None;
        }
        proof {
            assert(s.skip(e - start + 1) =~= v@.skip(e + 1));
        }
        start = e + 1;
    }
    None
}

pub open spec fn subscription_result_view(r: Result<VlessConfig, SubscriptionError>) -> Result<
    VlessConfigView,
    SubscriptionError,
> {
    match r {
        Ok(c) => Ok(c@),
        Err(e) => Err(e),
    }
}

/// What a subscription body yields: the configuration of its first
/// `vless://` line.
pub open spec fn subscription_config(body: Seq<char>) -> Result<VlessConfigView, SubscriptionError> {
    match first_vless_line(subscription_text(body)) {
        None => Err(SubscriptionError::NoVlessConfig),
        Some(line) => match vless_from_link(line) {
            Ok(c) => Ok(c),
            Err(e) => Err(SubscriptionError::Vless(e)),
        },
    }
}

/// Reads the configuration out of a fetched subscription body.
pub fn parse_subscription(body: &str) -> (r: Result<VlessConfig, SubscriptionError>)
    ensures
        subscription_result_view(r) == subscription_config(body@),
{
    let text = decode_subscription_body(body);
    match find_vless_line(text.as_str()) {
        None => Err(SubscriptionError::NoVlessConfig),
        Some(line) => match parse_vless_url(line.as_str()) {
            Ok(c) => Ok(c),
            Err(e) => Err(SubscriptionError::Vless(e)),
        },
    }
}

// ---------------------------------------------------------------------------
// Xray configuration
// ---------------------------------------------------------------------------

pub open spec fn jstr(s: Seq<char>) -> JsonView {
    JsonView::Str(s)
}

/// Domains that are routed directly, outside the tunnel.
pub open spec fn direct_domains() -> Seq<JsonView> {
    seq![
        JsonView::Str("domain:yandex.ru"@),
        JsonView::Str("domain:yandex.com"@),
        JsonView::Str("domain:yandex.net"@),
        JsonView::Str("domain:ya.ru"@),
        JsonView::Str("domain:vk.com"@),
        JsonView::Str("domain:vk.ru"@),
        JsonView::Str("domain:vkuser.net"@),
        JsonView::Str("domain:userapi.com"@),
        JsonView::Str("domain:vk-cdn.net"@),
        JsonView::Str("domain:vk-cdn.com"@),
        JsonView::Str("domain:mail.ru"@),
        JsonView::Str("domain:my.com"@),
        JsonView::Str("domain:imgsmail.ru"@),
        JsonView::Str("domain:ok.ru"@),
        JsonView::Str("domain:odnoklassniki.ru"@),
        JsonView::Str("domain:gosuslugi.ru"@),
        JsonView::Str("domain:nalog.ru"@),
        JsonView::Str("domain:nalog.gov.ru"@),
        JsonView::Str("domain:sber.ru"@),
        JsonView::Str("domain:sberbank.ru"@),
        JsonView::Str("domain:sberbank.com"@),
        JsonView::Str("domain:tinkoff.ru"@),
        JsonView::Str("domain:t-bank.ru"@),
        JsonView::Str("domain:tbank.ru"@),
        JsonView::Str("domain:vtb.ru"@),
        JsonView::Str("domain:alfabank.ru"@),
        JsonView::Str("domain:raiffeisen.ru"@),
        JsonView::Str("domain:rzd.ru"@),
        JsonView::Str("domain:tutu.ru"@),
        JsonView::Str("domain:aviasales.ru"@),
        JsonView::Str("domain:wildberries.ru"@),
        JsonView::Str("domain:ozon.ru"@),
        JsonView::Str("domain:ozon.com"@),
        JsonView::Str("domain:avito.ru"@),
        JsonView::Str("domain:cian.ru"@),
        JsonView::Str("domain:hh.ru"@),
        JsonView::Str("domain:rambler.ru"@),
        JsonView::Str("domain:lenta.ru"@),
        JsonView::Str("domain:rbc.ru"@),
        JsonView::Str("domain:ria.ru"@),
        JsonView::Str("domain:tass.ru"@),
        JsonView::Str("domain:kommersant.ru"@),
        JsonView::Str("domain:kinopoisk.ru"@),
        JsonView::Str("domain:ivi.ru"@),
        JsonView::Str("domain:rutube.ru"@),
        JsonView::Str("domain:2gis.ru"@),
        JsonView::Str("domain:2gis.com"@),
        JsonView::Str("domain:2gis.kz"@),
        JsonView::Str("domain:dns-shop.ru"@),
        JsonView::Str("domain:mvideo.ru"@),
        JsonView::Str("domain:eldorado.ru"@),
        JsonView::Str("domain:proxysvpn.com"@)
    ]
}

/// The user entry of the VLESS outbound: `flow` only where it is set.
pub open spec fn xray_user(c: VlessConfigView) -> JsonView {
    let base = seq![("id"@, jstr(c.uuid)), ("encryption"@, jstr(c.encryption))];
    JsonView::Object(
        if c.flow.len() == 0 {
            base
        } else {
            base.push(("flow"@, jstr(c.flow)))
        },
    )
}

/// The Reality settings: `spiderX` only where it is set.
pub open spec fn xray_reality(c: VlessConfigView) -> JsonView {
    let base = seq![
        ("serverName"@, jstr(c.sni)),
        ("fingerprint"@, jstr(c.fingerprint)),
        ("publicKey"@, jstr(c.public_key)),
        ("shortId"@, jstr(c.short_id)),
    ];
    JsonView::Object(
        if c.spider_x.len() == 0 {
            base
        } else {
            base.push(("spiderX"@, jstr(c.spider_x)))
        },
    )
}

/// The SOCKS inbound on 127.0.0.1:10808 that the TUN bridge consumes.
pub open spec fn xray_inbound() -> JsonView {
    JsonView::Object(
        seq![
            ("tag"@, jstr("socks-in"@)),
            ("listen"@, jstr("127.0.0.1"@)),
            ("port"@, JsonView::Number(10808)),
            ("protocol"@, jstr("socks"@)),
            ("settings"@, JsonView::Object(seq![("udp"@, JsonView::Bool(true)), ("auth"@, jstr("noauth"@))])),
            ("sniffing"@, JsonView::Object(seq![
                ("enabled"@, JsonView::Bool(true)),
                ("destOverride"@, JsonView::Array(seq![jstr("http"@), jstr("tls"@)])),
            ])),
        ],
    )
}

/// The outbounds: the VLESS Reality proxy first (the default route), then
/// `direct` and `block`.
pub open spec fn xray_outbounds(c: VlessConfigView) -> JsonView {
    let vnext = JsonView::Object(
        seq![
            ("address"@, jstr(c.host)),
            ("port"@, JsonView::Number(c.port as nat)),
            ("users"@, JsonView::Array(seq![xray_user(c)])),
        ],
    );
    let proxy = JsonView::Object(
        seq![
            ("tag"@, jstr("proxy"@)),
            ("protocol"@, jstr("vless"@)),
            ("settings"@, JsonView::Object(seq![("vnext"@, JsonView::Array(seq![vnext]))])),
            ("streamSettings"@, JsonView::Object(seq![
                ("network"@, jstr("tcp"@)),
                ("security"@, jstr("reality"@)),
                ("realitySettings"@, xray_reality(c)),
            ])),
        ],
    );
    let direct = JsonView::Object(seq![("tag"@, jstr("direct"@)), ("protocol"@, jstr("freedom"@))]);
    let block = JsonView::Object(seq![("tag"@, jstr("block"@)), ("protocol"@, jstr("blackhole"@))]);
    JsonView::Array(seq![proxy, direct, block])
}

/// Routing: QUIC (UDP/443) blocked; private and Russian addresses and the
/// listed domains direct; everything else through the proxy.
pub open spec fn xray_routing() -> JsonView {
    let block_quic = JsonView::Object(
        seq![
            ("type"@, jstr("field"@)),
            ("outboundTag"@, jstr("block"@)),
            ("network"@, jstr("udp"@)),
            ("port"@, jstr("443"@)),
        ],
    );
    let private_ip = JsonView::Object(
        seq![
            ("type"@, jstr("field"@)),
            ("outboundTag"@, jstr("direct"@)),
            ("ip"@, JsonView::Array(seq![jstr("geoip:private"@)])),
        ],
    );
    let ru_ip = JsonView::Object(
        seq![
            ("type"@, jstr("field"@)),
            ("outboundTag"@, jstr("direct"@)),
            ("ip"@, JsonView::Array(seq![jstr("geoip:ru"@)])),
        ],
    );
    let ru_domains = JsonView::Object(
        seq![
            ("type"@, jstr("field"@)),
            ("outboundTag"@, jstr("direct"@)),
            ("domain"@, JsonView::Array(direct_domains())),
        ],
    );
    JsonView::Object(
        seq![
            ("domainStrategy"@, jstr("IPIfNonMatch"@)),
            ("rules"@, JsonView::Array(seq![block_quic, private_ip, ru_ip, ru_domains])),
        ],
    )
}

/// The whole Xray runtime configuration for `c`.
pub open spec fn xray_config(c: VlessConfigView) -> JsonView {
    JsonView::Object(
        seq![
            ("log"@, JsonView::Object(seq![("loglevel"@, jstr("warning"@))])),
            ("inbounds"@, JsonView::Array(seq![xray_inbound()])),
            ("outbounds"@, xray_outbounds(c)),
            ("routing"@, xray_routing()),
        ],
    )
}

#[verifier::rlimit(60)]
fn direct_domains_json() -> (r: Json)
    ensures
        json_view(r) == JsonView::Array(direct_domains()),
{
    let mut domains = ArrayBuilder::new();
    domains.push(json_str("domain:yandex.ru"));
    domains.push(json_str("domain:yandex.com"));
    domains.push(json_str("domain:yandex.net"));
    domains.push(json_str("domain:ya.ru"));
    domains.push(json_str("domain:vk.com"));
    domains.push(json_str("domain:vk.ru"));
    domains.push(json_str("domain:vkuser.net"));
    domains.push(json_str("domain:userapi.com"));
    domains.push(json_str("domain:vk-cdn.net"));
    domains.push(json_str("domain:vk-cdn.com"));
    domains.push(json_str("domain:mail.ru"));
    domains.push(json_str("domain:my.com"));
    domains.push(json_str("domain:imgsmail.ru"));
    domains.push(json_str("domain:ok.ru"));
    domains.push(json_str("domain:odnoklassniki.ru"));
    domains.push(json_str("domain:gosuslugi.ru"));
    domains.push(json_str("domain:nalog.ru"));
    domains.push(json_str("domain:nalog.gov.ru"));
    domains.push(json_str("domain:sber.ru"));
    domains.push(json_str("domain:sberbank.ru"));
    domains.push(json_str("domain:sberbank.com"));
    domains.push(json_str("domain:tinkoff.ru"));
    domains.push(json_str("domain:t-bank.ru"));
    domains.push(json_str("domain:tbank.ru"));
    domains.push(json_str("domain:vtb.ru"));
    domains.push(json_str("domain:alfabank.ru"));
    domains.push(json_str("domain:raiffeisen.ru"));
    domains.push(json_str("domain:rzd.ru"));
    domains.push(json_str("domain:tutu.ru"));
    domains.push(json_str("domain:aviasales.ru"));
    domains.push(json_str("domain:wildberries.ru"));
    domains.push(json_str("domain:ozon.ru"));
    domains.push(json_str("domain:ozon.com"));
    domains.push(json_str("domain:avito.ru"));
    domains.push(json_str("domain:cian.ru"));
    domains.push(json_str("domain:hh.ru"));
    domains.push(json_str("domain:rambler.ru"));
    domains.push(json_str("domain:lenta.ru"));
    domains.push(json_str("domain:rbc.ru"));
    domains.push(json_str("domain:ria.ru"));
    domains.push(json_str("domain:tass.ru"));
    domains.push(json_str("domain:kommersant.ru"));
    domains.push(json_str("domain:kinopoisk.ru"));
    domains.push(json_str("domain:ivi.ru"));
    domains.push(json_str("domain:rutube.ru"));
    domains.push(json_str("domain:2gis.ru"));
    domains.push(json_str("domain:2gis.com"));
    domains.push(json_str("domain:2gis.kz"));
    domains.push(json_str("domain:dns-shop.ru"));
    domains.push(json_str("domain:mvideo.ru"));
    domains.push(json_str("domain:eldorado.ru"));
    domains.push(json_str("domain:proxysvpn.com"));
    assert(domains.items() =~= direct_domains());
    domains.build()
}

fn user_json(cfg: &VlessConfig) -> (r: Json)
    ensures
        json_view(r) == xray_user(cfg@),
{
    let mut user = ObjectBuilder::new();
    user.insert("id", json_str(cfg.uuid.as_str()));
    user.insert("encryption", json_str(cfg.encryption.as_str()));
    assert(user.fields() =~= seq![("id"@, jstr(cfg.uuid@)), ("encryption"@, jstr(cfg.encryption@))]);
    if !cfg.flow.as_str().is_empty() {
        user.insert("flow", json_str(cfg.flow.as_str()));
    }
    user.build()
}

fn reality_json(cfg: &VlessConfig) -> (r: Json)
    ensures
        json_view(r) == xray_reality(cfg@),
{
    let mut reality = ObjectBuilder::new();
    reality.insert("serverName", json_str(cfg.sni.as_str()));
    reality.insert("fingerprint", json_str(cfg.fingerprint.as_str()));
    reality.insert("publicKey", json_str(cfg.public_key.as_str()));
    reality.insert("shortId", json_str(cfg.short_id.as_str()));
    assert(reality.fields() =~= seq![
        ("serverName"@, jstr(cfg.sni@)),
        ("fingerprint"@, jstr(cfg.fingerprint@)),
        ("publicKey"@, jstr(cfg.public_key@)),
        ("shortId"@, jstr(cfg.short_id@)),
    ]);
    if !cfg.spider_x.as_str().is_empty() {
        reality.insert("spiderX", json_str(cfg.spider_x.as_str()));
    }
    reality.build()
}

fn inbound_json() -> (r: Json)
    ensures
        json_view(r) == xray_inbound(),
{
    let mut settings = ObjectBuilder::new();
    settings.insert("udp", Json::Bool(true));
    settings.insert("auth", json_str("noauth"));
    assert(settings.fields() =~= seq![("udp"@, JsonView::Bool(true)), ("auth"@, jstr("noauth"@))]);
    let mut dest = ArrayBuilder::new();
    dest.push(json_str("http"));
    dest.push(json_str("tls"));
    assert(dest.items() =~= seq![jstr("http"@), jstr("tls"@)]);
    let mut sniffing = ObjectBuilder::new();
    sniffing.insert("enabled", Json::Bool(true));
    sniffing.insert("destOverride", dest.build());
    assert(sniffing.fields() =~= seq![
        ("enabled"@, JsonView::Bool(true)),
        ("destOverride"@, JsonView::Array(seq![jstr("http"@), jstr("tls"@)])),
    ]);
    let mut inbound = ObjectBuilder::new();
    inbound.insert("tag", json_str("socks-in"));
    inbound.insert("listen", json_str("127.0.0.1"));
    inbound.insert("port", Json::Number(10808));
    inbound.insert("protocol", json_str("socks"));
    inbound.insert("settings", settings.build());
    inbound.insert("sniffing", sniffing.build());
    assert(inbound.fields() =~= xray_inbound()->Object_0);
    inbound.build()
}

fn tagged_json(tag: &str, protocol: &str) -> (r: Json)
    ensures
        json_view(r) == JsonView::Object(seq![("tag"@, jstr(tag@)), ("protocol"@, jstr(protocol@))]),
{
    let mut o = ObjectBuilder::new();
    o.insert("tag", json_str(tag));
    o.insert("protocol", json_str(protocol));
    assert(o.fields() =~= seq![("tag"@, jstr(tag@)), ("protocol"@, jstr(protocol@))]);
    o.build()
}

fn outbounds_json(cfg: &VlessConfig) -> (r: Json)
    ensures
        json_view(r) == xray_outbounds(cfg@),
{
    let ghost c = cfg@;
    let mut users = ArrayBuilder::new();
    users.push(user_json(cfg));
    assert(users.items() =~= seq![xray_user(c)]);
    let mut vnext = ObjectBuilder::new();
    vnext.insert("address", json_str(cfg.host.as_str()));
    vnext.insert("port", Json::Number(cfg.port as u64));
    vnext.insert("users", users.build());
    let ghost vnext_view = JsonView::Object(
        seq![
            ("address"@, jstr(c.host)),
            ("port"@, JsonView::Number(c.port as nat)),
            ("users"@, JsonView::Array(seq![xray_user(c)])),
        ],
    );
    assert(vnext.fields() =~= vnext_view->Object_0);
    let mut vnexts = ArrayBuilder::new();
    vnexts.push(vnext.build());
    assert(vnexts.items() =~= seq![vnext_view]);
    let mut settings = ObjectBuilder::new();
    settings.insert("vnext", vnexts.build());
    assert(settings.fields() =~= seq![("vnext"@, JsonView::Array(seq![vnext_view]))]);
    let mut stream = ObjectBuilder::new();
    stream.insert("network", json_str("tcp"));
    stream.insert("security", json_str("reality"));
    stream.insert("realitySettings", reality_json(cfg));
    assert(stream.fields() =~= seq![
        ("network"@, jstr("tcp"@)),
        ("security"@, jstr("reality"@)),
        ("realitySettings"@, xray_reality(c)),
    ]);
    let mut proxy = ObjectBuilder::new();
    proxy.insert("tag", json_str("proxy"));
    proxy.insert("protocol", json_str("vless"));
    proxy.insert("settings", settings.build());
    proxy.insert("streamSettings", stream.build());
    let ghost proxy_view = xray_outbounds(c)->Array_0[0];
    assert(proxy.fields() =~= proxy_view->Object_0);
    let mut outbounds = ArrayBuilder::new();
    outbounds.push(proxy.build());
    outbounds.push(tagged_json("direct", "freedom"));
    outbounds.push(tagged_json("block", "blackhole"));
    assert(outbounds.items() =~= xray_outbounds(c)->Array_0);
    outbounds.build()
}

fn direct_ip_rule(geo: &str) -> (r: Json)
    ensures
        json_view(r) == JsonView::Object(
            seq![
                ("type"@, jstr("field"@)),
                ("outboundTag"@, jstr("direct"@)),
                ("ip"@, JsonView::Array(seq![jstr(geo@)])),
            ],
        ),
{
    let mut ips = ArrayBuilder::new();
    ips.push(json_str(geo));
    assert(ips.items() =~= seq![jstr(geo@)]);
    let mut rule = ObjectBuilder::new();
    rule.insert("type", json_str("field"));
    rule.insert("outboundTag", json_str("direct"));
    rule.insert("ip", ips.build());
    assert(rule.fields() =~= seq![
        ("type"@, jstr("field"@)),
        ("outboundTag"@, jstr("direct"@)),
        ("ip"@, JsonView::Array(seq![jstr(geo@)])),
    ]);
    rule.build()
}

fn routing_json() -> (r: Json)
    ensures
        json_view(r) == xray_routing(),
{
    let ghost rules_view = xray_routing()->Object_0[1].1->Array_0;
    let mut block_quic = ObjectBuilder::new();
    block_quic.insert("type", json_str("field"));
    block_quic.insert("outboundTag", json_str("block"));
    block_quic.insert("network", json_str("udp"));
    block_quic.insert("port", json_str("443"));
    assert(block_quic.fields() =~= rules_view[0]->Object_0);
    let mut ru_domains = ObjectBuilder::new();
    ru_domains.insert("type", json_str("field"));
    ru_domains.insert("outboundTag", json_str("direct"));
    ru_domains.insert("domain", direct_domains_json());
    assert(ru_domains.fields() =~= rules_view[3]->Object_0);
    let mut rules = ArrayBuilder::new();
    rules.push(block_quic.build());
    rules.push(direct_ip_rule("geoip:private"));
    rules.push(direct_ip_rule("geoip:ru"));
    rules.push(ru_domains.build());
    assert(rules.items() =~= rules_view);
    let mut routing = ObjectBuilder::new();
    routing.insert("domainStrategy", json_str("IPIfNonMatch"));
    routing.insert("rules", rules.build());
    assert(routing.fields() =~= xray_routing()->Object_0);
    routing.build()
}

/// Builds the Xray runtime configuration for `cfg` (see `xray_config`).
pub fn build_xray_config(cfg: &VlessConfig) -> (r: Json)
    ensures
        json_view(r) == xray_config(cfg@),
{
    let mut log = ObjectBuilder::new();
    log.insert("loglevel", json_str("warning"));
    assert(log.fields() =~= seq![("loglevel"@, jstr("warning"@))]);
    let mut inbounds = ArrayBuilder::new();
    inbounds.push(inbound_json());
    assert(inbounds.items() =~= seq![xray_inbound()]);
    let mut root = ObjectBuilder::new();
    root.insert("log", log.build());
    root.insert("inbounds", inbounds.build());
    root.insert("outbounds", outbounds_json(cfg));
    root.insert("routing", routing_json());
    assert(root.fields() =~= xray_config(cfg@)->Object_0);
    root.build()
}

/// The SOCKS inbound of the Xray configuration listens on 127.0.0.1 at the
/// port that the TUN bridge forwards to.
pub proof fn lemma_inbound_feeds_bridge(c: VlessConfigView)
    ensures
        xray_config(c)->Object_0[1].1->Array_0[0]->Object_0[2].1 == JsonView::Number(
            crate::tun::SOCKS_PORT as nat,
        ),
        xray_config(c)->Object_0[1].1->Array_0[0]->Object_0[1].1 == jstr("127.0.0.1"@),
        crate::tun::bridge_args()[3] == "socks5://127.0.0.1:"@ + crate::text::decimal(
            crate::tun::SOCKS_PORT as int,
        ),
{
}

/// The VLESS user of the Xray configuration carries a `flow` exactly when
/// the link gave one, and the Reality settings a `spiderX` exactly when the
/// link gave one.
pub proof fn lemma_optional_settings(c: VlessConfigView)
    ensures
        xray_user(c)->Object_0.len() == if c.flow.len() == 0 { 2int } else { 3int },
        xray_reality(c)->Object_0.len() == if c.spider_x.len() == 0 { 4int } else { 5int },
{
}

proof fn lemma_encode_scalar_no_percent(c: char)
    requires
        c != '%',
    ensures
        forall|i: int|
            0 <= i < encode_scalar(c as u32).len() ==> #[trigger] encode_scalar(c as u32)[i] != 37,
{
    let v = c as u32;
    assert(v != 37);
    assert((v & 0x7F) as u8 != 37u8 || v > 0x7F) by (bit_vector)
        requires
            v != 37,
    ;
    assert(0xC0u8 | (((v >> 6) & 0x1F) as u8) >= 0x80u8) by (bit_vector);
    assert(0xE0u8 | (((v >> 12) & 0x0F) as u8) >= 0x80u8) by (bit_vector);
    assert(0xF0u8 | (((v >> 18) & 0x7) as u8) >= 0x80u8) by (bit_vector);
    assert(0x80u8 | ((v & 0x3F) as u8) >= 0x80u8) by (bit_vector);
    assert(0x80u8 | (((v >> 6) & 0x3F) as u8) >= 0x80u8) by (bit_vector);
    assert(0x80u8 | (((v >> 12) & 0x3F) as u8) >= 0x80u8) by (bit_vector);
}

proof fn lemma_encode_utf8_no_percent(s: Seq<char>)
    requires
        !s.contains('%'),
    ensures
        forall|i: int| 0 <= i < encode_utf8(s).len() ==> #[trigger] encode_utf8(s)[i] != 37,
    decreases s.len(),
{
    if s.len() > 0 {
        assert(s[0] != '%');
        lemma_encode_scalar_no_percent(s[0]);
        assert(!s.drop_first().contains('%')) by {
            if s.drop_first().contains('%') {
                let j = choose|j: int| 0 <= j < s.drop_first().len() && s.drop_first()[j] == '%';
                assert(s[j + 1] == '%');
            }
        }
        lemma_encode_utf8_no_percent(s.drop_first());
        let a = encode_scalar(s[0] as u32);
        let b = encode_utf8(s.drop_first());
        assert(encode_utf8(s) == a + b);
        assert forall|i: int| 0 <= i < encode_utf8(s).len() implies #[trigger] encode_utf8(s)[i] != 37 by {
            if i < a.len() {
                assert(encode_utf8(s)[i] == a[i]);
            } else {
                assert(encode_utf8(s)[i] == b[i - a.len()]);
            }
        }
    }
}

proof fn lemma_percent_decode_identity(b: Seq<u8>)
    requires
        forall|i: int| 0 <= i < b.len() ==> #[trigger] b[i] != 37,
    ensures
        percent_decode_bytes(b) == b,
    decreases b.len(),
{
    if b.len() > 0 {
        assert forall|i: int| 0 <= i < b.skip(1).len() implies #[trigger] b.skip(1)[i] != 37 by {
            assert(b.skip(1)[i] == b[i + 1]);
        }
        lemma_percent_decode_identity(b.skip(1));
        assert(seq![b[0]] + b.skip(1) =~= b);
    }
}

/// A fragment without `%` is its own remark: decoding changes nothing.
pub proof fn lemma_plain_remark_unchanged(f: Seq<char>)
    requires
        !f.contains('%'),
    ensures
        percent_decoded(f) == Some(f),
        remark_of(Some(f)) == f,
{
    lemma_encode_utf8_no_percent(f);
    lemma_percent_decode_identity(encode_utf8(f));
    encode_utf8_valid_utf8(f);
    encode_utf8_decode_utf8(f);
}

/// A link that parses keeps its server: host and port are those of the URL,
/// and the SNI is the `sni` parameter or, without one, the host.
pub proof fn lemma_link_keeps_server(raw: Seq<char>)
    requires
        vless_from_link(raw) is Ok,
    ensures
        url_parse(raw) is Some,
        vless_from_link(raw)->Ok_0.host == url_parse(raw)->0.host->0,
        vless_from_link(raw)->Ok_0.port == url_parse(raw)->0.port->0,
        vless_from_link(raw)->Ok_0.public_key.len() > 0,
        vless_from_link(raw)->Ok_0.sni.len() > 0 || url_parse(raw)->0.host->0.len() == 0,
{
}

/// The proxy outbound of a configuration: the first element of `outbounds`.
pub open spec fn proxy_outbound(j: JsonView) -> Option<JsonView> {
    get_index(get_key(Some(j), "outbounds"@), 0)
}

/// The Xray configuration carries the link's server and Reality
/// parameters where Xray reads them: the proxy outbound speaks VLESS over
/// Reality to the link's host and port as the link's user, with the link's
/// encryption and flow; its Reality settings name the link's SNI,
/// fingerprint, public key, short id and spiderX.
pub proof fn lemma_xray_config_carries_link(c: VlessConfigView)
    ensures
        ({
            let out = proxy_outbound(xray_config(c));
            let rs = get_key(get_key(out, "streamSettings"@), "realitySettings"@);
            let vnext = get_index(get_key(get_key(out, "settings"@), "vnext"@), 0);
            let user = get_index(get_key(vnext, "users"@), 0);
            &&& get_key(out, "protocol"@) == Some(jstr("vless"@))
            &&& get_key(get_key(out, "streamSettings"@), "security"@) == Some(jstr("reality"@))
            &&& get_key(rs, "serverName"@) == Some(jstr(c.sni))
            &&& get_key(rs, "fingerprint"@) == Some(jstr(c.fingerprint))
            &&& get_key(rs, "publicKey"@) == Some(jstr(c.public_key))
            &&& get_key(rs, "shortId"@) == Some(jstr(c.short_id))
            &&& get_key(rs, "spiderX"@) == if c.spider_x.len() == 0 {
                None
            } else {
                Some(jstr(c.spider_x))
            }
            &&& get_key(vnext, "address"@) == Some(jstr(c.host))
            &&& get_key(vnext, "port"@) == Some(JsonView::Number(c.port as nat))
            &&& get_key(user, "id"@) == Some(jstr(c.uuid))
            &&& get_key(user, "encryption"@) == Some(jstr(c.encryption))
            &&& get_key(user, "flow"@) == if c.flow.len() == 0 {
                None
            } else {
                Some(jstr(c.flow))
            }
        }),
{
    reveal_strlit("log");
    reveal_strlit("inbounds");
    reveal_strlit("outbounds");
    reveal_strlit("tag");
    reveal_strlit("protocol");
    reveal_strlit("settings");
    reveal_strlit("streamSettings");
    reveal_strlit("network");
    reveal_strlit("security");
    reveal_strlit("realitySettings");
    reveal_strlit("serverName");
    reveal_strlit("fingerprint");
    reveal_strlit("publicKey");
    reveal_strlit("shortId");
    reveal_strlit("spiderX");
    reveal_strlit("vnext");
    reveal_strlit("address");
    reveal_strlit("port");
    reveal_strlit("users");
    reveal_strlit("id");
    reveal_strlit("encryption");
    reveal_strlit("flow");
    let top = xray_config(c)->Object_0;
    assert(top[0].0.len() != "outbounds"@.len() && top[1].0.len() != "outbounds"@.len());
    lemma_member_at(top, "outbounds"@, 2);
    let outs = xray_outbounds(c)->Array_0;
    let proxy = outs[0];
    assert(proxy_outbound(xray_config(c)) == Some(proxy));
    let pf = proxy->Object_0;
    assert(pf[0].0.len() != "protocol"@.len());
    lemma_member_at(pf, "protocol"@, 1);
    assert(pf[0].0.len() != "settings"@.len() && pf[1].0[0] != "settings"@[0]);
    lemma_member_at(pf, "settings"@, 2);
    assert(pf[0].0.len() != "streamSettings"@.len() && pf[1].0.len() != "streamSettings"@.len()
        && pf[2].0.len() != "streamSettings"@.len());
    lemma_member_at(pf, "streamSettings"@, 3);
    let ss = pf[3].1->Object_0;
    assert(ss[0].0.len() != "security"@.len());
    lemma_member_at(ss, "security"@, 1);
    assert(ss[0].0.len() != "realitySettings"@.len() && ss[1].0.len() != "realitySettings"@.len());
    lemma_member_at(ss, "realitySettings"@, 2);
    let rf = xray_reality(c)->Object_0;
    lemma_member_at(rf, "serverName"@, 0);
    assert(rf[0].0.len() != "fingerprint"@.len());
    lemma_member_at(rf, "fingerprint"@, 1);
    assert(rf[0].0.len() != "publicKey"@.len() && rf[1].0.len() != "publicKey"@.len());
    lemma_member_at(rf, "publicKey"@, 2);
    assert(rf[0].0.len() != "shortId"@.len() && rf[1].0.len() != "shortId"@.len()
        && rf[2].0.len() != "shortId"@.len());
    lemma_member_at(rf, "shortId"@, 3);
    assert(rf[0].0.len() != "spiderX"@.len() && rf[1].0.len() != "spiderX"@.len()
        && rf[2].0.len() != "spiderX"@.len() && rf[3].0[1] != "spiderX"@[1]);
    if c.spider_x.len() == 0 {
        lemma_member_absent(rf, "spiderX"@);
    } else {
        lemma_member_at(rf, "spiderX"@, 4);
    }
    let sf = pf[2].1->Object_0;
    lemma_member_at(sf, "vnext"@, 0);
    let vf = sf[0].1->Array_0[0]->Object_0;
    lemma_member_at(vf, "address"@, 0);
    assert(vf[0].0.len() != "port"@.len());
    lemma_member_at(vf, "port"@, 1);
    assert(vf[0].0.len() != "users"@.len() && vf[1].0.len() != "users"@.len());
    lemma_member_at(vf, "users"@, 2);
    let uf = xray_user(c)->Object_0;
    lemma_member_at(uf, "id"@, 0);
    assert(uf[0].0.len() != "encryption"@.len());
    lemma_member_at(uf, "encryption"@, 1);
    assert(uf[0].0.len() != "flow"@.len() && uf[1].0.len() != "flow"@.len());
    if c.flow.len() == 0 {
        lemma_member_absent(uf, "flow"@);
    } else {
        lemma_member_at(uf, "flow"@, 2);
    }
}

/// The last query pair named `key` has the value `v`.
pub open spec fn last_pair_is(pairs: Seq<(Seq<char>, Seq<char>)>, key: Seq<char>, v: Seq<char>) -> bool {
    exists|i: int|
        0 <= i < pairs.len() && #[trigger] pairs[i] == (key, v) && forall|j: int|
            i < j < pairs.len() ==> (#[trigger] pairs[j]).0 != key
}

/// Some query pair is named `key`.
pub open spec fn has_pair(pairs: Seq<(Seq<char>, Seq<char>)>, key: Seq<char>) -> bool {
    exists|i: int| 0 <= i < pairs.len() && (#[trigger] pairs[i]).0 == key
}

proof fn lemma_query_value_is_last(pairs: Seq<(Seq<char>, Seq<char>)>, key: Seq<char>, v: Seq<char>)
    ensures
        last_pair_is(pairs, key, v) ==> query_value(pairs, key) == Some(v),
        !has_pair(pairs, key) ==> query_value(pairs, key) is None,
    decreases pairs.len(),
{
    if pairs.len() > 0 {
        let n = pairs.len() - 1;
        lemma_query_value_is_last(pairs.drop_last(), key, v);
        if last_pair_is(pairs, key, v) {
            let i = choose|i: int|
                0 <= i < pairs.len() && #[trigger] pairs[i] == (key, v) && forall|j: int|
                    i < j < pairs.len() ==> (#[trigger] pairs[j]).0 != key;
            if i < n {
                assert(pairs[n].0 != key);
                let d = pairs.drop_last();
                assert(d[i] == (key, v));
                assert forall|j: int| i < j < d.len() implies (#[trigger] d[j]).0 != key by {
                    assert(d[j] == pairs[j]);
                }
                assert(last_pair_is(d, key, v));
            }
        }
        if !has_pair(pairs, key) {
            assert(pairs[n].0 != key);
            let d = pairs.drop_last();
            if has_pair(d, key) {
                let i = choose|i: int| 0 <= i < d.len() && (#[trigger] d[i]).0 == key;
                assert(pairs[i] == d[i]);
            }
        }
    }
}

/// What a parsed link gives: a configuration exactly when it has a user, a
/// host, a port and a non-empty last `pbk`; the user, host and port as they
/// stand; each parameter the value of its last query pair (`encryption`,
/// `pbk`, `sid`, `sni`, `fp`, `flow`, `spx`), and where a parameter is
/// absent its default: `none` for `encryption`, `chrome` for `fp`, the host
/// for an absent or empty `sni`, the empty text otherwise.
pub proof fn lemma_link_parameters(p: UrlPartsView, key: Seq<char>, v: Seq<char>)
    ensures
        vless_from_parts(p) is Ok <==> p.username.len() > 0 && p.host is Some && p.port is Some
            && exists|pk: Seq<char>| pk.len() > 0 && #[trigger] last_pair_is(p.query_pairs, "pbk"@, pk),
        vless_from_parts(p) matches Ok(c) ==> c.uuid == p.username && Some(c.host) == p.host
            && Some(c.port) == p.port && c.remark == remark_of(p.fragment),
        vless_from_parts(p) matches Ok(c) ==> (last_pair_is(p.query_pairs, "encryption"@, v) ==> c.encryption == v)
            && (!has_pair(p.query_pairs, "encryption"@) ==> c.encryption == "none"@),
        vless_from_parts(p) matches Ok(c) ==> (last_pair_is(p.query_pairs, "pbk"@, v) ==> c.public_key == v),
        vless_from_parts(p) matches Ok(c) ==> (last_pair_is(p.query_pairs, "sid"@, v) ==> c.short_id == v)
            && (!has_pair(p.query_pairs, "sid"@) ==> c.short_id == Seq::<char>::empty()),
        vless_from_parts(p) matches Ok(c) ==> (last_pair_is(p.query_pairs, "sni"@, v) && v.len() > 0 ==> c.sni == v)
            && (last_pair_is(p.query_pairs, "sni"@, v) && v.len() == 0 ==> Some(c.sni) == p.host)
            && (!has_pair(p.query_pairs, "sni"@) ==> Some(c.sni) == p.host),
        vless_from_parts(p) matches Ok(c) ==> (last_pair_is(p.query_pairs, "fp"@, v) ==> c.fingerprint == v)
            && (!has_pair(p.query_pairs, "fp"@) ==> c.fingerprint == "chrome"@),
        vless_from_parts(p) matches Ok(c) ==> (last_pair_is(p.query_pairs, "flow"@, v) ==> c.flow == v)
            && (!has_pair(p.query_pairs, "flow"@) ==> c.flow == Seq::<char>::empty()),
        vless_from_parts(p) matches Ok(c) ==> (last_pair_is(p.query_pairs, "spx"@, v) ==> c.spider_x == v)
            && (!has_pair(p.query_pairs, "spx"@) ==> c.spider_x == Seq::<char>::empty()),
{
    let q = p.query_pairs;
    lemma_query_value_is_last(q, "encryption"@, v);
    lemma_query_value_is_last(q, "pbk"@, v);
    lemma_query_value_is_last(q, "sid"@, v);
    lemma_query_value_is_last(q, "sni"@, v);
    lemma_query_value_is_last(q, "fp"@, v);
    lemma_query_value_is_last(q, "flow"@, v);
    lemma_query_value_is_last(q, "spx"@, v);
    let pk = query_or(q, "pbk"@, Seq::empty());
    lemma_query_value_is_last(q, "pbk"@, pk);
    if exists|k: Seq<char>| k.len() > 0 && #[trigger] last_pair_is(q, "pbk"@, k) {
        let k = choose|k: Seq<char>| k.len() > 0 && #[trigger] last_pair_is(q, "pbk"@, k);
        lemma_query_value_is_last(q, "pbk"@, k);
    }
    if pk.len() > 0 {
        lemma_query_value_last_exists(q, "pbk"@);
        assert(last_pair_is(q, "pbk"@, pk));
    }
}

/// A key's value is that of its last pair.
proof fn lemma_query_value_last_exists(pairs: Seq<(Seq<char>, Seq<char>)>, key: Seq<char>)
    ensures
        query_value(pairs, key) matches Some(v) ==> last_pair_is(pairs, key, v),
    decreases pairs.len(),
{
    if pairs.len() > 0 {
        let n = pairs.len() - 1;
        if pairs[n].0 == key {
            assert(pairs[n] == (key, pairs[n].1));
        } else {
            lemma_query_value_last_exists(pairs.drop_last(), key);
            if query_value(pairs, key) is Some {
                let v = query_value(pairs, key)->0;
                let d = pairs.drop_last();
                let i = choose|i: int|
                    0 <= i < d.len() && #[trigger] d[i] == (key, v) && forall|j: int|
                        i < j < d.len() ==> (#[trigger] d[j]).0 != key;
                assert(pairs[i] == d[i]);
                assert forall|j: int| i < j < pairs.len() implies (#[trigger] pairs[j]).0 != key by {
                    if j < n {
                        assert(pairs[j] == d[j]);
                    }
                }
            }
        }
    }
}

/// How the Xray configuration routes traffic, read by member name: the
/// only inbound is SOCKS on 127.0.0.1 at the port the TUN bridge forwards
/// to; the first outbound (the default) is the proxy, then `direct`
/// (freedom) and `block` (blackhole); the first routing rule sends UDP to
/// port 443 (QUIC) to `block`, the next ones send private and Russian
/// addresses and the listed domains `direct`.
pub proof fn lemma_xray_config_routes(c: VlessConfigView)
    ensures
        ({
            let cfg = Some(xray_config(c));
            let inb = get_index(get_key(cfg, "inbounds"@), 0);
            let outs = get_key(cfg, "outbounds"@);
            let rules = get_key(get_key(cfg, "routing"@), "rules"@);
            let r0 = get_index(rules, 0);
            let r1 = get_index(rules, 1);
            let r2 = get_index(rules, 2);
            let r3 = get_index(rules, 3);
            &&& get_key(inb, "protocol"@) == Some(jstr("socks"@))
            &&& get_key(inb, "listen"@) == Some(jstr("127.0.0.1"@))
            &&& get_key(inb, "port"@) == Some(JsonView::Number(crate::tun::SOCKS_PORT as nat))
            &&& get_key(get_index(outs, 0), "tag"@) == Some(jstr("proxy"@))
            &&& get_key(get_index(outs, 1), "tag"@) == Some(jstr("direct"@))
            &&& get_key(get_index(outs, 1), "protocol"@) == Some(jstr("freedom"@))
            &&& get_key(get_index(outs, 2), "tag"@) == Some(jstr("block"@))
            &&& get_key(get_index(outs, 2), "protocol"@) == Some(jstr("blackhole"@))
            &&& get_key(r0, "outboundTag"@) == Some(jstr("block"@))
            &&& get_key(r0, "network"@) == Some(jstr("udp"@))
            &&& get_key(r0, "port"@) == Some(jstr("443"@))
            &&& get_key(r1, "outboundTag"@) == Some(jstr("direct"@))
            &&& get_index(get_key(r1, "ip"@), 0) == Some(jstr("geoip:private"@))
            &&& get_key(r2, "outboundTag"@) == Some(jstr("direct"@))
            &&& get_index(get_key(r2, "ip"@), 0) == Some(jstr("geoip:ru"@))
            &&& get_key(r3, "outboundTag"@) == Some(jstr("direct"@))
            &&& get_key(r3, "domain"@) is Some
        }),
{
    reveal_strlit("log");
    reveal_strlit("inbounds");
    reveal_strlit("outbounds");
    reveal_strlit("routing");
    reveal_strlit("domainStrategy");
    reveal_strlit("rules");
    reveal_strlit("tag");
    reveal_strlit("listen");
    reveal_strlit("port");
    reveal_strlit("protocol");
    reveal_strlit("type");
    reveal_strlit("outboundTag");
    reveal_strlit("network");
    reveal_strlit("ip");
    reveal_strlit("domain");
    let top = xray_config(c)->Object_0;
    assert(top[0].0.len() != "inbounds"@.len());
    lemma_member_at(top, "inbounds"@, 1);
    assert(top[0].0.len() != "outbounds"@.len() && top[1].0.len() != "outbounds"@.len());
    lemma_member_at(top, "outbounds"@, 2);
    assert(top[0].0.len() != "routing"@.len() && top[1].0.len() != "routing"@.len()
        && top[2].0.len() != "routing"@.len());
    lemma_member_at(top, "routing"@, 3);
    let inf = xray_inbound()->Object_0;
    assert(inf[0].0.len() != "listen"@.len());
    lemma_member_at(inf, "listen"@, 1);
    assert(inf[0].0.len() != "port"@.len() && inf[1].0.len() != "port"@.len());
    lemma_member_at(inf, "port"@, 2);
    assert(inf[0].0.len() != "protocol"@.len() && inf[1].0.len() != "protocol"@.len()
        && inf[2].0.len() != "protocol"@.len());
    lemma_member_at(inf, "protocol"@, 3);
    let outs = xray_outbounds(c)->Array_0;
    lemma_member_at(outs[0]->Object_0, "tag"@, 0);
    lemma_member_at(outs[1]->Object_0, "tag"@, 0);
    lemma_member_at(outs[2]->Object_0, "tag"@, 0);
    assert(outs[1]->Object_0[0].0.len() != "protocol"@.len());
    lemma_member_at(outs[1]->Object_0, "protocol"@, 1);
    lemma_member_at(outs[2]->Object_0, "protocol"@, 1);
    let rt = xray_routing()->Object_0;
    assert(rt[0].0.len() != "rules"@.len());
    lemma_member_at(rt, "rules"@, 1);
    let rs = rt[1].1->Array_0;
    let f0 = rs[0]->Object_0;
    assert(f0[0].0.len() != "outboundTag"@.len());
    lemma_member_at(f0, "outboundTag"@, 1);
    assert(f0[0].0.len() != "network"@.len() && f0[1].0.len() != "network"@.len());
    lemma_member_at(f0, "network"@, 2);
    assert(f0[0].0[0] != "port"@[0] && f0[1].0.len() != "port"@.len() && f0[2].0.len() != "port"@.len());
    lemma_member_at(f0, "port"@, 3);
    let f1 = rs[1]->Object_0;
    lemma_member_at(f1, "outboundTag"@, 1);
    assert(f1[0].0.len() != "ip"@.len() && f1[1].0.len() != "ip"@.len());
    lemma_member_at(f1, "ip"@, 2);
    let f2 = rs[2]->Object_0;
    lemma_member_at(f2, "outboundTag"@, 1);
    lemma_member_at(f2, "ip"@, 2);
    let f3 = rs[3]->Object_0;
    lemma_member_at(f3, "outboundTag"@, 1);
    assert(f3[0].0.len() != "domain"@.len() && f3[1].0.len() != "domain"@.len());
    lemma_member_at(f3, "domain"@, 2);
}

} // verus!
