//! The signed request that asks Aliyun OCR to read a picture (ACS3-HMAC-SHA256).
use vstd::prelude::*;
use vstd::utf8::encode_utf8;

use crate::digest::{hex_spec, hmac_sha256_hex, hmac_sha256_spec, sha256_hex, sha256_spec};
use crate::endpoint::{normalized_endpoint, normalized_outcome, outcome_is, Endpoint, UrlView, fits_after_adding};
use crate::json::opt_string_view;
use crate::recognition::{request_timeout_seconds, OcrMode, OcrProfile, ADVANCED_OCR_QUERY, ALIYUN_API_VERSION};
use crate::text::{blank, is_blank, push_str, trim, trim_spec};

verus! {

/// The format of the request time that Aliyun asks for: `YYYY-MM-DDTHH:MM:SSZ`.
pub const ALIYUN_DATE_FORMAT: &'static str = "[year]-[month]-[day]T[hour]:[minute]:[second]Z";

/// The text that `time` writes for the UTC instant `unix_seconds` seconds after 1970 with
/// the format description `format`; `None` where the instant is out of its range, the
/// description does not parse, or writing fails.
pub uninterp spec fn utc_text(unix_seconds: int, format: Seq<char>) -> Option<Seq<char>>;

/// `OffsetDateTime::from_unix_timestamp` followed by `format` with the description parsed
/// from `format`. The text is named (`utc_text`).
#[verifier::external_body]
fn format_utc(unix_seconds: i64, format: &str) -> (r: Option<String>)
    ensures
        opt_string_view(r) == utc_text(unix_seconds as int, format@),
{
    let instant = time::OffsetDateTime::from_unix_timestamp(unix_seconds).ok()?;
    let description = time::format_description::parse(format).ok()?;
    instant.format(&description).ok()
}

/// `OffsetDateTime::now_utc().unix_timestamp()`: the wall clock in whole seconds since
/// 1970. What it reads is not stated.
#[verifier::external_body]
fn now_unix_seconds() -> i64 {
    time::OffsetDateTime::now_utc().unix_timestamp()
}

/// A hyphenated lowercase UUID: 36 characters, `-` at 8, 13, 18 and 23, hexadecimal
/// digits elsewhere.
pub open spec fn is_uuid_text(t: Seq<char>) -> bool {
    &&& t.len() == 36
    &&& forall|i: int| 0 <= i < 36 ==> if i == 8 || i == 13 || i == 18 || i == 23 {
        #[trigger] t[i] == '-'
    } else {
        '0' <= t[i] <= '9' || 'a' <= t[i] <= 'f'
    }
}

/// `Uuid::new_v4().to_string()`: a fresh random UUID in its hyphenated lowercase form.
/// Which digits come out is left unsaid; they are random.
#[verifier::external_body]
fn new_nonce() -> (r: String)
    ensures
        is_uuid_text(r@),
{
    uuid::Uuid::new_v4().to_string()
}

/// The request time in the form Aliyun asks for: `YYYY-MM-DDTHH:MM:SSZ`, UTC.
pub fn aliyun_timestamp(unix_seconds: i64) -> (r: Result<String, String>)
    ensures
        match utc_text(unix_seconds as int, ALIYUN_DATE_FORMAT@) {
            Some(t) => r matches Ok(x) && x@ == t,
            None => r matches Err(m) && m@ == "生成请求时间失败"@,
        },
{
    match format_utc(unix_seconds, ALIYUN_DATE_FORMAT) {
        Some(t) => Ok(t),
        None => Err("生成请求时间失败".to_string()),
    }
}

/// The query string of a mode, as text.
pub open spec fn mode_query(mode: OcrMode) -> Seq<char> {
    match mode {
        OcrMode::Advanced => ADVANCED_OCR_QUERY@,
        OcrMode::Handwriting => ""@,
    }
}

/// The API action of a mode, as text.
pub open spec fn mode_action(mode: OcrMode) -> Seq<char> {
    match mode {
        OcrMode::Advanced => "RecognizeAdvanced"@,
        OcrMode::Handwriting => "RecognizeHandwriting"@,
    }
}

/// The address the request goes to: the profile's address, normalised, with the mode's
/// query when it has one; it must name a host.
pub open spec fn aliyun_target_outcome(endpoint: Seq<char>, mode: OcrMode) -> Result<UrlView, Seq<char>> {
    match normalized_outcome(endpoint, "阿里云 OCR"@) {
        Err(m) => Err(m),
        Ok(u) => {
            let q = mode_query(mode);
            if q.len() != 0 && !fits_after_adding(u.href, q) {
                Err("阿里云 OCR 服务地址格式无效"@)
            } else {
                let t = if q.len() == 0 {
                    u
                } else {
                    crate::endpoint::url_query_set(u.href, Some(q))
                };
                if t.host is None {
                    Err("阿里云 OCR 服务地址缺少主机名"@)
                } else {
                    Ok(t)
                }
            }
        },
    }
}

/// Where the request for `profile` in `mode` goes.
pub fn aliyun_target(profile: &OcrProfile, mode: OcrMode) -> (r: Result<Endpoint, String>)
    ensures
        outcome_is(r, aliyun_target_outcome(profile.endpoint@, mode)),
{
    let endpoint = normalized_endpoint(profile.endpoint.as_str(), "阿里云 OCR")?;
    let q = mode.query();
    let endpoint = if q.is_empty() {
        endpoint
    } else {
        if !crate::endpoint::fits_after_adding_exec(endpoint.as_str(), q) {
            return Err("阿里云 OCR 服务地址格式无效".to_string());
        }
        crate::endpoint::with_query_text(endpoint, q)
    };
    if endpoint.host().is_none() {
        return Err("阿里云 OCR 服务地址缺少主机名".to_string());
    }
    Ok(endpoint)
}

/// The names of the signed headers.
pub open spec fn signed_headers_spec(with_region: bool) -> Seq<char> {
    if with_region {
        "host;x-acs-action;x-acs-content-sha256;x-acs-date;x-acs-region-id;x-acs-signature-nonce;x-acs-version"@
    } else {
        "host;x-acs-action;x-acs-content-sha256;x-acs-date;x-acs-signature-nonce;x-acs-version"@
    }
}

/// The canonical headers: each signed header as `name:value` on its own line.
pub open spec fn canonical_headers_spec(
    host: Seq<char>,
    action: Seq<char>,
    payload_hash: Seq<char>,
    date: Seq<char>,
    region: Seq<char>,
    nonce: Seq<char>,
) -> Seq<char> {
    let head = "host:"@ + host + "\nx-acs-action:"@ + action + "\nx-acs-content-sha256:"@ + payload_hash + "\nx-acs-date:"@ + date;
    let tail = "\nx-acs-signature-nonce:"@ + nonce + "\nx-acs-version:"@ + ALIYUN_API_VERSION@ + "\n"@;
    if region.len() == 0 {
        head + tail
    } else {
        head + "\nx-acs-region-id:"@ + region + tail
    }
}

/// A request ready to send: where to, its headers in order, and its timeout.
pub struct AliyunRequest {
    pub url: String,
    pub headers: Vec<(String, String)>,
    pub timeout_seconds: u64,
}

/// The headers of a request, as text pairs.
pub open spec fn header_views(headers: Seq<(String, String)>) -> Seq<(Seq<char>, Seq<char>)> {
    Seq::new(headers.len(), |i: int| (headers[i].0@, headers[i].1@))
}

/// The signed request for `image` at `target`, at time `date` with nonce `nonce`.
pub open spec fn signed_request_spec(
    profile: OcrProfile,
    mode: OcrMode,
    target: UrlView,
    image: Seq<u8>,
    date: Seq<char>,
    nonce: Seq<char>,
    r: AliyunRequest,
) -> bool {
    let host = target.host->0;
    let region = trim_spec(profile.region@);
    let payload_hash = hex_spec(sha256_spec(image));
    let uri = if target.path.len() == 0 { "/"@ } else { target.path };
    let signed = signed_headers_spec(region.len() != 0);
    let canonical_request = "POST\n"@ + uri + "\n"@ + mode_query(mode) + "\n"@
        + canonical_headers_spec(host, mode_action(mode), payload_hash, date, region, nonce) + "\n"@ + signed + "\n"@
        + payload_hash;
    let string_to_sign = "ACS3-HMAC-SHA256\n"@ + hex_spec(sha256_spec(encode_utf8(canonical_request)));
    let signature = hex_spec(hmac_sha256_spec(encode_utf8(trim_spec(profile.access_key_secret@)), encode_utf8(string_to_sign)));
    let authorization = "ACS3-HMAC-SHA256 Credential="@ + trim_spec(profile.access_key_id@) + ",SignedHeaders="@ + signed
        + ",Signature="@ + signature;
    let base = seq![
        ("content-type"@, "application/octet-stream"@),
        ("x-acs-action"@, mode_action(mode)),
        ("x-acs-version"@, ALIYUN_API_VERSION@),
        ("x-acs-date"@, date),
        ("x-acs-signature-nonce"@, nonce),
        ("x-acs-content-sha256"@, payload_hash),
        ("authorization"@, authorization),
    ];
    &&& r.url@ == target.href
    &&& header_views(r.headers@) == if region.len() == 0 { base } else { base.push(("x-acs-region-id"@, region)) }
    &&& r.timeout_seconds == crate::llm::request_timeout_seconds_spec(profile.timeout_seconds)
}


fn push_header(headers: &mut Vec<(String, String)>, name: &str, value: &str)
    ensures
        header_views(final(headers)@) == header_views(old(headers)@).push((name@, value@)),
{
    let ghost before = header_views(headers@);
    headers.push((name.to_string(), value.to_string()));
    assert(header_views(headers@) =~= before.push((name@, value@)));
}

/// The canonical headers (see `canonical_headers_spec`).
fn canonical_headers(host: &str, action: &str, payload_hash: &str, date: &str, region: &str, nonce: &str) -> (r: String)
    ensures
        r@ == canonical_headers_spec(host@, action@, payload_hash@, date@, region@, nonce@),
{
    let mut r = String::new();
    push_str(&mut r, "host:");
    push_str(&mut r, host);
    push_str(&mut r, "\nx-acs-action:");
    push_str(&mut r, action);
    push_str(&mut r, "\nx-acs-content-sha256:");
    push_str(&mut r, payload_hash);
    push_str(&mut r, "\nx-acs-date:");
    push_str(&mut r, date);
    if !region.is_empty() {
        push_str(&mut r, "\nx-acs-region-id:");
        push_str(&mut r, region);
    }
    push_str(&mut r, "\nx-acs-signature-nonce:");
    push_str(&mut r, nonce);
    push_str(&mut r, "\nx-acs-version:");
    push_str(&mut r, ALIYUN_API_VERSION);
    push_str(&mut r, "\n");
    r
}

/// Signs the request for `image` at `target`, made at `date` with nonce `nonce`: the
/// canonical request is hashed, the hash signed with the access key secret, and the
/// signature sent in the `authorization` header. An address without a host is refused.
pub fn sign_aliyun_request(
    profile: &OcrProfile,
    mode: OcrMode,
    target: &Endpoint,
    image: &[u8],
    date: &str,
    nonce: &str,
) -> (r: Result<AliyunRequest, String>)
    ensures
        target@.host is None ==> (r matches Err(m) && m@ == "阿里云 OCR 服务地址缺少主机名"@),
        target@.host is Some ==> (r matches Ok(req) && signed_request_spec(*profile, mode, target@, image@, date@, nonce@, req)),
{
    let host = match target.host() {
        Some(h) => h,
        None => {
            return Err("阿里云 OCR 服务地址缺少主机名".to_string());
        },
    };
    let region = trim(profile.region.as_str());
    let with_region = !region.is_empty();
    let action = mode.action();
    let query = mode.query();
    let payload_hash = sha256_hex(image);
    let path = target.path();
    let uri = if path.is_empty() {
        "/"
    } else {
        path
    };
    let signed = if with_region {
        "host;x-acs-action;x-acs-content-sha256;x-acs-date;x-acs-region-id;x-acs-signature-nonce;x-acs-version"
    } else {
        "host;x-acs-action;x-acs-content-sha256;x-acs-date;x-acs-signature-nonce;x-acs-version"
    };
    let headers_text = canonical_headers(host, action, payload_hash.as_str(), date, region, nonce);
    let mut canonical_request = String::new();
    push_str(&mut canonical_request, "POST\n");
    push_str(&mut canonical_request, uri);
    push_str(&mut canonical_request, "\n");
    push_str(&mut canonical_request, query);
    push_str(&mut canonical_request, "\n");
    push_str(&mut canonical_request, headers_text.as_str());
    push_str(&mut canonical_request, "\n");
    push_str(&mut canonical_request, signed);
    push_str(&mut canonical_request, "\n");
    push_str(&mut canonical_request, payload_hash.as_str());
    let request_hash = sha256_hex(canonical_request.as_str().as_bytes());
    let mut string_to_sign = String::new();
    push_str(&mut string_to_sign, "ACS3-HMAC-SHA256\n");
    push_str(&mut string_to_sign, request_hash.as_str());
    let secret = trim(profile.access_key_secret.as_str());
    let signature = match hmac_sha256_hex(secret.as_bytes(), string_to_sign.as_str().as_bytes()) {
        Ok(s) => s,
        Err(_) => {
            return Err("生成阿里云请求签名失败".to_string());
        },
    };
    let mut authorization = String::new();
    push_str(&mut authorization, "ACS3-HMAC-SHA256 Credential=");
    push_str(&mut authorization, trim(profile.access_key_id.as_str()));
    push_str(&mut authorization, ",SignedHeaders=");
    push_str(&mut authorization, signed);
    push_str(&mut authorization, ",Signature=");
    push_str(&mut authorization, signature.as_str());
    let mut headers: Vec<(String, String)> = Vec::new();
    assert(header_views(headers@) =~= Seq::<(Seq<char>, Seq<char>)>::empty());
    push_header(&mut headers, "content-type", "application/octet-stream");
    push_header(&mut headers, "x-acs-action", action);
    push_header(&mut headers, "x-acs-version", ALIYUN_API_VERSION);
    push_header(&mut headers, "x-acs-date", date);
    push_header(&mut headers, "x-acs-signature-nonce", nonce);
    push_header(&mut headers, "x-acs-content-sha256", payload_hash.as_str());
    push_header(&mut headers, "authorization", authorization.as_str());
    if with_region {
        push_header(&mut headers, "x-acs-region-id", region);
    }
    proof {
        let host_s = target@.host->0;
        assert(host@ == host_s);
        assert(region@ == trim_spec(profile.region@));
        assert(payload_hash@ == hex_spec(sha256_spec(image@)));
        let spec_uri = if target@.path.len() == 0 { "/"@ } else { target@.path };
        assert(uri@ == spec_uri);
        assert(signed@ == signed_headers_spec(region@.len() != 0));
        assert(headers_text@ == canonical_headers_spec(host_s, mode_action(mode), payload_hash@, date@, region@, nonce@));
        let cr = "POST\n"@ + spec_uri + "\n"@ + mode_query(mode) + "\n"@
            + canonical_headers_spec(host_s, mode_action(mode), payload_hash@, date@, region@, nonce@) + "\n"@ + signed@ + "\n"@
            + payload_hash@;
        assert(canonical_request@ == cr);
        assert(request_hash@ == hex_spec(sha256_spec(encode_utf8(cr))));
        let sts = "ACS3-HMAC-SHA256\n"@ + hex_spec(sha256_spec(encode_utf8(cr)));
        assert(string_to_sign@ == sts);
        let sig = hex_spec(hmac_sha256_spec(encode_utf8(trim_spec(profile.access_key_secret@)), encode_utf8(sts)));
        assert(signature@ == sig);
        let auth = "ACS3-HMAC-SHA256 Credential="@ + trim_spec(profile.access_key_id@) + ",SignedHeaders="@ + signed@
            + ",Signature="@ + sig;
        assert(authorization@ == auth);
        assert(action@ == mode_action(mode));
        let base = seq![
            ("content-type"@, "application/octet-stream"@),
            ("x-acs-action"@, mode_action(mode)),
            ("x-acs-version"@, ALIYUN_API_VERSION@),
            ("x-acs-date"@, date@),
            ("x-acs-signature-nonce"@, nonce@),
            ("x-acs-content-sha256"@, payload_hash@),
            ("authorization"@, auth),
        ];
        if with_region {
            assert(header_views(headers@) =~= base.push(("x-acs-region-id"@, region@)));
        } else {
            assert(header_views(headers@) =~= base);
        }
    }
    Ok(
        AliyunRequest {
            url: target.as_str().to_string(),
            headers,
            timeout_seconds: request_timeout_seconds(profile.timeout_seconds),
        },
    )
}

/// Prepares the request for `image`: where it goes, then signed at the current time with
/// a fresh nonce. The time and nonce are not stated beyond their form; the time error
/// comes only when the clock reads a second that cannot be written as a date.
pub fn prepare_aliyun_request(profile: &OcrProfile, mode: OcrMode, image: &[u8]) -> (r: Result<AliyunRequest, String>)
    ensures
        match aliyun_target_outcome(profile.endpoint@, mode) {
            Err(m) => r matches Err(x) && x@ == m,
            Ok(t) => match r {
                Err(x) => x@ == "生成请求时间失败"@ && exists|seconds: int| #[trigger] utc_text(seconds, ALIYUN_DATE_FORMAT@) is None,
                Ok(req) => exists|seconds: int, date: Seq<char>, nonce: Seq<char>|
                    #[trigger] utc_text(seconds, ALIYUN_DATE_FORMAT@) == Some(date) && is_uuid_text(nonce)
                        && #[trigger] signed_request_spec(*profile, mode, t, image@, date, nonce, req),
            },
        },
{
    let target = aliyun_target(profile, mode)?;
    let seconds = now_unix_seconds();
    let date = match aliyun_timestamp(seconds) {
        Ok(d) => d,
        Err(m) => {
            assert(utc_text(seconds as int, ALIYUN_DATE_FORMAT@) is None);
            return Err(m);
        },
    };
    let nonce = new_nonce();
    let req = sign_aliyun_request(profile, mode, &target, image, date.as_str(), nonce.as_str());
    proof {
        if req is Ok {
            assert(utc_text(seconds as int, ALIYUN_DATE_FORMAT@) == Some(date@));
            assert(signed_request_spec(*profile, mode, target@, image@, date@, nonce@, req->Ok_0));
        }
    }
    req
}

} // verus!
