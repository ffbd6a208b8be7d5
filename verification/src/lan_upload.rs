//! The phone upload session: who may upload, how many pictures, and what they become.
use std::time::{SystemTime, UNIX_EPOCH};

use vstd::prelude::*;

use crate::codec::{base64_encode, base64_spec};
use crate::text::{
    blank, chars_of, decimal_spec, decimal_string, is_blank, is_control, is_control_spec,
    is_record_id, is_whitespace_spec, push_char, push_str, record_id_ok, same_text,
    string_from_chars, trim, trim_spec,
};

verus! {

/// The most pictures one expense report holds.
pub const MAX_FILES: usize = 10;

/// The largest picture that the phone may send, in bytes.
pub const MAX_FILE_BYTES: usize = 15 * 1024 * 1024;

/// The largest upload request body, in bytes.
pub const MAX_REQUEST_BYTES: usize = 120 * 1024 * 1024;

/// How long a link stays valid when the request names no lifetime, in seconds.
pub const DEFAULT_TTL_SECONDS: u64 = 15 * 60;

/// An open upload session for one expense report.
#[derive(Clone, Debug)]
pub struct UploadSession {
    pub record_id: String,
    pub label: String,
    pub token: String,
    pub expires_at: u64,
    pub remaining_slots: usize,
}

impl UploadSession {
    /// A copy of the session, field by field.
    pub fn copy(&self) -> (r: UploadSession)
        ensures
            r == *self,
    {
        UploadSession {
            record_id: self.record_id.clone(),
            label: self.label.clone(),
            token: self.token.clone(),
            expires_at: self.expires_at,
            remaining_slots: self.remaining_slots,
        }
    }
}

/// What the desktop asks for when it opens a session.
#[derive(Clone, Debug)]
pub struct StartLanUploadRequest {
    pub record_id: String,
    pub label: String,
    pub remaining_slots: usize,
    pub ttl_seconds: u64,
}

/// What the desktop sends when the report's label or free slots change.
#[derive(Clone, Debug)]
pub struct UpdateLanUploadRequest {
    pub record_id: String,
    pub label: String,
    pub remaining_slots: usize,
}

/// What the desktop shows about an open session.
#[derive(Clone, Debug)]
pub struct LanUploadSessionInfo {
    pub url: String,
    pub record_id: String,
    pub label: String,
    pub expires_at: u64,
    pub remaining_slots: usize,
    pub local_address: String,
}

/// One picture received from the phone, ready for the desktop.
#[derive(Clone, Debug)]
pub struct LanUploadFile {
    pub file_name: String,
    pub mime_type: String,
    pub data_url: String,
}

/// The event that hands one received picture to the desktop.
#[derive(Clone, Debug)]
pub struct LanUploadEvent {
    pub record_id: String,
    pub remaining_slots: usize,
    pub file: LanUploadFile,
}

/// The answer to a successful upload.
#[derive(Clone, Debug)]
pub struct UploadResponse {
    pub ok: bool,
    pub message: String,
    pub accepted_count: usize,
    pub remaining_slots: usize,
}

/// The HTTP statuses that the upload endpoint answers with on failure.
#[derive(Clone, Copy, Debug, PartialEq, Eq, Structural)]
pub enum UploadStatus {
    BadRequest,
    NotFound,
    Conflict,
    Gone,
    PayloadTooLarge,
    UnsupportedMediaType,
    InternalServerError,
}

impl UploadStatus {
    pub open spec fn code_spec(self) -> u16 {
        match self {
            UploadStatus::BadRequest => 400,
            UploadStatus::NotFound => 404,
            UploadStatus::Conflict => 409,
            UploadStatus::Gone => 410,
            UploadStatus::PayloadTooLarge => 413,
            UploadStatus::UnsupportedMediaType => 415,
            UploadStatus::InternalServerError => 500,
        }
    }

    /// The numeric HTTP status.
    pub fn code(&self) -> (r: u16)
        ensures
            r == self.code_spec(),
    {
        match self {
            UploadStatus::BadRequest => 400,
            UploadStatus::NotFound => 404,
            UploadStatus::Conflict => 409,
            UploadStatus::Gone => 410,
            UploadStatus::PayloadTooLarge => 413,
            UploadStatus::UnsupportedMediaType => 415,
            UploadStatus::InternalServerError => 500,
        }
    }
}

/// A refused request: its status and the message shown to the phone.
#[derive(Clone, Debug)]
pub struct UploadError {
    pub status: UploadStatus,
    pub message: String,
}

/// `r` is a refusal with `status` and `message`.
pub open spec fn fails_with<T>(r: Result<T, UploadError>, status: UploadStatus, message: Seq<char>) -> bool {
    r matches Err(e) && e.status == status && e.message@ == message
}

/// Checks that `record_id` is a record number (`is_record_id`).
pub fn validate_record_id(record_id: &str) -> (r: Result<(), String>)
    ensures
        r is Ok <==> is_record_id(record_id@),
        r matches Err(m) ==> m@ == "报销单编号格式无效"@,
{
    if !record_id_ok(record_id) {
        return Err("报销单编号格式无效".to_string());
    }
    Ok(())
}

/// The session lifetime used when the request names none.
pub fn default_ttl_seconds() -> (r: u64)
    ensures
        r == DEFAULT_TTL_SECONDS,
{
    DEFAULT_TTL_SECONDS
}

/// `s` cut to its first `n` characters.
pub open spec fn take_chars(s: Seq<char>, n: nat) -> Seq<char> {
    if s.len() <= n {
        s
    } else {
        s.take(n as int)
    }
}

/// A label as the session keeps it: trimmed, at most 30 characters.
pub open spec fn clean_label_spec(value: Seq<char>) -> Seq<char> {
    take_chars(trim_spec(value), 30)
}

/// Trims the label and keeps its first 30 characters.
pub fn clean_label(value: &str) -> (r: String)
    ensures
        r@ == clean_label_spec(value@),
        r@.len() <= 30,
{
    let t = trim(value);
    let n = chars_of(t).len();
    if n <= 30 {
        t.to_string()
    } else {
        t.substring_char(0, 30).to_string()
    }
}

/// The part of a path after its last `/` or `\`.
pub open spec fn last_segment(s: Seq<char>) -> Seq<char>
    decreases s.len(),
{
    if s.len() == 0 {
        s
    } else if s.last() == '/' || s.last() == '\\' {
        Seq::empty()
    } else {
        last_segment(s.drop_last()).push(s.last())
    }
}

/// `s` without its control characters.
pub open spec fn without_controls(s: Seq<char>) -> Seq<char>
    decreases s.len(),
{
    if s.len() == 0 {
        s
    } else if is_control_spec(s.last()) {
        without_controls(s.drop_last())
    } else {
        without_controls(s.drop_last()).push(s.last())
    }
}

/// The file extension used for a picture of type `mime` that came without a name.
pub open spec fn extension_spec(mime: Seq<char>) -> Seq<char> {
    if mime == "image/png"@ {
        "png"@
    } else if mime == "image/gif"@ {
        "gif"@
    } else if mime == "image/webp"@ {
        "webp"@
    } else if mime == "image/bmp"@ {
        "bmp"@
    } else {
        "jpg"@
    }
}

/// The file name kept for the `index`-th picture (counting from 0) sent as `value`.
pub open spec fn clean_file_name_spec(value: Seq<char>, mime: Seq<char>, index: nat) -> Seq<char> {
    let name = take_chars(without_controls(last_segment(value)), 100);
    if !is_blank(name) {
        name
    } else {
        "手机图片-"@ + decimal_spec(index + 1) + "."@ + extension_spec(mime)
    }
}

/// Keeps the last path segment of the phone's file name, without control characters,
/// at most 100 characters; a blank name becomes a numbered default.
pub fn clean_file_name(value: &str, mime_type: &str, index: usize) -> (r: String)
    requires
        index < usize::MAX,
    ensures
        r@ == clean_file_name_spec(value@, mime_type@, index as nat),
{
    let cs = chars_of(value);
    let mut seg: Vec<char> = Vec::new();
    let mut i: usize = 0;
    while i < cs.len()
        invariant
            cs@ == value@,
            i <= cs.len(),
            seg@ == last_segment(cs@.take(i as int)),
        decreases cs.len() - i,
    {
        let c = cs[i];
        assert(cs@.take(i + 1).drop_last() =~= cs@.take(i as int));
        if c == '/' || c == '\\' {
            seg = Vec::new();
            assert(seg@ =~= Seq::<char>::empty());
        } else {
            seg.push(c);
        }
        i = i + 1;
    }
    assert(cs@.take(cs.len() as int) =~= cs@);
    let mut kept: Vec<char> = Vec::new();
    let mut j: usize = 0;
    while j < seg.len()
        invariant
            j <= seg.len(),
            kept@ == take_chars(without_controls(seg@.take(j as int)), 100),
        decreases seg.len() - j,
    {
        let c = seg[j];
        assert(seg@.take(j + 1).drop_last() =~= seg@.take(j as int));
        let ghost w = without_controls(seg@.take(j as int));
        if !is_control(c) {
            if kept.len() < 100 {
                kept.push(c);
            } else {
                assert(w.push(c).take(100) =~= w.take(100));
            }
        }
        j = j + 1;
    }
    assert(seg@.take(seg.len() as int) =~= seg@);
    let name = string_from_chars(kept.as_slice());
    if !blank(name.as_str()) {
        return name;
    }
    let extension = if same_text(mime_type, "image/png") {
        "png"
    } else if same_text(mime_type, "image/gif") {
        "gif"
    } else if same_text(mime_type, "image/webp") {
        "webp"
    } else if same_text(mime_type, "image/bmp") {
        "bmp"
    } else {
        "jpg"
    };
    let mut r = String::new();
    push_str(&mut r, "手机图片-");
    let number = decimal_string((index + 1) as u64);
    push_str(&mut r, number.as_str());
    push_str(&mut r, ".");
    push_str(&mut r, extension);
    r
}

/// The kinds of picture that the phone may send.
#[derive(Clone, Copy, Debug, PartialEq, Eq, Structural)]
pub enum ImageKind {
    Jpeg,
    Png,
    Gif,
    Webp,
    Bmp,
}

/// The kind of picture that `b` starts like, by its leading signature bytes.
pub open spec fn image_kind(b: Seq<u8>) -> Option<ImageKind> {
    if seq![0xFFu8, 0xD8, 0xFF].is_prefix_of(b) {
        Some(ImageKind::Jpeg)
    } else if seq![0x89u8, 0x50, 0x4E, 0x47, 0x0D, 0x0A, 0x1A, 0x0A].is_prefix_of(b) {
        Some(ImageKind::Png)
    } else if seq![0x47u8, 0x49, 0x46, 0x38, 0x37, 0x61].is_prefix_of(b)
        || seq![0x47u8, 0x49, 0x46, 0x38, 0x39, 0x61].is_prefix_of(b) {
        Some(ImageKind::Gif)
    } else if b.len() >= 12 && seq![0x52u8, 0x49, 0x46, 0x46].is_prefix_of(b)
        && b.subrange(8, 12) == seq![0x57u8, 0x45, 0x42, 0x50] {
        Some(ImageKind::Webp)
    } else if seq![0x42u8, 0x4D].is_prefix_of(b) {
        Some(ImageKind::Bmp)
    } else {
        None
    }
}

/// The MIME type of a kind of picture.
pub open spec fn mime_spec(kind: ImageKind) -> Seq<char> {
    match kind {
        ImageKind::Jpeg => "image/jpeg"@,
        ImageKind::Png => "image/png"@,
        ImageKind::Gif => "image/gif"@,
        ImageKind::Webp => "image/webp"@,
        ImageKind::Bmp => "image/bmp"@,
    }
}

/// Whether `b` begins with `prefix`.
fn starts_with(b: &[u8], prefix: &[u8]) -> (r: bool)
    ensures
        r == prefix@.is_prefix_of(b@),
{
    if prefix.len() > b.len() {
        return false;
    }
    let mut i: usize = 0;
    while i < prefix.len()
        invariant
            prefix.len() <= b.len(),
            i <= prefix.len(),
            forall|j: int| 0 <= j < i ==> prefix@[j] == b@[j],
        decreases prefix.len() - i,
    {
        if prefix[i] != b[i] {
            return false;
        }
        i = i + 1;
    }
    true
}

/// The MIME type of the picture in `bytes`, judged by its signature; `None` for anything
/// that is not JPEG, PNG, GIF, WebP or BMP.
pub fn detected_image_mime(bytes: &[u8]) -> (r: Option<&'static str>)
    ensures
        r is Some <==> image_kind(bytes@) is Some,
        r matches Some(m) ==> m@ == mime_spec(image_kind(bytes@)->0),
{
    let jpeg: [u8; 3] = [0xFF, 0xD8, 0xFF];
    let png: [u8; 8] = [0x89, 0x50, 0x4E, 0x47, 0x0D, 0x0A, 0x1A, 0x0A];
    let gif87: [u8; 6] = [0x47, 0x49, 0x46, 0x38, 0x37, 0x61];
    let gif89: [u8; 6] = [0x47, 0x49, 0x46, 0x38, 0x39, 0x61];
    let riff: [u8; 4] = [0x52, 0x49, 0x46, 0x46];
    let bmp: [u8; 2] = [0x42, 0x4D];
    assert(jpeg@ =~= seq![0xFFu8, 0xD8, 0xFF]);
    assert(png@ =~= seq![0x89u8, 0x50, 0x4E, 0x47, 0x0D, 0x0A, 0x1A, 0x0A]);
    assert(gif87@ =~= seq![0x47u8, 0x49, 0x46, 0x38, 0x37, 0x61]);
    assert(gif89@ =~= seq![0x47u8, 0x49, 0x46, 0x38, 0x39, 0x61]);
    assert(riff@ =~= seq![0x52u8, 0x49, 0x46, 0x46]);
    assert(bmp@ =~= seq![0x42u8, 0x4D]);
    if starts_with(bytes, &jpeg) {
        Some("image/jpeg")
    } else if starts_with(bytes, &png) {
        Some("image/png")
    } else if starts_with(bytes, &gif87) || starts_with(bytes, &gif89) {
        Some("image/gif")
    } else if bytes.len() >= 12 && starts_with(bytes, &riff) && bytes[8] == 0x57 && bytes[9]
        == 0x45 && bytes[10] == 0x42 && bytes[11] == 0x50 {
        assert(bytes@.subrange(8, 12) =~= seq![0x57u8, 0x45, 0x42, 0x50]);
        Some("image/webp")
    } else if starts_with(bytes, &bmp) {
        Some("image/bmp")
    } else {
        proof {
            if bytes@.len() >= 12 && seq![0x52u8, 0x49, 0x46, 0x46].is_prefix_of(bytes@)
                && bytes@.subrange(8, 12) == seq![0x57u8, 0x45, 0x42, 0x50] {
                assert(bytes@.subrange(8, 12)[0] == bytes@[8]);
                assert(bytes@.subrange(8, 12)[1] == bytes@[9]);
                assert(bytes@.subrange(8, 12)[2] == bytes@[10]);
                assert(bytes@.subrange(8, 12)[3] == bytes@[11]);
            }
        }
        None
    }
}


/// The session's free slots are within the report's limit.
pub open spec fn slots_ok(current: Option<UploadSession>) -> bool {
    current matches Some(s) ==> s.remaining_slots <= MAX_FILES
}

/// `n` held to the report's limit.
pub open spec fn min_slots(n: usize) -> usize {
    if n < MAX_FILES {
        n
    } else {
        MAX_FILES
    }
}

/// The expiry time of a session opened at `now` (milliseconds) for `ttl` seconds: the
/// lifetime is held to 60..=3600 seconds and the sum saturates at `u64::MAX`.
pub open spec fn expiry_spec(now: u64, ttl: u64) -> u64 {
    let t = if ttl < 60 {
        60
    } else if ttl > 3600 {
        3600
    } else {
        ttl
    };
    if now + t * 1000 > u64::MAX {
        u64::MAX
    } else {
        (now + t * 1000) as u64
    }
}

/// Refuses a start request whose record number is malformed or whose report is full.
pub fn check_start_request(request: &StartLanUploadRequest) -> (r: Result<(), String>)
    ensures
        !is_record_id(request.record_id@) ==> (r matches Err(m) && m@ == "报销单编号格式无效"@),
        is_record_id(request.record_id@) && request.remaining_slots == 0 ==> (r matches Err(m)
            && m@ == "当前报销单已达到 10 张图片上限"@),
        is_record_id(request.record_id@) && request.remaining_slots > 0 ==> r is Ok,
{
    validate_record_id(request.record_id.as_str())?;
    if request.remaining_slots == 0 {
        return Err("当前报销单已达到 10 张图片上限".to_string());
    }
    Ok(())
}

/// The session opened for `request` at time `now` with link secret `token`.
pub open spec fn opened_spec(request: StartLanUploadRequest, token: String, now: u64, s: UploadSession) -> bool {
    &&& s.record_id == request.record_id
    &&& s.label@ == clean_label_spec(request.label@)
    &&& s.token == token
    &&& s.expires_at == expiry_spec(now, request.ttl_seconds)
    &&& s.remaining_slots == min_slots(request.remaining_slots)
}

/// Builds the session for `request`, opened at `now` with link secret `token`.
pub fn open_upload_session(request: &StartLanUploadRequest, token: String, now: u64) -> (s: UploadSession)
    ensures
        opened_spec(*request, token, now, s),
{
    let ttl = if request.ttl_seconds < 60 {
        60
    } else if request.ttl_seconds > 3600 {
        3600
    } else {
        request.ttl_seconds
    };
    let remaining = if request.remaining_slots < MAX_FILES {
        request.remaining_slots
    } else {
        MAX_FILES
    };
    UploadSession {
        record_id: request.record_id.clone(),
        label: clean_label(request.label.as_str()),
        token,
        expires_at: now.saturating_add(ttl * 1000),
        remaining_slots: remaining,
    }
}

/// A link secret: 32 lowercase hexadecimal digits.
pub open spec fn is_token(t: Seq<char>) -> bool {
    &&& t.len() == 32
    &&& forall|i: int| 0 <= i < t.len() ==> ('0' <= #[trigger] t[i] <= '9' || 'a' <= t[i] <= 'f')
}

/// `Uuid::new_v4().simple().to_string()`: a fresh random UUID written as 32 lowercase
/// hexadecimal digits. Which digits come out is left unsaid; they are random.
#[verifier::external_body]
fn new_token() -> (r: String)
    ensures
        is_token(r@),
{
    uuid::Uuid::new_v4().simple().to_string()
}

/// The wall-clock type of std, carried through opaquely.
#[verifier::external_type_specification]
#[verifier::external_body]
pub struct ExSystemTime(SystemTime);

/// `SystemTime::now`: the wall clock. What it reads is not stated.
#[verifier::external_body]
fn system_now() -> SystemTime {
    SystemTime::now()
}

/// `SystemTime::duration_since(UNIX_EPOCH)`: `None` for a clock set before 1970.
/// What it returns otherwise is not stated.
#[verifier::external_body]
fn since_unix_epoch(t: SystemTime) -> Option<std::time::Duration> {
    t.duration_since(UNIX_EPOCH).ok()
}

/// `Duration::as_millis`. The count is not stated.
#[verifier::external_body]
fn duration_millis(d: std::time::Duration) -> u128 {
    d.as_millis()
}

/// Milliseconds elapsed, held to `u64`.
pub open spec fn millis_spec(elapsed: Option<u128>) -> u64 {
    match elapsed {
        Some(ms) => if ms > u64::MAX {
            u64::MAX
        } else {
            ms as u64
        },
        None => 0,
    }
}

/// Holds a millisecond count to `u64`; a clock before 1970 counts as 0.
pub fn millis_to_u64(elapsed: Option<u128>) -> (r: u64)
    ensures
        r == millis_spec(elapsed),
{
    match elapsed {
        Some(ms) => if ms > u64::MAX as u128 {
            u64::MAX
        } else {
            ms as u64
        },
        None => 0,
    }
}

/// The wall clock in milliseconds since 1970; 0 for a clock set earlier.
pub fn now_millis() -> (r: u64) {
    let elapsed = match since_unix_epoch(system_now()) {
        Some(d) => Some(duration_millis(d)),
        None => None,
    };
    millis_to_u64(elapsed)
}

/// Opens the session for `request` now, with a fresh link secret. Its expiry is that of
/// a session opened at some instant; which instant the clock gave is not stated.
pub fn begin_upload_session(request: &StartLanUploadRequest) -> (s: UploadSession)
    ensures
        s.record_id == request.record_id,
        s.label@ == clean_label_spec(request.label@),
        is_token(s.token@),
        s.remaining_slots == min_slots(request.remaining_slots),
        exists|now: u64| #[trigger] expiry_spec(now, request.ttl_seconds) == s.expires_at,
{
    let token = new_token();
    let now = now_millis();
    let s = open_upload_session(request, token, now);
    assert(expiry_spec(now, request.ttl_seconds) == s.expires_at);
    s
}

/// How an update request changes the current session: another record or an expired
/// session closes it; otherwise the label and free slots follow the request.
pub open spec fn updated_spec(
    before: Option<UploadSession>,
    after: Option<UploadSession>,
    request: UpdateLanUploadRequest,
    now: u64,
) -> bool {
    match before {
        None => after is None,
        Some(s) => if s.record_id@ != request.record_id@ || s.expires_at <= now {
            after is None
        } else {
            after matches Some(t) && t.record_id == s.record_id && t.token == s.token
                && t.expires_at == s.expires_at && t.label@ == clean_label_spec(request.label@)
                && t.remaining_slots == min_slots(request.remaining_slots)
        },
    }
}

/// Applies an update request from the desktop to the current session at time `now`.
pub fn update_upload_session(current: &mut Option<UploadSession>, request: &UpdateLanUploadRequest, now: u64)
    ensures
        updated_spec(*old(current), *final(current), *request, now),
{
    match current.take() {
        None => {},
        Some(s) => {
            if !same_text(s.record_id.as_str(), request.record_id.as_str()) || s.expires_at <= now {
                return;
            }
            let remaining = if request.remaining_slots < MAX_FILES {
                request.remaining_slots
            } else {
                MAX_FILES
            };
            *current = Some(
                UploadSession {
                    record_id: s.record_id,
                    label: clean_label(request.label.as_str()),
                    token: s.token,
                    expires_at: s.expires_at,
                    remaining_slots: remaining,
                },
            );
        },
    }
}

/// Whether a phone request for `record_id` with `token` may use the current session at
/// time `now`, and what becomes of the session: an expired one is closed.
pub open spec fn authorized_spec(
    before: Option<UploadSession>,
    after: Option<UploadSession>,
    record_id: Seq<char>,
    token: Seq<char>,
    now: u64,
    r: Result<UploadSession, UploadError>,
) -> bool {
    match before {
        None => after is None && fails_with(r, UploadStatus::Gone, "上传会话已关闭"@),
        Some(s) => if s.expires_at <= now {
            after is None && fails_with(r, UploadStatus::Gone, "二维码已过期，请在电脑端重新生成"@)
        } else if s.record_id@ != record_id || s.token@ != token {
            after == before && fails_with(r, UploadStatus::NotFound, "二维码无效"@)
        } else {
            after == before && r == Ok::<UploadSession, UploadError>(s)
        },
    }
}

/// Checks a phone request against the current session at time `now`.
pub fn authorized_session(
    current: &mut Option<UploadSession>,
    record_id: &str,
    token: &str,
    now: u64,
) -> (r: Result<UploadSession, UploadError>)
    ensures
        authorized_spec(*old(current), *final(current), record_id@, token@, now, r),
{
    let s = match current.as_ref() {
        None => {
            return Err(UploadError { status: UploadStatus::Gone, message: "上传会话已关闭".to_string() });
        },
        Some(s) => s.copy(),
    };
    if s.expires_at <= now {
        *current = None;
        return Err(
            UploadError {
                status: UploadStatus::Gone,
                message: "二维码已过期，请在电脑端重新生成".to_string(),
            },
        );
    }
    if !same_text(s.record_id.as_str(), record_id) || !same_text(s.token.as_str(), token) {
        return Err(UploadError { status: UploadStatus::NotFound, message: "二维码无效".to_string() });
    }
    Ok(s)
}

/// Refuses an upload when the session has no free slot left.
pub fn check_upload_capacity(session: &UploadSession) -> (r: Result<(), UploadError>)
    ensures
        session.remaining_slots == 0 <==> r is Err,
        session.remaining_slots == 0 ==> fails_with(r, UploadStatus::Conflict, "当前报销单已没有可上传位置"@),
{
    if session.remaining_slots == 0 {
        return Err(
            UploadError { status: UploadStatus::Conflict, message: "当前报销单已没有可上传位置".to_string() },
        );
    }
    Ok(())
}

/// Whether a form field is a picture to read: only fields named `files` are; one more
/// picture than the session's free slots is refused.
pub fn admit_upload_field(field_name: Option<&str>, received: usize, remaining: usize) -> (r: Result<bool, UploadError>)
    ensures
        !(field_name matches Some(n) && n@ == "files"@) ==> r == Ok::<bool, UploadError>(false),
        (field_name matches Some(n) && n@ == "files"@) && received >= remaining ==> fails_with(r, UploadStatus::Conflict, "所选图片超过当前报销单的剩余数量"@),
        (field_name matches Some(n) && n@ == "files"@) && received < remaining ==> r == Ok::<bool, UploadError>(true),
{
    let is_files = match field_name {
        Some(n) => same_text(n, "files"),
        None => false,
    };
    if !is_files {
        return Ok(false);
    }
    if received >= remaining {
        return Err(
            UploadError {
                status: UploadStatus::Conflict,
                message: "所选图片超过当前报销单的剩余数量".to_string(),
            },
        );
    }
    Ok(true)
}

/// The `data:` URL that carries a picture of type `mime` to the desktop.
pub open spec fn data_url_spec(mime: Seq<char>, bytes: Seq<u8>) -> Seq<char> {
    "data:"@ + mime + ";base64,"@ + base64_spec(bytes)
}

/// Checks one received picture and prepares it for the desktop: it must not be empty,
/// larger than `MAX_FILE_BYTES`, or of an unknown kind.
pub fn prepare_upload_file(sent_name: Option<&str>, bytes: &[u8], index: usize) -> (r: Result<LanUploadFile, UploadError>)
    requires
        index < usize::MAX,
    ensures
        bytes@.len() == 0 ==> fails_with(r, UploadStatus::BadRequest, "不能上传空图片"@),
        0 < bytes@.len() && bytes@.len() > MAX_FILE_BYTES ==> fails_with(r, UploadStatus::PayloadTooLarge, "单张图片不能超过 15 MB"@),
        0 < bytes@.len() <= MAX_FILE_BYTES && image_kind(bytes@) is None ==> fails_with(r, UploadStatus::UnsupportedMediaType, "仅支持 JPEG、PNG、WebP、GIF 或 BMP 图片"@),
        0 < bytes@.len() <= MAX_FILE_BYTES && image_kind(bytes@) is Some ==> (r matches Ok(f) && {
            let mime = mime_spec(image_kind(bytes@)->0);
            let name = match sent_name {
                Some(n) => n@,
                None => "手机图片"@,
            };
            &&& f.mime_type@ == mime
            &&& f.file_name@ == clean_file_name_spec(name, mime, index as nat)
            &&& f.data_url@ == data_url_spec(mime, bytes@)
        }),
{
    if bytes.len() == 0 {
        return Err(UploadError { status: UploadStatus::BadRequest, message: "不能上传空图片".to_string() });
    }
    if bytes.len() > MAX_FILE_BYTES {
        return Err(
            UploadError { status: UploadStatus::PayloadTooLarge, message: "单张图片不能超过 15 MB".to_string() },
        );
    }
    let mime = match detected_image_mime(bytes) {
        Some(m) => m,
        None => {
            return Err(
                UploadError {
                    status: UploadStatus::UnsupportedMediaType,
                    message: "仅支持 JPEG、PNG、WebP、GIF 或 BMP 图片".to_string(),
                },
            );
        },
    };
    let name = match sent_name {
        Some(n) => n,
        None => "手机图片",
    };
    let mut data_url = String::new();
    push_str(&mut data_url, "data:");
    push_str(&mut data_url, mime);
    push_str(&mut data_url, ";base64,");
    let encoded = base64_encode(bytes);
    push_str(&mut data_url, encoded.as_str());
    Ok(
        LanUploadFile {
            file_name: clean_file_name(name, mime, index),
            mime_type: mime.to_string(),
            data_url,
        },
    )
}

/// How committing `count` received pictures changes the session at time `now`: the
/// link must still be the current, unexpired one and have room for all of them.
pub open spec fn committed_spec(
    before: Option<UploadSession>,
    after: Option<UploadSession>,
    record_id: Seq<char>,
    token: Seq<char>,
    now: u64,
    count: usize,
    r: Result<usize, UploadError>,
) -> bool {
    if count == 0 {
        after == before && fails_with(r, UploadStatus::BadRequest, "请至少选择一张图片"@)
    } else {
        match before {
            None => after is None && fails_with(r, UploadStatus::Gone, "上传会话已关闭"@),
            Some(s) => if s.record_id@ != record_id || s.token@ != token || s.expires_at <= now {
                after == before && fails_with(r, UploadStatus::Gone, "二维码已失效，请在电脑端重新生成"@)
            } else if count > s.remaining_slots {
                after == before && fails_with(r, UploadStatus::Conflict, "报销单剩余位置已发生变化，请刷新手机页面"@)
            } else {
                after == Some(UploadSession { remaining_slots: (s.remaining_slots - count) as usize, ..s })
                    && r == Ok::<usize, UploadError>((s.remaining_slots - count) as usize)
            },
        }
    }
}

/// Takes `count` slots of the session for the pictures just received.
pub fn commit_upload(
    current: &mut Option<UploadSession>,
    record_id: &str,
    token: &str,
    now: u64,
    count: usize,
) -> (r: Result<usize, UploadError>)
    ensures
        committed_spec(*old(current), *final(current), record_id@, token@, now, count, r),
{
    if count == 0 {
        return Err(UploadError { status: UploadStatus::BadRequest, message: "请至少选择一张图片".to_string() });
    }
    match current.take() {
        None => Err(UploadError { status: UploadStatus::Gone, message: "上传会话已关闭".to_string() }),
        Some(s) => {
            if !same_text(s.record_id.as_str(), record_id) || !same_text(s.token.as_str(), token)
                || s.expires_at <= now {
                *current = Some(s);
                return Err(
                    UploadError {
                        status: UploadStatus::Gone,
                        message: "二维码已失效，请在电脑端重新生成".to_string(),
                    },
                );
            }
            if count > s.remaining_slots {
                *current = Some(s);
                return Err(
                    UploadError {
                        status: UploadStatus::Conflict,
                        message: "报销单剩余位置已发生变化，请刷新手机页面".to_string(),
                    },
                );
            }
            let left = s.remaining_slots - count;
            *current = Some(UploadSession { remaining_slots: left, ..s });
            Ok(left)
        },
    }
}

/// How the slots of pictures that the desktop did not take are given back: only to the
/// same link, never beyond the report's limit; `remaining` is the count reported so far.
pub open spec fn restored_spec(
    before: Option<UploadSession>,
    after: Option<UploadSession>,
    record_id: Seq<char>,
    token: Seq<char>,
    requested: usize,
    accepted: usize,
    remaining: usize,
    r: usize,
) -> bool {
    let rejected = if requested > accepted { requested - accepted } else { 0 };
    if rejected > 0 && (before matches Some(s) && s.record_id@ == record_id && s.token@ == token) {
        let s = before->0;
        let back = if s.remaining_slots + rejected > usize::MAX { usize::MAX } else { (s.remaining_slots + rejected) as usize };
        let n = min_slots(back);
        after == Some(UploadSession { remaining_slots: n, ..s }) && r == n
    } else {
        after == before && r == remaining
    }
}

/// Gives back the slots of the pictures that the desktop did not take.
pub fn restore_rejected(
    current: &mut Option<UploadSession>,
    record_id: &str,
    token: &str,
    requested: usize,
    accepted: usize,
    remaining: usize,
) -> (r: usize)
    ensures
        restored_spec(*old(current), *final(current), record_id@, token@, requested, accepted, remaining, r),
{
    let rejected = requested.saturating_sub(accepted);
    if rejected == 0 {
        return remaining;
    }
    match current.take() {
        None => remaining,
        Some(s) => {
            if !same_text(s.record_id.as_str(), record_id) || !same_text(s.token.as_str(), token) {
                *current = Some(s);
                return remaining;
            }
            let back = s.remaining_slots.saturating_add(rejected);
            let n = if back < MAX_FILES {
                back
            } else {
                MAX_FILES
            };
            *current = Some(UploadSession { remaining_slots: n, ..s });
            n
        },
    }
}

/// The answer to the phone once the desktop has taken `accepted` pictures.
pub fn upload_result(accepted: usize, remaining: usize) -> (r: Result<UploadResponse, UploadError>)
    ensures
        accepted == 0 ==> fails_with(r, UploadStatus::InternalServerError, "电脑端未能接收图片"@),
        accepted > 0 ==> (r matches Ok(resp) && resp.ok && resp.accepted_count == accepted
            && resp.remaining_slots == remaining && resp.message@ == "已发送 "@ + decimal_spec(accepted as nat)
            + " 张图片到电脑"@),
{
    if accepted == 0 {
        return Err(
            UploadError { status: UploadStatus::InternalServerError, message: "电脑端未能接收图片".to_string() },
        );
    }
    let mut message = String::new();
    push_str(&mut message, "已发送 ");
    let n = decimal_string(accepted as u64);
    push_str(&mut message, n.as_str());
    push_str(&mut message, " 张图片到电脑");
    Ok(UploadResponse { ok: true, message, accepted_count: accepted, remaining_slots: remaining })
}

/// What the desktop shows for `session`, served at `address` (`host:port`).
pub fn session_info(session: &UploadSession, address: &str) -> (r: LanUploadSessionInfo)
    ensures
        r.url@ == "http://"@ + address@ + "/upload/"@ + session.record_id@ + "/"@ + session.token@,
        r.record_id == session.record_id,
        r.label == session.label,
        r.expires_at == session.expires_at,
        r.remaining_slots == session.remaining_slots,
        r.local_address@ == address@,
{
    let mut url = String::new();
    push_str(&mut url, "http://");
    push_str(&mut url, address);
    push_str(&mut url, "/upload/");
    push_str(&mut url, session.record_id.as_str());
    push_str(&mut url, "/");
    push_str(&mut url, session.token.as_str());
    LanUploadSessionInfo {
        url,
        record_id: session.record_id.clone(),
        label: session.label.clone(),
        expires_at: session.expires_at,
        remaining_slots: session.remaining_slots,
        local_address: address.to_string(),
    }
}


/// A freshly opened session never offers more slots than a report holds, and its label
/// is at most 30 characters.
pub proof fn law_opened_session_within_limits(request: StartLanUploadRequest, token: String, now: u64, s: UploadSession)
    requires
        opened_spec(request, token, now, s),
    ensures
        slots_ok(Some(s)),
        s.label@.len() <= 30,
{
}

/// A session opened at `now` lasts the lifetime asked for, held to one minute and one
/// hour: it expires `ttl` seconds after `now` for a `ttl` from 60 to 3600, one minute after
/// for a shorter one and one hour after for a longer one, and at the clock's largest value
/// where that sum does not fit.
pub proof fn law_session_lasts_its_ttl(request: StartLanUploadRequest, token: String, now: u64, s: UploadSession)
    requires
        opened_spec(request, token, now, s),
    ensures
        60 <= request.ttl_seconds <= 3600 && now + request.ttl_seconds * 1000 <= u64::MAX ==> s.expires_at == now
            + request.ttl_seconds * 1000,
        request.ttl_seconds < 60 && now + 60_000 <= u64::MAX ==> s.expires_at == now + 60_000,
        request.ttl_seconds > 3600 && now + 3_600_000 <= u64::MAX ==> s.expires_at == now + 3_600_000,
        s.expires_at == u64::MAX || s.expires_at - now >= 60_000,
        now + 60_000 > u64::MAX ==> s.expires_at == u64::MAX,
{
}

/// A link is short-lived: a session opened at `now` (milliseconds) lasts at least a minute
/// and at most an hour, except that its expiry stops at the clock's largest value.
pub proof fn law_session_is_short_lived(request: StartLanUploadRequest, token: String, now: u64, s: UploadSession)
    requires
        opened_spec(request, token, now, s),
    ensures
        s.expires_at <= now + 3_600_000,
        now + 60_000 <= s.expires_at || s.expires_at == u64::MAX,
{
}

/// A phone request is let through only with the current session's record number and
/// token, before the session expires; it then sees that session unchanged.
pub proof fn law_only_the_current_link_is_accepted(
    before: Option<UploadSession>,
    after: Option<UploadSession>,
    record_id: Seq<char>,
    token: Seq<char>,
    now: u64,
    r: Result<UploadSession, UploadError>,
)
    requires
        authorized_spec(before, after, record_id, token, now, r),
        r is Ok,
    ensures
        before matches Some(s) && s.record_id@ == record_id && s.token@ == token && now < s.expires_at,
        r == Ok::<UploadSession, UploadError>(before->0),
        after == before,
{
}

/// An update from the desktop keeps the free slots within the report's limit.
pub proof fn law_update_keeps_slot_limit(
    before: Option<UploadSession>,
    after: Option<UploadSession>,
    request: UpdateLanUploadRequest,
    now: u64,
)
    requires
        slots_ok(before),
        updated_spec(before, after, request, now),
    ensures
        slots_ok(after),
{
}

/// Checking a phone request keeps the free slots within the report's limit.
pub proof fn law_authorization_keeps_slot_limit(
    before: Option<UploadSession>,
    after: Option<UploadSession>,
    record_id: Seq<char>,
    token: Seq<char>,
    now: u64,
    r: Result<UploadSession, UploadError>,
)
    requires
        slots_ok(before),
        authorized_spec(before, after, record_id, token, now, r),
    ensures
        slots_ok(after),
        r matches Ok(s) ==> s.remaining_slots <= MAX_FILES,
{
}

/// Committing received pictures keeps the free slots within the report's limit.
pub proof fn law_commit_keeps_slot_limit(
    before: Option<UploadSession>,
    after: Option<UploadSession>,
    record_id: Seq<char>,
    token: Seq<char>,
    now: u64,
    count: usize,
    r: Result<usize, UploadError>,
)
    requires
        slots_ok(before),
        committed_spec(before, after, record_id, token, now, count, r),
    ensures
        slots_ok(after),
{
}

/// Giving back slots never lifts the free slots above the report's limit.
pub proof fn law_restore_keeps_slot_limit(
    before: Option<UploadSession>,
    after: Option<UploadSession>,
    record_id: Seq<char>,
    token: Seq<char>,
    requested: usize,
    accepted: usize,
    remaining: usize,
    r: usize,
)
    requires
        slots_ok(before),
        restored_spec(before, after, record_id, token, requested, accepted, remaining, r),
    ensures
        slots_ok(after),
{
}

/// Once a session is replaced by one with another token, a link with the old token is
/// refused as invalid and the new session stays as it is.
pub proof fn law_replaced_token_is_rejected(
    current: UploadSession,
    old_token: Seq<char>,
    now: u64,
    after: Option<UploadSession>,
    r: Result<UploadSession, UploadError>,
)
    requires
        current.expires_at > now,
        old_token != current.token@,
        authorized_spec(Some(current), after, current.record_id@, old_token, now, r),
    ensures
        fails_with(r, UploadStatus::NotFound, "二维码无效"@),
        after == Some(current),
{
}

/// A link whose session has expired is refused, and the session is closed.
pub proof fn law_expired_session_is_closed(
    current: UploadSession,
    record_id: Seq<char>,
    token: Seq<char>,
    now: u64,
    after: Option<UploadSession>,
    r: Result<UploadSession, UploadError>,
)
    requires
        current.expires_at <= now,
        authorized_spec(Some(current), after, record_id, token, now, r),
    ensures
        r is Err,
        after is None,
{
}

/// Committing `count` pictures and then giving back those the desktop did not take
/// leaves the session with exactly `accepted` slots fewer: a slot is used only by a
/// picture that reached the desktop.
pub proof fn law_only_delivered_pictures_use_slots(
    s: UploadSession,
    record_id: Seq<char>,
    token: Seq<char>,
    now: u64,
    count: usize,
    accepted: usize,
    left: usize,
    mid: Option<UploadSession>,
    after: Option<UploadSession>,
    r: usize,
)
    requires
        s.remaining_slots <= MAX_FILES,
        accepted <= count,
        committed_spec(Some(s), mid, record_id, token, now, count, Ok(left)),
        restored_spec(mid, after, record_id, token, count, accepted, left, r),
    ensures
        after == Some(UploadSession { remaining_slots: (s.remaining_slots - accepted) as usize, ..s }),
        r == s.remaining_slots - accepted,
{
    assert(mid == Some(UploadSession { remaining_slots: left, ..s }));
}

} // verus!
