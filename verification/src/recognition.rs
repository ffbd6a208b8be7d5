//! Recognising an expense from a picture: the request, its checks, and the answer.
use vstd::prelude::*;

use crate::codec::{base64_decode, base64_spec};
use crate::extraction::ExtractedExpense;
use crate::json::{parse_json, serde_json_parse, Json, JsonView};
use crate::lan_upload::{data_url_spec, mime_spec, ImageKind};
use crate::ocr::{extract_ocr_text, ocr_text_spec, opt_str};
use crate::text::{
    blank, decimal_spec, decimal_string, ends_with_text, first_index_of, is_blank, push_str,
    split_once_char, starts_with_text, trim_spec,
};

verus! {

/// The version of the Aliyun OCR API that requests name.
pub const ALIYUN_API_VERSION: &'static str = "2021-07-07";

/// The query that asks the advanced OCR for rotation, page order, paragraphs and rows.
pub const ADVANCED_OCR_QUERY: &'static str = "NeedRotate=true&NeedSortPage=true&Paragraph=true&Row=true";

/// The largest picture sent for recognition, in bytes.
pub const MAX_IMAGE_BYTES: usize = 10 * 1024 * 1024;

/// The instructions given to the model with every request.
pub const EXTRACTION_SYSTEM_PROMPT: &'static str = "你是严格的中文报销单据字段提取器。只根据 OCR 原文提取，不得编造。不要输出分析、思考过程或 reasoning_content。无论信息是否完整，都必须返回且只能返回一个合法 JSON 对象，禁止 Markdown、解释、前后缀和空响应。JSON 必须包含 occurredDate、reasonName、description、amount、confidence、evidence 六个键；无法确定的标量填 null，confidence 和 evidence 无内容时填空对象。occurredDate 使用 YYYY-MM-DD，优先取支付时间或交易时间；reasonName 必须严格选自给定事由字典，不能确定时填 null；description 用简短中文概括商品、服务或商户；amount 是本笔可报销的实际支付金额，返回正数两位小数字符串，支付截图中的支出负号要去掉；金额中的英文逗号或中文全角逗号可能是千分位，例如 1,546.69 或 1，546.69 都表示 1546.69，不能截断；优先取实付、支付金额、付款金额或合计，不要把优惠金额、商品原价、余额或授信额度当作实付。";

/// Which Aliyun OCR service reads the picture.
#[derive(Clone, Copy, Debug, PartialEq, Eq, Structural)]
pub enum OcrMode {
    Advanced,
    Handwriting,
}

impl OcrMode {
    /// The API action of the mode.
    pub fn action(self) -> (r: &'static str)
        ensures
            r@ == match self {
                OcrMode::Advanced => "RecognizeAdvanced"@,
                OcrMode::Handwriting => "RecognizeHandwriting"@,
            },
    {
        match self {
            OcrMode::Advanced => "RecognizeAdvanced",
            OcrMode::Handwriting => "RecognizeHandwriting",
        }
    }

    /// The query string of the mode: layout options for the advanced OCR only.
    pub fn query(self) -> (r: &'static str)
        ensures
            r@ == match self {
                OcrMode::Advanced => ADVANCED_OCR_QUERY@,
                OcrMode::Handwriting => ""@,
            },
    {
        match self {
            OcrMode::Advanced => ADVANCED_OCR_QUERY,
            OcrMode::Handwriting => "",
        }
    }
}

/// The Aliyun OCR account and address.
#[derive(Clone, Debug)]
pub struct OcrProfile {
    pub name: String,
    pub endpoint: String,
    pub region: String,
    pub access_key_id: String,
    pub access_key_secret: String,
    pub timeout_seconds: u64,
}

/// The language-model account and address.
#[derive(Clone, Debug)]
pub struct LlmProfile {
    pub name: String,
    pub base_url: String,
    pub api_key: String,
    pub model: String,
    pub timeout_seconds: u64,
}

/// A request to recognise one picture.
#[derive(Clone, Debug)]
pub struct RecognitionRequest {
    pub image_data_url: String,
    pub ocr_mode: OcrMode,
    pub ocr_profile: OcrProfile,
    pub llm_profile: LlmProfile,
    pub reason_dictionary: Vec<String>,
}

/// What recognising one picture gave.
#[derive(Debug)]
pub struct RecognitionResponse {
    pub ocr_text: String,
    pub llm_text: Option<String>,
    pub extracted: Option<ExtractedExpense>,
    pub ocr_profile_name: String,
    pub llm_profile_name: String,
    pub ocr_elapsed_ms: u128,
    pub llm_elapsed_ms: u128,
    pub llm_error: Option<String>,
}

/// The request timeout used when a profile names none, in seconds.
pub fn default_timeout_seconds() -> (r: u64)
    ensures
        r == 30,
{
    30
}

/// A profile's timeout held to 5..=180 seconds.
pub fn request_timeout_seconds(seconds: u64) -> (r: u64)
    ensures
        r == if seconds < 5 {
            5
        } else if seconds > 180 {
            180
        } else {
            seconds
        },
{
    if seconds < 5 {
        5
    } else if seconds > 180 {
        180
    } else {
        seconds
    }
}

/// Refuses a request whose OCR keys, or whose model key or name, are blank.
pub fn validate_request(request: &RecognitionRequest) -> (r: Result<(), String>)
    ensures
        is_blank(request.ocr_profile.access_key_id@) || is_blank(request.ocr_profile.access_key_secret@) ==> (r matches Err(m)
            && m@ == "请先填写阿里云 OCR 的 AccessKey ID 和 AccessKey Secret"@),
        !(is_blank(request.ocr_profile.access_key_id@) || is_blank(request.ocr_profile.access_key_secret@))
            && (is_blank(request.llm_profile.api_key@) || is_blank(request.llm_profile.model@)) ==> (r matches Err(m)
            && m@ == "请先填写大模型 API Key 和模型名称"@),
        !(is_blank(request.ocr_profile.access_key_id@) || is_blank(request.ocr_profile.access_key_secret@))
            && !(is_blank(request.llm_profile.api_key@) || is_blank(request.llm_profile.model@)) ==> r is Ok,
{
    if blank(request.ocr_profile.access_key_id.as_str()) || blank(request.ocr_profile.access_key_secret.as_str()) {
        return Err("请先填写阿里云 OCR 的 AccessKey ID 和 AccessKey Secret".to_string());
    }
    if blank(request.llm_profile.api_key.as_str()) || blank(request.llm_profile.model.as_str()) {
        return Err("请先填写大模型 API Key 和模型名称".to_string());
    }
    Ok(())
}

/// What decoding a picture's `data:` URL gives: the bytes after the first comma, read as
/// standard base64, when the part before it is `data:image/…;base64` and the picture is
/// neither empty nor larger than `MAX_IMAGE_BYTES`; otherwise the reason it failed.
pub open spec fn decoded_image_spec(data_url: Seq<char>, r: Result<Vec<u8>, String>) -> bool {
    match first_index_of(data_url, ',') {
        None => r matches Err(m) && m@ == "识别图片数据格式无效"@,
        Some(i) => {
            let metadata = data_url.subrange(0, i);
            let content = data_url.subrange(i + 1, data_url.len() as int);
            if !"data:image/"@.is_prefix_of(metadata) || !";base64"@.is_suffix_of(metadata) {
                r matches Err(m) && m@ == "识别图片必须是 Base64 图片数据"@
            } else if forall|b: Seq<u8>| base64_spec(b) != content {
                r matches Err(m) && m@ == "识别图片 Base64 解码失败"@
            } else {
                let b = choose|b: Seq<u8>| base64_spec(b) == content;
                if b.len() == 0 {
                    r matches Err(m) && m@ == "识别图片内容为空"@
                } else if b.len() > MAX_IMAGE_BYTES {
                    r matches Err(m) && m@ == "识别图片超过 10 MB，请重新压缩后再试"@
                } else {
                    r matches Ok(v) && v@ == b
                }
            }
        },
    }
}

/// The picture carried by a `data:image/…;base64,` URL.
pub fn decode_image_data_url(data_url: &str) -> (r: Result<Vec<u8>, String>)
    ensures
        decoded_image_spec(data_url@, r),
{
    let (metadata, content) = match split_once_char(data_url, ',') {
        Some(p) => p,
        None => {
            return Err("识别图片数据格式无效".to_string());
        },
    };
    if !starts_with_text(metadata, "data:image/") || !ends_with_text(metadata, ";base64") {
        return Err("识别图片必须是 Base64 图片数据".to_string());
    }
    let bytes = match base64_decode(content) {
        Some(b) => b,
        None => {
            return Err("识别图片 Base64 解码失败".to_string());
        },
    };
    proof {
        let b = choose|b: Seq<u8>| base64_spec(b) == content@;
        crate::codec::law_base64_injective(b, bytes@);
    }
    if bytes.len() == 0 {
        return Err("识别图片内容为空".to_string());
    }
    if bytes.len() > MAX_IMAGE_BYTES {
        return Err("识别图片超过 10 MB，请重新压缩后再试".to_string());
    }
    Ok(bytes)
}


/// Every picture type the phone upload takes is written `image/…` and holds no comma.
proof fn lemma_mime_shape(kind: ImageKind)
    ensures
        "image/"@.is_prefix_of(mime_spec(kind)),
        forall|i: int| 0 <= i < mime_spec(kind).len() ==> mime_spec(kind)[i] != ',',
{
    reveal_strlit("image/");
    let m = mime_spec(kind);
    match kind {
        ImageKind::Jpeg => reveal_strlit("image/jpeg"),
        ImageKind::Png => reveal_strlit("image/png"),
        ImageKind::Gif => reveal_strlit("image/gif"),
        ImageKind::Webp => reveal_strlit("image/webp"),
        ImageKind::Bmp => reveal_strlit("image/bmp"),
    }
    assert("image/"@ =~= m.subrange(0, 6));
}

/// A picture received from a phone, once written as its `data:` URL, decodes back to the
/// same bytes when that URL is handed to recognition, unless it is larger than
/// recognition takes.
pub proof fn law_uploaded_picture_decodes_back(kind: ImageKind, bytes: Seq<u8>, r: Result<Vec<u8>, String>)
    requires
        0 < bytes.len() <= MAX_IMAGE_BYTES,
        decoded_image_spec(data_url_spec(mime_spec(kind), bytes), r),
    ensures
        r matches Ok(v) && v@ == bytes,
{
    reveal_strlit("data:");
    reveal_strlit(";base64");
    reveal_strlit(";base64,");
    reveal_strlit("data:image/");
    lemma_mime_shape(kind);
    let mime = mime_spec(kind);
    let prefix = "data:"@ + mime + ";base64"@;
    let content = base64_spec(bytes);
    let url = data_url_spec(mime, bytes);
    let p = prefix.len() as int;
    assert(url =~= prefix + seq![','] + content);
    assert forall|j: int| 0 <= j < p implies url[j] != ',' by {
        assert(url[j] == prefix[j]);
        if 5 <= j < 5 + mime.len() {
            assert(prefix[j] == mime[j - 5]);
        }
    }
    assert(url[p] == ',');
    assert(url.contains(','));
    let i = choose|i: int| 0 <= i < url.len() && url[i] == ',' && forall|j: int| 0 <= j < i ==> url[j] != ',';
    assert(i == p) by {
        if i < p {
            assert(url[i] != ',');
        } else if i > p {
            assert(url[p] != ',');
        }
    }
    assert(first_index_of(url, ',') == Some(p));
    let metadata = url.subrange(0, p);
    assert(metadata =~= prefix);
    assert(url.subrange(p + 1, url.len() as int) =~= content);
    assert("data:image/"@ =~= metadata.subrange(0, 11)) by {
        reveal_strlit("image/");
        assert(mime.subrange(0, 6) =~= "image/"@);
        assert forall|j: int| 0 <= j < 11 implies metadata.subrange(0, 11)[j] == "data:image/"@[j] by {
            assert(metadata[j] == prefix[j]);
            if j < 5 {
                assert(prefix[j] == "data:"@[j]);
            } else {
                assert(prefix[j] == mime[j - 5]);
                assert(mime[j - 5] == "image/"@[j - 5]);
            }
        }
    }
    assert(";base64"@ =~= metadata.subrange(metadata.len() - 7, metadata.len() as int));
    let b = choose|b: Seq<u8>| base64_spec(b) == content;
    assert(base64_spec(bytes) == content);
    crate::codec::law_base64_injective(b, bytes);
}

/// The text of entry `key`, else of entry `alternative` when `key` is missing; `default`
/// when the chosen entry is missing or not a string.
pub open spec fn text_or(v: JsonView, key: Seq<char>, alternative: Seq<char>, default: Seq<char>) -> Seq<char> {
    let chosen = match v.get(key) {
        Some(x) => Some(x),
        None => v.get(alternative),
    };
    match chosen {
        Some(x) => match x.as_str() {
            Some(s) => s,
            None => default,
        },
        None => default,
    }
}

/// The message for an error answer of `service` with HTTP `status` and body `v`.
pub open spec fn api_error_spec(service: Seq<char>, status: u16, v: JsonView) -> Seq<char> {
    service + " 请求失败（HTTP "@ + decimal_spec(status as nat) + "，"@ + text_or(v, "Code"@, "code"@, "UnknownError"@)
        + "）："@ + text_or(v, "Message"@, "message"@, "服务返回错误"@)
}

fn text_or_exec<'a>(v: &'a Json, key: &str, alternative: &str, default: &'a str) -> (r: &'a str)
    ensures
        r@ == text_or(v@, key@, alternative@, default@),
{
    let chosen = match v.get(key) {
        Some(x) => Some(x),
        None => v.get(alternative),
    };
    match chosen {
        Some(x) => match x.as_str() {
            Some(s) => s,
            None => default,
        },
        None => default,
    }
}

/// The message for an error answer: the service's code and message, or placeholders.
pub fn api_error(service: &str, status: u16, value: &Json) -> (r: String)
    ensures
        r@ == api_error_spec(service@, status, value@),
{
    let code = text_or_exec(value, "Code", "code", "UnknownError");
    let message = text_or_exec(value, "Message", "message", "服务返回错误");
    let mut r = String::new();
    push_str(&mut r, service);
    push_str(&mut r, " 请求失败（HTTP ");
    let s = decimal_string(status as u64);
    push_str(&mut r, s.as_str());
    push_str(&mut r, "，");
    push_str(&mut r, code);
    push_str(&mut r, "）：");
    push_str(&mut r, message);
    r
}

/// How a request to a service failed on the network.
#[derive(Clone, Debug)]
pub enum NetworkFailure {
    Timeout,
    Connect,
    Other(String),
}

/// The message for a network failure.
pub fn network_error(service: &str, failure: &NetworkFailure) -> (r: String)
    ensures
        r@ == match failure {
            NetworkFailure::Timeout => service@ + " 请求超时"@,
            NetworkFailure::Connect => "无法连接到"@ + service@ + "服务，请检查网络和服务地址"@,
            NetworkFailure::Other(detail) => service@ + " 请求失败："@ + detail@,
        },
{
    let mut r = String::new();
    match failure {
        NetworkFailure::Timeout => {
            push_str(&mut r, service);
            push_str(&mut r, " 请求超时");
        },
        NetworkFailure::Connect => {
            push_str(&mut r, "无法连接到");
            push_str(&mut r, service);
            push_str(&mut r, "服务，请检查网络和服务地址");
        },
        NetworkFailure::Other(detail) => {
            push_str(&mut r, service);
            push_str(&mut r, " 请求失败：");
            push_str(&mut r, detail.as_str());
        },
    }
    r
}

/// Whether an HTTP status means success (2xx).
pub open spec fn is_success(status: u16) -> bool {
    200 <= status <= 299
}

/// The message for an answer that is not JSON.
pub open spec fn unreadable_answer(service: Seq<char>, status: u16) -> Seq<char> {
    service + "返回了无法解析的响应（HTTP "@ + decimal_spec(status as nat) + "）"@
}

fn unreadable_message(service: &str, status: u16) -> (r: String)
    ensures
        r@ == unreadable_answer(service@, status),
{
    let mut r = String::new();
    push_str(&mut r, service);
    push_str(&mut r, "返回了无法解析的响应（HTTP ");
    let s = decimal_string(status as u64);
    push_str(&mut r, s.as_str());
    push_str(&mut r, "）");
    r
}

/// What an OCR answer with HTTP `status` and `body` gives: the recognised text, or why
/// there is none.
pub open spec fn ocr_answer_spec(status: u16, body: Seq<char>, r: Result<String, String>) -> bool {
    match serde_json_parse(body) {
        None => r matches Err(m) && m@ == unreadable_answer("阿里云 OCR "@, status),
        Some(v) => if !is_success(status) {
            r matches Err(m) && m@ == api_error_spec("阿里云 OCR"@, status, v)
        } else {
            match ocr_text_spec(v) {
                Some(t) => r matches Ok(x) && x@ == t,
                None => r matches Err(m) && m@ == "阿里云 OCR 响应中缺少文字内容"@,
            }
        },
    }
}

/// Reads an OCR answer: its JSON body, its status, then the recognised text.
pub fn ocr_response_text(status: u16, body: &str) -> (r: Result<String, String>)
    ensures
        ocr_answer_spec(status, body@, r),
{
    let value = match parse_json(body) {
        Some(v) => v,
        None => {
            return Err(unreadable_message("阿里云 OCR ", status));
        },
    };
    if !(200 <= status && status <= 299) {
        return Err(api_error("阿里云 OCR", status, &value));
    }
    match extract_ocr_text(&value) {
        Some(t) => Ok(t),
        None => Err("阿里云 OCR 响应中缺少文字内容".to_string()),
    }
}

/// What a model answer with HTTP `status` and `body` gives: its JSON value, or why not.
pub open spec fn llm_answer_spec(status: u16, body: Seq<char>, r: Result<Json, String>) -> bool {
    match serde_json_parse(body) {
        None => r matches Err(m) && m@ == unreadable_answer("大模型"@, status),
        Some(v) => if !is_success(status) {
            r matches Err(m) && m@ == api_error_spec("大模型"@, status, v)
        } else {
            r matches Ok(x) && x@ == v
        },
    }
}

/// Reads a model answer: its JSON body, then its status.
pub fn llm_response_value(status: u16, body: &str) -> (r: Result<Json, String>)
    ensures
        llm_answer_spec(status, body@, r),
{
    let value = match parse_json(body) {
        Some(v) => v,
        None => {
            return Err(unreadable_message("大模型", status));
        },
    };
    if !(200 <= status && status <= 299) {
        return Err(api_error("大模型", status, &value));
    }
    Ok(value)
}

/// Why a request is refused before anything is sent: blank OCR keys, or a blank model
/// key or name.
pub open spec fn request_problem(request: RecognitionRequest) -> Option<Seq<char>> {
    if is_blank(request.ocr_profile.access_key_id@) || is_blank(request.ocr_profile.access_key_secret@) {
        Some("请先填写阿里云 OCR 的 AccessKey ID 和 AccessKey Secret"@)
    } else if is_blank(request.llm_profile.api_key@) || is_blank(request.llm_profile.model@) {
        Some("请先填写大模型 API Key 和模型名称"@)
    } else {
        None
    }
}

/// Checks the request and decodes its picture, before anything is sent.
pub fn begin_recognition(request: &RecognitionRequest) -> (r: Result<Vec<u8>, String>)
    ensures
        match request_problem(*request) {
            Some(m) => r matches Err(x) && x@ == m,
            None => decoded_image_spec(request.image_data_url@, r),
        },
{
    validate_request(request)?;
    decode_image_data_url(request.image_data_url.as_str())
}

/// Refuses OCR text that holds nothing but whitespace.
pub fn check_ocr_text(ocr_text: &str) -> (r: Result<(), String>)
    ensures
        is_blank(ocr_text@) ==> (r matches Err(m) && m@ == "OCR 请求成功，但未识别到文字"@),
        !is_blank(ocr_text@) ==> r is Ok,
{
    if blank(ocr_text) {
        return Err("OCR 请求成功，但未识别到文字".to_string());
    }
    Ok(())
}

/// Puts together what recognising one picture gave: the model's fields and record when
/// it succeeded, its error (and any record) when it did not.
pub fn recognition_response(
    request: &RecognitionRequest,
    ocr_text: String,
    ocr_elapsed_ms: u128,
    extraction: Result<(ExtractedExpense, String), (String, Option<String>)>,
    llm_elapsed_ms: u128,
) -> (r: RecognitionResponse)
    ensures
        r.ocr_text == ocr_text,
        r.ocr_profile_name == request.ocr_profile.name,
        r.llm_profile_name == request.llm_profile.name,
        r.ocr_elapsed_ms == ocr_elapsed_ms,
        r.llm_elapsed_ms == llm_elapsed_ms,
        match extraction {
            Ok((value, content)) => r.extracted == Some(value) && r.llm_text == Some(content) && r.llm_error is None,
            Err((message, content)) => r.extracted is None && r.llm_text == content && r.llm_error == Some(message),
        },
{
    let (extracted, llm_text, llm_error) = match extraction {
        Ok((value, content)) => (Some(value), Some(content), None),
        Err((message, content)) => (None, content, Some(message)),
    };
    RecognitionResponse {
        ocr_text,
        llm_text,
        extracted,
        ocr_profile_name: request.ocr_profile.name.clone(),
        llm_profile_name: request.llm_profile.name.clone(),
        ocr_elapsed_ms,
        llm_elapsed_ms,
        llm_error,
    }
}

} // verus!
