use sheepfinance::lan_upload::{
    admit_upload_field, authorized_session, begin_upload_session, check_start_request, check_upload_capacity,
    clean_file_name, clean_label, commit_upload, default_ttl_seconds, detected_image_mime, now_millis,
    open_upload_session, prepare_upload_file, restore_rejected, session_info, update_upload_session, upload_result,
    validate_record_id, StartLanUploadRequest, UpdateLanUploadRequest, UploadSession, UploadStatus, MAX_FILES,
};
use sheepfinance::upload_page::{error_page, escape_html, mobile_page};

fn session(record_id: &str, token: &str, expires_at: u64, remaining_slots: usize) -> UploadSession {
    UploadSession {
        record_id: record_id.to_string(),
        label: "办公费".to_string(),
        token: token.to_string(),
        expires_at,
        remaining_slots,
    }
}

#[test]
fn detects_supported_image_signatures() {
    assert_eq!(detected_image_mime(&[0xFF, 0xD8, 0xFF, 0x00]), Some("image/jpeg"));
    assert_eq!(
        detected_image_mime(&[0x89, b'P', b'N', b'G', 0x0D, 0x0A, 0x1A, 0x0A]),
        Some("image/png")
    );
    assert_eq!(detected_image_mime(b"plain text"), None);
}

#[test]
fn sanitizes_html_and_file_names() {
    assert_eq!(escape_html("<a & 'b'>"), "&lt;a &amp; &#39;b&#39;&gt;");
    assert_eq!(clean_file_name("C:\\fake\\ticket.jpg", "image/jpeg", 0), "ticket.jpg");
}

#[test]
fn validates_record_ids() {
    assert!(validate_record_id("record-123_ab").is_ok());
    assert!(validate_record_id("../record").is_err());
}

#[test]
fn mobile_page_contains_current_session_only() {
    let session = UploadSession {
        record_id: "record-12345678".to_string(),
        label: "办公费<script>".to_string(),
        token: "secret".to_string(),
        expires_at: 123,
        remaining_slots: 4,
    };
    let page = mobile_page(&session);
    assert!(page.contains("办公费&lt;script&gt;"));
    assert!(page.contains("可上传 <b id=\"remaining\">4</b> 张"));
    assert!(!page.contains("secret"));
}

#[test]
fn rejects_old_token_after_session_replacement() {
    let mut state = Some(session("record-token-test", "old-token", now_millis() + 60_000, 2));
    assert!(authorized_session(&mut state, "record-token-test", "old-token", now_millis()).is_ok());

    state = Some(session("record-token-test", "new-token", now_millis() + 60_000, 2));

    let error = authorized_session(&mut state, "record-token-test", "old-token", now_millis())
        .err()
        .expect("old token should be rejected");
    assert_eq!(error.status, UploadStatus::NotFound);
    assert_eq!(error.status.code(), 404);
    assert!(authorized_session(&mut state, "record-token-test", "new-token", now_millis()).is_ok());
}

#[test]
fn record_id_errors_carry_the_upload_message() {
    assert_eq!(validate_record_id("").unwrap_err(), "报销单编号格式无效");
    assert!(validate_record_id(&"a".repeat(120)).is_ok());
    assert!(validate_record_id(&"a".repeat(121)).is_err());
    assert!(validate_record_id("记录").is_err());
}

#[test]
fn detects_every_supported_kind() {
    assert_eq!(detected_image_mime(b"GIF87a...."), Some("image/gif"));
    assert_eq!(detected_image_mime(b"GIF89a...."), Some("image/gif"));
    assert_eq!(detected_image_mime(b"RIFF\x00\x00\x00\x00WEBPVP8 "), Some("image/webp"));
    assert_eq!(detected_image_mime(b"RIFF\x00\x00\x00\x00WEBP"), Some("image/webp"));
    assert_eq!(detected_image_mime(b"RIFF\x00\x00\x00\x00WEB"), None);
    assert_eq!(detected_image_mime(b"BM"), Some("image/bmp"));
    assert_eq!(detected_image_mime(&[]), None);
}

#[test]
fn file_names_keep_the_last_segment_without_controls() {
    assert_eq!(clean_file_name("a/b\\c.png", "image/png", 3), "c.png");
    assert_eq!(clean_file_name("pic\u{7}.jpg", "image/jpeg", 0), "pic.jpg");
    assert_eq!(clean_file_name(&"x".repeat(150), "image/jpeg", 0), "x".repeat(100));
    assert_eq!(clean_file_name("dir/", "image/png", 0), "手机图片-1.png");
    assert_eq!(clean_file_name("   ", "image/gif", 1), "手机图片-2.gif");
    assert_eq!(clean_file_name("", "image/webp", 9), "手机图片-10.webp");
    assert_eq!(clean_file_name("", "image/bmp", 0), "手机图片-1.bmp");
    assert_eq!(clean_file_name("", "image/jpeg", 0), "手机图片-1.jpg");
}

#[test]
fn labels_are_trimmed_and_cut_to_thirty_characters() {
    assert_eq!(clean_label("  差旅  "), "差旅");
    let long = "字".repeat(40);
    assert_eq!(clean_label(&long).chars().count(), 30);
    assert_eq!(default_ttl_seconds(), 900);
}

#[test]
fn escaped_text_has_no_markup() {
    let escaped = escape_html("<script>alert(\"x\" & 'y')</script>");
    assert!(!escaped.contains('<') && !escaped.contains('>') && !escaped.contains('"') && !escaped.contains('\''));
    assert_eq!(escape_html("plain"), "plain");
}

#[test]
fn error_page_escapes_its_message() {
    let page = error_page("二维码无效<b>");
    assert!(page.contains("<p>二维码无效&lt;b&gt;</p>"));
    assert!(page.starts_with("<!doctype html>"));
}

#[test]
fn mobile_page_uses_a_generic_title_and_the_record_suffix() {
    let mut s = session("record-abcdefgh12", "tok", 99, 3);
    s.label = String::new();
    let page = mobile_page(&s);
    assert!(page.contains("<h1>当前报销单</h1>"));
    assert!(page.contains("报销单 #cdefgh12"));
    assert!(page.contains("const expiresAt=99;"));
    let mut other = session("record-abcdefgh12", "another-token", 99, 3);
    other.label = String::new();
    assert_eq!(mobile_page(&other), page);
}

#[test]
fn start_requests_are_checked_and_sessions_held_to_limits() {
    let mut request = StartLanUploadRequest {
        record_id: "bad/id".to_string(),
        label: "  label ".to_string(),
        remaining_slots: 0,
        ttl_seconds: 10,
    };
    assert_eq!(check_start_request(&request).unwrap_err(), "报销单编号格式无效");
    request.record_id = "rec-1".to_string();
    assert_eq!(check_start_request(&request).unwrap_err(), "当前报销单已达到 10 张图片上限");
    request.remaining_slots = 25;
    assert!(check_start_request(&request).is_ok());
    let s = open_upload_session(&request, "t".to_string(), 1_000);
    assert_eq!(s.label, "label");
    assert_eq!(s.remaining_slots, MAX_FILES);
    assert_eq!(s.expires_at, 1_000 + 60_000);
    request.ttl_seconds = 100_000;
    assert_eq!(open_upload_session(&request, "t".to_string(), 0).expires_at, 3_600_000);
    assert_eq!(open_upload_session(&request, "t".to_string(), u64::MAX - 5).expires_at, u64::MAX);
    let before = now_millis();
    let fresh = begin_upload_session(&request);
    let after = now_millis();
    assert!(before + 3_600_000 <= fresh.expires_at && fresh.expires_at <= after + 3_600_000);
    assert_eq!(fresh.token.len(), 32);
    assert!(fresh.token.chars().all(|c| c.is_ascii_hexdigit() && !c.is_ascii_uppercase()));
}

#[test]
fn updates_follow_the_desktop_or_close_the_session() {
    let mut state = Some(session("rec", "tok", 500, 4));
    let update = UpdateLanUploadRequest { record_id: "rec".to_string(), label: " 新 ".to_string(), remaining_slots: 12 };
    update_upload_session(&mut state, &update, 100);
    let s = state.as_ref().unwrap();
    assert_eq!((s.label.as_str(), s.remaining_slots, s.token.as_str()), ("新", 10, "tok"));
    update_upload_session(&mut state, &update, 500);
    assert!(state.is_none());
    let mut other = Some(session("rec", "tok", 500, 4));
    let elsewhere = UpdateLanUploadRequest { record_id: "other".to_string(), label: String::new(), remaining_slots: 1 };
    update_upload_session(&mut other, &elsewhere, 0);
    assert!(other.is_none());
    let mut none: Option<UploadSession> = None;
    update_upload_session(&mut none, &update, 0);
    assert!(none.is_none());
}

#[test]
fn authorization_errors_name_their_cause() {
    let mut none: Option<UploadSession> = None;
    let e = authorized_session(&mut none, "rec", "tok", 0).unwrap_err();
    assert_eq!((e.status, e.message.as_str()), (UploadStatus::Gone, "上传会话已关闭"));
    let mut expired = Some(session("rec", "tok", 10, 1));
    let e = authorized_session(&mut expired, "rec", "tok", 10).unwrap_err();
    assert_eq!((e.status.code(), e.message.as_str()), (410, "二维码已过期，请在电脑端重新生成"));
    assert!(expired.is_none());
}

#[test]
fn uploaded_pictures_are_checked_and_encoded() {
    let png = [0x89, b'P', b'N', b'G', 0x0D, 0x0A, 0x1A, 0x0A];
    let file = prepare_upload_file(Some("收据.png"), &png, 0).unwrap();
    assert_eq!(file.file_name, "收据.png");
    assert_eq!(file.mime_type, "image/png");
    assert_eq!(file.data_url, "data:image/png;base64,iVBORw0KGgo=");
    let unnamed = prepare_upload_file(None, &[0xFF, 0xD8, 0xFF], 2).unwrap();
    assert_eq!(unnamed.file_name, "手机图片");
    assert_eq!(unnamed.data_url, "data:image/jpeg;base64,/9j/");
    let e = prepare_upload_file(Some("x"), &[], 0).unwrap_err();
    assert_eq!((e.status.code(), e.message.as_str()), (400, "不能上传空图片"));
    let e = prepare_upload_file(Some("x"), b"text", 0).unwrap_err();
    assert_eq!((e.status.code(), e.message.as_str()), (415, "仅支持 JPEG、PNG、WebP、GIF 或 BMP 图片"));
    let big = vec![0xFFu8; 15 * 1024 * 1024 + 1];
    let e = prepare_upload_file(Some("x"), &big, 0).unwrap_err();
    assert_eq!((e.status.code(), e.message.as_str()), (413, "单张图片不能超过 15 MB"));
}

#[test]
fn form_fields_other_than_files_are_skipped() {
    assert!(!admit_upload_field(Some("other"), 0, 3).unwrap());
    assert!(!admit_upload_field(None, 0, 3).unwrap());
    assert!(admit_upload_field(Some("files"), 2, 3).unwrap());
    let e = admit_upload_field(Some("files"), 3, 3).unwrap_err();
    assert_eq!((e.status.code(), e.message.as_str()), (409, "所选图片超过当前报销单的剩余数量"));
    let e = check_upload_capacity(&session("rec", "tok", 10, 0)).unwrap_err();
    assert_eq!(e.message, "当前报销单已没有可上传位置");
    assert!(check_upload_capacity(&session("rec", "tok", 10, 1)).is_ok());
}

#[test]
fn commits_take_slots_and_rejections_give_them_back() {
    let mut state = Some(session("rec", "tok", 1_000, 5));
    assert_eq!(commit_upload(&mut state, "rec", "tok", 0, 3).unwrap(), 2);
    assert_eq!(restore_rejected(&mut state, "rec", "tok", 3, 0, 2), 5);
    assert_eq!(state.as_ref().unwrap().remaining_slots, 5);
    assert_eq!(restore_rejected(&mut state, "rec", "tok", 3, 3, 5), 5);
    assert_eq!(restore_rejected(&mut state, "rec", "other", 3, 0, 7), 7);
    let mut full = Some(session("rec", "tok", 1_000, 9));
    assert_eq!(restore_rejected(&mut full, "rec", "tok", 4, 0, 9), 10);
    let e = commit_upload(&mut state, "rec", "tok", 0, 0).unwrap_err();
    assert_eq!((e.status.code(), e.message.as_str()), (400, "请至少选择一张图片"));
    let e = commit_upload(&mut state, "rec", "tok", 0, 6).unwrap_err();
    assert_eq!((e.status.code(), e.message.as_str()), (409, "报销单剩余位置已发生变化，请刷新手机页面"));
    let e = commit_upload(&mut state, "rec", "bad", 0, 1).unwrap_err();
    assert_eq!((e.status.code(), e.message.as_str()), (410, "二维码已失效，请在电脑端重新生成"));
    let mut none: Option<UploadSession> = None;
    assert_eq!(commit_upload(&mut none, "rec", "tok", 0, 1).unwrap_err().message, "上传会话已关闭");
}

#[test]
fn upload_answers_count_what_the_desktop_took() {
    let ok = upload_result(2, 3).unwrap();
    assert!(ok.ok);
    assert_eq!((ok.message.as_str(), ok.accepted_count, ok.remaining_slots), ("已发送 2 张图片到电脑", 2, 3));
    let e = upload_result(0, 3).unwrap_err();
    assert_eq!((e.status.code(), e.message.as_str()), (500, "电脑端未能接收图片"));
}

#[test]
fn session_info_links_to_the_upload_page() {
    let info = session_info(&session("rec-9", "abc", 42, 2), "192.168.1.5:8080");
    assert_eq!(info.url, "http://192.168.1.5:8080/upload/rec-9/abc");
    assert_eq!(info.local_address, "192.168.1.5:8080");
    assert_eq!((info.expires_at, info.remaining_slots), (42, 2));
}

#[test]
fn only_delivered_pictures_use_slots() {
    let mut state = Some(session("rec", "tok", 1_000, 6));
    let left = commit_upload(&mut state, "rec", "tok", 10, 4).unwrap();
    assert_eq!(left, 2);
    assert_eq!(restore_rejected(&mut state, "rec", "tok", 4, 1, left), 5);
    assert_eq!(state.as_ref().unwrap().remaining_slots, 5);
    assert_eq!(state.as_ref().unwrap().token, "tok");
}
