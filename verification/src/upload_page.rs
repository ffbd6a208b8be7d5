//! The pages that the phone sees: the upload form and the error page.
use vstd::prelude::*;

use crate::lan_upload::UploadSession;
use crate::text::{decimal_spec, decimal_string, push_char, push_str, chars_of};

verus! {

/// The page up to the title in the header.
pub const MOBILE_PAGE_HEAD: &'static str = "<!doctype html>\n<html lang=\"zh-CN\">\n<head>\n  <meta charset=\"utf-8\">\n  <meta name=\"viewport\" content=\"width=device-width,initial-scale=1,maximum-scale=1\">\n  <title>SheepFinance 手机上传</title>\n  <style>\n    *{box-sizing:border-box}body{margin:0;color:#26352f;background:#eef1ef;font-family:\"Microsoft YaHei\",\"PingFang SC\",sans-serif}button,input{font:inherit}header{padding:22px 20px 18px;color:#fff;background:#4e7164}header small{display:block;margin-bottom:5px;opacity:.75}header h1{margin:0;font-size:22px;letter-spacing:0}header p{margin:7px 0 0;opacity:.84;font-size:12px}main{max-width:620px;margin:0 auto;padding:18px 16px 34px}.summary{display:flex;justify-content:space-between;gap:12px;padding:12px 0;border-bottom:1px solid #d9e1dc;color:#6b7b74;font-size:12px}.picker{display:grid;place-items:center;min-height:128px;margin-top:18px;border:1px dashed #9db2a7;border-radius:8px;color:#48675b;background:#fff;cursor:pointer}.picker strong{display:block;margin-bottom:5px;font-size:16px}.picker span{font-size:12px;color:#87958f}#files{display:none}.previews{display:grid;grid-template-columns:repeat(3,minmax(0,1fr));gap:8px;margin-top:14px}.preview{position:relative;aspect-ratio:1;overflow:hidden;border-radius:6px;background:#dfe6e2}.preview img{width:100%;height:100%;display:block;object-fit:cover}.preview span{position:absolute;right:4px;bottom:4px;max-width:calc(100% - 8px);overflow:hidden;padding:2px 5px;color:#fff;background:rgba(28,40,35,.72);font-size:10px;text-overflow:ellipsis;white-space:nowrap}.action{width:100%;height:46px;margin-top:16px;border:0;border-radius:8px;color:#fff;background:#c85f47;font-weight:700;cursor:pointer}.action:disabled{cursor:not-allowed;opacity:.45}.status{min-height:42px;margin-top:12px;padding:10px 12px;border-radius:7px;color:#61726a;background:#f8faf8;font-size:12px;line-height:1.7}.status.success{color:#27725c;background:#edf8f3}.status.error{color:#a5433c;background:#fff2ef}footer{padding-top:22px;color:#95a19b;text-align:center;font-size:11px}@media(max-width:390px){.previews{grid-template-columns:repeat(2,minmax(0,1fr))}}\n  </style>\n</head>\n<body>\n  <header><small>SHEEPFINANCE</small><h1>";

/// Between the title and the record number suffix.
pub const MOBILE_PAGE_AFTER_TITLE: &'static str = "</h1><p>报销单 #";

/// Between the record number suffix and the remaining count.
pub const MOBILE_PAGE_AFTER_RECORD: &'static str = "</p></header>\n  <main>\n    <div class=\"summary\"><span>可上传 <b id=\"remaining\">";

/// Between the remaining count and the expiry time in the script.
pub const MOBILE_PAGE_AFTER_REMAINING: &'static str = "</b> 张</span><span id=\"expires\"></span></div>\n    <label class=\"picker\" for=\"files\"><div><strong>选择票据图片</strong><span>支持从相册多选</span></div></label>\n    <input id=\"files\" type=\"file\" accept=\"image/jpeg,image/png,image/webp,image/gif,image/bmp\" multiple>\n    <div id=\"previews\" class=\"previews\"></div>\n    <button id=\"upload\" class=\"action\" type=\"button\" disabled>上传到电脑</button>\n    <div id=\"status\" class=\"status\">等待选择图片</div>\n    <footer>SheepFinance 局域网上传</footer>\n  </main>\n  <script>\n    const input=document.querySelector('#files');const previews=document.querySelector('#previews');const upload=document.querySelector('#upload');const status=document.querySelector('#status');const remaining=document.querySelector('#remaining');const expires=document.querySelector('#expires');const expiresAt=";

/// The rest of the page after the expiry time.
pub const MOBILE_PAGE_TAIL: &'static str = ";let urls=[];\n    function setStatus(text,type=''){status.textContent=text;status.className='status '+type}\n    function render(){urls.forEach(URL.revokeObjectURL);urls=[];previews.innerHTML='';const files=[...input.files];upload.disabled=!files.length||files.length>Number(remaining.textContent);files.forEach((file,index)=>{const url=URL.createObjectURL(file);urls.push(url);const item=document.createElement('div');item.className='preview';const image=document.createElement('img');image.src=url;image.alt=file.name;const label=document.createElement('span');label.textContent=(index+1)+'. '+file.name;item.append(image,label);previews.append(item)});if(!files.length)setStatus('等待选择图片');else if(files.length>Number(remaining.textContent))setStatus('所选图片超过剩余数量','error');else setStatus('已选择 '+files.length+' 张图片')}\n    function tick(){const seconds=Math.max(0,Math.floor((expiresAt-Date.now())/1000));expires.textContent=seconds?'二维码剩余 '+Math.floor(seconds/60)+':'+String(seconds%60).padStart(2,'0'):'二维码已过期';if(!seconds)upload.disabled=true}tick();setInterval(tick,1000);input.addEventListener('change',render);\n    upload.addEventListener('click',async()=>{const files=[...input.files];if(!files.length)return;upload.disabled=true;setStatus('正在发送到电脑...');const body=new FormData();files.forEach(file=>body.append('files',file,file.name));try{const response=await fetch(location.pathname,{method:'POST',body});const result=await response.json();if(!response.ok||!result.ok)throw new Error(result.message||'上传失败');remaining.textContent=String(result.remainingSlots);input.value='';render();setStatus(result.message,'success')}catch(error){setStatus(error.message||'上传失败','error');upload.disabled=false}});\n  </script>\n</body>\n</html>";

/// The error page up to the message.
pub const ERROR_PAGE_HEAD: &'static str = "<!doctype html><html lang=\"zh-CN\"><head><meta charset=\"utf-8\"><meta name=\"viewport\" content=\"width=device-width,initial-scale=1\"><title>二维码已失效</title><style>body{display:grid;min-height:100vh;place-items:center;margin:0;padding:24px;color:#35483f;background:#eef1ef;font-family:\"Microsoft YaHei\",sans-serif}main{max-width:420px;text-align:center}h1{font-size:22px}p{color:#718078;line-height:1.7}</style></head><body><main><h1>无法继续上传</h1><p>";

/// The error page after the message.
pub const ERROR_PAGE_TAIL: &'static str = "</p></main></body></html>";

/// What `escape_html` writes for one character.
pub open spec fn escape_char_spec(c: char) -> Seq<char> {
    if c == '&' {
        "&amp;"@
    } else if c == '<' {
        "&lt;"@
    } else if c == '>' {
        "&gt;"@
    } else if c == '"' {
        "&quot;"@
    } else if c == '\'' {
        "&#39;"@
    } else {
        seq![c]
    }
}

/// `s` with each of `& < > " '` replaced by its HTML entity.
pub open spec fn escape_html_spec(s: Seq<char>) -> Seq<char>
    decreases s.len(),
{
    if s.len() == 0 {
        Seq::empty()
    } else {
        escape_html_spec(s.drop_last()) + escape_char_spec(s.last())
    }
}

/// The last `n` characters of `s` (all of `s` when it is shorter).
pub open spec fn last_chars(s: Seq<char>, n: nat) -> Seq<char> {
    if s.len() <= n {
        s
    } else {
        s.subrange(s.len() - n, s.len() as int)
    }
}

/// The heading of the upload page: the escaped label, or a generic title.
pub open spec fn page_title(label: Seq<char>) -> Seq<char> {
    if label.len() == 0 {
        "当前报销单"@
    } else {
        escape_html_spec(label)
    }
}

/// The upload page for `session`.
pub open spec fn mobile_page_spec(session: UploadSession) -> Seq<char> {
    MOBILE_PAGE_HEAD@ + page_title(session.label@) + MOBILE_PAGE_AFTER_TITLE@
        + escape_html_spec(last_chars(session.record_id@, 8)) + MOBILE_PAGE_AFTER_RECORD@
        + decimal_spec(session.remaining_slots as nat) + MOBILE_PAGE_AFTER_REMAINING@
        + decimal_spec(session.expires_at as nat) + MOBILE_PAGE_TAIL@
}

/// The page shown in place of the form when the link cannot be used.
pub open spec fn error_page_spec(message: Seq<char>) -> Seq<char> {
    ERROR_PAGE_HEAD@ + escape_html_spec(message) + ERROR_PAGE_TAIL@
}

/// Replaces `& < > " '` by HTML entities.
pub fn escape_html(value: &str) -> (r: String)
    ensures
        r@ == escape_html_spec(value@),
{
    let cs = chars_of(value);
    let mut r = String::new();
    let mut i: usize = 0;
    while i < cs.len()
        invariant
            cs@ == value@,
            i <= cs.len(),
            r@ == escape_html_spec(cs@.take(i as int)),
        decreases cs.len() - i,
    {
        let c = cs[i];
        let ghost before = r@;
        if c == '&' {
            push_str(&mut r, "&amp;");
        } else if c == '<' {
            push_str(&mut r, "&lt;");
        } else if c == '>' {
            push_str(&mut r, "&gt;");
        } else if c == '"' {
            push_str(&mut r, "&quot;");
        } else if c == '\'' {
            push_str(&mut r, "&#39;");
        } else {
            push_char(&mut r, c);
            assert(r@ =~= before + seq![c]);
        }
        assert(cs@.take(i + 1).drop_last() =~= cs@.take(i as int));
        i = i + 1;
    }
    assert(cs@.take(cs.len() as int) =~= cs@);
    r
}

/// The page that lets the phone pick and send pictures for `session`.
/// The token is not written into it.
pub fn mobile_page(session: &UploadSession) -> (r: String)
    ensures
        r@ == mobile_page_spec(*session),
{
    let id = session.record_id.as_str();
    let n = chars_of(id).len();
    let start: usize = if n <= 8 { 0 } else { n - 8 };
    let suffix = id.substring_char(start, n);
    assert(suffix@ =~= last_chars(session.record_id@, 8));
    let mut r = String::new();
    push_str(&mut r, MOBILE_PAGE_HEAD);
    if session.label.as_str().is_empty() {
        push_str(&mut r, "当前报销单");
    } else {
        let title = escape_html(session.label.as_str());
        push_str(&mut r, title.as_str());
    }
    push_str(&mut r, MOBILE_PAGE_AFTER_TITLE);
    let escaped = escape_html(suffix);
    push_str(&mut r, escaped.as_str());
    push_str(&mut r, MOBILE_PAGE_AFTER_RECORD);
    let remaining = decimal_string(session.remaining_slots as u64);
    push_str(&mut r, remaining.as_str());
    push_str(&mut r, MOBILE_PAGE_AFTER_REMAINING);
    let expires = decimal_string(session.expires_at);
    push_str(&mut r, expires.as_str());
    push_str(&mut r, MOBILE_PAGE_TAIL);
    r
}

/// The page that explains why uploading cannot go on.
pub fn error_page(message: &str) -> (r: String)
    ensures
        r@ == error_page_spec(message@),
{
    let mut r = String::new();
    push_str(&mut r, ERROR_PAGE_HEAD);
    let escaped = escape_html(message);
    push_str(&mut r, escaped.as_str());
    push_str(&mut r, ERROR_PAGE_TAIL);
    r
}


/// Whether `c` would be read as markup or as the end of an attribute value.
pub open spec fn is_markup_char(c: char) -> bool {
    c == '<' || c == '>' || c == '"' || c == '\''
}

/// Escaped text holds no `<`, `>`, `"` or `'`, so it cannot open a tag or leave an
/// attribute value.
pub proof fn law_escaped_text_has_no_markup(s: Seq<char>)
    ensures
        forall|i: int| 0 <= i < escape_html_spec(s).len() ==> !is_markup_char(#[trigger] escape_html_spec(s)[i]),
    decreases s.len(),
{
    if s.len() > 0 {
        law_escaped_text_has_no_markup(s.drop_last());
        reveal_strlit("&amp;");
        reveal_strlit("&lt;");
        reveal_strlit("&gt;");
        reveal_strlit("&quot;");
        reveal_strlit("&#39;");
        let a = escape_html_spec(s.drop_last());
        let b = escape_char_spec(s.last());
        assert forall|i: int| 0 <= i < (a + b).len() implies !is_markup_char(#[trigger] (a + b)[i]) by {
            if i >= a.len() {
                assert((a + b)[i] == b[i - a.len()]);
            }
        }
    }
}

/// The upload page does not depend on the session's token: two sessions that differ only
/// in their token give the same page, so the page cannot reveal it.
pub proof fn law_page_ignores_token(a: UploadSession, b: UploadSession)
    requires
        a.record_id == b.record_id,
        a.label == b.label,
        a.expires_at == b.expires_at,
        a.remaining_slots == b.remaining_slots,
    ensures
        mobile_page_spec(a) == mobile_page_spec(b),
{
}

} // verus!
