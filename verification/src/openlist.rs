//! OpenList browsing and modpack download decisions.
use vstd::prelude::*;
use crate::account::{url_parse, url_parse_of};
use crate::error::XMCLError;
use crate::text::{
    append_chars, append_lit, chars_of, push_signed_decimal, signed_decimal, starts_with, string_of,
};

verus! {

/// A directory listing request from the front end.
#[derive(Debug, Clone)]
pub struct BrowseRequest {
    pub path: String,
    pub page: Option<i32>,
    pub per_page: Option<i32>,
}

/// The listing parameters sent to the API: the path, the page (1 by
/// default) and the page size (100 by default).
pub fn browse_params(request: &BrowseRequest) -> (r: (String, i32, i32))
    ensures
        r.0 == request.path,
        r.1 == match request.page {
            Some(p) => p,
            None => 1,
        },
        r.2 == match request.per_page {
            Some(p) => p,
            None => 100,
        },
{
    let page = match request.page {
        Some(p) => p,
        None => 1,
    };
    let per_page = match request.per_page {
        Some(p) => p,
        None => 100,
    };
    (request.path.clone(), page, per_page)
}

/// An already downloaded file is reused when its size is the expected one.
pub fn download_already_complete(existing_len: Option<u64>, size: u64) -> (r: bool)
    ensures
        r == (existing_len == Some(size)),
{
    match existing_len {
        Some(l) => l == size,
        None => false,
    }
}

/// The download URL from the file-info answer: an error carrying the API's
/// message and code unless the code is 200, and an error when the answer
/// has no `raw_url`.
pub fn openlist_raw_url(code: i32, message: &str, raw_url: Option<String>) -> (r: Result<
    String,
    XMCLError,
>)
    ensures
        code != 200 ==> (r matches Err(e) && e.0@ == "获取文件信息失败: "@ + message@ + " ("@
            + signed_decimal(code as int) + ")"@),
        code == 200 && raw_url is None ==> (r matches Err(e) && e.0@
            == "API 响应中未找到 raw_url 字段"@),
        code == 200 && raw_url is Some ==> r == Ok::<String, XMCLError>(raw_url->0),
{
    if code != 200 {
        let mut v = chars_of("获取文件信息失败: ");
        append_chars(&mut v, chars_of(message).as_slice());
        append_lit(&mut v, " (");
        push_signed_decimal(&mut v, code as i64);
        append_lit(&mut v, ")");
        return Err(XMCLError(string_of(v.as_slice())));
    }
    match raw_url {
        Some(u) => Ok(u),
        None => Err(XMCLError(string_of(chars_of("API 响应中未找到 raw_url 字段").as_slice()))),
    }
}

/// The source of the download task: the raw URL as `url::Url` serialises
/// it; an error starting `无效的下载 URL: ` (followed by the parse error) when
/// it is no URL.
pub fn download_source(raw_url: &str) -> (r: Result<String, XMCLError>)
    ensures
        match url_parse_of(raw_url@) {
            Some(u) => r matches Ok(s) && s@ == u,
            None => r matches Err(e) && starts_with(e.0@, "无效的下载 URL: "@),
        },
{
    match url_parse(raw_url) {
        Ok(u) => Ok(u),
        Err(msg) => {
            let mut v = chars_of("无效的下载 URL: ");
            let ghost prefix = v@;
            append_chars(&mut v, chars_of(msg.as_str()).as_slice());
            assert(v@.subrange(0, prefix.len() as int) =~= prefix);
            Err(XMCLError(string_of(v.as_slice())))
        },
    }
}

/// The task group prefix of a download: `openlist:<file name>`.
pub fn task_group_prefix(file_name: &str) -> (r: String)
    ensures
        r@ == "openlist:"@ + file_name@,
{
    let mut v = chars_of("openlist:");
    append_chars(&mut v, chars_of(file_name).as_slice());
    string_of(v.as_slice())
}

} // verus!
