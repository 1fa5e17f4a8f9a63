//! Uploading large archives to WeDrive, through `wecom-cli` or the WeCom API.
use vstd::prelude::*;
use crate::matching::{JsonDoc, spec_json_compact, spec_json_has_key, spec_json_i64_at, spec_json_parses,
    spec_json_str_at, spec_json_str_field};
use crate::text::{chars_of, push_signed_decimal, push_str, signed_decimal, string_from, string_views,
    trim, trim_chars};

verus! {

broadcast use vstd::string::group_string_axioms;

/// The outcome of an upload.
pub struct WedriveResult {
    pub success: bool,
    pub file_path: Option<String>,
    pub file_id: Option<String>,
    pub error: Option<String>,
}

/// Uploads through `wecom-cli` when it is there, else through the API with
/// the corporation id and secret.
pub struct WedriveUploader {
    pub wecom_cli_path: Option<String>,
    pub corpid: Option<String>,
    pub corpsecret: Option<String>,
}

/// How a file is uploaded.
#[derive(Clone, Copy, Debug, PartialEq, Eq, Structural)]
pub enum UploadRoute {
    Cli,
    Api,
}

pub enum WedriveError {
    FileMissing { path: String },
    /// Neither `wecom-cli` nor API credentials.
    Unavailable,
    /// A reply that is not JSON.
    BadResponse { body: String },
    /// A token reply without a token; the reply as compact JSON.
    NoToken { body: String },
}

pub open spec fn opt_str_view(o: Option<String>) -> Option<Seq<char>> {
    match o {
        Some(s) => Some(s@),
        None => None,
    }
}

/// What `wecom-cli` reported: its JSON (the file's path and id) on success,
/// else its trimmed output; both streams on failure.
pub open spec fn cli_outcome(succeeded: bool, stdout: Seq<char>, stderr: Seq<char>) -> (bool, Option<Seq<char>>, Option<Seq<char>>, Option<Seq<char>>) {
    if !succeeded {
        (false, None, None, Some(stdout + "\n"@ + stderr))
    } else if spec_json_parses(stdout) {
        (true, spec_json_str_at(stdout, "file"@, "path"@), spec_json_str_at(stdout, "file"@, "id"@), None)
    } else {
        (true, Some(trim(stdout)), None, None)
    }
}

pub open spec fn result_view(r: WedriveResult) -> (bool, Option<Seq<char>>, Option<Seq<char>>, Option<Seq<char>>) {
    (r.success, opt_str_view(r.file_path), opt_str_view(r.file_id), opt_str_view(r.error))
}

/// The error code of a WeCom reply; -1 when it has none.
pub open spec fn reply_code(body: Seq<char>) -> i64 {
    match spec_json_i64_at(body, "errcode"@) {
        Some(c) => c,
        None => -1i64,
    }
}

/// The error message of a WeCom reply; `unknown` when it has none.
pub open spec fn reply_message(body: Seq<char>) -> Seq<char> {
    match spec_json_str_field(body, "errmsg"@) {
        Some(m) => m,
        None => "unknown"@,
    }
}

/// What the WeDrive upload API replied: the uploaded name and file id on
/// success, else the error code and message.
pub open spec fn api_outcome(body: Seq<char>, file_name: Seq<char>) -> (bool, Option<Seq<char>>, Option<Seq<char>>, Option<Seq<char>>) {
    if reply_code(body) != 0 {
        (false, None, None, Some("errcode="@ + signed_decimal(reply_code(body) as int) + ": "@ + reply_message(body)))
    } else {
        (true, Some(file_name), if spec_json_has_key(body, "fileid"@) {
            spec_json_str_field(body, "fileid"@)
        } else {
            spec_json_str_field(body, "file_id"@)
        }, None)
    }
}

fn opt_clone(o: &Option<String>) -> (r: Option<String>)
    ensures
        r == *o,
{
    match o {
        Some(s) => Some(s.clone()),
        None => None,
    }
}

/// The error code of a parsed reply.
pub fn reply_code_of(doc: &JsonDoc) -> (c: i64)
    ensures
        c == reply_code(doc.text()),
{
    match doc.i64_at("errcode") {
        Some(c) => c,
        None => -1i64,
    }
}

/// The error message of a parsed reply.
pub fn reply_message_of(doc: &JsonDoc) -> (m: String)
    ensures
        m@ == reply_message(doc.text()),
{
    match doc.str_field("errmsg") {
        Some(m) => m,
        None => "unknown".to_string(),
    }
}

impl WedriveUploader {
    pub fn new(wecom_cli_path: Option<String>, corpid: Option<String>, corpsecret: Option<String>) -> (r: WedriveUploader)
        ensures
            r.wecom_cli_path == wecom_cli_path,
            r.corpid == corpid,
            r.corpsecret == corpsecret,
    {
        WedriveUploader { wecom_cli_path, corpid, corpsecret }
    }

    /// How a file is uploaded: refused when it does not exist; through the
    /// command line tool when it is available; else through the API when the
    /// credentials are configured.
    pub fn upload(&self, file_path: &str, file_exists: bool, cli_available: bool) -> (r: Result<UploadRoute, WedriveError>)
        ensures
            !file_exists ==> (r matches Err(WedriveError::FileMissing { path }) && path@ == file_path@),
            file_exists && cli_available ==> r == Ok::<UploadRoute, WedriveError>(UploadRoute::Cli),
            file_exists && !cli_available && self.corpid is Some && self.corpsecret is Some
                ==> r == Ok::<UploadRoute, WedriveError>(UploadRoute::Api),
            file_exists && !cli_available && !(self.corpid is Some && self.corpsecret is Some)
                ==> r matches Err(WedriveError::Unavailable),
    {
        if !file_exists {
            return Err(WedriveError::FileMissing { path: file_path.to_string() });
        }
        if cli_available {
            Ok(UploadRoute::Cli)
        } else if self.corpid.is_some() && self.corpsecret.is_some() {
            Ok(UploadRoute::Api)
        } else {
            Err(WedriveError::Unavailable)
        }
    }

    /// The command line tool: the configured one, else `wecom-cli` from the path.
    pub fn cli_program(&self) -> (s: String)
        ensures
            s@ == match self.wecom_cli_path {
                Some(p) => p@,
                None => "wecom-cli"@,
            },
    {
        match &self.wecom_cli_path {
            Some(p) => p.clone(),
            None => "wecom-cli".to_string(),
        }
    }

    /// `disk files upload --file-path <file>`.
    pub fn cli_args(file_path: &str) -> (r: Vec<String>)
        ensures
            string_views(r@) == seq!["disk"@, "files"@, "upload"@, "--file-path"@, file_path@],
    {
        let mut v: Vec<String> = Vec::new();
        v.push("disk".to_string());
        v.push("files".to_string());
        v.push("upload".to_string());
        v.push("--file-path".to_string());
        v.push(file_path.to_string());
        assert(string_views(v@) =~= seq!["disk"@, "files"@, "upload"@, "--file-path"@, file_path@]);
        v
    }

    /// The outcome of `wecom-cli disk files upload`.
    pub fn cli_result(succeeded: bool, stdout: &str, stderr: &str) -> (r: WedriveResult)
        ensures
            result_view(r) == cli_outcome(succeeded, stdout@, stderr@),
    {
        if !succeeded {
            let mut e = stdout.to_string();
            push_str(&mut e, "\n");
            push_str(&mut e, stderr);
            return WedriveResult { success: false, file_path: None, file_id: None, error: Some(e) };
        }
        match JsonDoc::parse(stdout) {
            Some(doc) => WedriveResult {
                success: true,
                file_path: doc.str_at("file", "path"),
                file_id: doc.str_at("file", "id"),
                error: None,
            },
            None => WedriveResult {
                success: true,
                file_path: Some(string_from(&trim_chars(&chars_of(stdout)))),
                file_id: None,
                error: None,
            },
        }
    }

    /// The token request, when the credentials are configured.
    pub fn token_url(&self) -> (r: Option<String>)
        ensures
            match (self.corpid, self.corpsecret) {
                (Some(id), Some(secret)) => (r matches Some(u) && u@
                    == "https://qyapi.weixin.qq.com/cgi-bin/gettoken?corpid="@ + id@ + "&corpsecret="@ + secret@),
                _ => r is None,
            },
    {
        match (&self.corpid, &self.corpsecret) {
            (Some(id), Some(secret)) => {
                let mut u = "https://qyapi.weixin.qq.com/cgi-bin/gettoken?corpid=".to_string();
                push_str(&mut u, id.as_str());
                push_str(&mut u, "&corpsecret=");
                push_str(&mut u, secret.as_str());
                Some(u)
            },
            _ => None,
        }
    }

    /// The token in the reply to the token request.
    pub fn access_token(body: &str) -> (r: Result<String, WedriveError>)
        ensures
            !spec_json_parses(body@) ==> (r matches Err(WedriveError::BadResponse { body: b }) && b@ == body@),
            spec_json_parses(body@) ==> match spec_json_str_field(body@, "access_token"@) {
                Some(t) => (r matches Ok(s) && s@ == t),
                None => (r matches Err(WedriveError::NoToken { body: b }) && b@ == spec_json_compact(body@)),
            },
    {
        match JsonDoc::parse(body) {
            None => Err(WedriveError::BadResponse { body: body.to_string() }),
            Some(doc) => match doc.str_field("access_token") {
                Some(t) => Ok(t),
                None => Err(WedriveError::NoToken { body: doc.compact() }),
            },
        }
    }

    /// The upload request for a token.
    pub fn upload_url(access_token: &str) -> (s: String)
        ensures
            s@ == "https://qyapi.weixin.qq.com/cgi-bin/wedrive/file_upload?access_token="@ + access_token@,
    {
        let mut s = "https://qyapi.weixin.qq.com/cgi-bin/wedrive/file_upload?access_token=".to_string();
        push_str(&mut s, access_token);
        s
    }

    /// The outcome of an upload through the API.
    pub fn api_result(body: &str, file_name: &str) -> (r: Result<WedriveResult, WedriveError>)
        ensures
            !spec_json_parses(body@) ==> (r matches Err(WedriveError::BadResponse { body: b }) && b@ == body@),
            spec_json_parses(body@) ==> (r matches Ok(w) && result_view(w) == api_outcome(body@, file_name@)),
    {
        let doc = match JsonDoc::parse(body) {
            None => return Err(WedriveError::BadResponse { body: body.to_string() }),
            Some(d) => d,
        };
        let code = reply_code_of(&doc);
        if code != 0 {
            let mut e: Vec<char> = chars_of("errcode=");
            push_signed_decimal(&mut e, code);
            let mut msg = string_from(&e);
            push_str(&mut msg, ": ");
            push_str(&mut msg, reply_message_of(&doc).as_str());
            return Ok(WedriveResult { success: false, file_path: None, file_id: None, error: Some(msg) });
        }
        let file_id = if doc.has_key("fileid") {
            doc.str_field("fileid")
        } else {
            doc.str_field("file_id")
        };
        Ok(WedriveResult { success: true, file_path: Some(file_name.to_string()), file_id, error: None })
    }
}

impl WedriveError {
    /// How the error reads in a log.
    pub fn text(&self) -> (s: String)
        ensures
            s@ == match *self {
                WedriveError::FileMissing { path } => "文件不存在: "@ + path@,
                WedriveError::Unavailable => "微盘上传不可用：未找到 wecom-cli，且未配置 corpid/corpsecret"@,
                WedriveError::BadResponse { body } => "解析微盘响应失败: "@ + body@,
                WedriveError::NoToken { body } => "获取 access_token 失败: "@ + body@,
            },
    {
        let mut s = String::new();
        match self {
            WedriveError::FileMissing { path } => {
                push_str(&mut s, "文件不存在: ");
                push_str(&mut s, path.as_str());
            },
            WedriveError::Unavailable => {
                push_str(&mut s, "微盘上传不可用：未找到 wecom-cli，且未配置 corpid/corpsecret");
            },
            WedriveError::BadResponse { body } => {
                push_str(&mut s, "解析微盘响应失败: ");
                push_str(&mut s, body.as_str());
            },
            WedriveError::NoToken { body } => {
                push_str(&mut s, "获取 access_token 失败: ");
                push_str(&mut s, body.as_str());
            },
        }
        s
    }
}

} // verus!
