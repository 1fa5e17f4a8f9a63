//! WeCom group robot messages: where files are uploaded, and what a reply means.
use vstd::prelude::*;
use crate::matching::{JsonDoc, spec_json_parses, spec_json_str_field};
use crate::text::{chars_of, less_than, push_signed_decimal, push_str, replace_all, replaced, signed_decimal, string_from, text_less};
use crate::wedrive::{reply_code, reply_code_of, reply_message, reply_message_of};

verus! {

broadcast use vstd::string::group_string_axioms;

pub struct WechatNotifier {
    pub webhook_url: String,
}

pub enum NotifyError {
    FileMissing { path: String },
    /// An HTTP status other than success, and the body.
    Http { status: String, body: String },
    /// A reply that is not JSON.
    BadResponse { body: String },
    /// A reply with an error code other than 0.
    Api { code: i64, message: String },
    /// An upload reply without a media id.
    NoMediaId { body: String },
}

/// A lower-case hexadecimal digit.
pub open spec fn hex_digit(n: nat) -> char {
    seq!['0', '1', '2', '3', '4', '5', '6', '7', '8', '9', 'a', 'b', 'c', 'd', 'e', 'f'][n as int]
}

/// How one character is written inside a JSON string: `"` and `\` behind a
/// backslash, `\b \t \n \f \r` for those controls, other characters below
/// U+0020 as `\u00XX`, every other character as itself.
pub open spec fn json_escaped_char(c: char) -> Seq<char> {
    let u = c as u32;
    if c == '"' {
        seq!['\\', '"']
    } else if c == '\\' {
        seq!['\\', '\\']
    } else if u == 0x08 {
        seq!['\\', 'b']
    } else if u == 0x09 {
        seq!['\\', 't']
    } else if u == 0x0A {
        seq!['\\', 'n']
    } else if u == 0x0C {
        seq!['\\', 'f']
    } else if u == 0x0D {
        seq!['\\', 'r']
    } else if u < 0x20 {
        seq!['\\', 'u', '0', '0', hex_digit((u / 16) as nat), hex_digit((u % 16) as nat)]
    } else {
        seq![c]
    }
}

/// The characters of a text, each as it is written inside a JSON string.
pub open spec fn json_escaped(s: Seq<char>) -> Seq<char>
    decreases s.len(),
{
    if s.len() == 0 {
        seq![]
    } else {
        json_escaped(s.drop_last()) + json_escaped_char(s.last())
    }
}

/// A text as a JSON string: between quotes, its characters escaped as
/// `serde_json` writes them.
pub open spec fn json_string_literal(s: Seq<char>) -> Seq<char> {
    seq!['"'] + json_escaped(s) + seq!['"']
}

/// `serde_json::Value::String`, written out as JSON text (`Display`, which
/// escapes with the table in `serde_json`'s serializer).
#[verifier::external_body]
fn json_quoted(s: &str) -> (r: String)
    ensures
        r@ == json_string_literal(s@),
{
    serde_json::Value::String(s.to_string()).to_string()
}

/// The body of a robot message of the type with one field: the JSON object
/// `{"msgtype": <type>, <type>: {<field>: <value>}}`, keys in sorted order.
pub open spec fn message_body(msgtype: Seq<char>, field: Seq<char>, value: Seq<char>) -> Seq<char> {
    let inner = "{"@ + json_string_literal(field) + ":"@ + json_string_literal(value) + "}"@;
    let kind = "\"msgtype\":"@ + json_string_literal(msgtype);
    let payload = json_string_literal(msgtype) + ":"@ + inner;
    if text_less(msgtype, "msgtype"@) {
        "{"@ + payload + ","@ + kind + "}"@
    } else {
        "{"@ + kind + ","@ + payload + "}"@
    }
}

fn body_of(msgtype: &str, field: &str, value: &str) -> (r: String)
    ensures
        r@ == message_body(msgtype@, field@, value@),
{
    let mut inner = "{".to_string();
    push_str(&mut inner, json_quoted(field).as_str());
    push_str(&mut inner, ":");
    push_str(&mut inner, json_quoted(value).as_str());
    push_str(&mut inner, "}");
    let mut kind = "\"msgtype\":".to_string();
    push_str(&mut kind, json_quoted(msgtype).as_str());
    let mut payload = json_quoted(msgtype);
    push_str(&mut payload, ":");
    push_str(&mut payload, inner.as_str());
    let mut r = "{".to_string();
    if less_than(&chars_of(msgtype), &chars_of("msgtype")) {
        push_str(&mut r, payload.as_str());
        push_str(&mut r, ",");
        push_str(&mut r, kind.as_str());
    } else {
        push_str(&mut r, kind.as_str());
        push_str(&mut r, ",");
        push_str(&mut r, payload.as_str());
    }
    push_str(&mut r, "}");
    r
}

impl WechatNotifier {
    pub fn new(webhook_url: &str) -> (r: WechatNotifier)
        ensures
            r.webhook_url@ == webhook_url@,
    {
        WechatNotifier { webhook_url: webhook_url.to_string() }
    }

    /// The media upload address that belongs to the webhook.
    pub fn upload_url(&self) -> (s: String)
        ensures
            s@ == replaced(self.webhook_url@, "/cgi-bin/webhook/send?"@, "/cgi-bin/webhook/upload_media?type=file&"@),
    {
        let from = chars_of("/cgi-bin/webhook/send?");
        let to = chars_of("/cgi-bin/webhook/upload_media?type=file&");
        proof {
            reveal_strlit("/cgi-bin/webhook/send?");
        }
        string_from(&replace_all(&chars_of(self.webhook_url.as_str()), &from, &to))
    }

    /// The body of a text message.
    pub fn text_message(content: &str) -> (r: String)
        ensures
            r@ == message_body("text"@, "content"@, content@),
    {
        body_of("text", "content", content)
    }

    /// The body of a Markdown message.
    pub fn markdown_message(content: &str) -> (r: String)
        ensures
            r@ == message_body("markdown"@, "content"@, content@),
    {
        body_of("markdown", "content", content)
    }

    /// The body of a message that shares an uploaded file.
    pub fn file_message(media_id: &str) -> (r: String)
        ensures
            r@ == message_body("file"@, "media_id"@, media_id@),
    {
        body_of("file", "media_id", media_id)
    }

    /// What a reply to a message means: accepted only with a success status
    /// and error code 0.
    pub fn check_reply(http_ok: bool, status: &str, body: &str) -> (r: Result<(), NotifyError>)
        ensures
            !http_ok ==> (r matches Err(NotifyError::Http { status: s, body: b }) && s@ == status@ && b@ == body@),
            http_ok && !spec_json_parses(body@) ==> (r matches Err(NotifyError::BadResponse { body: b }) && b@ == body@),
            http_ok && spec_json_parses(body@) && reply_code(body@) != 0 ==> (r matches Err(NotifyError::Api { code, message })
                && code == reply_code(body@) && message@ == reply_message(body@)),
            http_ok && spec_json_parses(body@) && reply_code(body@) == 0 ==> r is Ok,
    {
        match Self::reply_doc(http_ok, status, body) {
            Err(e) => Err(e),
            Ok(_) => Ok(()),
        }
    }

    fn reply_doc(http_ok: bool, status: &str, body: &str) -> (r: Result<JsonDoc, NotifyError>)
        ensures
            !http_ok ==> (r matches Err(NotifyError::Http { status: s, body: b }) && s@ == status@ && b@ == body@),
            http_ok && !spec_json_parses(body@) ==> (r matches Err(NotifyError::BadResponse { body: b }) && b@ == body@),
            http_ok && spec_json_parses(body@) && reply_code(body@) != 0 ==> (r matches Err(NotifyError::Api { code, message })
                && code == reply_code(body@) && message@ == reply_message(body@)),
            http_ok && spec_json_parses(body@) && reply_code(body@) == 0 ==> (r matches Ok(d) && d.text() == body@),
    {
        if !http_ok {
            return Err(NotifyError::Http { status: status.to_string(), body: body.to_string() });
        }
        let doc = match JsonDoc::parse(body) {
            None => return Err(NotifyError::BadResponse { body: body.to_string() }),
            Some(d) => d,
        };
        let code = reply_code_of(&doc);
        if code != 0 {
            return Err(NotifyError::Api { code, message: reply_message_of(&doc) });
        }
        Ok(doc)
    }

    /// The media id in the reply to a file upload.
    pub fn media_id(http_ok: bool, status: &str, body: &str) -> (r: Result<String, NotifyError>)
        ensures
            !http_ok ==> (r matches Err(NotifyError::Http { status: s, body: b }) && s@ == status@ && b@ == body@),
            http_ok && !spec_json_parses(body@) ==> (r matches Err(NotifyError::BadResponse { body: b }) && b@ == body@),
            http_ok && spec_json_parses(body@) && reply_code(body@) != 0 ==> (r matches Err(NotifyError::Api { code, message })
                && code == reply_code(body@) && message@ == reply_message(body@)),
            http_ok && spec_json_parses(body@) && reply_code(body@) == 0 ==> match spec_json_str_field(body@, "media_id"@) {
                Some(m) => (r matches Ok(s) && s@ == m),
                None => (r matches Err(NotifyError::NoMediaId { body: b }) && b@ == body@),
            },
    {
        let doc = Self::reply_doc(http_ok, status, body)?;
        match doc.str_field("media_id") {
            Some(m) => Ok(m),
            None => Err(NotifyError::NoMediaId { body: body.to_string() }),
        }
    }
}

impl NotifyError {
    /// How the error reads in a log, for a message (`upload` false) or for a
    /// file upload (`upload` true).
    pub fn text(&self, upload: bool) -> (s: String)
        ensures
            s@ == notify_error_text(*self, upload),
    {
        let mut s = String::new();
        match self {
            NotifyError::FileMissing { path } => {
                push_str(&mut s, "文件不存在: ");
                push_str(&mut s, path.as_str());
            },
            NotifyError::Http { status, body } => {
                push_str(&mut s, if upload { "上传文件失败 (HTTP " } else { "企业微信请求失败 (HTTP " });
                push_str(&mut s, status.as_str());
                push_str(&mut s, "): ");
                push_str(&mut s, body.as_str());
            },
            NotifyError::BadResponse { body } => {
                push_str(&mut s, if upload { "解析上传响应失败: " } else { "解析企业微信响应失败: " });
                push_str(&mut s, body.as_str());
            },
            NotifyError::Api { code, message } => {
                push_str(&mut s, if upload { "上传文件失败 (errcode " } else { "企业微信返回错误 (errcode " });
                let mut digits: Vec<char> = Vec::new();
                push_signed_decimal(&mut digits, *code);
                push_str(&mut s, string_from(&digits).as_str());
                push_str(&mut s, "): ");
                push_str(&mut s, message.as_str());
            },
            NotifyError::NoMediaId { body } => {
                push_str(&mut s, "响应中无 media_id: ");
                push_str(&mut s, body.as_str());
            },
        }
        s
    }
}

pub open spec fn notify_error_text(e: NotifyError, upload: bool) -> Seq<char> {
    match e {
        NotifyError::FileMissing { path } => "文件不存在: "@ + path@,
        NotifyError::Http { status, body } => (if upload { "上传文件失败 (HTTP "@ } else { "企业微信请求失败 (HTTP "@ })
            + status@ + "): "@ + body@,
        NotifyError::BadResponse { body } => (if upload { "解析上传响应失败: "@ } else { "解析企业微信响应失败: "@ }) + body@,
        NotifyError::Api { code, message } => (if upload { "上传文件失败 (errcode "@ } else { "企业微信返回错误 (errcode "@ })
            + signed_decimal(code as int) + "): "@ + message@,
        NotifyError::NoMediaId { body } => "响应中无 media_id: "@ + body@,
    }
}

} // verus!
