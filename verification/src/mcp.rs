//! The stdio MCP server: the newest image of the configured user as MCP
//! content, and the handling of JSON-RPC requests by method.

use base64::Engine;
use vstd::prelude::*;
use vstd::string::*;

use crate::image_files::{rfc3339_text, upload_time_rfc3339, SelectedImage};

verus! {

/// The MCP protocol version the server speaks.
pub const PROTOCOL_VERSION: &'static str = "2024-11-05";

/// The server's name in the `initialize` result.
pub const SERVER_NAME: &'static str = "sync-image-mcp";

/// The one tool of the server.
pub const TOOL_NAME: &'static str = "get_latest_screenshot";

pub const TOOL_DESCRIPTION: &'static str =
    "Return the latest uploaded screenshot/image for CLAUDE_IMAGE_USER.";

/// The MIME type of the image content.
pub const IMAGE_MIME_TYPE: &'static str = "image/png";

/// JSON-RPC: the request is not valid JSON of a request.
pub const PARSE_ERROR: i64 = -32700;

/// JSON-RPC: the method is not served.
pub const METHOD_NOT_FOUND: i64 = -32601;

/// Where the server finds images, and whose.
#[derive(Debug, Clone)]
pub struct ServerConfig {
    pub image_root: String,
    pub image_user: String,
}

/// The newest image of a user, with its bytes in base64.
#[derive(Debug, Clone)]
pub struct LatestImage {
    pub selected: SelectedImage,
    pub data_base64: String,
}

/// The standard base64 alphabet.
pub open spec fn b64_char(n: int) -> char {
    if n < 26 {
        (n + 65) as char
    } else if n < 52 {
        (n + 71) as char
    } else if n < 62 {
        (n - 4) as char
    } else if n == 62 {
        '+'
    } else {
        '/'
    }
}

/// Standard base64 with `=` padding: each group of three bytes becomes four
/// characters of six bits each; a last group of one or two bytes becomes two
/// or three characters and `=` up to four.
pub open spec fn base64_standard(s: Seq<u8>) -> Seq<char>
    decreases s.len(),
{
    if s.len() == 0 {
        Seq::<char>::empty()
    } else if s.len() == 1 {
        let a = s[0] as int;
        seq![b64_char(a / 4), b64_char((a % 4) * 16), '=', '=']
    } else if s.len() == 2 {
        let a = s[0] as int;
        let b = s[1] as int;
        seq![b64_char(a / 4), b64_char((a % 4) * 16 + b / 16), b64_char((b % 16) * 4), '=']
    } else {
        let a = s[0] as int;
        let b = s[1] as int;
        let c = s[2] as int;
        seq![
            b64_char(a / 4),
            b64_char((a % 4) * 16 + b / 16),
            b64_char((b % 16) * 4 + c / 64),
            b64_char(c % 64),
        ] + base64_standard(s.skip(3))
    }
}

/// `base64::engine::general_purpose::STANDARD.encode`: standard base64 with
/// padding, as stated by `base64_standard`. It panics when the encoded length
/// overflows `usize`, which the bound on the input rules out.
#[verifier::external_body]
fn encode_base64(bytes: &[u8]) -> (s: String)
    requires
        bytes@.len() <= usize::MAX / 2,
    ensures
        s@ == base64_standard(bytes@),
{
    base64::engine::general_purpose::STANDARD.encode(bytes)
}

impl LatestImage {
    /// The selected image with its file contents.
    pub fn from_bytes(selected: SelectedImage, bytes: &[u8]) -> (l: LatestImage)
        requires
            bytes@.len() <= usize::MAX / 2,
        ensures
            l.selected == selected,
            l.data_base64@ == base64_standard(bytes@),
    {
        let data_base64 = encode_base64(bytes);
        LatestImage { selected, data_base64 }
    }

    /// The upload time in RFC 3339.
    pub fn upload_time_text(&self) -> (s: String)
        ensures
            s@ == rfc3339_text(self.selected.upload_time.parts()),
    {
        upload_time_rfc3339(self.selected.upload_time)
    }

    /// The text content that accompanies the image:
    /// `selected_file=<name>` and `upload_time=<RFC 3339>` on two lines.
    pub fn summary_text(&self) -> (s: String)
        ensures
            s@ == "selected_file="@ + self.selected.file_name@ + "\nupload_time="@ + rfc3339_text(
                self.selected.upload_time.parts(),
            ),
    {
        let mut s = String::from_str("selected_file=");
        s.append(self.selected.file_name.as_str());
        s.append("\nupload_time=");
        let t = self.upload_time_text();
        s.append(t.as_str());
        s
    }
}

/// The error text when a user has no upload.
pub fn no_uploads_message(user_name: &str) -> (m: String)
    ensures
        m@ == "no timestamped PNG uploads found for user '"@ + user_name@ + "'"@,
{
    let mut m = String::from_str("no timestamped PNG uploads found for user '");
    m.append(user_name);
    m.append("'");
    m
}

/// What the server does with a request, by method and by whether it carries
/// an id.
#[derive(Debug, Clone, PartialEq, Eq)]
pub enum ReplyPlan {
    /// Answer with the `initialize` result.
    Initialize,
    /// Answer with the list of tools.
    ToolsList,
    /// Answer with the newest image, or with an error content.
    ToolsCall,
    /// Answer with a JSON-RPC error (the request's id, or null).
    Error { code: i64, message: String },
    /// Send nothing: a notification, or a request without an id.
    NoReply,
}

/// Requests with an id get a result, requests without one (notifications)
/// get none; `notifications/initialized` is never answered, and any other
/// method is answered with a method-not-found error, id or not.
pub open spec fn reply_plan_fits(r: ReplyPlan, has_id: bool, method: Seq<char>) -> bool {
    if method == "initialize"@ {
        r == if has_id { ReplyPlan::Initialize } else { ReplyPlan::NoReply }
    } else if method == "tools/list"@ {
        r == if has_id { ReplyPlan::ToolsList } else { ReplyPlan::NoReply }
    } else if method == "tools/call"@ {
        r == if has_id { ReplyPlan::ToolsCall } else { ReplyPlan::NoReply }
    } else if method == "notifications/initialized"@ {
        r == ReplyPlan::NoReply
    } else {
        r matches ReplyPlan::Error { code, message } && code == METHOD_NOT_FOUND && message@
            == "unsupported method '"@ + method + "'"@
    }
}

fn str_eq(a: &str, b: &str) -> (r: bool)
    ensures
        r == (a@ == b@),
{
    let x = crate::text::chars_of(a);
    let y = crate::text::chars_of(b);
    crate::text::chars_equal(&x, &y)
}

/// Decides the reply to a request.
pub fn plan_reply(has_id: bool, method: &str) -> (r: ReplyPlan)
    ensures
        reply_plan_fits(r, has_id, method@),
{
    if str_eq(method, "initialize") {
        if has_id {
            ReplyPlan::Initialize
        } else {
            ReplyPlan::NoReply
        }
    } else if str_eq(method, "tools/list") {
        if has_id {
            ReplyPlan::ToolsList
        } else {
            ReplyPlan::NoReply
        }
    } else if str_eq(method, "tools/call") {
        if has_id {
            ReplyPlan::ToolsCall
        } else {
            ReplyPlan::NoReply
        }
    } else if str_eq(method, "notifications/initialized") {
        ReplyPlan::NoReply
    } else {
        let mut message = String::from_str("unsupported method '");
        message.append(method);
        message.append("'");
        ReplyPlan::Error { code: METHOD_NOT_FOUND, message }
    }
}

/// The error message of a request that is not a JSON-RPC request, given the
/// parser's explanation.
pub fn parse_error_message(detail: &str) -> (m: String)
    ensures
        m@ == "failed to parse JSON-RPC request: "@ + detail@,
{
    let mut m = String::from_str("failed to parse JSON-RPC request: ");
    m.append(detail);
    m
}

} // verus!
