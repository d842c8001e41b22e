//! The error type shared by every part of the application, and its display text.
use vstd::prelude::*;
use crate::text::{
    append_str, decimal, from_chars, is_blank, owned, push_decimal, str_is_blank, take_chars, take_prefix,
    to_chars,
};
use crate::calls;
use vstd::string::to_string_from_display_ensures;

verus! {

/// Every failure the application reports.
#[derive(Debug, Clone, PartialEq, Eq)]
pub enum AppError {
    Network(String),
    Api { status: u16, message: String },
    Parse(String),
    Config(String),
    Io(String),
    Tool(String),
    Internal(String),
}

/// The text shown for an error.
pub open spec fn error_text(e: AppError) -> Seq<char> {
    match e {
        AppError::Network(m) => "网络错误: "@ + m@,
        AppError::Api { status, message } => "API 错误 ("@ + decimal(status as nat) + "): "@
            + message@,
        AppError::Parse(m) => "解析错误: "@ + m@,
        AppError::Config(m) => "配置错误: "@ + m@,
        AppError::Io(m) => "IO 错误: "@ + m@,
        AppError::Tool(m) => "工具执行失败: "@ + m@,
        AppError::Internal(m) => "内部错误: "@ + m@,
    }
}

/// The message of an API error response whose body is `body`, given what
/// was found at `error.message` in it: that string when there is one,
/// otherwise `HTTP <status>` for a blank body, or the body's first 400
/// characters.
pub open spec fn api_message_given(status: u16, body: Seq<char>, found: Option<Seq<char>>) -> Seq<char> {
    match found {
        Some(m) => m,
        None => if is_blank(body) {
            "HTTP "@ + decimal(status as nat)
        } else {
            take_chars(body, 400)
        },
    }
}

/// The message an API error response carries: the `error.message` field of a
/// JSON body when there is one, otherwise `HTTP <status>` for a blank body, or
/// the body's first 400 characters.
pub open spec fn api_error_message(status: u16, body: Seq<char>) -> Seq<char> {
    api_message_given(status, body, calls::json_nested_str_of(body, "error"@, "message"@))
}

impl AppError {
    /// An I/O failure, carrying the text of the `std::io::Error`.
    pub fn io(e: std::io::Error) -> (r: AppError)
        ensures
            r == AppError::Io(r->Io_0),
            to_string_from_display_ensures::<std::io::Error>(&e, r->Io_0),
    {
        AppError::Io(e.to_string())
    }

    /// A tool failure with the given message.
    pub fn tool(msg: &str) -> (r: AppError)
        ensures
            r == AppError::Tool(r->Tool_0),
            r->Tool_0@ == msg@,
    {
        AppError::Tool(owned(msg))
    }

    /// The text shown for this error.
    pub fn message(&self) -> (r: String)
        ensures
            r@ == error_text(*self),
    {
        let mut out: Vec<char> = Vec::new();
        match self {
            AppError::Network(m) => {
                append_str(&mut out, "网络错误: ");
                append_str(&mut out, m.as_str());
            },
            AppError::Api { status, message } => {
                append_str(&mut out, "API 错误 (");
                push_decimal(&mut out, *status as u64);
                append_str(&mut out, "): ");
                append_str(&mut out, message.as_str());
            },
            AppError::Parse(m) => {
                append_str(&mut out, "解析错误: ");
                append_str(&mut out, m.as_str());
            },
            AppError::Config(m) => {
                append_str(&mut out, "配置错误: ");
                append_str(&mut out, m.as_str());
            },
            AppError::Io(m) => {
                append_str(&mut out, "IO 错误: ");
                append_str(&mut out, m.as_str());
            },
            AppError::Tool(m) => {
                append_str(&mut out, "工具执行失败: ");
                append_str(&mut out, m.as_str());
            },
            AppError::Internal(m) => {
                append_str(&mut out, "内部错误: ");
                append_str(&mut out, m.as_str());
            },
        }
        from_chars(&out)
    }

    /// A copy of this error.
    pub fn duplicate(&self) -> (r: AppError)
        ensures
            r == *self,
    {
        match self {
            AppError::Network(m) => AppError::Network(m.clone()),
            AppError::Api { status, message } => AppError::Api {
                status: *status,
                message: message.clone(),
            },
            AppError::Parse(m) => AppError::Parse(m.clone()),
            AppError::Config(m) => AppError::Config(m.clone()),
            AppError::Io(m) => AppError::Io(m.clone()),
            AppError::Tool(m) => AppError::Tool(m.clone()),
            AppError::Internal(m) => AppError::Internal(m.clone()),
        }
    }
}

/// The error for a non-success HTTP response with the given status and body.
pub fn api_error(status: u16, body: &str) -> (r: AppError)
    ensures
        r == (AppError::Api { status, message: r->message }),
        r->message@ == api_error_message(status, body@),
{
    let found = calls::json_nested_str(body, "error", "message");
    api_error_given(status, body, found)
}

/// The error for a non-success HTTP response, given the string found at
/// `error.message` in its body (`None` when the body holds none).
pub fn api_error_given(status: u16, body: &str, found: Option<String>) -> (r: AppError)
    ensures
        r == (AppError::Api { status, message: r->message }),
        r->message@ == api_message_given(
            status,
            body@,
            match found {
                Some(m) => Some(m@),
                None => None,
            },
        ),
{
    let message = match found {
        Some(m) => m,
        None => {
            if str_is_blank(body) {
                let mut out: Vec<char> = Vec::new();
                append_str(&mut out, "HTTP ");
                push_decimal(&mut out, status as u64);
                from_chars(&out)
            } else {
                let chars = to_chars(body);
                let head = take_prefix(&chars, 400);
                from_chars(&head)
            }
        },
    };
    AppError::Api { status, message }
}

} // verus!
