//! Text subject — an in-memory string with no backing file.
//!
//! Built for auditing untrusted text inputs (issue bodies, RAG snippets,
//! support tickets) without a round trip through a temporary file. The label
//! stands where a file name would otherwise be in findings.
use vstd::prelude::*;
use vstd::string::StringSliceAdditionalSpecFns;

verus! {

/// Hard ceiling for text payloads, in bytes of UTF-8. A single text input
/// larger than this is almost certainly an integration mistake.
pub const MAX_TEXT_BYTES: usize = 262144;

/// The ceiling for a text subject is the one for a gathered file: text
/// piped in is held to the same size as a file read from a tree.
pub proof fn lemma_text_limit_is_file_limit()
    ensures
        MAX_TEXT_BYTES == crate::evidence::MAX_FILE_BYTES,
{
}

/// An in-memory text subject.
#[derive(Clone, Debug)]
pub struct Text {
    pub label: String,
    pub content: String,
}

/// The number of bytes of `s` in UTF-8.
pub open spec fn utf8_len(s: Seq<char>) -> nat {
    vstd::utf8::encode_utf8(s).len()
}

/// Why a text subject was refused.
#[derive(Clone, Debug, PartialEq, Eq, Structural)]
pub enum TextError {
    EmptyLabel,
    EmptyContent,
    TooLarge { len: usize },
}

/// The message of a text-subject error.
pub open spec fn text_error_message(e: TextError) -> Seq<char> {
    match e {
        TextError::EmptyLabel => "--label cannot be empty"@,
        TextError::EmptyContent => "no input on stdin (read 0 bytes). Pipe a non-empty string to audit."@,
        TextError::TooLarge { len } => "stdin input is "@ + crate::strings::decimal(len as nat)
            + " bytes \u{2014} over the "@ + crate::strings::decimal(MAX_TEXT_BYTES as nat)
            + " byte limit. Audit smaller chunks."@,
    }
}

impl TextError {
    /// The error's message.
    pub fn message(&self) -> (m: String)
        ensures
            m@ == text_error_message(*self),
    {
        match self {
            TextError::EmptyLabel => String::from_str("--label cannot be empty"),
            TextError::EmptyContent => String::from_str(
                "no input on stdin (read 0 bytes). Pipe a non-empty string to audit.",
            ),
            TextError::TooLarge { len } => {
                let mut m = String::from_str("stdin input is ");
                let n = crate::strings::decimal_string(*len);
                m.append(n.as_str());
                m.append(" bytes \u{2014} over the ");
                let cap = crate::strings::decimal_string(MAX_TEXT_BYTES);
                m.append(cap.as_str());
                m.append(" byte limit. Audit smaller chunks.");
                m
            },
        }
    }
}

/// Builds a text subject: the label must be non-empty, the content
/// non-empty and at most `MAX_TEXT_BYTES` bytes of UTF-8.
pub fn new(label: &str, content: &str) -> (r: Result<Text, TextError>)
    requires
        utf8_len(content@) <= usize::MAX,
    ensures
        label@.len() == 0 ==> r == Err::<Text, TextError>(TextError::EmptyLabel),
        label@.len() > 0 && content@.len() == 0 ==> r == Err::<Text, TextError>(
            TextError::EmptyContent,
        ),
        label@.len() > 0 && content@.len() > 0 && utf8_len(content@) > MAX_TEXT_BYTES ==> r
            == Err::<Text, TextError>(TextError::TooLarge { len: utf8_len(content@) as usize }),
        label@.len() > 0 && content@.len() > 0 && utf8_len(content@) <= MAX_TEXT_BYTES ==> (r
            matches Ok(t) && t.label@ == label@ && t.content@ == content@),
{
    if label.is_empty() {
        return Err(TextError::EmptyLabel);
    }
    if content.is_empty() {
        return Err(TextError::EmptyContent);
    }
    let len = content.len();
    if len > MAX_TEXT_BYTES {
        return Err(TextError::TooLarge { len });
    }
    Ok(Text { label: crate::strings::owned(label), content: crate::strings::owned(content) })
}

} // verus!
