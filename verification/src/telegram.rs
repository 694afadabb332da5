//! The parts of Telegram Bot API messages and answers that the bot reads.

use vstd::prelude::*;
use crate::text::{after_last, ascii_lower, has_prefix, last_piece, starts_with, str_eq, to_ascii_lowercase};

verus! {

/// Telegram chat identifier.
#[derive(Clone, Debug, PartialEq)]
pub struct Chat {
    /// Numeric chat ID.
    pub id: i64,
}

/// A Telegram photo variant.
#[derive(Clone, Debug, PartialEq)]
pub struct PhotoSize {
    /// File ID for this resized Telegram photo.
    pub file_id: String,
}

/// Telegram document metadata.
#[derive(Clone, Debug, PartialEq)]
pub struct Document {
    /// File ID used to download the document.
    pub file_id: String,
    /// Original filename supplied by Telegram.
    pub file_name: Option<String>,
    /// MIME type supplied by Telegram.
    pub mime_type: Option<String>,
    /// File size in bytes.
    pub file_size: Option<u64>,
}

/// File metadata returned by Telegram `getFile`.
#[derive(Clone, Debug, PartialEq)]
pub struct TelegramFile {
    /// Remote path used with the Telegram file download endpoint.
    pub file_path: String,
    /// File size in bytes, if supplied.
    pub file_size: Option<u64>,
}

/// The file extensions of the image formats the bot reads.
pub open spec fn is_image_extension(e: Seq<char>) -> bool {
    ||| e == "jpg"@
    ||| e == "jpeg"@
    ||| e == "tif"@
    ||| e == "tiff"@
    ||| e == "dng"@
    ||| e == "heic"@
    ||| e == "heif"@
    ||| e == "png"@
    ||| e == "avif"@
    ||| e == "cr3"@
    ||| e == "raf"@
    ||| e == "iiq"@
    ||| e == "webp"@
}

/// Whether a document looks like an image: an `image/` MIME type, or a file name
/// whose extension (after its last `.`), in lower case, names an image format.
pub open spec fn looks_like_image_document(d: Document) -> bool {
    ||| (d.mime_type matches Some(m) && has_prefix(m@, "image/"@))
    ||| (d.file_name matches Some(name) && is_image_extension(ascii_lower(after_last(name@, '.'))))
}

/// Tests a lower-case extension against the image formats.
fn image_extension(e: &str) -> (r: bool)
    ensures
        r == is_image_extension(e@),
{
    str_eq(e, "jpg") || str_eq(e, "jpeg") || str_eq(e, "tif") || str_eq(e, "tiff") || str_eq(
        e,
        "dng",
    ) || str_eq(e, "heic") || str_eq(e, "heif") || str_eq(e, "png") || str_eq(e, "avif")
        || str_eq(e, "cr3") || str_eq(e, "raf") || str_eq(e, "iiq") || str_eq(e, "webp")
}

impl Document {
    /// Returns true when the document looks like an image file worth scanning.
    pub fn looks_like_image(&self) -> (r: bool)
        ensures
            r == looks_like_image_document(*self),
    {
        if let Some(mime_type) = &self.mime_type {
            if starts_with(mime_type.as_str(), "image/") {
                return true;
            }
        }
        match &self.file_name {
            Some(name) => {
                let extension = last_piece(name.as_str(), '.');
                let lower = to_ascii_lowercase(extension.as_str());
                image_extension(lower.as_str())
            },
            None => false,
        }
    }
}

/// A Telegram Bot API answer: `ok`, the result, and a description of a failure.
#[derive(Clone, Debug, PartialEq)]
pub struct TelegramResponse<T> {
    /// Whether the call succeeded.
    pub ok: bool,
    /// The result of a successful call.
    pub result: Option<T>,
    /// Why the call failed.
    pub description: Option<String>,
}

/// Why a Telegram Bot API call gave no result.
#[derive(Clone, Debug, PartialEq)]
pub enum TelegramError {
    /// The answer was `ok` but carried no result.
    MissingResult {
        /// The API method called.
        method: String,
    },
    /// The answer was not `ok`.
    Failed {
        /// The API method called.
        method: String,
        /// Telegram's description, or `unknown error`.
        description: String,
    },
}

/// The message of a Telegram error.
pub open spec fn telegram_error_message(e: TelegramError) -> Seq<char> {
    match e {
        TelegramError::MissingResult { method } => "Telegram "@ + method@
            + " response did not include result"@,
        TelegramError::Failed { method, description } => "Telegram "@ + method@ + " failed: "@
            + description@,
    }
}

impl TelegramError {
    /// Writes the error message.
    pub fn message(&self) -> (r: String)
        ensures
            r@ == telegram_error_message(*self),
    {
        match self {
            TelegramError::MissingResult { method } => {
                let mut text = String::from_str("Telegram ");
                text.append(method.as_str());
                text.append(" response did not include result");
                text
            },
            TelegramError::Failed { method, description } => {
                let mut text = String::from_str("Telegram ");
                text.append(method.as_str());
                text.append(" failed: ");
                text.append(description.as_str());
                text
            },
        }
    }
}

impl<T> TelegramResponse<T> {
    /// Turns an answer into its result: the result of an `ok` answer that has one;
    /// otherwise an error naming the method, with Telegram's description of a
    /// failure (`unknown error` when there is none).
    pub fn into_result(self, method: &str) -> (r: Result<T, TelegramError>)
        ensures
            self.ok && self.result is Some ==> r == Ok::<T, TelegramError>(self.result->0),
            self.ok && self.result is None ==> (r matches Err(
                TelegramError::MissingResult { method: m },
            ) && m@ == method@),
            !self.ok ==> (r matches Err(TelegramError::Failed { method: m, description: d })
                && m@ == method@ && d@ == match self.description {
                Some(d) => d@,
                None => "unknown error"@,
            }),
    {
        if self.ok {
            match self.result {
                Some(result) => Ok(result),
                None => Err(TelegramError::MissingResult { method: String::from_str(method) }),
            }
        } else {
            let description = match self.description {
                Some(d) => d,
                None => String::from_str("unknown error"),
            };
            Err(TelegramError::Failed { method: String::from_str(method), description })
        }
    }
}

/// The URL of a Bot API method for a bot token.
pub open spec fn method_url_text(token: Seq<char>, method: Seq<char>) -> Seq<char> {
    "https://api.telegram.org/bot"@ + token + "/"@ + method
}

/// Writes the URL of a Bot API method.
pub fn method_url(token: &str, method: &str) -> (r: String)
    ensures
        r@ == method_url_text(token@, method@),
{
    let mut url = String::from_str("https://api.telegram.org/bot");
    url.append(token);
    url.append("/");
    url.append(method);
    url
}

/// The download URL of a file that `getFile` prepared.
pub open spec fn file_url_text(token: Seq<char>, file_path: Seq<char>) -> Seq<char> {
    "https://api.telegram.org/file/bot"@ + token + "/"@ + file_path
}

/// Writes the download URL of a file that `getFile` prepared.
pub fn file_url(token: &str, file_path: &str) -> (r: String)
    ensures
        r@ == file_url_text(token@, file_path@),
{
    let mut url = String::from_str("https://api.telegram.org/file/bot");
    url.append(token);
    url.append("/");
    url.append(file_path);
    url
}

/// The extensions of the image formats the bot reads, in lower case.
pub open spec fn image_extensions() -> Seq<Seq<char>> {
    seq![
        "jpg"@, "jpeg"@, "tif"@, "tiff"@, "dng"@, "heic"@, "heif"@, "png"@, "avif"@, "cr3"@,
        "raf"@, "iiq"@, "webp"@,
    ]
}

/// What follows the last `c` of `a`, `c` and `e` is `e`, when `e` holds no `c`.
proof fn lemma_after_last_suffix(a: Seq<char>, e: Seq<char>, c: char)
    requires
        forall|i: int| 0 <= i < e.len() ==> e[i] != c,
    ensures
        after_last(a + seq![c] + e, c) == e,
    decreases e.len(),
{
    let s = a + seq![c] + e;
    if e.len() == 0 {
        assert(s.last() == c);
    } else {
        assert(s.drop_last() =~= a + seq![c] + e.drop_last());
        lemma_after_last_suffix(a, e.drop_last(), c);
        assert(s.last() == e.last());
        assert(e.drop_last().push(e.last()) =~= e);
    }
}

/// Lower-casing leaves `.` alone and makes no `.`, so it commutes with taking
/// what follows the last `.`.
proof fn lemma_lower_after_last_dot(s: Seq<char>)
    ensures
        ascii_lower(after_last(s, '.')) == after_last(ascii_lower(s), '.'),
    decreases s.len(),
{
    if s.len() == 0 {
        assert(ascii_lower(s) =~= s);
    } else {
        let l = ascii_lower(s);
        assert(l.last() == crate::text::ascii_lower_char(s.last()));
        assert(l.drop_last() =~= ascii_lower(s.drop_last()));
        lemma_lower_after_last_dot(s.drop_last());
        if s.last() == '.' {
            assert(ascii_lower(Seq::<char>::empty()) =~= Seq::<char>::empty());
        } else {
            assert(l.last() != '.');
            assert(ascii_lower(after_last(s.drop_last(), '.').push(s.last())) =~= ascii_lower(
                after_last(s.drop_last(), '.'),
            ).push(crate::text::ascii_lower_char(s.last())));
        }
    }
}

/// A document looks like an image when its MIME type starts with `image/`, and
/// when its file name ends, in any letter case, with `.` and the extension of
/// one of the image formats the bot reads (JPEG, TIFF, DNG, HEIC/HEIF, PNG, AVIF,
/// CR3, RAF, IIQ, WebP), whatever its MIME type.
pub proof fn law_image_documents(d: Document, base: Seq<char>)
    ensures
        d.mime_type is Some && has_prefix(d.mime_type->0@, "image/"@) ==> looks_like_image_document(d),
        forall|k: int|
            0 <= k < image_extensions().len() && d.file_name is Some && ascii_lower(
                d.file_name->0@,
            ) == base + "."@ + #[trigger] image_extensions()[k] ==> looks_like_image_document(d),
{
    reveal_strlit(".");
    assert forall|k: int|
        0 <= k < image_extensions().len() && d.file_name is Some && ascii_lower(d.file_name->0@)
            == base + "."@ + #[trigger] image_extensions()[k] implies looks_like_image_document(d) by {
        let n = d.file_name->0@;
        let e = image_extensions()[k];
        reveal_strlit("jpg");
        reveal_strlit("jpeg");
        reveal_strlit("tif");
        reveal_strlit("tiff");
        reveal_strlit("dng");
        reveal_strlit("heic");
        reveal_strlit("heif");
        reveal_strlit("png");
        reveal_strlit("avif");
        reveal_strlit("cr3");
        reveal_strlit("raf");
        reveal_strlit("iiq");
        reveal_strlit("webp");
        assert(forall|i: int| 0 <= i < e.len() ==> e[i] != '.');
        assert(base + "."@ =~= base + seq!['.']);
        lemma_after_last_suffix(base, e, '.');
        lemma_lower_after_last_dot(n);
        assert(is_image_extension(e));
    }
}

} // verus!
