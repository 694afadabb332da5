//! The decisions the bot takes on each webhook request, Telegram message and
//! downloaded file. The I/O between them (HTTP, Telegram calls, EXIF parsing)
//! is done by the caller, which hands the results back here.

use vstd::prelude::*;
use crate::reply::{help_message, help_text};
use crate::telegram::{looks_like_image_document, Document, TelegramFile};
use crate::text::{opt_str, str_eq};

verus! {

/// The HTTP methods the webhook tells apart.
#[derive(Clone, Copy, Debug, PartialEq, Eq)]
pub enum HttpMethod {
    Get,
    Post,
    Other,
}

/// A plain-text HTTP answer.
#[derive(Clone, Copy, Debug, PartialEq, Eq)]
pub enum HttpReply {
    /// 200, `ok`.
    Success,
    /// 405, `method not allowed`.
    MethodNotAllowed,
    /// 401, `unauthorized`.
    Unauthorized,
}

impl HttpReply {
    /// The status code of the answer.
    pub fn status(&self) -> (r: u16)
        ensures
            r == match *self {
                HttpReply::Success => 200u16,
                HttpReply::MethodNotAllowed => 405u16,
                HttpReply::Unauthorized => 401u16,
            },
    {
        match self {
            HttpReply::Success => 200,
            HttpReply::MethodNotAllowed => 405,
            HttpReply::Unauthorized => 401,
        }
    }

    /// The body of the answer.
    pub fn body(&self) -> (r: String)
        ensures
            r@ == match *self {
                HttpReply::Success => "ok"@,
                HttpReply::MethodNotAllowed => "method not allowed"@,
                HttpReply::Unauthorized => "unauthorized"@,
            },
    {
        match self {
            HttpReply::Success => String::from_str("ok"),
            HttpReply::MethodNotAllowed => String::from_str("method not allowed"),
            HttpReply::Unauthorized => String::from_str("unauthorized"),
        }
    }
}

/// What to do with a webhook request.
#[derive(Clone, Copy, Debug, PartialEq, Eq)]
pub enum RequestAction {
    /// Answer at once.
    Respond(HttpReply),
    /// Parse the body as a Telegram update, handle it, then answer `Success`.
    HandleUpdate,
}

/// Whether a request carries the webhook secret: always, when no secret is
/// configured; otherwise when the secret-token header equals it.
pub open spec fn secret_accepted(secret: Option<Seq<char>>, header: Option<Seq<char>>) -> bool {
    match secret {
        None => true,
        Some(s) => header == Some(s),
    }
}

/// Checks the secret-token header against the configured webhook secret.
pub fn valid_secret(secret: Option<&str>, header: Option<&str>) -> (r: bool)
    ensures
        r == secret_accepted(opt_str(secret), opt_str(header)),
{
    match secret {
        None => true,
        Some(s) => match header {
            Some(h) => str_eq(h, s),
            None => false,
        },
    }
}

/// How the webhook treats a request: `GET` is a health check; anything but `POST`
/// is refused; a `POST` without the secret is unauthorized; the rest is an update.
pub open spec fn request_action(
    method: HttpMethod,
    secret: Option<Seq<char>>,
    header: Option<Seq<char>>,
) -> RequestAction {
    match method {
        HttpMethod::Get => RequestAction::Respond(HttpReply::Success),
        HttpMethod::Other => RequestAction::Respond(HttpReply::MethodNotAllowed),
        HttpMethod::Post => if secret_accepted(secret, header) {
            RequestAction::HandleUpdate
        } else {
            RequestAction::Respond(HttpReply::Unauthorized)
        },
    }
}

/// Decides what to do with a webhook request.
pub fn route_request(method: HttpMethod, secret: Option<&str>, header: Option<&str>) -> (r:
    RequestAction)
    ensures
        r == request_action(method, opt_str(secret), opt_str(header)),
{
    match method {
        HttpMethod::Get => RequestAction::Respond(HttpReply::Success),
        HttpMethod::Other => RequestAction::Respond(HttpReply::MethodNotAllowed),
        HttpMethod::Post => if valid_secret(secret, header) {
            RequestAction::HandleUpdate
        } else {
            RequestAction::Respond(HttpReply::Unauthorized)
        },
    }
}

/// The reply to a compressed Telegram photo.
pub open spec fn send_as_file_message() -> Seq<char> {
    "Please send the image as a file/document, not as a Telegram photo. Telegram photos are compressed and often have EXIF GPS metadata removed."@
}

/// The reply to any other message.
pub open spec fn usage_message() -> Seq<char> {
    "Send me an original image as a file/document or share a Telegram location, and I will return coordinates, map links, and a place name when available. For images, I will also send a native Telegram map pin."@
}

/// What to do with an incoming message.
#[derive(Clone, Debug, PartialEq)]
pub enum MessagePlan {
    /// Check and download the document, then look for coordinates in it.
    Document,
    /// Reply for the shared location.
    Location,
    /// Reply with this text.
    Reply(String),
}

/// The plan for a message, by the first of these that it has: a document, a
/// location, photos (asked to be sent as a file), the text `/start` or `/help`
/// (answered with the help text); anything else gets the usage text.
pub open spec fn message_plan(
    has_document: bool,
    has_location: bool,
    has_photo: bool,
    text: Option<Seq<char>>,
    project_name: Seq<char>,
    github_url: Seq<char>,
) -> MessagePlanView {
    if has_document {
        MessagePlanView::Document
    } else if has_location {
        MessagePlanView::Location
    } else if has_photo {
        MessagePlanView::Reply(send_as_file_message())
    } else if text == Some("/start"@) || text == Some("/help"@) {
        MessagePlanView::Reply(help_message(project_name, github_url))
    } else {
        MessagePlanView::Reply(usage_message())
    }
}

/// A message plan with its reply as characters.
pub enum MessagePlanView {
    Document,
    Location,
    Reply(Seq<char>),
}

impl View for MessagePlan {
    type V = MessagePlanView;

    open spec fn view(&self) -> MessagePlanView {
        match self {
            MessagePlan::Document => MessagePlanView::Document,
            MessagePlan::Location => MessagePlanView::Location,
            MessagePlan::Reply(text) => MessagePlanView::Reply(text@),
        }
    }
}

/// Decides how to answer a message from what it carries.
pub fn plan_message(
    has_document: bool,
    has_location: bool,
    has_photo: bool,
    text: Option<&str>,
    project_name: &str,
    github_url: &str,
) -> (r: MessagePlan)
    ensures
        r@ == message_plan(
            has_document,
            has_location,
            has_photo,
            opt_str(text),
            project_name@,
            github_url@,
        ),
{
    if has_document {
        return MessagePlan::Document;
    }
    if has_location {
        return MessagePlan::Location;
    }
    if has_photo {
        return MessagePlan::Reply(String::from_str(
            "Please send the image as a file/document, not as a Telegram photo. Telegram photos are compressed and often have EXIF GPS metadata removed.",
        ));
    }
    let is_help = match text {
        Some(t) => str_eq(t, "/start") || str_eq(t, "/help"),
        None => false,
    };
    if is_help {
        MessagePlan::Reply(help_text(project_name, github_url))
    } else {
        MessagePlan::Reply(String::from_str(
            "Send me an original image as a file/document or share a Telegram location, and I will return coordinates, map links, and a place name when available. For images, I will also send a native Telegram map pin.",
        ))
    }
}

/// Whether a native Telegram location pin follows the reply to a message: it
/// does for coordinates read from a document, not for a shared location, which
/// already shows on the map.
pub fn sends_native_pin(plan: &MessagePlan) -> (r: bool)
    ensures
        r <==> plan@ is Document,
{
    match plan {
        MessagePlan::Document => true,
        _ => false,
    }
}

/// The reply to a document that is not an image.
pub open spec fn not_an_image_message() -> Seq<char> {
    "This document does not look like an image. Please send an original JPEG/TIFF/DNG/HEIC image file."@
}

/// The reply to a file above the size limit.
pub open spec fn too_large_message() -> Seq<char> {
    "This file is too large for this bot to download."@
}

/// The reply to an image without GPS coordinates.
pub open spec fn no_coordinates_message() -> Seq<char> {
    "I could not find GPS coordinates in the image EXIF metadata. Make sure geotagging was enabled and send the original image as a file/document."@
}

/// The reply to a shared location with coordinates out of range.
pub open spec fn invalid_location_message() -> Seq<char> {
    "Telegram sent invalid coordinates in this location."@
}

/// The first line of a reply for coordinates found in an image.
pub open spec fn exif_intro_message() -> Seq<char> {
    "Location found in EXIF metadata."@
}

/// The first line of a reply for a shared location.
pub open spec fn location_intro_message() -> Seq<char> {
    "Location received from Telegram."@
}

/// Writes the reply to a document that is not an image.
pub fn not_an_image_text() -> (r: String)
    ensures
        r@ == not_an_image_message(),
{
    String::from_str(
        "This document does not look like an image. Please send an original JPEG/TIFF/DNG/HEIC image file.",
    )
}

/// Writes the reply to a file above the size limit.
pub fn too_large_text() -> (r: String)
    ensures
        r@ == too_large_message(),
{
    String::from_str("This file is too large for this bot to download.")
}

/// Writes the reply to an image without GPS coordinates.
pub fn no_coordinates_text() -> (r: String)
    ensures
        r@ == no_coordinates_message(),
{
    String::from_str(
        "I could not find GPS coordinates in the image EXIF metadata. Make sure geotagging was enabled and send the original image as a file/document.",
    )
}

/// Writes the reply to a shared location with coordinates out of range.
pub fn invalid_location_text() -> (r: String)
    ensures
        r@ == invalid_location_message(),
{
    String::from_str("Telegram sent invalid coordinates in this location.")
}

/// Writes the first line of a reply for coordinates found in an image.
pub fn exif_intro_text() -> (r: String)
    ensures
        r@ == exif_intro_message(),
{
    String::from_str("Location found in EXIF metadata.")
}

/// Writes the first line of a reply for a shared location.
pub fn location_intro_text() -> (r: String)
    ensures
        r@ == location_intro_message(),
{
    String::from_str("Location received from Telegram.")
}

/// The next step with a document or file.
#[derive(Clone, Debug, PartialEq)]
pub enum FileStep {
    /// Go on to the next step.
    Continue,
    /// Stop and reply with this text.
    Reply(String),
}

/// Whether a reported size is above the limit; an unknown size counts as 0.
pub open spec fn above_limit(size: Option<u64>, max_file_bytes: u64) -> bool {
    match size {
        Some(s) => s > max_file_bytes,
        None => false,
    }
}

/// Checks a reported file size against the limit.
pub fn exceeds_limit(size: Option<u64>, max_file_bytes: u64) -> (r: bool)
    ensures
        r == above_limit(size, max_file_bytes),
{
    match size {
        Some(s) => s > max_file_bytes,
        None => false,
    }
}

/// Checks an incoming document before asking Telegram for its file: it must look
/// like an image, then its reported size must be within the limit.
pub fn check_document(document: &Document, max_file_bytes: u64) -> (r: FileStep)
    ensures
        !looks_like_image_document(*document) ==> (r matches FileStep::Reply(t) && t@
            == not_an_image_message()),
        looks_like_image_document(*document) && above_limit(document.file_size, max_file_bytes)
            ==> (r matches FileStep::Reply(t) && t@ == too_large_message()),
        looks_like_image_document(*document) && !above_limit(document.file_size, max_file_bytes)
            ==> r == FileStep::Continue,
{
    if !document.looks_like_image() {
        return FileStep::Reply(not_an_image_text());
    }
    if exceeds_limit(document.file_size, max_file_bytes) {
        return FileStep::Reply(too_large_text());
    }
    FileStep::Continue
}

/// Checks the file Telegram prepared before downloading it: its size, when
/// reported, must be within the limit.
pub fn check_file(file: &TelegramFile, max_file_bytes: u64) -> (r: FileStep)
    ensures
        above_limit(file.file_size, max_file_bytes) ==> (r matches FileStep::Reply(t) && t@
            == too_large_message()),
        !above_limit(file.file_size, max_file_bytes) ==> r == FileStep::Continue,
{
    if exceeds_limit(file.file_size, max_file_bytes) {
        FileStep::Reply(too_large_text())
    } else {
        FileStep::Continue
    }
}

/// How a message is answered: a document is read for coordinates whatever else
/// the message holds; otherwise a shared location is answered; otherwise photos
/// get the request to send a file; otherwise `/start` and `/help` get the help
/// text, and any other message the usage text.
pub proof fn law_message_plan_priorities(
    has_location: bool,
    has_photo: bool,
    text: Option<Seq<char>>,
    project_name: Seq<char>,
    github_url: Seq<char>,
)
    ensures
        message_plan(true, has_location, has_photo, text, project_name, github_url) is Document,
        message_plan(false, true, has_photo, text, project_name, github_url) is Location,
        message_plan(false, false, true, text, project_name, github_url) == MessagePlanView::Reply(
            send_as_file_message(),
        ),
        message_plan(false, false, false, Some("/start"@), project_name, github_url)
            == MessagePlanView::Reply(help_message(project_name, github_url)),
        message_plan(false, false, false, Some("/help"@), project_name, github_url)
            == MessagePlanView::Reply(help_message(project_name, github_url)),
        text != Some("/start"@) && text != Some("/help"@) ==> message_plan(
            false,
            false,
            false,
            text,
            project_name,
            github_url,
        ) == MessagePlanView::Reply(usage_message()),
{
}

/// The webhook answers a health check to `GET` and refuses other methods but
/// `POST`; with a secret configured, a `POST` is handled only when its
/// secret-token header is exactly that secret, and is unauthorized otherwise;
/// with none, every `POST` is handled.
pub proof fn law_webhook_secret(secret: Option<Seq<char>>, header: Option<Seq<char>>)
    ensures
        request_action(HttpMethod::Get, secret, header) == RequestAction::Respond(HttpReply::Success),
        request_action(HttpMethod::Other, secret, header) == RequestAction::Respond(
            HttpReply::MethodNotAllowed,
        ),
        secret is None ==> request_action(HttpMethod::Post, secret, header)
            == RequestAction::HandleUpdate,
        secret is Some && header == secret ==> request_action(HttpMethod::Post, secret, header)
            == RequestAction::HandleUpdate,
        secret is Some && header != secret ==> request_action(HttpMethod::Post, secret, header)
            == RequestAction::Respond(HttpReply::Unauthorized),
{
}

} // verus!
