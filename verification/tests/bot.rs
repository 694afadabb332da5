use telegram_photo_geolocator_bot::bot::{
    check_document, check_file, plan_message, route_request, sends_native_pin, valid_secret,
    FileStep,
    HttpMethod, HttpReply, MessagePlan, RequestAction,
};
use telegram_photo_geolocator_bot::reply::help_text;
use telegram_photo_geolocator_bot::telegram::{Document, TelegramFile};

#[test]
fn routes_webhook_requests() {
    assert_eq!(
        route_request(HttpMethod::Get, Some("s"), None),
        RequestAction::Respond(HttpReply::Success)
    );
    assert_eq!(
        route_request(HttpMethod::Other, None, None),
        RequestAction::Respond(HttpReply::MethodNotAllowed)
    );
    assert_eq!(
        route_request(HttpMethod::Post, Some("s"), Some("t")),
        RequestAction::Respond(HttpReply::Unauthorized)
    );
    assert_eq!(
        route_request(HttpMethod::Post, Some("s"), None),
        RequestAction::Respond(HttpReply::Unauthorized)
    );
    assert_eq!(
        route_request(HttpMethod::Post, Some("s"), Some("s")),
        RequestAction::HandleUpdate
    );
    assert_eq!(route_request(HttpMethod::Post, None, None), RequestAction::HandleUpdate);
    assert!(valid_secret(None, Some("anything")));
    assert_eq!(HttpReply::Success.status(), 200);
    assert_eq!(HttpReply::MethodNotAllowed.status(), 405);
    assert_eq!(HttpReply::Unauthorized.status(), 401);
    assert_eq!(HttpReply::Success.body(), "ok");
    assert_eq!(HttpReply::MethodNotAllowed.body(), "method not allowed");
    assert_eq!(HttpReply::Unauthorized.body(), "unauthorized");
}

#[test]
fn plans_messages_by_what_they_carry() {
    assert_eq!(plan_message(true, true, true, Some("/help"), "p", "u"), MessagePlan::Document);
    assert_eq!(plan_message(false, true, true, None, "p", "u"), MessagePlan::Location);
    match plan_message(false, false, true, Some("/help"), "p", "u") {
        MessagePlan::Reply(text) => assert!(text.starts_with("Please send the image as a file/document")),
        other => panic!("unexpected plan {other:?}"),
    }
    assert_eq!(
        plan_message(false, false, false, Some("/start"), "p", "u"),
        MessagePlan::Reply(help_text("p", "u"))
    );
    assert_eq!(
        plan_message(false, false, false, Some("/help"), "p", "u"),
        MessagePlan::Reply(help_text("p", "u"))
    );
    match plan_message(false, false, false, Some("/help me"), "p", "u") {
        MessagePlan::Reply(text) => assert!(text.starts_with("Send me an original image")),
        other => panic!("unexpected plan {other:?}"),
    }
}

fn document(name: &str, size: Option<u64>) -> Document {
    Document {
        file_id: "id".to_string(),
        file_name: Some(name.to_string()),
        mime_type: None,
        file_size: size,
    }
}

#[test]
fn checks_documents_before_download() {
    assert_eq!(check_document(&document("a.jpg", Some(10)), 10), FileStep::Continue);
    assert_eq!(check_document(&document("a.jpg", None), 0), FileStep::Continue);
    assert_eq!(
        check_document(&document("a.jpg", Some(11)), 10),
        FileStep::Reply("This file is too large for this bot to download.".to_string())
    );
    match check_document(&document("a.txt", Some(1)), 10) {
        FileStep::Reply(text) => assert!(text.starts_with("This document does not look like an image.")),
        FileStep::Continue => panic!("a text file was accepted"),
    }
    let file = TelegramFile {
        file_path: "p".to_string(),
        file_size: Some(11),
    };
    assert_eq!(
        check_file(&file, 10),
        FileStep::Reply("This file is too large for this bot to download.".to_string())
    );
    let unknown = TelegramFile {
        file_path: "p".to_string(),
        file_size: None,
    };
    assert_eq!(check_file(&unknown, 0), FileStep::Continue);
}

#[test]
fn pins_only_documents() {
    assert!(sends_native_pin(&MessagePlan::Document));
    assert!(!sends_native_pin(&MessagePlan::Location));
    assert!(!sends_native_pin(&MessagePlan::Reply("x".to_string())));
}
