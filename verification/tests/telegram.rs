use telegram_photo_geolocator_bot::telegram::{
    file_url, method_url, Document, TelegramError, TelegramFile, TelegramResponse,
};

#[test]
fn detects_image_documents() {
    assert!(
        Document {
            file_id: "1".to_string(),
            file_name: None,
            mime_type: Some("image/jpeg".to_string()),
            file_size: None,
        }
        .looks_like_image()
    );

    assert!(
        Document {
            file_id: "1".to_string(),
            file_name: Some("IMG_1234.HEIC".to_string()),
            mime_type: None,
            file_size: None,
        }
        .looks_like_image()
    );

    assert!(
        !Document {
            file_id: "1".to_string(),
            file_name: Some("notes.txt".to_string()),
            mime_type: Some("text/plain".to_string()),
            file_size: None,
        }
        .looks_like_image()
    );
}

fn named(name: &str) -> Document {
    Document {
        file_id: "f".to_string(),
        file_name: Some(name.to_string()),
        mime_type: Some("application/octet-stream".to_string()),
        file_size: Some(10),
    }
}

#[test]
fn recognizes_every_image_extension() {
    for name in [
        "a.jpg", "a.JPEG", "a.tif", "a.tiff", "a.dng", "a.heic", "a.heif", "a.png", "a.avif",
        "a.CR3", "a.raf", "a.iiq", "a.webp", "archive.tar.jpg",
    ] {
        assert!(named(name).looks_like_image(), "{name}");
    }
    for name in ["a.gif", "jpg.txt", "jpgx", "noextension", "", "a.jpg.zip"] {
        assert!(!named(name).looks_like_image(), "{name}");
    }
    assert!(named("jpg").looks_like_image());
}

#[test]
fn turns_telegram_answers_into_results() {
    let ok = TelegramResponse {
        ok: true,
        result: Some(TelegramFile {
            file_path: "photos/1.jpg".to_string(),
            file_size: Some(5),
        }),
        description: None,
    };
    assert_eq!(ok.into_result("getFile").unwrap().file_path, "photos/1.jpg");

    let empty: TelegramResponse<bool> = TelegramResponse {
        ok: true,
        result: None,
        description: None,
    };
    let error = empty.into_result("sendChatAction").unwrap_err();
    assert_eq!(
        error,
        TelegramError::MissingResult {
            method: "sendChatAction".to_string()
        }
    );
    assert_eq!(
        error.message(),
        "Telegram sendChatAction response did not include result"
    );

    let failed: TelegramResponse<bool> = TelegramResponse {
        ok: false,
        result: Some(true),
        description: Some("Bad Request: chat not found".to_string()),
    };
    assert_eq!(
        failed.into_result("sendMessage").unwrap_err().message(),
        "Telegram sendMessage failed: Bad Request: chat not found"
    );

    let unknown: TelegramResponse<bool> = TelegramResponse {
        ok: false,
        result: None,
        description: None,
    };
    assert_eq!(
        unknown.into_result("getFile").unwrap_err().message(),
        "Telegram getFile failed: unknown error"
    );
}

#[test]
fn writes_bot_api_urls() {
    assert_eq!(
        method_url("123:abc", "getFile"),
        "https://api.telegram.org/bot123:abc/getFile"
    );
    assert_eq!(
        file_url("123:abc", "documents/file_7.jpg"),
        "https://api.telegram.org/file/bot123:abc/documents/file_7.jpg"
    );
}
