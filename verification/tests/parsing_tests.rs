//! Token conversions, the retention parser, request and response shapes,
//! and configuration loading.

use line_relay::load_config::load_config;
use line_relay::message::Message;
use line_relay::parse_config::{Config, Database, DetailedConfig, Profile, time_str_to_seconds};
use line_relay::parse_request::WsRequest;
use line_relay::relay_core::{sender_to_string, string_to_sender};
use line_relay::ws_response::{WsResponse, WsResponseCode, response_for};

#[test]
fn retention_units_have_exact_values() {
    assert_eq!(time_str_to_seconds("1d"), Some(86_400));
    assert_eq!(time_str_to_seconds("14d"), Some(14 * 86_400));
    assert_eq!(time_str_to_seconds("2w"), Some(2 * 604_800));
    assert_eq!(time_str_to_seconds("1m"), Some(2_628_000));
    assert_eq!(time_str_to_seconds("3y"), Some(3 * 31_536_000));
}

#[test]
fn retention_ignores_case_and_blanks() {
    assert_eq!(time_str_to_seconds(" 14D "), Some(14 * 86_400));
    assert_eq!(time_str_to_seconds("\t2W\n"), Some(2 * 604_800));
}

#[test]
fn retention_rejects_malformed_input() {
    assert_eq!(time_str_to_seconds(""), None);
    assert_eq!(time_str_to_seconds("   "), None);
    assert_eq!(time_str_to_seconds("d"), None);
    assert_eq!(time_str_to_seconds("14"), None);
    assert_eq!(time_str_to_seconds("14x"), None);
    assert_eq!(time_str_to_seconds("1 4d"), None);
    assert_eq!(time_str_to_seconds("-3d"), None);
}

#[test]
fn retention_rejects_overflow() {
    // The seconds would not fit in 64 bits.
    assert_eq!(time_str_to_seconds("600000000000000y"), None);
    // Nor does the number itself.
    assert_eq!(time_str_to_seconds("99999999999999999999d"), None);
}

#[test]
fn token_round_trips_through_text() {
    let token = [b'a'; 64];
    let text = sender_to_string(token).unwrap();
    assert_eq!(text, "a".repeat(64));
    assert_eq!(string_to_sender(text), Ok(token));
}

#[test]
fn token_of_invalid_utf8_is_rejected() {
    let token = [0xFFu8; 64];
    assert!(sender_to_string(token).is_err());
}

#[test]
fn token_text_must_be_64_bytes() {
    assert_eq!(
        string_to_sender("short".to_string()),
        Err("Sender must be 64 bytes".to_string())
    );
    // 64 characters but more than 64 bytes once encoded.
    let wide = "é".repeat(64);
    assert!(string_to_sender(wide).is_err());
}

#[test]
fn request_becomes_message_unchanged() {
    let request = WsRequest {
        sender: "someone".to_string(),
        line_id: 12,
        content: "hello".to_string(),
    };
    let m = request.to_message();
    assert_eq!(
        m,
        Message {
            line_id: 12,
            sender: "someone".to_string(),
            content: "hello".to_string(),
        }
    );
}

#[test]
fn response_reports_success_without_message() {
    assert_eq!(
        response_for(Ok(())),
        WsResponse { code: WsResponseCode::Success, error_message: None }
    );
}

#[test]
fn response_reports_failure_with_its_reason() {
    assert_eq!(
        response_for(Err("boom".to_string())),
        WsResponse {
            code: WsResponseCode::Error,
            error_message: Some("boom".to_string()),
        }
    );
}

fn config(db_type: &str, auto_delete: bool, auto_delete_time: &str) -> Config {
    Config {
        profile: Profile {
            server_name: "srv".to_string(),
            server_description: "desc".to_string(),
            admin_contact: "admin".to_string(),
            server_location: "here".to_string(),
        },
        database: Database {
            type_: db_type.to_string(),
            url: "redis://127.0.0.1/".to_string(),
        },
        config: DetailedConfig {
            auto_delete,
            auto_delete_time: auto_delete_time.to_string(),
        },
    }
}

#[test]
fn load_config_rejects_unsupported_database() {
    let r = load_config(config("postgres", false, ""));
    assert_eq!(
        r.err().unwrap(),
        (
            "Config is not valid.".to_string(),
            "Database type is not supported.".to_string()
        )
    );
}

#[test]
fn load_config_rejects_bad_retention() {
    let r = load_config(config("redis", true, "soon"));
    assert_eq!(
        r.err().unwrap(),
        (
            "Config is not valid.".to_string(),
            "Auto delete time is not valid.".to_string()
        )
    );
}

#[test]
fn load_config_accepts_redis_and_keeps_profile() {
    // Building the client checks the URL only; no server is contacted.
    let l = load_config(config("redis", true, "14d")).unwrap();
    assert_eq!(l.profile.server_name, "srv".to_string());
}
