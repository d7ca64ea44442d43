use spa_file_server::config::{
    default_app_environment, default_app_name, default_log_level, AppConfig, ServerConfig,
};
use spa_file_server::lifecycle::{Lifecycle, Phase, ServerAction, ServerEvent};
use spa_file_server::media::{media_type, MediaType};
use spa_file_server::path::{hex_value, lookup, percent_decode, Lookup};
use spa_file_server::pipeline::{start, step, Event, Next, ReadOutcome, Stage};

fn entries(path: &str) -> Option<Vec<String>> {
    match lookup(path.as_bytes()) {
        Lookup::Entry(segs) => Some(
            segs.into_iter()
                .map(|s| String::from_utf8(s).unwrap())
                .collect(),
        ),
        Lookup::Refused => None,
    }
}

fn reply(next: Next) -> (u16, Vec<u8>) {
    match next {
        Next::Reply(r) => (r.status, r.body),
        _ => panic!("expected a reply"),
    }
}

#[test]
fn defaults_are_the_documented_values() {
    assert_eq!(default_app_name(), "http-file-server-example");
    assert_eq!(default_app_environment(), "development");
    assert_eq!(default_log_level(), "debug");
}

#[test]
fn from_values_fills_only_missing_values() {
    let c = AppConfig::from_values(None, Some("production".to_string()), None);
    assert_eq!(c.app_name, "http-file-server-example");
    assert_eq!(c.app_environment, "production");
    assert_eq!(c.log_level, "debug");
    let c = AppConfig::from_values(Some("site".to_string()), None, Some("info".to_string()));
    assert_eq!(c.app_name, "site");
    assert_eq!(c.app_environment, "development");
    assert_eq!(c.log_level, "info");
}

#[test]
fn production_is_matched_exactly() {
    let p = AppConfig::from_values(None, Some("production".to_string()), None);
    assert!(p.is_production());
    let d = AppConfig::from_values(None, None, None);
    assert!(!d.is_production());
    let upper = AppConfig::from_values(None, Some("Production".to_string()), None);
    assert!(!upper.is_production());
    let staging = AppConfig::from_values(None, Some("staging".to_string()), None);
    assert!(!staging.is_production());
}

#[test]
fn server_config_follows_the_mode() {
    let p = ServerConfig::from_app_config(&AppConfig::from_values(
        None,
        Some("production".to_string()),
        None,
    ));
    assert_eq!(p.root_directory, "public");
    assert_eq!(p.fallback_path, "public/index.html");
    assert_eq!(p.bind_octets, [0, 0, 0, 0]);
    assert_eq!(p.port, 8000);
    assert_eq!(p.request_timeout_secs, 10);
    assert!(p.graceful_shutdown);
    let d = ServerConfig::from_app_config(&AppConfig::from_values(None, None, None));
    assert!(!d.graceful_shutdown);
}

#[test]
fn hex_digits_of_both_cases() {
    assert_eq!(hex_value(b'0'), Some(0));
    assert_eq!(hex_value(b'9'), Some(9));
    assert_eq!(hex_value(b'a'), Some(10));
    assert_eq!(hex_value(b'F'), Some(15));
    assert_eq!(hex_value(b'g'), None);
    assert_eq!(hex_value(b'%'), None);
}

#[test]
fn percent_decoding() {
    assert_eq!(percent_decode(b"foo%20bar%3f"), b"foo bar?".to_vec());
    assert_eq!(percent_decode(b"%2e%2E"), b"..".to_vec());
    assert_eq!(percent_decode(b"%zz%4"), b"%zz%4".to_vec());
    assert_eq!(percent_decode(b"100%"), b"100%".to_vec());
    assert_eq!(percent_decode(b""), Vec::<u8>::new());
    assert_eq!(percent_decode(b"%ff"), vec![255u8]);
}

#[test]
fn lookup_names_entries_under_root() {
    assert_eq!(entries("/index.html"), Some(vec!["index.html".to_string()]));
    assert_eq!(
        entries("/assets/app.js"),
        Some(vec!["assets".to_string(), "app.js".to_string()])
    );
    assert_eq!(
        entries("//a//b/./c/"),
        Some(vec!["a".to_string(), "b".to_string(), "c".to_string()])
    );
    assert_eq!(entries("/"), Some(vec![]));
    assert_eq!(entries(""), Some(vec![]));
    assert_eq!(
        entries("/a/..b/c.."),
        Some(vec!["a".to_string(), "..b".to_string(), "c..".to_string()])
    );
    assert_eq!(
        entries("/my%20file.txt"),
        Some(vec!["my file.txt".to_string()])
    );
}

#[test]
fn lookup_refuses_traversal() {
    assert_eq!(entries("/../etc/passwd"), None);
    assert_eq!(entries("/a/../../secret"), None);
    assert_eq!(entries("/a/.."), None);
    assert_eq!(entries("/%2e%2e/secret"), None);
    assert_eq!(entries("/a%2f..%2fb"), None);
    assert_eq!(entries("/%2Fetc/passwd"), None);
}

#[test]
fn existing_file_is_served_byte_for_byte() {
    let (stage, next) = start(b"/assets/app.js");
    assert_eq!(stage, Stage::Primary);
    match next {
        Next::ReadEntry(segs) => assert_eq!(segs, vec![b"assets".to_vec(), b"app.js".to_vec()]),
        _ => panic!("expected an entry read"),
    }
    let content = vec![0u8, 1, 2, 255, 10, 13];
    let (stage, next) = step(stage, Event::Read(ReadOutcome::Found(content.clone())));
    assert_eq!(stage, Stage::Finished);
    assert_eq!(reply(next), (200, content));
}

#[test]
fn missing_file_gets_the_fallback() {
    let (stage, _) = start(b"/dashboard/settings");
    let (stage, next) = step(stage, Event::Read(ReadOutcome::Missing));
    assert_eq!(stage, Stage::Fallback);
    assert!(matches!(next, Next::ReadFallback));
    let index = b"<html>app</html>".to_vec();
    let (stage, next) = step(stage, Event::Read(ReadOutcome::Found(index.clone())));
    assert_eq!(stage, Stage::Finished);
    assert_eq!(reply(next), (200, index));
}

#[test]
fn traversal_behaves_as_a_miss() {
    let (stage, next) = start(b"/../../etc/passwd");
    assert_eq!(stage, Stage::Fallback);
    assert!(matches!(next, Next::ReadFallback));
    let (miss_stage, miss_next) = step(Stage::Primary, Event::Read(ReadOutcome::Missing));
    assert_eq!(stage, miss_stage);
    assert!(matches!(miss_next, Next::ReadFallback));
    let index = b"<html>app</html>".to_vec();
    let (_, a) = step(stage, Event::Read(ReadOutcome::Found(index.clone())));
    let (_, b) = step(miss_stage, Event::Read(ReadOutcome::Found(index.clone())));
    assert_eq!(reply(a), reply(b));
}

#[test]
fn missing_fallback_is_an_internal_error() {
    let (stage, next) = step(Stage::Fallback, Event::Read(ReadOutcome::Missing));
    assert_eq!(stage, Stage::Finished);
    assert_eq!(reply(next), (500, b"Something went wrong...".to_vec()));
    let (_, next) = step(Stage::Fallback, Event::Read(ReadOutcome::Failed));
    assert_eq!(reply(next), (500, b"Something went wrong...".to_vec()));
}

#[test]
fn unreadable_file_is_an_internal_error() {
    let (stage, next) = step(Stage::Primary, Event::Read(ReadOutcome::Failed));
    assert_eq!(stage, Stage::Finished);
    assert_eq!(reply(next), (500, b"Something went wrong...".to_vec()));
}

#[test]
fn timeout_answers_408() {
    for stage in [Stage::Primary, Stage::Fallback] {
        let (s, next) = step(stage, Event::Elapsed);
        assert_eq!(s, Stage::Finished);
        assert_eq!(reply(next), (408, Vec::new()));
    }
}

#[test]
fn graceful_shutdown_waits_for_in_flight() {
    let mut l = Lifecycle::new(true);
    assert_eq!(l.handle(ServerEvent::RequestArrived), ServerAction::Serve);
    assert_eq!(l.handle(ServerEvent::RequestArrived), ServerAction::Serve);
    assert_eq!(l.handle(ServerEvent::Shutdown), ServerAction::Wait);
    assert_eq!(l.phase, Phase::Draining);
    assert!(!l.accepting());
    assert_eq!(l.handle(ServerEvent::RequestArrived), ServerAction::Reject);
    assert_eq!(l.handle(ServerEvent::Shutdown), ServerAction::Wait);
    assert_eq!(l.in_flight, 2);
    assert_eq!(l.handle(ServerEvent::RequestDone), ServerAction::Wait);
    assert_eq!(l.handle(ServerEvent::RequestDone), ServerAction::Exit);
    assert_eq!(l.phase, Phase::Stopped);
}

#[test]
fn graceful_shutdown_when_idle_exits() {
    let mut l = Lifecycle::new(true);
    assert!(l.accepting());
    assert_eq!(l.handle(ServerEvent::Shutdown), ServerAction::Exit);
    assert_eq!(l.phase, Phase::Stopped);
}

#[test]
fn immediate_shutdown_does_not_wait() {
    let mut l = Lifecycle::new(false);
    assert_eq!(l.handle(ServerEvent::RequestArrived), ServerAction::Serve);
    assert_eq!(l.handle(ServerEvent::Shutdown), ServerAction::Exit);
    assert_eq!(l.phase, Phase::Stopped);
    assert_eq!(l.in_flight, 1);
}

#[test]
fn media_types_by_extension() {
    assert_eq!(media_type(b"index.html"), MediaType::Html);
    assert_eq!(media_type(b"APP.JS"), MediaType::Javascript);
    assert_eq!(media_type(b"style.css"), MediaType::Css);
    assert_eq!(media_type(b"logo.Svg"), MediaType::Svg);
    assert_eq!(media_type(b"photo.jpeg"), MediaType::Jpeg);
    assert_eq!(media_type(b"README"), MediaType::Binary);
    assert_eq!(media_type(b"archive.tar.gz"), MediaType::Binary);
    assert_eq!(media_type(b"data.json"), MediaType::Json);
    assert_eq!(media_type(b"trailing."), MediaType::Binary);
    assert_eq!(media_type(b""), MediaType::Binary);
}
