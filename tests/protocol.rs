use classroom_sync::element::ElementType;
use classroom_sync::error::{render_int, CodeHarmonyResponseError};
use classroom_sync::room::{SessionIdentifier, WSResponse};
use classroom_sync::session::{parse_room_key, Request, WsClientSession};
use classroom_sync::text::{parse_usize, render_decimal, split_two_words};

fn bound() -> WsClientSession {
    let mut s = WsClientSession::new("bob".to_string());
    s.on_response(WSResponse::SetConnectedSession(SessionIdentifier {
        plan_name: "p".to_string(),
        session_name: "s".to_string(),
        host: "h".to_string(),
    }));
    s
}

#[test]
fn join_frames_parse_room_key() {
    let s = WsClientSession::new("bob".to_string());
    match s.on_text("tJoin plan:sess:host:extra", 4) {
        Some(Request::TeacherJoin(j)) => {
            assert_eq!(j.identifier.plan_name, "plan");
            assert_eq!(j.identifier.session_name, "sess");
            assert_eq!(j.identifier.host, "host:extra");
            assert_eq!(j.addr, 4);
            assert_eq!(j.username, "bob");
        }
        _ => panic!("expected a teacher join"),
    }
    assert!(matches!(s.on_text("sJoin a:b:c", 4), Some(Request::StudentJoin(_))));
    assert!(s.on_text("sJoin a:b", 4).is_none());
}

#[test]
fn frames_without_space_or_verb_are_dropped() {
    let s = bound();
    assert!(s.on_text("tJoin", 1).is_none());
    assert!(s.on_text("hello world", 1).is_none());
    assert!(s.on_text("averyverylongverb x", 1).is_none());
    assert!(s.on_text("", 1).is_none());
}

#[test]
fn room_scoped_frames_need_a_room() {
    let s = WsClientSession::new("bob".to_string());
    assert!(s.on_text("tInst setSection 1", 1).is_none());
    assert!(s.on_text("sUpdate code", 1).is_none());
    assert!(s.on_text("sDoc code", 1).is_none());
    assert!(s.on_text("txtm hi", 1).is_none());
    let b = bound();
    match b.on_text("tInst setSection 1", 1) {
        Some(Request::ControlInstruction(c)) => assert_eq!(c.instruction, "setSection 1"),
        _ => panic!("expected an instruction"),
    }
    match b.on_text("sUpdate a b c", 6) {
        Some(Request::UpdateStudentCode(u)) => {
            assert_eq!(u.code, "a b c");
            assert_eq!(u.student_addr, 6);
            assert_eq!(u.username, "bob");
        }
        _ => panic!("expected code"),
    }
    assert!(matches!(b.on_text("sDoc x", 6), Some(Request::SetStudentDoc(_))));
    assert!(matches!(b.on_text("txtm hi there", 6), Some(Request::SendTextMessage(_))));
}

#[test]
fn responses_write_text_or_bind() {
    let mut s = WsClientSession::new("bob".to_string());
    assert!(s.on_stopped(3).is_none());
    assert_eq!(s.on_response(WSResponse::Msg("sec 2".to_string())), Some("sec 2".to_string()));
    let id = SessionIdentifier {
        plan_name: "p".to_string(),
        session_name: "s".to_string(),
        host: "h".to_string(),
    };
    assert_eq!(s.on_response(WSResponse::SetConnectedSession(id.clone())), None);
    assert_eq!(s.connected_session, Some(id.clone()));
    let leave = s.on_stopped(3).unwrap();
    assert_eq!(leave.identifier, id);
    assert_eq!(leave.addr, 3);
}

#[test]
fn room_key_needs_three_fields() {
    assert!(parse_room_key("a:b").is_none());
    assert!(parse_room_key("ab").is_none());
    let k = parse_room_key("::").unwrap();
    assert_eq!((k.plan_name.as_str(), k.session_name.as_str(), k.host.as_str()), ("", "", ""));
}

#[test]
fn numbers_parse_like_std() {
    assert_eq!(parse_usize("0"), Some(0));
    assert_eq!(parse_usize("+7"), Some(7));
    assert_eq!(parse_usize("007"), Some(7));
    assert_eq!(parse_usize("18446744073709551615"), Some(usize::MAX));
    assert_eq!(parse_usize("18446744073709551616"), None);
    assert_eq!(parse_usize(""), None);
    assert_eq!(parse_usize("+"), None);
    assert_eq!(parse_usize("-1"), None);
    assert_eq!(parse_usize("1a"), None);
}

#[test]
fn numbers_render_in_decimal() {
    assert_eq!(render_decimal(0), "0");
    assert_eq!(render_decimal(1234567890), "1234567890");
    assert_eq!(render_int(-45), "-45");
    assert_eq!(render_int(i32::MIN), "-2147483648");
}

#[test]
fn two_words_need_one_separator() {
    assert_eq!(split_two_words("a b", ' '), Some(("a".to_string(), "b".to_string())));
    assert_eq!(split_two_words("subscribe ", ' '), Some(("subscribe".to_string(), String::new())));
    assert_eq!(split_two_words("a b c", ' '), None);
    assert_eq!(split_two_words("ab", ' '), None);
}

#[test]
fn element_types_by_name() {
    assert_eq!(ElementType::from_string("h1"), Ok(ElementType::h1));
    assert_eq!(ElementType::from_string("p"), Ok(ElementType::p));
    assert_eq!(ElementType::from_string("img"), Ok(ElementType::img));
    assert_eq!(ElementType::from_string("div"), Err("Invalid element type"));
}

#[test]
fn errors_map_to_status_and_body() {
    let e = CodeHarmonyResponseError::BadRequest(0, "Teacher already added".to_string());
    assert_eq!(e.status_code(), 400);
    assert_eq!(e.message(), "{\"errcode\": 0, \"msg\": \"Teacher already added\"}");
    assert_eq!(CodeHarmonyResponseError::NotLoggedIn.status_code(), 401);
    assert_eq!(
        CodeHarmonyResponseError::NotLoggedIn.message(),
        "{\"errcode\":401, \"msg\": \"Not logged in \"}"
    );
    let i = CodeHarmonyResponseError::InternalError(-3, "Invalid code".to_string());
    assert_eq!(i.status_code(), 500);
    assert_eq!(i.message(), "{\"errcode\": -3, \"msg\": \"Invalid code\"}");
    assert_eq!(CodeHarmonyResponseError::DatabaseConnection.status_code(), 500);
    assert_eq!(CodeHarmonyResponseError::RedisConnection.status_code(), 500);
    assert_eq!(CodeHarmonyResponseError::DatabaseQueryFailed.status_code(), 500);
    assert_eq!(CodeHarmonyResponseError::CouldntParseRows.status_code(), 500);
    assert_eq!(
        CodeHarmonyResponseError::CouldntParseRows.message(),
        "{\"errcode\":901, \"msg\": \"Couldn't parse rows\"}"
    );
}
