use classroom_sync::room::{
    ControlInstruction, Delivery, GetStudentData, Leave, SendTextMessage, SessionIdentifier,
    SessionServer, SetStudentDoc, StudentJoin, TeacherJoin, UpdateStudentCode, WSResponse,
};

fn key() -> SessionIdentifier {
    SessionIdentifier {
        plan_name: "algebra".to_string(),
        session_name: "monday".to_string(),
        host: "alice".to_string(),
    }
}

fn texts(out: &[Delivery]) -> Vec<(u64, String)> {
    out.iter()
        .filter_map(|d| match &d.response {
            WSResponse::Msg(t) => Some((d.to, t.clone())),
            WSResponse::SetConnectedSession(_) => None,
        })
        .collect()
}

fn teacher(s: &mut SessionServer, name: &str, addr: u64) -> Vec<Delivery> {
    s.teacher_join(TeacherJoin { identifier: key(), addr, username: name.to_string() })
}

fn student(s: &mut SessionServer, name: &str, addr: u64) -> Vec<Delivery> {
    s.student_join(StudentJoin { identifier: key(), addr, username: name.to_string() })
}

fn instruct(s: &mut SessionServer, text: &str) -> Vec<Delivery> {
    s.control_instruction(ControlInstruction { instruction: text.to_string(), identifier: key() })
}

fn update(s: &SessionServer, name: &str, code: &str, addr: u64) -> Vec<Delivery> {
    s.update_student_code(UpdateStudentCode {
        identifier: key(),
        username: name.to_string(),
        code: code.to_string(),
        student_addr: addr,
    })
}

fn list(s: &SessionServer, caller: &str) -> Vec<String> {
    let mut r = s.get_student_data(GetStudentData { identifier: key(), username: caller.to_string() });
    r.sort();
    r
}

#[test]
fn teacher_join_binds_teacher() {
    let mut s = SessionServer::new();
    let out = teacher(&mut s, "alice", 1);
    assert_eq!(out.len(), 1);
    assert_eq!(out[0].to, 1);
    assert!(matches!(&out[0].response, WSResponse::SetConnectedSession(id) if *id == key()));
}

#[test]
fn teacher_then_student_lists_student() {
    let mut s = SessionServer::new();
    teacher(&mut s, "alice", 1);
    student(&mut s, "bob", 2);
    assert_eq!(list(&s, "alice"), vec!["bob".to_string()]);
}

#[test]
fn student_list_refused_to_others() {
    let mut s = SessionServer::new();
    teacher(&mut s, "alice", 1);
    student(&mut s, "bob", 2);
    assert!(list(&s, "mallory").is_empty());
}

#[test]
fn student_list_of_missing_room_is_empty() {
    let s = SessionServer::new();
    assert!(list(&s, "alice").is_empty());
}

#[test]
fn section_set_before_join_reaches_new_student() {
    let mut s = SessionServer::new();
    teacher(&mut s, "alice", 1);
    let out = instruct(&mut s, "setSection 3");
    assert!(out.is_empty());
    let out = student(&mut s, "bob", 2);
    assert_eq!(out.len(), 2);
    assert!(matches!(&out[0].response, WSResponse::SetConnectedSession(id) if *id == key()));
    assert_eq!(texts(&out), vec![(2, "sec 3".to_string())]);
}

#[test]
fn new_room_starts_at_section_zero() {
    let mut s = SessionServer::new();
    teacher(&mut s, "alice", 1);
    let out = student(&mut s, "bob", 2);
    assert_eq!(texts(&out), vec![(2, "sec 0".to_string())]);
}

#[test]
fn student_join_without_room_does_nothing() {
    let mut s = SessionServer::new();
    assert!(student(&mut s, "bob", 2).is_empty());
    teacher(&mut s, "alice", 1);
    assert!(list(&s, "alice").is_empty());
}

#[test]
fn set_section_broadcasts_to_students() {
    let mut s = SessionServer::new();
    teacher(&mut s, "alice", 1);
    student(&mut s, "bob", 2);
    student(&mut s, "carol", 3);
    let mut got = texts(&instruct(&mut s, "setSection 12"));
    got.sort();
    assert_eq!(got, vec![(2, "sec 12".to_string()), (3, "sec 12".to_string())]);
}

#[test]
fn malformed_instructions_are_dropped() {
    let mut s = SessionServer::new();
    teacher(&mut s, "alice", 1);
    student(&mut s, "bob", 2);
    assert!(instruct(&mut s, "setSection -1").is_empty());
    assert!(instruct(&mut s, "setSection 3 4").is_empty());
    assert!(instruct(&mut s, "setSection").is_empty());
    assert!(instruct(&mut s, "setSection 99999999999999999999999").is_empty());
    assert!(instruct(&mut s, "jump 3").is_empty());
    let out = student(&mut s, "bob", 2);
    assert_eq!(texts(&out), vec![(2, "sec 0".to_string())]);
}

#[test]
fn section_accepts_plus_sign() {
    let mut s = SessionServer::new();
    teacher(&mut s, "alice", 1);
    instruct(&mut s, "setSection +5");
    let out = student(&mut s, "bob", 2);
    assert_eq!(texts(&out), vec![(2, "sec 5".to_string())]);
}

#[test]
fn spotlight_routes_code() {
    let mut s = SessionServer::new();
    teacher(&mut s, "alice", 1);
    student(&mut s, "bob", 2);
    student(&mut s, "carol", 3);
    assert_eq!(texts(&instruct(&mut s, "subscribe bob")), vec![(2, "subscribe".to_string())]);
    assert_eq!(texts(&update(&s, "carol", "x = 1", 3)), vec![(3, "unsub".to_string())]);
    assert_eq!(texts(&update(&s, "bob", "x = 1", 2)), vec![(1, "sUpdate x = 1".to_string())]);
}

#[test]
fn doc_follows_spotlight() {
    let mut s = SessionServer::new();
    teacher(&mut s, "alice", 1);
    student(&mut s, "bob", 2);
    instruct(&mut s, "subscribe bob");
    let doc = |name: &str, addr: u64| {
        texts(&s.set_student_doc(SetStudentDoc {
            identifier: key(),
            username: name.to_string(),
            code: "print(1)".to_string(),
            student_addr: addr,
        }))
    };
    assert_eq!(doc("bob", 2), vec![(1, "sDoc print(1)".to_string())]);
    assert_eq!(doc("carol", 3), vec![(3, "unsub".to_string())]);
}

#[test]
fn switching_spotlight_unsubscribes_first() {
    let mut s = SessionServer::new();
    teacher(&mut s, "alice", 1);
    student(&mut s, "bob", 2);
    student(&mut s, "carol", 3);
    instruct(&mut s, "subscribe bob");
    assert_eq!(
        texts(&instruct(&mut s, "subscribe carol")),
        vec![(2, "unsub".to_string()), (3, "subscribe".to_string())]
    );
    assert_eq!(texts(&instruct(&mut s, "subscribe carol")), vec![(3, "subscribe".to_string())]);
}

#[test]
fn subscribe_unknown_student_is_ignored() {
    let mut s = SessionServer::new();
    teacher(&mut s, "alice", 1);
    student(&mut s, "bob", 2);
    assert!(instruct(&mut s, "subscribe dave").is_empty());
    assert_eq!(texts(&update(&s, "bob", "y", 2)), vec![(2, "unsub".to_string())]);
}

#[test]
fn leave_clears_spotlight() {
    let mut s = SessionServer::new();
    teacher(&mut s, "alice", 1);
    student(&mut s, "bob", 2);
    student(&mut s, "carol", 3);
    instruct(&mut s, "subscribe bob");
    s.leave(Leave { identifier: key(), addr: 2 });
    assert_eq!(texts(&update(&s, "bob", "z", 2)), vec![(2, "unsub".to_string())]);
    assert_eq!(texts(&update(&s, "carol", "z", 3)), vec![(3, "unsub".to_string())]);
    assert_eq!(list(&s, "alice"), vec!["carol".to_string()]);
}

#[test]
fn leave_of_unknown_handle_is_harmless() {
    let mut s = SessionServer::new();
    teacher(&mut s, "alice", 1);
    student(&mut s, "bob", 2);
    s.leave(Leave { identifier: key(), addr: 77 });
    s.leave(Leave { identifier: key(), addr: 77 });
    assert_eq!(list(&s, "alice"), vec!["bob".to_string()]);
}

#[test]
fn rejoin_replaces_name_and_handle() {
    let mut s = SessionServer::new();
    teacher(&mut s, "alice", 1);
    student(&mut s, "bob", 2);
    student(&mut s, "bob", 5);
    assert_eq!(list(&s, "alice"), vec!["bob".to_string()]);
    student(&mut s, "carol", 5);
    assert_eq!(list(&s, "alice"), vec!["carol".to_string()]);
}

#[test]
fn evicted_student_loses_spotlight() {
    let mut s = SessionServer::new();
    teacher(&mut s, "alice", 1);
    student(&mut s, "bob", 2);
    instruct(&mut s, "subscribe bob");
    student(&mut s, "carol", 2);
    assert_eq!(texts(&update(&s, "bob", "q", 2)), vec![(2, "unsub".to_string())]);
}

#[test]
fn teacher_rejoin_keeps_room() {
    let mut s = SessionServer::new();
    teacher(&mut s, "alice", 1);
    student(&mut s, "bob", 2);
    instruct(&mut s, "subscribe bob");
    teacher(&mut s, "alice", 9);
    assert_eq!(list(&s, "alice"), vec!["bob".to_string()]);
    assert_eq!(texts(&update(&s, "bob", "c", 2)), vec![(9, "sUpdate c".to_string())]);
}

#[test]
fn chat_reaches_students_then_teacher() {
    let mut s = SessionServer::new();
    teacher(&mut s, "alice", 1);
    student(&mut s, "bob", 2);
    let out = s.send_text_message_with_id(
        SendTextMessage {
            identifier: key(),
            username: "bob".to_string(),
            text: "say \"hi\"".to_string(),
        },
        "id-1",
    );
    let frame = "txtm {\"username\":\"bob\",\"uuid\":\"id-1\",\"text\":\"say \\\"hi\\\"\"}".to_string();
    assert_eq!(texts(&out), vec![(2, frame.clone()), (1, frame)]);
}

#[test]
fn chat_gets_fresh_ids() {
    let mut s = SessionServer::new();
    teacher(&mut s, "alice", 1);
    let msg = || SendTextMessage {
        identifier: key(),
        username: "alice".to_string(),
        text: "hello".to_string(),
    };
    let a = texts(&s.send_text_message(msg()));
    let b = texts(&s.send_text_message(msg()));
    assert_eq!(a.len(), 1);
    assert_eq!(a[0].0, 1);
    assert!(a[0].1.starts_with("txtm {\"username\":\"alice\",\"uuid\":\""));
    assert!(a[0].1.ends_with("\",\"text\":\"hello\"}"));
    assert_ne!(a[0].1, b[0].1);
}

#[test]
fn chat_in_missing_room_sends_nothing() {
    let s = SessionServer::new();
    let out = s.send_text_message_with_id(
        SendTextMessage { identifier: key(), username: "bob".to_string(), text: "x".to_string() },
        "id",
    );
    assert!(out.is_empty());
}
