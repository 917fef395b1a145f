use classroom_sync::pairing::{render_code, GetCode, GetTeacher, TeacherCodeManager};

fn ask(m: &mut TeacherCodeManager, name: &str) -> String {
    m.get_code(GetCode { username: name.to_string() })
}

fn resolve(m: &TeacherCodeManager, code: &str) -> Option<String> {
    m.get_teacher(GetTeacher { code: code.to_string() })
}

#[test]
fn code_is_stable_and_resolves() {
    let mut m = TeacherCodeManager::new();
    let a = ask(&mut m, "alice");
    let b = ask(&mut m, "alice");
    assert_eq!(a, b);
    assert_eq!(resolve(&m, &a), Some("alice".to_string()));
}

#[test]
fn unissued_code_resolves_to_nothing() {
    let mut m = TeacherCodeManager::new();
    assert_eq!(resolve(&m, "123456"), None);
    let a = ask(&mut m, "alice");
    let other = if a == "000001" { "000002" } else { "000001" };
    assert_eq!(resolve(&m, other), None);
}

#[test]
fn drawn_codes_have_six_digits() {
    let mut m = TeacherCodeManager::new();
    for name in ["a", "b", "c", "d", "e"] {
        let code = ask(&mut m, name);
        assert_eq!(code.len(), 6);
        assert!(code.chars().all(|c| c.is_ascii_digit()));
        let n: u32 = code.parse().unwrap();
        assert!((1..999999).contains(&n));
    }
}

#[test]
fn code_renders_zero_padded() {
    assert_eq!(render_code(42), "000042");
    assert_eq!(render_code(1), "000001");
    assert_eq!(render_code(999998), "999998");
    assert_eq!(render_code(123456), "123456");
}

#[test]
fn code_from_drawn_number() {
    let mut m = TeacherCodeManager::new();
    let c = m.get_code_with(GetCode { username: "alice".to_string() }, 42);
    assert_eq!(c, "000042");
    let again = m.get_code_with(GetCode { username: "alice".to_string() }, 7);
    assert_eq!(again, "000042");
    assert_eq!(resolve(&m, "000042"), Some("alice".to_string()));
}

#[test]
fn colliding_code_passes_to_new_teacher() {
    let mut m = TeacherCodeManager::new();
    m.get_code_with(GetCode { username: "alice".to_string() }, 42);
    let c = m.get_code_with(GetCode { username: "bob".to_string() }, 42);
    assert_eq!(c, "000042");
    assert_eq!(resolve(&m, "000042"), Some("bob".to_string()));
    let fresh = m.get_code_with(GetCode { username: "alice".to_string() }, 43);
    assert_eq!(fresh, "000043");
}
