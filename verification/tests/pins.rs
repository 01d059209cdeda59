use boa::pins::{is_label_pinned, pin_toggle, PinToggle, RegisteredProject};

fn project(path: &str, key: &str, label: &str, pinned: bool) -> RegisteredProject {
    RegisteredProject {
        path: path.to_string(),
        key: key.to_string(),
        label: label.to_string(),
        pinned,
    }
}

fn registry() -> Vec<RegisteredProject> {
    vec![
        project("~/src/app", "/home/u/src/app", "app", true),
        project("~/work/app", "/home/u/work/app", "app", false),
        project("~/src/lib", "/home/u/src/lib", "lib", false),
    ]
}

#[test]
fn header_with_sessions_is_judged_by_its_own_repo() {
    let r = registry();
    assert!(is_label_pinned(&r, "app", Some("/home/u/src/app")));
    assert!(!is_label_pinned(&r, "app", Some("/home/u/work/app")));
}

#[test]
fn empty_header_is_judged_by_label() {
    let r = registry();
    assert!(is_label_pinned(&r, "app", None));
    assert!(!is_label_pinned(&r, "lib", None));
}

#[test]
fn toggle_unpins_the_backing_project() {
    let r = registry();
    assert_eq!(
        pin_toggle(&r, "app", Some("/home/u/src/app")),
        PinToggle::Unpin("~/src/app".to_string())
    );
    assert_eq!(pin_toggle(&r, "app", None), PinToggle::Unpin("~/src/app".to_string()));
}

#[test]
fn toggle_pins_a_saved_project_or_saves_a_new_one() {
    let r = registry();
    assert_eq!(
        pin_toggle(&r, "app", Some("/home/u/work/app")),
        PinToggle::PinSaved("/home/u/work/app".to_string())
    );
    assert_eq!(
        pin_toggle(&r, "tool", Some("/home/u/src/tool")),
        PinToggle::RegisterPinned { label: "tool".to_string(), path: "/home/u/src/tool".to_string() }
    );
    assert_eq!(pin_toggle(&r, "lib", None), PinToggle::Nothing);
}
