use certificate_manager::cert::Certificate;
use certificate_manager::menu::{after_add, after_remove, after_toggle, step, Effect, KeyAction, State};
use certificate_manager::screen::render;
use certificate_manager::ui::Tone;

fn cert(id: u32, name: &str, active: bool) -> Certificate {
    Certificate { id, name: name.to_string(), active }
}

fn certs() -> Vec<Certificate> {
    vec![cert(1, "a.cer", false), cert(2, "b.crt", true), cert(3, "c.pem", false)]
}

fn is_main(s: &State) -> bool {
    matches!(s, State::Main)
}

fn toast_of(s: &State) -> (String, String, bool) {
    match s {
        State::Toast { tag, msg, danger } => (tag.clone(), msg.clone(), *danger),
        other => panic!("not a toast: {:?}", other),
    }
}

#[test]
fn main_cursor_wraps() {
    let cs = certs();
    let r = step(&State::Main, 0, &cs, KeyAction::Up);
    assert_eq!(r.cursor, 3);
    assert!(matches!(r.effect, Effect::Stay));
    let r = step(&State::Main, 3, &cs, KeyAction::Down);
    assert_eq!(r.cursor, 0);
    let mut c = 2;
    for _ in 0..4 {
        c = step(&State::Main, c, &cs, KeyAction::Down).cursor;
    }
    assert_eq!(c, 2);
    let down = step(&State::Main, 1, &cs, KeyAction::Down);
    assert_eq!(step(&down.state, down.cursor, &cs, KeyAction::Up).cursor, 1);
}

#[test]
fn main_options() {
    let cs = certs();
    assert!(matches!(step(&State::Main, 0, &cs, KeyAction::Enter).effect, Effect::Add));
    let r = step(&State::Main, 1, &cs, KeyAction::Enter);
    assert!(matches!(r.state, State::Select));
    assert_eq!(r.cursor, 0);
    let r = step(&State::Main, 2, &cs, KeyAction::Enter);
    assert!(matches!(r.state, State::RemoveSelect));
    assert!(matches!(step(&State::Main, 3, &cs, KeyAction::Enter).effect, Effect::Quit));
    assert!(matches!(step(&State::Main, 1, &cs, KeyAction::Char('q')).effect, Effect::Quit));
    assert!(matches!(step(&State::Main, 1, &cs, KeyAction::Char('Q')).effect, Effect::Quit));
    assert!(matches!(step(&State::Main, 1, &cs, KeyAction::Esc).effect, Effect::Quit));
    assert!(matches!(step(&State::Main, 1, &cs, KeyAction::Char('x')).effect, Effect::Stay));
    assert!(matches!(step(&State::Main, 1, &cs, KeyAction::Left).effect, Effect::Stay));
}

#[test]
fn select_moves_and_toggles() {
    let cs = certs();
    let r = step(&State::Select, 0, &cs, KeyAction::Up);
    assert_eq!(r.cursor, 2);
    let r = step(&State::Select, 2, &cs, KeyAction::Down);
    assert_eq!(r.cursor, 0);
    let back = step(&State::Select, 1, &cs, KeyAction::Down);
    assert_eq!(step(&back.state, back.cursor, &cs, KeyAction::Up).cursor, 1);
    match step(&State::Select, 1, &cs, KeyAction::Enter) {
        r => {
            assert_eq!(r.cursor, 0);
            match r.effect {
                Effect::Deactivate(c) => assert_eq!(c.id, 2),
                other => panic!("{:?}", other),
            }
        }
    }
    match step(&State::Select, 2, &cs, KeyAction::Enter).effect {
        Effect::Activate(c) => assert_eq!(c.id, 3),
        other => panic!("{:?}", other),
    }
    let r = step(&State::Select, 2, &cs, KeyAction::Esc);
    assert!(is_main(&r.state));
    assert_eq!(r.cursor, 0);
}

#[test]
fn empty_list_ignores_moves_and_enter() {
    let none: Vec<Certificate> = Vec::new();
    for key in [KeyAction::Up, KeyAction::Down, KeyAction::Enter] {
        let r = step(&State::Select, 0, &none, key);
        assert!(matches!(r.state, State::Select));
        assert_eq!(r.cursor, 0);
        assert!(matches!(r.effect, Effect::Stay));
        let r = step(&State::RemoveSelect, 0, &none, key);
        assert!(matches!(r.state, State::RemoveSelect));
        assert!(matches!(r.effect, Effect::Stay));
    }
}

#[test]
fn removal_asks_for_confirmation() {
    let cs = certs();
    let r = step(&State::RemoveSelect, 1, &cs, KeyAction::Enter);
    assert!(matches!(r.state, State::RemoveConfirm { cert_idx: 1, yes_selected: true }));
    assert!(matches!(r.effect, Effect::Stay));
    let r2 = step(&r.state, r.cursor, &cs, KeyAction::Left);
    assert!(matches!(r2.state, State::RemoveConfirm { cert_idx: 1, yes_selected: false }));
    let r3 = step(&r2.state, r2.cursor, &cs, KeyAction::Right);
    assert!(matches!(r3.state, State::RemoveConfirm { cert_idx: 1, yes_selected: true }));
    match step(&r3.state, r3.cursor, &cs, KeyAction::Enter) {
        r => {
            assert_eq!(r.cursor, 0);
            match r.effect {
                Effect::Remove(c) => assert_eq!(c.name, "b.crt"),
                other => panic!("{:?}", other),
            }
        }
    }
    let no = step(&r2.state, r2.cursor, &cs, KeyAction::Enter);
    assert!(matches!(no.effect, Effect::Stay));
    assert_eq!(
        toast_of(&no.state),
        ("CANCELLED".to_string(), "no changes made".to_string(), false)
    );
    let esc = step(&r3.state, r3.cursor, &cs, KeyAction::Esc);
    assert!(matches!(esc.effect, Effect::Stay));
    assert_eq!(toast_of(&esc.state).0, "CANCELLED");
}

#[test]
fn toast_returns_to_main() {
    let cs = certs();
    let t = State::Toast { tag: "OK".to_string(), msg: "m".to_string(), danger: false };
    let r = step(&t, 2, &cs, KeyAction::Enter);
    assert!(is_main(&r.state));
    assert_eq!(r.cursor, 0);
    let r = step(&t, 2, &cs, KeyAction::Esc);
    assert!(is_main(&r.state));
    let r = step(&t, 2, &cs, KeyAction::Up);
    assert_eq!(toast_of(&r.state).1, "m");
    assert_eq!(r.cursor, 2);
}

#[test]
fn outcome_messages() {
    assert_eq!(
        toast_of(&after_add(None)),
        ("CANCELLED".to_string(), "no file selected".to_string(), false)
    );
    assert_eq!(
        toast_of(&after_add(Some(Ok(cert(4, "d.cer", false))))),
        ("ADDED".to_string(), "[INACTIVE]-[4]-[d.cer] added".to_string(), false)
    );
    assert_eq!(
        toast_of(&after_add(Some(Err("file not found: /x".to_string())))),
        ("ERROR".to_string(), "file not found: /x".to_string(), true)
    );
    assert_eq!(
        toast_of(&after_toggle(&cert(2, "b.crt", true), Ok(()))),
        ("OK".to_string(), "[ACTIVE]-[2]-[b.crt] deactivated".to_string(), false)
    );
    assert_eq!(
        toast_of(&after_toggle(&cert(3, "c.pem", false), Ok(()))),
        ("OK".to_string(), "[INACTIVE]-[3]-[c.pem] activated".to_string(), false)
    );
    assert_eq!(
        toast_of(&after_toggle(&cert(3, "c.pem", false), Err("certificate id not found".to_string()))),
        ("ERROR".to_string(), "certificate id not found".to_string(), true)
    );
    assert_eq!(
        toast_of(&after_remove(Ok(cert(2, "b.crt", true)))),
        ("REMOVED".to_string(), "[ACTIVE]-[2]-[b.crt] permanently removed".to_string(), true)
    );
    assert_eq!(toast_of(&after_remove(Err("denied".to_string()))).2, true);
}

#[test]
fn main_screen() {
    let cs = certs();
    let s = render(&State::Main, 1, &cs);
    assert_eq!(s.prompt, "certificate-manager");
    assert_eq!(s.hint, "UP/DOWN navigate    ENTER select    Q quit");
    assert!(s.toast.is_none());
    assert_eq!(s.panels.len(), 2);
    assert_eq!(s.panels[0].label, "CERTIFICATES");
    let lines: Vec<(&str, Tone)> = s.panels[0].lines.iter().map(|l| (l.text.as_str(), l.tone)).collect();
    assert_eq!(
        lines,
        vec![
            ("[INACTIVE]-[1]-[a.cer]", Tone::Dim),
            ("[ACTIVE]-[2]-[b.crt]", Tone::Active),
            ("[INACTIVE]-[3]-[c.pem]", Tone::Dim)
        ]
    );
    let opts: Vec<(&str, Tone)> = s.panels[1].lines.iter().map(|l| (l.text.as_str(), l.tone)).collect();
    assert_eq!(
        opts,
        vec![("[ADD]", Tone::Text), ("[SELECT]", Tone::Active), ("[REMOVE]", Tone::Text), ("[QUIT]", Tone::Text)]
    );
}

#[test]
fn select_and_confirm_screens() {
    let cs = certs();
    let s = render(&State::Select, 0, &cs);
    assert_eq!(s.prompt, "certificate-manager select");
    assert_eq!(s.panels[0].label, "SELECT A CERTIFICATE");
    let tones: Vec<Tone> = s.panels[0].lines.iter().map(|l| l.tone).collect();
    assert_eq!(tones, vec![Tone::Active, Tone::Active, Tone::Dim]);
    assert_eq!(s.hint, "UP/DOWN navigate    ENTER toggle on/off    ESC back");
    let r = render(&State::RemoveSelect, 2, &cs);
    assert_eq!(r.prompt, "certificate-manager remove");
    assert_eq!(r.hint, "UP/DOWN navigate    ENTER select    ESC back");
    let c = render(&State::RemoveConfirm { cert_idx: 0, yes_selected: false }, 0, &cs);
    assert_eq!(c.panels.len(), 2);
    assert_eq!(c.panels[1].label, "CONFIRM REMOVAL");
    assert_eq!(
        c.panels[1].lines[0].text,
        "[INACTIVE]-[1]-[a.cer] will be permanently removed. This cannot be undone."
    );
    assert_eq!(c.panels[1].lines[0].tone, Tone::Warn);
    assert_eq!(c.panels[1].lines[1].text, "[YES, REMOVE]    > [NO, CANCEL]");
    assert_eq!(c.panels[1].lines[1].tone, Tone::Danger);
    assert_eq!(c.hint, "LEFT/RIGHT choose    ENTER confirm    ESC cancel");
    let y = render(&State::RemoveConfirm { cert_idx: 0, yes_selected: true }, 0, &cs);
    assert_eq!(y.panels[1].lines[1].text, "> [YES, REMOVE]    [NO, CANCEL]");
    let t = render(&State::Toast { tag: "OK".to_string(), msg: "m".to_string(), danger: false }, 0, &cs);
    assert_eq!(t.toast, Some(("OK".to_string(), "m".to_string(), false)));
    assert_eq!(t.hint, "ENTER continue");
    assert_eq!(t.panels.len(), 1);
}

#[test]
fn cursor_stays_in_range_while_walking() {
    let cs = certs();
    let keys = [
        KeyAction::Down, KeyAction::Down, KeyAction::Enter, KeyAction::Up, KeyAction::Up,
        KeyAction::Up, KeyAction::Down, KeyAction::Enter, KeyAction::Left, KeyAction::Esc,
        KeyAction::Enter, KeyAction::Up, KeyAction::Enter, KeyAction::Down, KeyAction::Enter,
    ];
    let mut state = State::Main;
    let mut cursor = 0usize;
    for key in keys {
        let r = step(&state, cursor, &cs, key);
        cursor = r.cursor;
        state = r.state;
        match &state {
            State::Main => assert!(cursor < 4),
            State::Select | State::RemoveSelect => assert!(cursor < cs.len()),
            State::RemoveConfirm { cert_idx, .. } => assert!(*cert_idx < cs.len()),
            State::Toast { .. } => {}
        }
    }
}
