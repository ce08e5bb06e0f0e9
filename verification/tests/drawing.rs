use certificate_manager::cert::Certificate;
use certificate_manager::ui::{cert_line, draw_panel, print_hint, print_prompt, print_toast, Segment, Tone};

fn cert(id: u32, name: &str, active: bool) -> Certificate {
    Certificate { id, name: name.to_string(), active }
}

fn text_of(row: &[Segment]) -> String {
    row.iter().map(|s| s.text.as_str()).collect::<Vec<_>>().concat()
}

fn width(row: &[Segment]) -> usize {
    row.iter().map(|s| s.text.chars().count()).sum()
}

#[test]
fn cert_line_format() {
    assert_eq!(cert_line(&cert(12, "my_cert.cer", true)), "[ACTIVE]-[12]-[my_cert.cer]");
    assert_eq!(cert_line(&cert(3, "corp.pem", false)), "[INACTIVE]-[3]-[corp.pem]");
    assert_eq!(cert_line(&cert(0, "", false)), "[INACTIVE]-[0]-[]");
}

#[test]
fn empty_panel_shows_placeholder() {
    let rows = draw_panel("CERTIFICATES", &Vec::new());
    let texts: Vec<String> = rows.iter().map(|r| text_of(r)).collect();
    assert_eq!(
        texts,
        vec![
            "┌─ CERTIFICATES ──────┐".to_string(),
            "│ no certificates yet │".to_string(),
            "└─────────────────────┘".to_string(),
        ]
    );
    for r in &rows {
        assert_eq!(width(r), 23);
    }
    assert_eq!(rows[1][1].tone, Tone::Dim);
    assert_eq!(rows[1][2].tone, Tone::Text);
}

#[test]
fn panel_fits_longest_line() {
    let lines = vec![
        Segment::new("[ACTIVE]-[12]-[a_rather_long_certificate_name.cer]".to_string(), Tone::Active),
        Segment::new("short".to_string(), Tone::Dim),
    ];
    let rows = draw_panel("SELECT A CERTIFICATE", &lines);
    assert_eq!(rows.len(), 4);
    let w = lines[0].text.chars().count();
    for r in &rows {
        assert_eq!(width(r), w + 4);
    }
    assert_eq!(text_of(&rows[2]), format!("│ short{} │", " ".repeat(w - 5)));
    assert_eq!(rows[1][1].tone, Tone::Active);
    assert_eq!(rows[2][1].tone, Tone::Dim);
}

#[test]
fn long_label_widens_panel() {
    let lines = vec![Segment::new("x".to_string(), Tone::Text)];
    let label = "A LABEL THAT IS LONGER THAN ANY LINE";
    let rows = draw_panel(label, &lines);
    let w = label.chars().count() + 2;
    assert_eq!(text_of(&rows[0]), format!("┌─ {} ─┐", label));
    for r in &rows {
        assert_eq!(width(r), w + 4);
    }
    assert_eq!(text_of(&rows[2]), format!("└{}┘", "─".repeat(w + 2)));
}

#[test]
fn prompt_hint_toast_segments() {
    let p = print_prompt("certificate-manager");
    assert_eq!(p[0].text, "$ ");
    assert_eq!(p[0].tone, Tone::Prompt);
    assert_eq!(p[1].text, "certificate-manager");
    let h = print_hint("ENTER continue");
    assert_eq!(h.len(), 1);
    assert_eq!((h[0].text.as_str(), h[0].tone), ("ENTER continue", Tone::Dim));
    let t = print_toast("REMOVED", "gone", true);
    assert_eq!((t[0].text.as_str(), t[0].tone), ("[REMOVED]", Tone::Danger));
    assert_eq!((t[1].text.as_str(), t[1].tone), (" gone", Tone::Text));
    let ok = print_toast("OK", "fine", false);
    assert_eq!(ok[0].tone, Tone::Active);
}
