//! What the menu shows in each state: the prompt, the panels and their coloured lines,
//! the toast and the key hint.

use vstd::prelude::*;

use crate::cert::{cert_views, CertView, Certificate};
use crate::menu::{step_spec, EffectView, KeyAction, State, StateView};
use crate::ui::{cert_line, cert_line_text, seg, seg_views, Segment, SegmentView, Tone};

verus! {

/// A boxed panel: its label and its lines.
#[derive(Debug)]
pub struct Panel {
    pub label: String,
    pub lines: Vec<Segment>,
}

/// What a panel is, as the contracts speak of it.
pub struct PanelView {
    pub label: Seq<char>,
    pub lines: Seq<SegmentView>,
}

impl View for Panel {
    type V = PanelView;

    open spec fn view(&self) -> PanelView {
        PanelView { label: self.label@, lines: seg_views(self.lines@) }
    }
}

/// One full screen, drawn top to bottom: prompt, panels, toast (if any), hint.
#[derive(Debug)]
pub struct Screen {
    pub prompt: String,
    pub panels: Vec<Panel>,
    pub toast: Option<(String, String, bool)>,
    pub hint: String,
}

/// What a screen is, as the contracts speak of it.
pub struct ScreenView {
    pub prompt: Seq<char>,
    pub panels: Seq<PanelView>,
    pub toast: Option<(Seq<char>, Seq<char>, bool)>,
    pub hint: Seq<char>,
}

impl View for Screen {
    type V = ScreenView;

    open spec fn view(&self) -> ScreenView {
        ScreenView {
            prompt: self.prompt@,
            panels: self.panels@.map_values(|p: Panel| p@),
            toast: match self.toast {
                Some((t, m, d)) => Some((t@, m@, d)),
                None => None,
            },
            hint: self.hint@,
        }
    }
}

/// The certificate rows, active ones highlighted.
pub open spec fn plain_lines(certs: Seq<CertView>) -> Seq<SegmentView> {
    Seq::new(
        certs.len(),
        |i: int|
            seg(
                cert_line_text(certs[i]),
                if certs[i].active {
                    Tone::Active
                } else {
                    Tone::Dim
                },
            ),
    )
}

/// The certificate rows, the one under the cursor and active ones highlighted.
pub open spec fn cursor_lines(certs: Seq<CertView>, cursor: usize) -> Seq<SegmentView> {
    Seq::new(
        certs.len(),
        |i: int|
            seg(
                cert_line_text(certs[i]),
                if i == cursor || certs[i].active {
                    Tone::Active
                } else {
                    Tone::Dim
                },
            ),
    )
}

/// The name of option `i` of the main menu.
pub open spec fn option_name(i: int) -> Seq<char> {
    if i == 0 {
        "ADD"@
    } else if i == 1 {
        "SELECT"@
    } else if i == 2 {
        "REMOVE"@
    } else {
        "QUIT"@
    }
}

/// The four options of the main menu, the one under the cursor highlighted.
pub open spec fn option_lines(cursor: usize) -> Seq<SegmentView> {
    Seq::new(
        4,
        |i: int|
            seg(
                "["@ + option_name(i) + "]"@,
                if i == cursor {
                    Tone::Active
                } else {
                    Tone::Text
                },
            ),
    )
}

/// The two choices of the removal confirmation, the chosen one marked.
pub open spec fn confirm_choice(yes_selected: bool) -> Seq<char> {
    if yes_selected {
        "> [YES, REMOVE]    [NO, CANCEL]"@
    } else {
        "[YES, REMOVE]    > [NO, CANCEL]"@
    }
}

/// The lines of the removal confirmation for `target`.
pub open spec fn confirm_lines(target: CertView, yes_selected: bool) -> Seq<SegmentView> {
    seq![
        seg(cert_line_text(target) + " will be permanently removed. This cannot be undone."@, Tone::Warn),
        seg(confirm_choice(yes_selected), Tone::Danger),
    ]
}

/// A panel, as a value of the contracts.
pub open spec fn panel(label: Seq<char>, lines: Seq<SegmentView>) -> PanelView {
    PanelView { label, lines }
}

/// What the menu shows in state `s` with the cursor at `cursor` over `certs`.
pub open spec fn screen_spec(s: StateView, cursor: usize, certs: Seq<CertView>) -> ScreenView {
    match s {
        StateView::Main => ScreenView {
            prompt: "certificate-manager"@,
            panels: seq![
                panel("CERTIFICATES"@, plain_lines(certs)),
                panel("OPTIONS"@, option_lines(cursor)),
            ],
            toast: None,
            hint: "UP/DOWN navigate    ENTER select    Q quit"@,
        },
        StateView::Select => ScreenView {
            prompt: "certificate-manager select"@,
            panels: seq![panel("SELECT A CERTIFICATE"@, cursor_lines(certs, cursor))],
            toast: None,
            hint: "UP/DOWN navigate    ENTER toggle on/off    ESC back"@,
        },
        StateView::RemoveSelect => ScreenView {
            prompt: "certificate-manager remove"@,
            panels: seq![panel("REMOVE A CERTIFICATE"@, cursor_lines(certs, cursor))],
            toast: None,
            hint: "UP/DOWN navigate    ENTER select    ESC back"@,
        },
        StateView::RemoveConfirm { cert_idx, yes_selected } => ScreenView {
            prompt: "certificate-manager remove"@,
            panels: seq![
                panel("REMOVE A CERTIFICATE"@, plain_lines(certs)),
                panel("CONFIRM REMOVAL"@, confirm_lines(certs[cert_idx as int], yes_selected)),
            ],
            toast: None,
            hint: "LEFT/RIGHT choose    ENTER confirm    ESC cancel"@,
        },
        StateView::Toast { tag, msg, danger } => ScreenView {
            prompt: "certificate-manager"@,
            panels: seq![panel("CERTIFICATES"@, plain_lines(certs))],
            toast: Some((tag, msg, danger)),
            hint: "ENTER continue"@,
        },
    }
}

fn certificate_lines(certs: &Vec<Certificate>, cursor: Option<usize>) -> (lines: Vec<Segment>)
    ensures
        seg_views(lines@) == match cursor {
            Some(c) => cursor_lines(cert_views(certs@), c),
            None => plain_lines(cert_views(certs@)),
        },
{
    let ghost cv = cert_views(certs@);
    let ghost want = match cursor {
        Some(c) => cursor_lines(cv, c),
        None => plain_lines(cv),
    };
    let n = certs.len();
    let mut lines: Vec<Segment> = Vec::new();
    let mut i: usize = 0;
    while i < n
        invariant
            n == certs@.len(),
            cv == cert_views(certs@),
            want == (match cursor {
                Some(c) => cursor_lines(cv, c),
                None => plain_lines(cv),
            }),
            i <= n,
            lines@.len() == i,
            forall|k: int| 0 <= k < i ==> #[trigger] lines@[k]@ == want[k],
        decreases n - i,
    {
        let c = &certs[i];
        let highlighted = match cursor {
            Some(at) => i == at || c.active,
            None => c.active,
        };
        let tone = if highlighted {
            Tone::Active
        } else {
            Tone::Dim
        };
        lines.push(Segment::new(cert_line(c), tone));
        i = i + 1;
    }
    assert(seg_views(lines@) =~= want);
    lines
}

fn option_line(name: &str, at: bool) -> (s: Segment)
    ensures
        s@ == seg(
            "["@ + name@ + "]"@,
            if at {
                Tone::Active
            } else {
                Tone::Text
            },
        ),
{
    let mut text = String::from_str("[");
    text.append(name);
    text.append("]");
    Segment::new(
        text,
        if at {
            Tone::Active
        } else {
            Tone::Text
        },
    )
}

fn main_options(cursor: usize) -> (lines: Vec<Segment>)
    ensures
        seg_views(lines@) == option_lines(cursor),
{
    let mut lines: Vec<Segment> = Vec::new();
    lines.push(option_line("ADD", cursor == 0));
    lines.push(option_line("SELECT", cursor == 1));
    lines.push(option_line("REMOVE", cursor == 2));
    lines.push(option_line("QUIT", cursor == 3));
    assert(seg_views(lines@) =~= option_lines(cursor));
    lines
}

fn make_panel(label: &str, lines: Vec<Segment>) -> (p: Panel)
    ensures
        p@ == panel(label@, seg_views(lines@)),
{
    Panel { label: String::from_str(label), lines }
}

/// What the menu shows in `state` with the cursor at `cursor`, `certs` being the
/// certificates as listed.
pub fn render(state: &State, cursor: usize, certs: &Vec<Certificate>) -> (screen: Screen)
    requires
        state@ matches StateView::RemoveConfirm { cert_idx, .. } ==> cert_idx < certs@.len(),
    ensures
        screen@ == screen_spec(state@, cursor, cert_views(certs@)),
{
    let ghost cv = cert_views(certs@);
    let mut panels: Vec<Panel> = Vec::new();
    match state {
        State::Main => {
            panels.push(make_panel("CERTIFICATES", certificate_lines(certs, None)));
            panels.push(make_panel("OPTIONS", main_options(cursor)));
            let screen = Screen {
                prompt: String::from_str("certificate-manager"),
                panels,
                toast: None,
                hint: String::from_str("UP/DOWN navigate    ENTER select    Q quit"),
            };
            assert(screen@.panels =~= screen_spec(state@, cursor, cv).panels);
            screen
        },
        State::Select => {
            panels.push(make_panel("SELECT A CERTIFICATE", certificate_lines(certs, Some(cursor))));
            let screen = Screen {
                prompt: String::from_str("certificate-manager select"),
                panels,
                toast: None,
                hint: String::from_str("UP/DOWN navigate    ENTER toggle on/off    ESC back"),
            };
            assert(screen@.panels =~= screen_spec(state@, cursor, cv).panels);
            screen
        },
        State::RemoveSelect => {
            panels.push(make_panel("REMOVE A CERTIFICATE", certificate_lines(certs, Some(cursor))));
            let screen = Screen {
                prompt: String::from_str("certificate-manager remove"),
                panels,
                toast: None,
                hint: String::from_str("UP/DOWN navigate    ENTER select    ESC back"),
            };
            assert(screen@.panels =~= screen_spec(state@, cursor, cv).panels);
            screen
        },
        State::RemoveConfirm { cert_idx, yes_selected } => {
            panels.push(make_panel("REMOVE A CERTIFICATE", certificate_lines(certs, None)));
            let mut warn = cert_line(&certs[*cert_idx]);
            warn.append(" will be permanently removed. This cannot be undone.");
            let choice = if *yes_selected {
                String::from_str("> [YES, REMOVE]    [NO, CANCEL]")
            } else {
                String::from_str("[YES, REMOVE]    > [NO, CANCEL]")
            };
            let mut confirm: Vec<Segment> = Vec::new();
            confirm.push(Segment::new(warn, Tone::Warn));
            confirm.push(Segment::new(choice, Tone::Danger));
            assert(seg_views(confirm@) =~= confirm_lines(cv[*cert_idx as int], *yes_selected));
            panels.push(make_panel("CONFIRM REMOVAL", confirm));
            let screen = Screen {
                prompt: String::from_str("certificate-manager remove"),
                panels,
                toast: None,
                hint: String::from_str("LEFT/RIGHT choose    ENTER confirm    ESC cancel"),
            };
            assert(screen@.panels =~= screen_spec(state@, cursor, cv).panels);
            screen
        },
        State::Toast { tag, msg, danger } => {
            panels.push(make_panel("CERTIFICATES", certificate_lines(certs, None)));
            let screen = Screen {
                prompt: String::from_str("certificate-manager"),
                panels,
                toast: Some((tag.clone(), msg.clone(), *danger)),
                hint: String::from_str("ENTER continue"),
            };
            assert(screen@.panels =~= screen_spec(state@, cursor, cv).panels);
            screen
        },
    }
}

/// The removal confirmation warns about the certificate that ENTER on YES removes: its
/// second panel, CONFIRM REMOVAL, opens with that certificate's row and the warning, in
/// the warning colour, followed by the two choices with the chosen one marked.
pub proof fn law_confirm_names_removed(idx: usize, yes: bool, cursor: usize, certs: Seq<CertView>)
    requires
        idx < certs.len(),
    ensures
        ({
            let screen = screen_spec(StateView::RemoveConfirm { cert_idx: idx, yes_selected: yes }, cursor, certs);
            let removed = step_spec(
                StateView::RemoveConfirm { cert_idx: idx, yes_selected: true },
                cursor,
                certs,
                KeyAction::Enter,
            ).2;
            &&& removed == EffectView::Remove(certs[idx as int])
            &&& screen.panels.len() == 2
            &&& screen.panels[1].label == "CONFIRM REMOVAL"@
            &&& screen.panels[1].lines.len() == 2
            &&& screen.panels[1].lines[0] == seg(
                cert_line_text(certs[idx as int]) + " will be permanently removed. This cannot be undone."@,
                Tone::Warn,
            )
            &&& screen.panels[1].lines[1] == seg(
                if yes {
                    "> [YES, REMOVE]    [NO, CANCEL]"@
                } else {
                    "[YES, REMOVE]    > [NO, CANCEL]"@
                },
                Tone::Danger,
            )
        }),
{
}

/// Every screen but the lists shows all certificates, one row each in order, active ones
/// highlighted; the two lists show them the same way and highlight the row under the
/// cursor too, which is the row ENTER acts on.
pub proof fn law_screens_list_certificates(s: StateView, cursor: usize, certs: Seq<CertView>)
    requires
        s matches StateView::RemoveConfirm { cert_idx, .. } ==> cert_idx < certs.len(),
    ensures
        screen_spec(s, cursor, certs).panels.len() >= 1,
        screen_spec(s, cursor, certs).panels[0].lines.len() == certs.len(),
        forall|i: int|
            0 <= i < certs.len() ==> #[trigger] screen_spec(s, cursor, certs).panels[0].lines[i].text
                == cert_line_text(certs[i]),
        forall|i: int|
            0 <= i < certs.len() ==> (#[trigger] screen_spec(s, cursor, certs).panels[0].lines[i].tone
                == Tone::Active <==> (certs[i].active || ((s == StateView::Select || s
                == StateView::RemoveSelect) && i == cursor))),
        forall|i: int|
            0 <= i < certs.len() ==> (#[trigger] screen_spec(s, cursor, certs).panels[0].lines[i].tone
                == Tone::Active || screen_spec(s, cursor, certs).panels[0].lines[i].tone == Tone::Dim),
{
}

/// The main menu lists the certificates, then the four options ADD, SELECT, REMOVE and
/// QUIT in brackets, only the one under the cursor highlighted.
pub proof fn law_main_screen(cursor: usize, certs: Seq<CertView>)
    ensures
        ({
            let screen = screen_spec(StateView::Main, cursor, certs);
            &&& screen.prompt == "certificate-manager"@
            &&& screen.panels.len() == 2
            &&& screen.panels[0].label == "CERTIFICATES"@
            &&& screen.panels[1].label == "OPTIONS"@
            &&& screen.panels[1].lines.len() == 4
            &&& screen.panels[1].lines[0].text == "[ADD]"@
            &&& screen.panels[1].lines[1].text == "[SELECT]"@
            &&& screen.panels[1].lines[2].text == "[REMOVE]"@
            &&& screen.panels[1].lines[3].text == "[QUIT]"@
            &&& forall|i: int|
                0 <= i < 4 ==> (#[trigger] screen.panels[1].lines[i].tone == Tone::Active <==> i == cursor)
            &&& forall|i: int|
                0 <= i < 4 && i != cursor ==> #[trigger] screen.panels[1].lines[i].tone == Tone::Text
            &&& screen.toast is None
        }),
{
    reveal_strlit("[");
    reveal_strlit("]");
    reveal_strlit("ADD");
    reveal_strlit("SELECT");
    reveal_strlit("REMOVE");
    reveal_strlit("QUIT");
    reveal_strlit("[ADD]");
    reveal_strlit("[SELECT]");
    reveal_strlit("[REMOVE]");
    reveal_strlit("[QUIT]");
    let screen = screen_spec(StateView::Main, cursor, certs);
    assert(screen.panels[1].lines[0].text =~= "[ADD]"@);
    assert(screen.panels[1].lines[1].text =~= "[SELECT]"@);
    assert(screen.panels[1].lines[2].text =~= "[REMOVE]"@);
    assert(screen.panels[1].lines[3].text =~= "[QUIT]"@);
}

/// A message screen lists the certificates and shows the message as it is.
pub proof fn law_toast_screen(tag: Seq<char>, msg: Seq<char>, danger: bool, cursor: usize, certs: Seq<CertView>)
    ensures
        screen_spec(StateView::Toast { tag, msg, danger }, cursor, certs).toast == Some((tag, msg, danger)),
        screen_spec(StateView::Toast { tag, msg, danger }, cursor, certs).panels.len() == 1,
        screen_spec(StateView::Toast { tag, msg, danger }, cursor, certs).hint == "ENTER continue"@,
{
}

} // verus!
