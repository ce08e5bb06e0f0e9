//! The interactive menu as a state machine: what each key does in each screen, what the
//! screen shows, and which state follows the outcome of outside work (adding, toggling or
//! removing a certificate). Reading keys, drawing and the outside work itself are left to
//! the caller.

use vstd::prelude::*;

use crate::cert::{cert_views, CertView, Certificate};
use crate::ui::{cert_line, cert_line_text};

verus! {

/// A key press, as the menu reads it.
#[derive(Debug, Clone, Copy, PartialEq, Eq, Structural)]
pub enum KeyAction {
    Up,
    Down,
    Left,
    Right,
    Enter,
    Esc,
    Char(char),
    Other,
}

/// The screen the menu is on.
#[derive(Debug)]
pub enum State {
    /// The list of certificates and the four options.
    Main,
    /// Choosing a certificate to toggle on or off.
    Select,
    /// Choosing a certificate to remove.
    RemoveSelect,
    /// Confirming the removal of the certificate at position `cert_idx`.
    RemoveConfirm { cert_idx: usize, yes_selected: bool },
    /// A message about what just happened.
    Toast { tag: String, msg: String, danger: bool },
}

/// What a state is, as the contracts speak of it.
pub enum StateView {
    Main,
    Select,
    RemoveSelect,
    RemoveConfirm { cert_idx: usize, yes_selected: bool },
    Toast { tag: Seq<char>, msg: Seq<char>, danger: bool },
}

impl View for State {
    type V = StateView;

    open spec fn view(&self) -> StateView {
        match self {
            State::Main => StateView::Main,
            State::Select => StateView::Select,
            State::RemoveSelect => StateView::RemoveSelect,
            State::RemoveConfirm { cert_idx, yes_selected } => StateView::RemoveConfirm {
                cert_idx: *cert_idx,
                yes_selected: *yes_selected,
            },
            State::Toast { tag, msg, danger } => StateView::Toast {
                tag: tag@,
                msg: msg@,
                danger: *danger,
            },
        }
    }
}

impl State {
    /// A copy of this state.
    pub fn copy(&self) -> (s: State)
        ensures
            s@ == self@,
    {
        match self {
            State::Main => State::Main,
            State::Select => State::Select,
            State::RemoveSelect => State::RemoveSelect,
            State::RemoveConfirm { cert_idx, yes_selected } => State::RemoveConfirm {
                cert_idx: *cert_idx,
                yes_selected: *yes_selected,
            },
            State::Toast { tag, msg, danger } => State::Toast {
                tag: tag.clone(),
                msg: msg.clone(),
                danger: *danger,
            },
        }
    }
}

/// The outside work a key press asks for.
#[derive(Debug)]
pub enum Effect {
    /// Nothing: go on with the returned state.
    Stay,
    /// Leave the menu.
    Quit,
    /// Pick a file and add it.
    Add,
    /// Deactivate this (active) certificate.
    Deactivate(Certificate),
    /// Activate this (inactive) certificate.
    Activate(Certificate),
    /// Remove this certificate for good.
    Remove(Certificate),
}

/// What an effect is, as the contracts speak of it.
pub enum EffectView {
    Stay,
    Quit,
    Add,
    Deactivate(CertView),
    Activate(CertView),
    Remove(CertView),
}

impl View for Effect {
    type V = EffectView;

    open spec fn view(&self) -> EffectView {
        match self {
            Effect::Stay => EffectView::Stay,
            Effect::Quit => EffectView::Quit,
            Effect::Add => EffectView::Add,
            Effect::Deactivate(c) => EffectView::Deactivate(c@),
            Effect::Activate(c) => EffectView::Activate(c@),
            Effect::Remove(c) => EffectView::Remove(c@),
        }
    }
}

/// The state, cursor and outside work that follow a key press. Where the effect is
/// outside work, the state is the one before it; the state to go on with follows from
/// its outcome (`after_add`, `after_toggle`, `after_remove`).
pub struct Step {
    pub state: State,
    pub cursor: usize,
    pub effect: Effect,
}

/// The message shown when a removal is called off.
pub open spec fn cancelled(msg: Seq<char>) -> StateView {
    StateView::Toast { tag: "CANCELLED"@, msg, danger: false }
}

/// The cursor in a list of `n` entries after moving up.
pub open spec fn list_up(cursor: usize, n: nat) -> usize {
    ((cursor + n - 1) % (n as int)) as usize
}

/// The cursor in a list of `n` entries after moving down.
pub open spec fn list_down(cursor: usize, n: nat) -> usize {
    ((cursor + 1) % (n as int)) as usize
}

/// What a key press does: the next state, the next cursor, and the outside work to do.
pub open spec fn step_spec(s: StateView, cursor: usize, certs: Seq<CertView>, key: KeyAction) -> (
    StateView,
    usize,
    EffectView,
) {
    let n = certs.len();
    match s {
        StateView::Main => match key {
            KeyAction::Up => (s, ((cursor + 3) % 4) as usize, EffectView::Stay),
            KeyAction::Down => (s, ((cursor + 1) % 4) as usize, EffectView::Stay),
            KeyAction::Char(c) => if c == 'q' || c == 'Q' {
                (s, cursor, EffectView::Quit)
            } else {
                (s, cursor, EffectView::Stay)
            },
            KeyAction::Enter => if cursor == 0 {
                (s, cursor, EffectView::Add)
            } else if cursor == 1 {
                (StateView::Select, 0, EffectView::Stay)
            } else if cursor == 2 {
                (StateView::RemoveSelect, 0, EffectView::Stay)
            } else if cursor == 3 {
                (s, cursor, EffectView::Quit)
            } else {
                (s, cursor, EffectView::Stay)
            },
            KeyAction::Esc => (s, cursor, EffectView::Quit),
            _ => (s, cursor, EffectView::Stay),
        },
        StateView::Select => match key {
            KeyAction::Up => if n > 0 {
                (s, list_up(cursor, n), EffectView::Stay)
            } else {
                (s, cursor, EffectView::Stay)
            },
            KeyAction::Down => if n > 0 {
                (s, list_down(cursor, n), EffectView::Stay)
            } else {
                (s, cursor, EffectView::Stay)
            },
            KeyAction::Enter => if n > 0 {
                if certs[cursor as int].active {
                    (s, 0, EffectView::Deactivate(certs[cursor as int]))
                } else {
                    (s, 0, EffectView::Activate(certs[cursor as int]))
                }
            } else {
                (s, cursor, EffectView::Stay)
            },
            KeyAction::Esc => (StateView::Main, 0, EffectView::Stay),
            _ => (s, cursor, EffectView::Stay),
        },
        StateView::RemoveSelect => match key {
            KeyAction::Up => if n > 0 {
                (s, list_up(cursor, n), EffectView::Stay)
            } else {
                (s, cursor, EffectView::Stay)
            },
            KeyAction::Down => if n > 0 {
                (s, list_down(cursor, n), EffectView::Stay)
            } else {
                (s, cursor, EffectView::Stay)
            },
            KeyAction::Enter => if n > 0 {
                (
                    StateView::RemoveConfirm { cert_idx: cursor, yes_selected: true },
                    cursor,
                    EffectView::Stay,
                )
            } else {
                (s, cursor, EffectView::Stay)
            },
            KeyAction::Esc => (StateView::Main, 0, EffectView::Stay),
            _ => (s, cursor, EffectView::Stay),
        },
        StateView::RemoveConfirm { cert_idx, yes_selected } => match key {
            KeyAction::Left => (
                StateView::RemoveConfirm { cert_idx, yes_selected: !yes_selected },
                cursor,
                EffectView::Stay,
            ),
            KeyAction::Right => (
                StateView::RemoveConfirm { cert_idx, yes_selected: !yes_selected },
                cursor,
                EffectView::Stay,
            ),
            KeyAction::Enter => if yes_selected {
                (s, 0, EffectView::Remove(certs[cert_idx as int]))
            } else {
                (cancelled("no changes made"@), 0, EffectView::Stay)
            },
            KeyAction::Esc => (cancelled("no changes made"@), 0, EffectView::Stay),
            _ => (s, cursor, EffectView::Stay),
        },
        StateView::Toast { .. } => match key {
            KeyAction::Enter => (StateView::Main, 0, EffectView::Stay),
            KeyAction::Esc => (StateView::Main, 0, EffectView::Stay),
            _ => (s, cursor, EffectView::Stay),
        },
    }
}

/// The inputs on which drawing a state and handling a key in it is defined: no cursor
/// arithmetic overflows and every position read is inside the list of `n` certificates.
pub open spec fn step_ok(s: StateView, cursor: usize, n: nat, key: KeyAction) -> bool {
    match s {
        StateView::Main => match key {
            KeyAction::Up => cursor + 3 <= usize::MAX,
            KeyAction::Down => cursor + 1 <= usize::MAX,
            _ => true,
        },
        StateView::Select => match key {
            KeyAction::Up => n > 0 ==> cursor + n <= usize::MAX,
            KeyAction::Down => n > 0 ==> cursor + 1 <= usize::MAX,
            KeyAction::Enter => n > 0 ==> cursor < n,
            _ => true,
        },
        StateView::RemoveSelect => match key {
            KeyAction::Up => n > 0 ==> cursor + n <= usize::MAX,
            KeyAction::Down => n > 0 ==> cursor + 1 <= usize::MAX,
            _ => true,
        },
        StateView::RemoveConfirm { cert_idx, .. } => cert_idx < n,
        StateView::Toast { .. } => true,
    }
}

/// The states the menu keeps itself in, for a list of `n` certificates: the main cursor
/// on one of the four options, a list cursor on an entry (or at 0 when the list is
/// empty), and a removal confirmed only for an entry of the list.
pub open spec fn sane(s: StateView, cursor: usize, n: nat) -> bool {
    match s {
        StateView::Main => cursor < 4,
        StateView::Select => cursor < n || cursor == 0,
        StateView::RemoveSelect => cursor < n || cursor == 0,
        StateView::RemoveConfirm { cert_idx, .. } => cert_idx < n,
        StateView::Toast { .. } => true,
    }
}

fn cancelled_toast() -> (s: State)
    ensures
        s@ == cancelled("no changes made"@),
{
    State::Toast {
        tag: String::from_str("CANCELLED"),
        msg: String::from_str("no changes made"),
        danger: false,
    }
}

/// What a key press does in `state` with the cursor at `cursor`, `certs` being the
/// certificates listed on screen.
pub fn step(state: &State, cursor: usize, certs: &Vec<Certificate>, key: KeyAction) -> (r: Step)
    requires
        step_ok(state@, cursor, certs@.len(), key),
    ensures
        (r.state@, r.cursor, r.effect@) == step_spec(state@, cursor, cert_views(certs@), key),
{
    let n = certs.len();
    let stay = Effect::Stay;
    match state {
        State::Main => match key {
            KeyAction::Up => Step { state: State::Main, cursor: (cursor + 3) % 4, effect: stay },
            KeyAction::Down => Step { state: State::Main, cursor: (cursor + 1) % 4, effect: stay },
            KeyAction::Char(c) => {
                let effect = if c == 'q' || c == 'Q' {
                    Effect::Quit
                } else {
                    Effect::Stay
                };
                Step { state: State::Main, cursor, effect }
            },
            KeyAction::Enter => {
                if cursor == 0 {
                    Step { state: State::Main, cursor, effect: Effect::Add }
                } else if cursor == 1 {
                    Step { state: State::Select, cursor: 0, effect: stay }
                } else if cursor == 2 {
                    Step { state: State::RemoveSelect, cursor: 0, effect: stay }
                } else if cursor == 3 {
                    Step { state: State::Main, cursor, effect: Effect::Quit }
                } else {
                    Step { state: State::Main, cursor, effect: stay }
                }
            },
            KeyAction::Esc => Step { state: State::Main, cursor, effect: Effect::Quit },
            _ => Step { state: State::Main, cursor, effect: stay },
        },
        State::Select | State::RemoveSelect => {
            let removing = match state {
                State::RemoveSelect => true,
                _ => false,
            };
            match key {
                KeyAction::Up => {
                    let next = if n > 0 {
                        (cursor + n - 1) % n
                    } else {
                        cursor
                    };
                    Step { state: state.copy(), cursor: next, effect: stay }
                },
                KeyAction::Down => {
                    let next = if n > 0 {
                        (cursor + 1) % n
                    } else {
                        cursor
                    };
                    Step { state: state.copy(), cursor: next, effect: stay }
                },
                KeyAction::Enter => {
                    if n == 0 {
                        Step { state: state.copy(), cursor, effect: stay }
                    } else if removing {
                        Step {
                            state: State::RemoveConfirm { cert_idx: cursor, yes_selected: true },
                            cursor,
                            effect: stay,
                        }
                    } else {
                        let target = certs[cursor].copy();
                        let effect = if target.active {
                            Effect::Deactivate(target)
                        } else {
                            Effect::Activate(target)
                        };
                        Step { state: State::Select, cursor: 0, effect }
                    }
                },
                KeyAction::Esc => Step { state: State::Main, cursor: 0, effect: stay },
                _ => Step { state: state.copy(), cursor, effect: stay },
            }
        },
        State::RemoveConfirm { cert_idx, yes_selected } => match key {
            KeyAction::Left | KeyAction::Right => Step {
                state: State::RemoveConfirm { cert_idx: *cert_idx, yes_selected: !*yes_selected },
                cursor,
                effect: stay,
            },
            KeyAction::Enter => {
                if *yes_selected {
                    let target = certs[*cert_idx].copy();
                    Step { state: state.copy(), cursor: 0, effect: Effect::Remove(target) }
                } else {
                    Step { state: cancelled_toast(), cursor: 0, effect: stay }
                }
            },
            KeyAction::Esc => Step { state: cancelled_toast(), cursor: 0, effect: stay },
            _ => Step { state: state.copy(), cursor, effect: stay },
        },
        State::Toast { .. } => match key {
            KeyAction::Enter | KeyAction::Esc => Step { state: State::Main, cursor: 0, effect: stay },
            _ => Step { state: state.copy(), cursor, effect: stay },
        },
    }
}

/// A message state.
pub open spec fn toast(tag: Seq<char>, msg: Seq<char>, danger: bool) -> StateView {
    StateView::Toast { tag, msg, danger }
}

/// The state that follows adding a file: `None` where no file was picked, else the
/// added certificate or the text of the error.
pub open spec fn after_add_spec(outcome: Option<Result<CertView, Seq<char>>>) -> StateView {
    match outcome {
        None => toast("CANCELLED"@, "no file selected"@, false),
        Some(Ok(c)) => toast("ADDED"@, cert_line_text(c) + " added"@, false),
        Some(Err(e)) => toast("ERROR"@, e, true),
    }
}

/// The state that follows toggling `target` (as it was listed) on or off.
pub open spec fn after_toggle_spec(target: CertView, outcome: Result<(), Seq<char>>) -> StateView {
    match outcome {
        Ok(_) => toast(
            "OK"@,
            cert_line_text(target) + if target.active {
                " deactivated"@
            } else {
                " activated"@
            },
            false,
        ),
        Err(e) => toast("ERROR"@, e, true),
    }
}

/// The state that follows removing a certificate: the removed one or the text of the error.
pub open spec fn after_remove_spec(outcome: Result<CertView, Seq<char>>) -> StateView {
    match outcome {
        Ok(c) => toast("REMOVED"@, cert_line_text(c) + " permanently removed"@, true),
        Err(e) => toast("ERROR"@, e, true),
    }
}

/// The state after adding a file: `None` where no file was picked, else the added
/// certificate or the text of the error.
pub fn after_add(outcome: Option<Result<Certificate, String>>) -> (s: State)
    ensures
        s@ == after_add_spec(
            match outcome {
                None => None,
                Some(Ok(c)) => Some(Ok(c@)),
                Some(Err(e)) => Some(Err(e@)),
            },
        ),
{
    match outcome {
        None => State::Toast {
            tag: String::from_str("CANCELLED"),
            msg: String::from_str("no file selected"),
            danger: false,
        },
        Some(Ok(c)) => {
            let mut msg = cert_line(&c);
            msg.append(" added");
            State::Toast { tag: String::from_str("ADDED"), msg, danger: false }
        },
        Some(Err(e)) => State::Toast { tag: String::from_str("ERROR"), msg: e, danger: true },
    }
}

/// The state after toggling `target` (as it was listed) on or off.
pub fn after_toggle(target: &Certificate, outcome: Result<(), String>) -> (s: State)
    ensures
        s@ == after_toggle_spec(
            target@,
            match outcome {
                Ok(_) => Ok(()),
                Err(e) => Err(e@),
            },
        ),
{
    match outcome {
        Ok(()) => {
            let mut msg = cert_line(target);
            if target.active {
                msg.append(" deactivated");
            } else {
                msg.append(" activated");
            }
            State::Toast { tag: String::from_str("OK"), msg, danger: false }
        },
        Err(e) => State::Toast { tag: String::from_str("ERROR"), msg: e, danger: true },
    }
}

/// The state after removing a certificate: the removed one or the text of the error.
pub fn after_remove(outcome: Result<Certificate, String>) -> (s: State)
    ensures
        s@ == after_remove_spec(
            match outcome {
                Ok(c) => Ok(c@),
                Err(e) => Err(e@),
            },
        ),
{
    match outcome {
        Ok(c) => {
            let mut msg = cert_line(&c);
            msg.append(" permanently removed");
            State::Toast { tag: String::from_str("REMOVED"), msg, danger: true }
        },
        Err(e) => State::Toast { tag: String::from_str("ERROR"), msg: e, danger: true },
    }
}

/// In its sane states, with a list that fits twice in memory, the menu can draw every
/// state and handle every key.
pub proof fn law_sane_is_safe(s: StateView, cursor: usize, n: nat, key: KeyAction)
    requires
        sane(s, cursor, n),
        2 * n <= usize::MAX,
    ensures
        step_ok(s, cursor, n, key),
{
}

/// Every key press keeps the menu in its sane states, for the same list of certificates.
pub proof fn law_step_keeps_sane(s: StateView, cursor: usize, certs: Seq<CertView>, key: KeyAction)
    requires
        sane(s, cursor, certs.len()),
        step_ok(s, cursor, certs.len(), key),
    ensures
        sane(step_spec(s, cursor, certs, key).0, step_spec(s, cursor, certs, key).1, certs.len()),
{
    let n = certs.len();
    if n > 0 {
        assert((cursor + n - 1) % (n as int) < n);
        assert((cursor + 1) % (n as int) < n);
    }
}

/// A message state, which every outside effect leads to, is sane whatever the list of
/// certificates has become.
pub proof fn law_toast_always_sane(tag: Seq<char>, msg: Seq<char>, danger: bool, cursor: usize, n: nat)
    ensures
        sane(toast(tag, msg, danger), cursor, n),
{
}

/// In the main menu, moving down and then up brings the cursor back, and four moves
/// down go round once.
pub proof fn law_main_cursor_round_trip(cursor: usize, certs: Seq<CertView>)
    requires
        cursor < 4,
    ensures
        ({
            let d = step_spec(StateView::Main, cursor, certs, KeyAction::Down);
            step_spec(d.0, d.1, certs, KeyAction::Up).1 == cursor
        }),
        ({
            let u = step_spec(StateView::Main, cursor, certs, KeyAction::Up);
            step_spec(u.0, u.1, certs, KeyAction::Down).1 == cursor
        }),
        ({
            let d1 = step_spec(StateView::Main, cursor, certs, KeyAction::Down);
            let d2 = step_spec(d1.0, d1.1, certs, KeyAction::Down);
            let d3 = step_spec(d2.0, d2.1, certs, KeyAction::Down);
            step_spec(d3.0, d3.1, certs, KeyAction::Down).1 == cursor
        }),
{
}

/// In a list of certificates, moving down and then up (or up and then down) brings the
/// cursor back to the same entry.
pub proof fn law_list_cursor_round_trip(cursor: usize, n: nat)
    requires
        cursor < n,
        2 * n <= usize::MAX,
    ensures
        list_up(list_down(cursor, n), n) == cursor,
        list_down(list_up(cursor, n), n) == cursor,
{
    let m = n as int;
    let c = cursor as int;
    if c + 1 < m {
        vstd::arithmetic::div_mod::lemma_small_mod((c + 1) as nat, n);
        vstd::arithmetic::div_mod::lemma_mod_add_multiples_vanish(c, m);
        vstd::arithmetic::div_mod::lemma_small_mod(c as nat, n);
        assert(list_down(cursor, n) == c + 1);
        assert(c + 1 + m - 1 == m + c);
    } else {
        vstd::arithmetic::div_mod::lemma_mod_self_0(m);
        assert(list_down(cursor, n) == 0);
        vstd::arithmetic::div_mod::lemma_small_mod((m - 1) as nat, n);
    }
    if c > 0 {
        vstd::arithmetic::div_mod::lemma_mod_add_multiples_vanish(c - 1, m);
        vstd::arithmetic::div_mod::lemma_small_mod((c - 1) as nat, n);
        assert(c + m - 1 == m + (c - 1));
        assert(list_up(cursor, n) == c - 1);
        vstd::arithmetic::div_mod::lemma_small_mod(c as nat, n);
    } else {
        vstd::arithmetic::div_mod::lemma_small_mod((m - 1) as nat, n);
        assert(list_up(cursor, n) == m - 1);
        vstd::arithmetic::div_mod::lemma_mod_self_0(m);
    }
}

/// A certificate is removed only after confirmation: the only key press that asks for a
/// removal is ENTER on the confirmation with YES chosen, and it removes the certificate
/// that was confirmed. Choosing a certificate to remove opens the confirmation, YES
/// preselected, and removes nothing.
pub proof fn law_remove_needs_confirmation(s: StateView, cursor: usize, certs: Seq<CertView>, key: KeyAction)
    ensures
        step_spec(s, cursor, certs, key).2 matches EffectView::Remove(c) ==> (s matches StateView::RemoveConfirm {
            cert_idx,
            yes_selected,
        } && yes_selected && key == KeyAction::Enter && c == certs[cert_idx as int]),
        s == StateView::RemoveSelect && key == KeyAction::Enter && certs.len() > 0 ==> step_spec(
            s,
            cursor,
            certs,
            key,
        ).0 == (StateView::RemoveConfirm { cert_idx: cursor, yes_selected: true }) && step_spec(
            s,
            cursor,
            certs,
            key,
        ).2 == EffectView::Stay,
{
}

/// ENTER on a certificate toggles it: it asks to deactivate the certificate under the
/// cursor where it is active and to activate it where it is not, and only there.
pub proof fn law_toggle_follows_activity(s: StateView, cursor: usize, certs: Seq<CertView>, key: KeyAction)
    ensures
        step_spec(s, cursor, certs, key).2 matches EffectView::Deactivate(c) ==> (s == StateView::Select
            && key == KeyAction::Enter && c == certs[cursor as int] && c.active),
        step_spec(s, cursor, certs, key).2 matches EffectView::Activate(c) ==> (s == StateView::Select
            && key == KeyAction::Enter && c == certs[cursor as int] && !c.active),
{
}

/// The menu is left only from the main screen: by Q, ESC, or ENTER on QUIT.
pub proof fn law_quit_only_from_main(s: StateView, cursor: usize, certs: Seq<CertView>, key: KeyAction)
    ensures
        step_spec(s, cursor, certs, key).2 == EffectView::Quit ==> s == StateView::Main && (key
            == KeyAction::Esc || key == KeyAction::Char('q') || key == KeyAction::Char('Q') || (key
            == KeyAction::Enter && cursor == 3)),
{
}

/// One turn of the menu loop: the key moves the cursor as `step_spec` says; where nothing
/// outside is done the state follows `step_spec` and the list stays as it was; leaving
/// ends the loop; after outside work (which may change the list) a message is shown.
pub open spec fn loop_step(
    s: StateView,
    cursor: usize,
    certs: Seq<CertView>,
    key: KeyAction,
    next: StateView,
    next_cursor: usize,
    next_certs: Seq<CertView>,
    last: bool,
) -> bool {
    let r = step_spec(s, cursor, certs, key);
    &&& next_cursor == r.1
    &&& r.2 is Stay ==> next == r.0 && next_certs == certs
    &&& r.2 is Quit ==> last && next == r.0
    &&& !(r.2 is Stay) && !(r.2 is Quit) ==> next is Toast
}

/// A run of the menu loop: it starts on the main screen with the cursor at 0, and each
/// key press is one turn. `states[k]`, `cursors[k]` and `lists[k]` are what the loop holds
/// before key `keys[k]`.
pub open spec fn loop_trace(
    states: Seq<StateView>,
    cursors: Seq<usize>,
    lists: Seq<Seq<CertView>>,
    keys: Seq<KeyAction>,
) -> bool {
    &&& states.len() == keys.len() + 1
    &&& cursors.len() == keys.len() + 1
    &&& lists.len() == keys.len() + 1
    &&& states[0] == StateView::Main
    &&& cursors[0] == 0
    &&& forall|k: int| 0 <= k < keys.len() ==> #[trigger] turn(states, cursors, lists, keys, k)
}

/// Turn `k` of a run of the menu loop.
pub open spec fn turn(
    states: Seq<StateView>,
    cursors: Seq<usize>,
    lists: Seq<Seq<CertView>>,
    keys: Seq<KeyAction>,
    k: int,
) -> bool {
    loop_step(
        states[k],
        cursors[k],
        lists[k],
        keys[k],
        states[k + 1],
        cursors[k + 1],
        lists[k + 1],
        k + 1 == keys.len(),
    )
}

proof fn lemma_loop_sane(
    states: Seq<StateView>,
    cursors: Seq<usize>,
    lists: Seq<Seq<CertView>>,
    keys: Seq<KeyAction>,
    k: int,
)
    requires
        loop_trace(states, cursors, lists, keys),
        0 <= k <= keys.len(),
    ensures
        sane(states[k], cursors[k], lists[k].len()),
    decreases k,
{
    if k > 0 {
        lemma_loop_sane(states, cursors, lists, keys, k - 1);
        assert(turn(states, cursors, lists, keys, k - 1));
        let r = step_spec(states[k - 1], cursors[k - 1], lists[k - 1], keys[k - 1]);
        if r.2 is Stay || r.2 is Quit {
            law_step_keeps_sane_any(states[k - 1], cursors[k - 1], lists[k - 1], keys[k - 1]);
        }
    }
}

proof fn law_step_keeps_sane_any(s: StateView, cursor: usize, certs: Seq<CertView>, key: KeyAction)
    requires
        sane(s, cursor, certs.len()),
    ensures
        sane(step_spec(s, cursor, certs, key).0, step_spec(s, cursor, certs, key).1, certs.len()),
{
    let n = certs.len();
    if n > 0 {
        assert((cursor + n - 1) % (n as int) < n);
        assert((cursor + 1) % (n as int) < n);
    }
}

/// The menu loop never panics, whatever keys are pressed, as long as nothing but the
/// loop's own work changes the certificates and the list fits twice in memory: before
/// every key, the state is sane and both drawing it and handling the key are defined.
pub proof fn law_run_never_panics(
    states: Seq<StateView>,
    cursors: Seq<usize>,
    lists: Seq<Seq<CertView>>,
    keys: Seq<KeyAction>,
)
    requires
        loop_trace(states, cursors, lists, keys),
        forall|k: int| 0 <= k < lists.len() ==> 2 * #[trigger] lists[k].len() <= usize::MAX,
    ensures
        forall|k: int| 0 <= k < keys.len() ==> #[trigger] sane(states[k], cursors[k], lists[k].len()),
        forall|k: int|
            0 <= k < keys.len() ==> #[trigger] step_ok(states[k], cursors[k], lists[k].len(), keys[k]),
{
    assert forall|k: int| 0 <= k < keys.len() implies #[trigger] sane(states[k], cursors[k], lists[k].len())
        && step_ok(states[k], cursors[k], lists[k].len(), keys[k]) by {
        lemma_loop_sane(states, cursors, lists, keys, k);
        law_sane_is_safe(states[k], cursors[k], lists[k].len(), keys[k]);
    }
    assert forall|k: int| 0 <= k < keys.len() implies #[trigger] step_ok(
        states[k],
        cursors[k],
        lists[k].len(),
        keys[k],
    ) by {
        assert(sane(states[k], cursors[k], lists[k].len()));
    }
}

proof fn lemma_confirm_origin(
    states: Seq<StateView>,
    cursors: Seq<usize>,
    lists: Seq<Seq<CertView>>,
    keys: Seq<KeyAction>,
    j: int,
    idx: usize,
) -> (i: int)
    requires
        loop_trace(states, cursors, lists, keys),
        0 <= j <= keys.len(),
        states[j] matches StateView::RemoveConfirm { cert_idx, .. } && cert_idx == idx,
    ensures
        0 <= i < j,
        states[i] == StateView::RemoveSelect,
        keys[i] == KeyAction::Enter,
        cursors[i] == idx,
        lists[i] == lists[j],
        forall|k: int| i < k <= j ==> (#[trigger] states[k] matches StateView::RemoveConfirm { cert_idx, .. }
            && cert_idx == idx && lists[k] == lists[j]),
    decreases j,
{
    assert(j > 0);
    assert(turn(states, cursors, lists, keys, j - 1));
    let r = step_spec(states[j - 1], cursors[j - 1], lists[j - 1], keys[j - 1]);
    assert(r.2 is Stay || r.2 is Quit);
    if states[j - 1] is RemoveConfirm {
        let i = lemma_confirm_origin(states, cursors, lists, keys, j - 1, idx);
        i
    } else {
        j - 1
    }
}

/// Over a whole run of the menu loop, a certificate is removed only after it was chosen
/// and confirmed: the key press that asks for a removal is ENTER on the confirmation with
/// YES chosen; that confirmation was opened by ENTER on the REMOVE list, on the row of the
/// certificate removed, and the menu stayed on the confirmation since, over the same list.
pub proof fn law_removal_only_after_choice(
    states: Seq<StateView>,
    cursors: Seq<usize>,
    lists: Seq<Seq<CertView>>,
    keys: Seq<KeyAction>,
    j: int,
) -> (i: int)
    requires
        loop_trace(states, cursors, lists, keys),
        0 <= j < keys.len(),
        step_spec(states[j], cursors[j], lists[j], keys[j]).2 is Remove,
    ensures
        0 <= i < j,
        states[i] == StateView::RemoveSelect,
        keys[i] == KeyAction::Enter,
        lists[i] == lists[j],
        step_spec(states[j], cursors[j], lists[j], keys[j]).2 == EffectView::Remove(
            lists[i][cursors[i] as int],
        ),
        states[j] == (StateView::RemoveConfirm { cert_idx: cursors[i], yes_selected: true }),
        keys[j] == KeyAction::Enter,
        forall|k: int| i < k <= j ==> (#[trigger] states[k] matches StateView::RemoveConfirm { cert_idx, .. }
            && cert_idx == cursors[i]),
{
    let idx = match states[j] {
        StateView::RemoveConfirm { cert_idx, .. } => cert_idx,
        _ => 0,
    };
    let i = lemma_confirm_origin(states, cursors, lists, keys, j, idx);
    i
}

/// ESC goes back: from a list to the main menu with the cursor on its first option, from
/// a message to the main menu, from a removal confirmation to a message that nothing
/// changed; on the main menu it leaves.
pub proof fn law_esc_goes_back(s: StateView, cursor: usize, certs: Seq<CertView>)
    ensures
        s == StateView::Select ==> step_spec(s, cursor, certs, KeyAction::Esc) == (
            StateView::Main,
            0usize,
            EffectView::Stay,
        ),
        s == StateView::RemoveSelect ==> step_spec(s, cursor, certs, KeyAction::Esc) == (
            StateView::Main,
            0usize,
            EffectView::Stay,
        ),
        s is Toast ==> step_spec(s, cursor, certs, KeyAction::Esc) == (
            StateView::Main,
            0usize,
            EffectView::Stay,
        ),
        s is RemoveConfirm ==> step_spec(s, cursor, certs, KeyAction::Esc) == (
            StateView::Toast { tag: "CANCELLED"@, msg: "no changes made"@, danger: false },
            0usize,
            EffectView::Stay,
        ),
        s == StateView::Main ==> step_spec(s, cursor, certs, KeyAction::Esc).2 == EffectView::Quit,
{
}

/// On the main menu, UP and DOWN move the cursor one option, wrapping round the four;
/// ENTER on ADD adds, on SELECT and REMOVE opens that list at its first row, on QUIT
/// leaves; Q leaves; nothing else does anything.
pub proof fn law_main_keys(cursor: usize, certs: Seq<CertView>, key: KeyAction)
    requires
        cursor < 4,
    ensures
        step_spec(StateView::Main, cursor, certs, KeyAction::Down) == (
            StateView::Main,
            (if cursor == 3 { 0 } else { cursor + 1 }) as usize,
            EffectView::Stay,
        ),
        step_spec(StateView::Main, cursor, certs, KeyAction::Up) == (
            StateView::Main,
            (if cursor == 0 { 3 } else { cursor - 1 }) as usize,
            EffectView::Stay,
        ),
        cursor == 0 ==> step_spec(StateView::Main, cursor, certs, KeyAction::Enter).2 == EffectView::Add,
        cursor == 1 ==> step_spec(StateView::Main, cursor, certs, KeyAction::Enter) == (
            StateView::Select,
            0usize,
            EffectView::Stay,
        ),
        cursor == 2 ==> step_spec(StateView::Main, cursor, certs, KeyAction::Enter) == (
            StateView::RemoveSelect,
            0usize,
            EffectView::Stay,
        ),
        cursor == 3 ==> step_spec(StateView::Main, cursor, certs, KeyAction::Enter).2 == EffectView::Quit,
        step_spec(StateView::Main, cursor, certs, KeyAction::Char('q')).2 == EffectView::Quit,
        step_spec(StateView::Main, cursor, certs, KeyAction::Char('Q')).2 == EffectView::Quit,
        (key == KeyAction::Left || key == KeyAction::Right || key == KeyAction::Other) ==> step_spec(
            StateView::Main,
            cursor,
            certs,
            key,
        ) == (StateView::Main, cursor, EffectView::Stay),
{
}

/// On a list of certificates, UP and DOWN move the cursor one row, wrapping round;
/// ENTER on the SELECT list toggles the certificate under the cursor (deactivating it
/// where it is active, activating it where not) and puts the cursor back at the top;
/// ENTER on the REMOVE list asks to confirm removing the certificate under the cursor,
/// YES preselected. On an empty list these keys do nothing.
pub proof fn law_list_keys(s: StateView, cursor: usize, certs: Seq<CertView>)
    requires
        s == StateView::Select || s == StateView::RemoveSelect,
        cursor < certs.len() || cursor == 0,
        2 * certs.len() <= usize::MAX,
    ensures
        certs.len() > 0 ==> step_spec(s, cursor, certs, KeyAction::Down) == (
            s,
            (if cursor + 1 == certs.len() { 0 } else { cursor + 1 }) as usize,
            EffectView::Stay,
        ),
        certs.len() > 0 ==> step_spec(s, cursor, certs, KeyAction::Up) == (
            s,
            (if cursor == 0 { certs.len() - 1 } else { cursor - 1 }) as usize,
            EffectView::Stay,
        ),
        certs.len() > 0 && s == StateView::Select && certs[cursor as int].active ==> step_spec(
            s,
            cursor,
            certs,
            KeyAction::Enter,
        ) == (s, 0usize, EffectView::Deactivate(certs[cursor as int])),
        certs.len() > 0 && s == StateView::Select && !certs[cursor as int].active ==> step_spec(
            s,
            cursor,
            certs,
            KeyAction::Enter,
        ) == (s, 0usize, EffectView::Activate(certs[cursor as int])),
        certs.len() > 0 && s == StateView::RemoveSelect ==> step_spec(s, cursor, certs, KeyAction::Enter) == (
            StateView::RemoveConfirm { cert_idx: cursor, yes_selected: true },
            cursor,
            EffectView::Stay,
        ),
        certs.len() == 0 ==> step_spec(s, cursor, certs, KeyAction::Down) == (s, cursor, EffectView::Stay),
        certs.len() == 0 ==> step_spec(s, cursor, certs, KeyAction::Up) == (s, cursor, EffectView::Stay),
        certs.len() == 0 ==> step_spec(s, cursor, certs, KeyAction::Enter) == (s, cursor, EffectView::Stay),
{
    if certs.len() > 0 {
        law_list_cursor_steps(cursor, certs.len());
    }
}

proof fn law_list_cursor_steps(cursor: usize, n: nat)
    requires
        cursor < n,
        2 * n <= usize::MAX,
    ensures
        list_down(cursor, n) == (if cursor + 1 == n { 0 } else { cursor + 1 }),
        list_up(cursor, n) == (if cursor == 0 { n - 1 } else { cursor - 1 }),
{
    let m = n as int;
    let c = cursor as int;
    if c + 1 < m {
        vstd::arithmetic::div_mod::lemma_small_mod((c + 1) as nat, n);
    } else {
        vstd::arithmetic::div_mod::lemma_mod_self_0(m);
    }
    if c > 0 {
        vstd::arithmetic::div_mod::lemma_mod_add_multiples_vanish(c - 1, m);
        vstd::arithmetic::div_mod::lemma_small_mod((c - 1) as nat, n);
        assert(c + m - 1 == m + (c - 1));
    } else {
        vstd::arithmetic::div_mod::lemma_small_mod((m - 1) as nat, n);
    }
}

/// On the removal confirmation, LEFT and RIGHT switch between YES and NO; ENTER with YES
/// asks to remove the confirmed certificate, ENTER with NO calls the removal off.
pub proof fn law_confirm_keys(idx: usize, yes: bool, cursor: usize, certs: Seq<CertView>)
    ensures
        step_spec(StateView::RemoveConfirm { cert_idx: idx, yes_selected: yes }, cursor, certs, KeyAction::Left) == (
            StateView::RemoveConfirm { cert_idx: idx, yes_selected: !yes },
            cursor,
            EffectView::Stay,
        ),
        step_spec(StateView::RemoveConfirm { cert_idx: idx, yes_selected: yes }, cursor, certs, KeyAction::Right) == (
            StateView::RemoveConfirm { cert_idx: idx, yes_selected: !yes },
            cursor,
            EffectView::Stay,
        ),
        step_spec(StateView::RemoveConfirm { cert_idx: idx, yes_selected: true }, cursor, certs, KeyAction::Enter) == (
            StateView::RemoveConfirm { cert_idx: idx, yes_selected: true },
            0usize,
            EffectView::Remove(certs[idx as int]),
        ),
        step_spec(StateView::RemoveConfirm { cert_idx: idx, yes_selected: false }, cursor, certs, KeyAction::Enter) == (
            StateView::Toast { tag: "CANCELLED"@, msg: "no changes made"@, danger: false },
            0usize,
            EffectView::Stay,
        ),
{
}

/// On a message, ENTER goes to the main menu; other keys than ENTER and ESC keep it.
pub proof fn law_toast_keys(tag: Seq<char>, msg: Seq<char>, danger: bool, cursor: usize, certs: Seq<CertView>, key: KeyAction)
    ensures
        step_spec(StateView::Toast { tag, msg, danger }, cursor, certs, KeyAction::Enter) == (
            StateView::Main,
            0usize,
            EffectView::Stay,
        ),
        key != KeyAction::Enter && key != KeyAction::Esc ==> step_spec(
            StateView::Toast { tag, msg, danger },
            cursor,
            certs,
            key,
        ) == (StateView::Toast { tag, msg, danger }, cursor, EffectView::Stay),
{
}

/// The messages after outside work: a cancelled pick, an added certificate, an error,
/// a toggled certificate (saying whether it was deactivated or activated) and a removed
/// one, each naming the certificate's row and in the colour of its kind.
pub proof fn law_outcome_messages(c: CertView, e: Seq<char>)
    ensures
        after_add_spec(None) == (StateView::Toast { tag: "CANCELLED"@, msg: "no file selected"@, danger: false }),
        after_add_spec(Some(Ok(c))) == (StateView::Toast {
            tag: "ADDED"@,
            msg: cert_line_text(c) + " added"@,
            danger: false,
        }),
        after_add_spec(Some(Err(e))) == (StateView::Toast { tag: "ERROR"@, msg: e, danger: true }),
        after_toggle_spec(c, Ok(())) == (StateView::Toast {
            tag: "OK"@,
            msg: cert_line_text(c) + (if c.active { " deactivated"@ } else { " activated"@ }),
            danger: false,
        }),
        after_toggle_spec(c, Err(e)) == (StateView::Toast { tag: "ERROR"@, msg: e, danger: true }),
        after_remove_spec(Ok(c)) == (StateView::Toast {
            tag: "REMOVED"@,
            msg: cert_line_text(c) + " permanently removed"@,
            danger: true,
        }),
        after_remove_spec(Err(e)) == (StateView::Toast { tag: "ERROR"@, msg: e, danger: true }),
{
}

} // verus!
