use ai_firewall::attach::{attempt_reply, first_attempt, mode_text, AttachStep};
use ai_firewall::dashboard::DashboardState;
use ai_firewall::input::{InputMode, InputState, Key, UserAction};
use ai_firewall::request::Request;

fn type_text(input: &mut InputState, text: &str) {
    for c in text.chars() {
        assert_eq!(input.on_key(Key::Char(c)), UserAction::Nothing);
    }
}

#[test]
fn commands_work_in_either_case() {
    let mut input = InputState::new();
    assert_eq!(input.on_key(Key::Char('q')), UserAction::Quit);
    assert_eq!(input.on_key(Key::Char('Q')), UserAction::Quit);
    assert_eq!(input.on_key(Key::Char('p')), UserAction::TogglePause);
    assert_eq!(input.on_key(Key::Char('P')), UserAction::TogglePause);
    for key in [Key::Char('x'), Key::Enter, Key::Esc, Key::Backspace, Key::Other] {
        assert_eq!(input.on_key(key), UserAction::Nothing);
        assert_eq!(input.mode, InputMode::Normal);
    }
}

#[test]
fn a_typed_address_is_blocked() {
    let mut input = InputState::new();
    assert_eq!(input.on_key(Key::Char('b')), UserAction::Nothing);
    assert_eq!(input.mode, InputMode::ManualBlock);
    type_text(&mut input, "10.0.0.77");
    input.on_key(Key::Backspace);
    assert_eq!(input.on_key(Key::Enter), UserAction::Ask(Request::ManualBlock { ip: 0x0a00_0007 }));
    assert_eq!(input.mode, InputMode::Normal);
}

#[test]
fn a_typed_address_is_unblocked() {
    let mut input = InputState::new();
    input.on_key(Key::Char('U'));
    assert_eq!(input.mode, InputMode::ManualUnblock);
    type_text(&mut input, "8.8.8.8");
    assert_eq!(
        input.on_key(Key::Enter),
        UserAction::Ask(Request::ManualUnblock { ip: 0x0808_0808 })
    );
    assert_eq!(input.mode, InputMode::Normal);
}

#[test]
fn text_that_is_no_address_is_refused() {
    let mut input = InputState::new();
    input.on_key(Key::Char('b'));
    type_text(&mut input, "10.0.0");
    assert_eq!(input.on_key(Key::Enter), UserAction::Nothing);
    assert_eq!(input.mode, InputMode::Normal);
    assert_eq!(input.buffer, "10.0.0");
    input.on_key(Key::Char('b'));
    assert_eq!(input.buffer, "");
}

#[test]
fn escape_gives_up_and_letters_are_typed() {
    let mut input = InputState::new();
    input.on_key(Key::Char('B'));
    type_text(&mut input, "qpbu");
    assert_eq!(input.buffer, "qpbu");
    assert_eq!(input.on_key(Key::Other), UserAction::Nothing);
    assert_eq!(input.on_key(Key::Esc), UserAction::Nothing);
    assert_eq!(input.mode, InputMode::Normal);
}

#[test]
fn backspace_on_nothing_does_nothing() {
    let mut input = InputState::new();
    input.on_key(Key::Char('u'));
    assert_eq!(input.on_key(Key::Backspace), UserAction::Nothing);
    assert_eq!(input.mode, InputMode::ManualUnblock);
    assert_eq!(input.buffer, "");
}

#[test]
fn the_prompt_follows_the_mode() {
    let mut input = InputState::new();
    assert_eq!(
        input.prompt_text(),
        " [B] Manual Block IP  |  [U] Manual Unblock IP  |  [P] Pause/Resume Feed  |  [Q] Quit"
    );
    assert_eq!(input.title_text(), " Controls ");
    input.on_key(Key::Char('b'));
    type_text(&mut input, "1.2");
    assert_eq!(input.prompt_text(), "Enter IP to BLOCK: 1.2");
    assert_eq!(
        input.title_text(),
        " Action: Manual Block (Press Enter to Apply, Esc to Cancel) "
    );
    input.on_key(Key::Esc);
    input.on_key(Key::Char('u'));
    type_text(&mut input, "3");
    assert_eq!(input.prompt_text(), "Enter IP to UNBLOCK: 3");
    assert_eq!(
        input.title_text(),
        " Action: Manual Unblock (Press Enter to Apply, Esc to Cancel) "
    );
}

#[test]
fn the_header_shows_the_totals() {
    let mut state = DashboardState::default();
    state.total_packets = 1234;
    state.total_bytes = 10_239;
    assert_eq!(
        state.header_text("eth0"),
        " Interface: eth0 | Mode: XDP | Total Packets: 1234 | Total Bytes: 9 KB | Feed: LIVE"
    );
    state.toggle_pause();
    assert_eq!(
        state.header_text("lo"),
        " Interface: lo | Mode: XDP | Total Packets: 1234 | Total Bytes: 9 KB | Feed: PAUSED"
    );
}

#[test]
fn rows_show_their_cells() {
    let mut state = DashboardState::default();
    state.active_ips.push(("10.0.0.1".to_string(), 42, 1536, true));
    state.active_ips.push(("10.0.0.2".to_string(), 0, 0, false));
    state.blocked_ips.push(("10.0.0.1".to_string(), 59));
    let cells = |a: &str, b: &str, c: &str, d: &str| {
        (a.to_string(), b.to_string(), c.to_string(), d.to_string())
    };
    assert_eq!(state.traffic_row(0), cells("10.0.0.1", "42", "1.5 KB", "ANOMALY"));
    assert_eq!(state.traffic_row(1), cells("10.0.0.2", "0", "0.0 KB", "NORMAL"));
    assert_eq!(state.block_row(0), ("10.0.0.1".to_string(), "59s".to_string()));
}

#[test]
fn the_newest_lines_come_first() {
    let mut state = DashboardState::default();
    assert!(state.newest_logs().is_empty());
    for i in 0..20 {
        state.push_log(format!("{}", i));
    }
    let shown = state.newest_logs();
    assert_eq!(shown.len(), 15);
    assert_eq!(shown[0], "19");
    assert_eq!(shown[14], "5");
}

#[test]
fn trimming_keeps_the_newest_lines() {
    let mut state = DashboardState::default();
    for i in 0..151 {
        state.push_log(format!("{}", i));
    }
    let before = state.newest_logs();
    state.trim_logs();
    assert_eq!(state.logs.len(), 101);
    assert_eq!(state.newest_logs(), before);
}

#[test]
fn the_native_mode_falls_back_to_the_generic_one() {
    let step = first_attempt(false);
    assert_eq!(step, AttachStep::TryNative);
    assert_eq!(attempt_reply(step, true), AttachStep::Attached { native: true });
    let step = attempt_reply(step, false);
    assert_eq!(step, AttachStep::TryGeneric { fallback: true });
    assert_eq!(attempt_reply(step, true), AttachStep::Attached { native: false });
    assert_eq!(attempt_reply(step, false), AttachStep::Failed);
}

#[test]
fn a_user_who_asks_for_the_generic_mode_gets_no_other() {
    let step = first_attempt(true);
    assert_eq!(step, AttachStep::TryGeneric { fallback: false });
    assert_eq!(attempt_reply(step, true), AttachStep::Attached { native: false });
    assert_eq!(attempt_reply(step, false), AttachStep::Failed);
    assert_eq!(mode_text(true), "XDP (native)");
    assert_eq!(mode_text(false), "XDP (generic/SKB)");
}
