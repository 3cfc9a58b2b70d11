use dgx_pixels_tui::screen::{Screen, SixelRenderState};
use dgx_pixels_tui::sixel::{capability_from_env, RenderOptions, TerminalCapability};

#[test]
fn test_sixel_render_state_tracking() {
    let mut state = SixelRenderState::default();
    assert!(state.last_screen.is_none());
    state.update_screen(Screen::Gallery);
    assert_eq!(state.last_screen, Some(Screen::Gallery));
}

#[test]
fn test_render_options_default() {
    let opts = RenderOptions::default();
    assert_eq!(opts.width, 40);
    assert_eq!(opts.height, 20);
    assert!(opts.preserve_aspect);
    assert!(opts.high_quality);
}

#[test]
fn observe_screen_reports_changes() {
    let mut state = SixelRenderState::default();
    assert!(!state.observe_screen(Screen::Gallery));
    assert!(!state.observe_screen(Screen::Gallery));
    assert!(state.observe_screen(Screen::Queue));
    assert_eq!(state.last_screen, Some(Screen::Queue));
}

#[test]
fn tab_order_cycles() {
    let mut s = Screen::Generation;
    for _ in 0..8 {
        s = s.next();
    }
    assert_eq!(s, Screen::Generation);
    assert_eq!(Screen::Generation.previous(), Screen::Help);
    assert_eq!(Screen::Help.next(), Screen::Generation);
    assert_eq!(Screen::Queue.next().previous(), Screen::Queue);
}

#[test]
fn test_detect_capability_returns_valid() {
    let cap = capability_from_env(&None, &None, false);
    assert!(cap == TerminalCapability::Sixel || cap == TerminalCapability::TextOnly);
}

#[test]
fn capability_from_environment_values() {
    let some = |s: &str| Some(s.to_string());
    assert_eq!(capability_from_env(&some("xterm-256color"), &None, false), TerminalCapability::Sixel);
    assert_eq!(capability_from_env(&some("screen.xterm-sixel"), &None, false), TerminalCapability::Sixel);
    assert_eq!(capability_from_env(&some("xterm"), &None, false), TerminalCapability::TextOnly);
    assert_eq!(capability_from_env(&some("xterm"), &some("WezTerm"), false), TerminalCapability::Sixel);
    assert_eq!(capability_from_env(&None, &some("iTerm.app"), false), TerminalCapability::Sixel);
    assert_eq!(capability_from_env(&None, &some("tmux"), false), TerminalCapability::TextOnly);
    assert_eq!(capability_from_env(&None, &None, true), TerminalCapability::Sixel);
}
