use ministatus::{
    audio_text, bootstrap_step, notification_query, volume_icon, volume_percent, AudioAction,
    AudioEvent, AudioMirror, AudioState, BootstrapStep, Facility, NotificationQuery, SessionState,
};

fn change(name: &str, volume: u32, muted: bool) -> AudioEvent {
    AudioEvent::OutputChanged { name: name.to_string(), state: AudioState { volume, muted } }
}

#[test]
fn mirror_follows_default_output() {
    let mut m = AudioMirror::new();
    assert_eq!(audio_text(m.snapshot()), "🔈 0%");
    match m.handle(AudioEvent::DefaultOutputChanged("A".to_string())) {
        AudioAction::QueryOutput(n) => assert_eq!(n, "A"),
        AudioAction::Nothing => panic!("a new default output is queried"),
    }
    assert!(matches!(m.handle(change("A", 40, false)), AudioAction::Nothing));
    assert_eq!(audio_text(m.snapshot()), "🔉 40%");
    m.handle(change("A", 40, true));
    assert_eq!(audio_text(m.snapshot()), "🔇");
    m.handle(change("B", 90, false));
    assert_eq!(m.snapshot(), AudioState { volume: 40, muted: true });
    assert_eq!(audio_text(m.snapshot()), "🔇");
}

#[test]
fn first_reporting_output_is_taken_as_default() {
    let mut m = AudioMirror::new();
    m.handle(change("X", 55, false));
    assert_eq!(audio_text(m.snapshot()), "🔉 55%");
    m.handle(change("Y", 10, false));
    assert_eq!(m.snapshot(), AudioState { volume: 55, muted: false });
    m.handle(AudioEvent::DefaultOutputChanged("Y".to_string()));
    assert_eq!(m.snapshot(), AudioState { volume: 55, muted: false });
    m.handle(change("Y", 10, false));
    assert_eq!(audio_text(m.snapshot()), "🔈 10%");
}

#[test]
fn muted_glyph_ignores_volume() {
    assert_eq!(audio_text(AudioState { volume: 0, muted: true }), "🔇");
    assert_eq!(audio_text(AudioState { volume: 100, muted: true }), "🔇");
}

#[test]
fn volume_icon_thresholds() {
    assert_eq!(volume_icon(0), "🔈");
    assert_eq!(volume_icon(30), "🔈");
    assert_eq!(volume_icon(31), "🔉");
    assert_eq!(volume_icon(70), "🔉");
    assert_eq!(volume_icon(71), "🔊");
    assert_eq!(audio_text(AudioState { volume: 150, muted: false }), "🔊 150%");
}

#[test]
fn raw_volume_to_percent() {
    assert_eq!(volume_percent(0), 0);
    assert_eq!(volume_percent(0x10000), 100);
    assert_eq!(volume_percent(0x8000), 50);
    assert_eq!(volume_percent(655), 1);
    assert_eq!(volume_percent(327), 0);
    assert_eq!(volume_percent(u32::MAX), 6553600);
}

#[test]
fn bootstrap_decisions() {
    assert_eq!(bootstrap_step(SessionState::Ready), BootstrapStep::Proceed);
    assert_eq!(bootstrap_step(SessionState::Failed), BootstrapStep::Abort);
    assert_eq!(bootstrap_step(SessionState::Terminated), BootstrapStep::Abort);
    assert_eq!(bootstrap_step(SessionState::Connecting), BootstrapStep::Wait);
}

#[test]
fn notification_queries() {
    assert_eq!(notification_query(Facility::Server, true, 3), NotificationQuery::ServerInfo);
    assert_eq!(notification_query(Facility::Output, true, 3), NotificationQuery::OutputByIndex(3));
    assert_eq!(notification_query(Facility::Other, true, 3), NotificationQuery::Nothing);
    assert_eq!(notification_query(Facility::Output, false, 3), NotificationQuery::Nothing);
}
