use jotabot::calls::{ready_action, CallAction, CallTracker, VoiceEvent};
use jotabot::ids::{BotIds, NANOS_PER_SEC};

fn ids() -> BotIds {
    BotIds { tracked_user: 42, home_guild: 7, general_channel: 99, bot_user: 5 }
}

fn ev(user: u64, channel: Option<u64>, previous: Option<Option<u64>>, self_stream: Option<bool>) -> VoiceEvent {
    VoiceEvent { user, guild: Some(7), channel, self_stream, previous }
}

#[test]
fn member_joins_a_call() {
    let mut t = CallTracker::new(0);
    assert_eq!(t.last_channel, 1);
    let a = t.voice_state_update(&ids(), 500, &ev(42, Some(300), None, None), None);
    assert!(matches!(a, CallAction::Join { guild: 7, channel: 300 }));
    assert_eq!(t.call_start, 500);
    assert_eq!(t.last_channel, 300);
}

#[test]
fn member_moves_and_join_failure_is_recorded() {
    let mut t = CallTracker { call_start: 0, last_channel: 300 };
    let a = t.voice_state_update(&ids(), 10, &ev(42, Some(301), Some(Some(300)), None), None);
    assert!(matches!(a, CallAction::Follow { guild: 7, channel: 301 }));
    assert_eq!(t.last_channel, 300);
    t.join_failed(&a);
    assert_eq!(t.last_channel, 301);
    t.join_failed(&CallAction::Join { guild: 7, channel: 400 });
    assert_eq!(t.last_channel, 301);
}

#[test]
fn screen_share_is_announced() {
    let mut t = CallTracker { call_start: 1000 * NANOS_PER_SEC, last_channel: 300 };
    let now = (1000 + 2 * 3600 + 5 * 60 + 7) * NANOS_PER_SEC + 999;
    match t.voice_state_update(&ids(), now, &ev(42, Some(300), Some(Some(300)), Some(false)), None) {
        CallAction::Announce { channel, text, post } => {
            assert_eq!(channel, 99);
            assert_eq!(text, "<@42> demorou 2 horas, 5 minutos, 7 segundos para compartilhar a tela");
            assert_eq!(post, "Jotave demorou 2 horas, 5 minutos, 7 segundos para compartilhar a tela");
        }
        _ => panic!("expected an announcement"),
    }
    let a = t.voice_state_update(&ids(), now, &ev(42, Some(300), Some(Some(300)), None), None);
    assert!(matches!(a, CallAction::Nothing));
}

#[test]
fn member_leaves_and_others_are_ignored() {
    let mut t = CallTracker { call_start: 3, last_channel: 300 };
    assert!(matches!(t.voice_state_update(&ids(), 10, &ev(42, None, Some(Some(300)), None), None), CallAction::Leave { guild: 7 }));
    assert!(matches!(t.voice_state_update(&ids(), 10, &ev(77, Some(1), None, None), None), CallAction::Nothing));
    assert_eq!(t.call_start, 3);
    assert_eq!(t.last_channel, 300);
}

#[test]
fn bot_returns_to_the_member() {
    let mut t = CallTracker { call_start: 0, last_channel: 300 };
    assert!(matches!(t.voice_state_update(&ids(), 0, &ev(5, Some(301), None, None), None), CallAction::Return { guild: 7, channel: 300 }));
    assert!(matches!(t.voice_state_update(&ids(), 0, &ev(5, Some(301), None, None), Some(Some(301))), CallAction::Nothing));
    assert!(matches!(t.voice_state_update(&ids(), 0, &ev(5, Some(301), None, None), Some(Some(305))), CallAction::Return { guild: 7, channel: 305 }));
    assert!(matches!(t.voice_state_update(&ids(), 0, &ev(5, None, None, None), None), CallAction::Nothing));
    assert!(matches!(t.voice_state_update(&ids(), 0, &ev(5, None, None, None), Some(Some(305))), CallAction::Return { guild: 7, channel: 305 }));
    assert_eq!(t.last_channel, 300);
}

#[test]
fn call_update_defined_cases() {
    let t = CallTracker { call_start: 100, last_channel: 300 };
    assert!(!t.update_defined(&ids(), 200, &ev(1, None, None, None), Some(None)));
    assert!(!t.update_defined(&ids(), 200, &ev(42, Some(3), Some(None), None), None));
    assert!(!t.update_defined(&ids(), 50, &ev(42, Some(3), Some(Some(3)), Some(true)), None));
    assert!(t.update_defined(&ids(), 50, &ev(42, Some(3), Some(Some(4)), Some(true)), None));
    let no_guild = VoiceEvent { user: 5, guild: None, channel: Some(9), self_stream: None, previous: None };
    assert!(!t.update_defined(&ids(), 0, &no_guild, None));
    assert!(t.update_defined(&ids(), 0, &no_guild, Some(Some(9))));
    let disconnected = VoiceEvent { user: 5, guild: None, channel: None, self_stream: None, previous: None };
    assert!(!t.update_defined(&ids(), 0, &disconnected, Some(Some(9))));
    assert!(t.update_defined(&ids(), 0, &disconnected, None));
}

#[test]
fn ready_follows_the_member() {
    assert!(matches!(ready_action(&ids(), Some(Some(300))), CallAction::Follow { guild: 7, channel: 300 }));
    assert!(matches!(ready_action(&ids(), Some(None)), CallAction::Nothing));
    assert!(matches!(ready_action(&ids(), None), CallAction::Nothing));
}
