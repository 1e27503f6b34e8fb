use jotabot::ids::{BotIds, NANOS_PER_SEC};
use jotabot::presence::{ActivityTracker, PresenceEvent, PresenceOutcome};

fn ids() -> BotIds {
    BotIds { tracked_user: 42, home_guild: 7, general_channel: 99, bot_user: 5 }
}

fn at(secs: u64) -> u64 {
    1_700_000_000 * NANOS_PER_SEC + secs * NANOS_PER_SEC
}

fn event(user: u64, guild: Option<u64>, activity: Option<&str>) -> PresenceEvent {
    PresenceEvent { user, guild, first_activity: activity.map(|a| a.to_string()) }
}

#[test]
fn other_users_and_servers_are_ignored() {
    let mut t = ActivityTracker::new(at(0));
    assert!(matches!(t.presence_update(&ids(), at(100), &event(1, Some(7), Some("Game"))), PresenceOutcome::Ignored));
    assert!(matches!(t.presence_update(&ids(), at(100), &event(42, Some(8), Some("Game"))), PresenceOutcome::Ignored));
    assert!(matches!(t.presence_update(&ids(), at(29), &event(42, Some(7), Some("Game"))), PresenceOutcome::Ignored));
    assert_eq!(t.game, "");
    assert_eq!(t.since, at(0));
}

#[test]
fn start_switch_and_stop() {
    let mut t = ActivityTracker::new(at(0));
    assert!(matches!(t.presence_update(&ids(), at(30), &event(42, Some(7), Some("Minecraft"))), PresenceOutcome::Started));
    assert_eq!(t.game, "Minecraft");
    assert_eq!(t.since, at(30));
    match t.presence_update(&ids(), at(30 + 3725), &event(42, Some(7), Some("Terraria"))) {
        PresenceOutcome::Switched { channel, text } => {
            assert_eq!(channel, 99);
            assert_eq!(text, "<@42> começou a jogar Terraria após 1 horas, 2 minutos e 5 segundos jogando Minecraft");
        }
        _ => panic!("expected a switch"),
    }
    assert_eq!(t.game, "Terraria");
    assert_eq!(t.since, at(3755));
    match t.presence_update(&ids(), at(3755 + 60), &event(42, Some(7), None)) {
        PresenceOutcome::Stopped { channel, text } => {
            assert_eq!(channel, 99);
            assert_eq!(text, "<@42> jogou Terraria por 0 horas, 1 minutos e 0 segundos.");
        }
        _ => panic!("expected a stop"),
    }
    assert_eq!(t.game, "");
    assert_eq!(t.since, at(3755));
    assert!(matches!(t.presence_update(&ids(), at(5000), &event(42, Some(7), None)), PresenceOutcome::Ignored));
}

#[test]
fn fillers_and_same_game_are_ignored() {
    let mut t = ActivityTracker::new(at(0));
    for filler in ["Spotify", "Hang Status", "Custom Status", ""] {
        assert!(matches!(t.presence_update(&ids(), at(40), &event(42, Some(7), Some(filler))), PresenceOutcome::Ignored));
    }
    assert!(matches!(t.presence_update(&ids(), at(40), &event(42, Some(7), Some("Doom"))), PresenceOutcome::Started));
    assert!(matches!(t.presence_update(&ids(), at(400), &event(42, Some(7), Some("Doom"))), PresenceOutcome::Ignored));
    assert!(matches!(t.presence_update(&ids(), at(400), &event(42, Some(7), Some("Spotify"))), PresenceOutcome::Ignored));
    assert_eq!(t.game, "Doom");
    assert_eq!(t.since, at(40));
}

#[test]
fn presence_update_defined_cases() {
    let t = ActivityTracker::new(at(10));
    assert!(!t.update_defined(&ids(), at(9), &event(1, None, None)));
    assert!(!t.update_defined(&ids(), at(20), &event(42, None, None)));
    assert!(t.update_defined(&ids(), at(20), &event(1, None, None)));
    assert!(t.update_defined(&ids(), at(10), &event(42, Some(3), None)));
}

#[test]
fn followed_game_is_never_filler() {
    let mut t = ActivityTracker::new(at(0));
    let activities = [Some("Spotify"), Some("Chess"), Some("Custom Status"), None, Some("Hang Status"), Some("Go"), Some("Spotify"), None];
    let mut secs = 0;
    for activity in activities {
        secs += 45;
        let before = t.game.clone();
        t.presence_update(&ids(), at(secs), &event(42, Some(7), activity));
        assert!(!["Spotify", "Hang Status", "Custom Status"].contains(&t.game.as_str()));
        assert!(t.game == before || t.game.is_empty() || activity == Some(t.game.as_str()));
        if t.game != before && !t.game.is_empty() {
            assert_eq!(t.since, at(secs));
        }
    }
}
