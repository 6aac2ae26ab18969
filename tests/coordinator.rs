use spotibridge::config::BotConfig;
use spotibridge::coordinator::{user_channel, BotEvent, BotState, Command, PlaybackState};

const ME: u64 = 42;

fn anchored(g: u64, c: u64) -> BotState {
    let mut s = BotState::new(ME);
    let cmds = s.handle(BotEvent::Started { user_location: Some((g, c)) });
    for cmd in &cmds {
        s.record(cmd, true);
    }
    assert_eq!(s.current_vc(), Some((g, c)));
    s
}

fn run(s: &mut BotState, e: BotEvent) -> Vec<Command> {
    let cmds = s.handle(e);
    for cmd in &cmds {
        s.record(cmd, true);
    }
    cmds
}

#[test]
fn start_joins_the_users_channel() {
    let mut s = BotState::new(ME);
    let cmds = s.handle(BotEvent::Started { user_location: Some((7, 70)) });
    assert_eq!(cmds.len(), 1);
    assert!(matches!(cmds[0], Command::Join { guild: 7, channel: 70 }));
    assert_eq!(s.current_vc(), None);
    s.record(&cmds[0], true);
    assert_eq!(s.current_vc(), Some((7, 70)));
    assert_eq!(s.playback(), PlaybackState::Playing);
}

#[test]
fn start_without_user_stays_idle() {
    let mut s = BotState::new(ME);
    let cmds = run(&mut s, BotEvent::Started { user_location: None });
    assert!(cmds.is_empty());
    assert_eq!(s.current_vc(), None);
    assert_eq!(s.playback(), PlaybackState::Playing);
}

#[test]
fn failed_join_stays_idle() {
    let mut s = BotState::new(ME);
    let cmds = s.handle(BotEvent::Started { user_location: Some((7, 70)) });
    s.record(&cmds[0], false);
    assert_eq!(s.current_vc(), None);
}

#[test]
fn stop_leaves_and_clears_presence() {
    let mut s = anchored(7, 70);
    let cmds = run(&mut s, BotEvent::Stopped);
    assert_eq!(cmds.len(), 2);
    assert!(matches!(cmds[0], Command::Leave { guild: 7 }));
    assert!(matches!(cmds[1], Command::SetPresence { text: None }));
    assert_eq!(s.current_vc(), None);
    assert_eq!(s.playback(), PlaybackState::Stopped);
}

#[test]
fn stop_when_idle_does_nothing() {
    let mut s = BotState::new(ME);
    assert!(run(&mut s, BotEvent::Stopped).is_empty());
    assert_eq!(s.current_vc(), None);
}

#[test]
fn failed_leave_stays_anchored() {
    let mut s = anchored(7, 70);
    let cmds = s.handle(BotEvent::Stopped);
    s.record(&cmds[0], false);
    assert_eq!(s.current_vc(), Some((7, 70)));
}

#[test]
fn user_move_is_followed() {
    let mut s = anchored(7, 70);
    let cmds = run(
        &mut s,
        BotEvent::VoiceStateChanged { user: ME, guild: 7, old_channel: Some(70), new_channel: Some(71) },
    );
    assert_eq!(cmds.len(), 2);
    assert!(matches!(cmds[0], Command::Leave { guild: 7 }));
    assert!(matches!(cmds[1], Command::Join { guild: 7, channel: 71 }));
    assert_eq!(s.current_vc(), Some((7, 71)));
}

#[test]
fn user_leaving_voice_makes_bot_leave() {
    let mut s = anchored(7, 70);
    let cmds = run(
        &mut s,
        BotEvent::VoiceStateChanged { user: ME, guild: 7, old_channel: Some(70), new_channel: None },
    );
    assert_eq!(cmds.len(), 1);
    assert!(matches!(cmds[0], Command::Leave { guild: 7 }));
    assert_eq!(s.current_vc(), None);
}

#[test]
fn user_joining_from_nowhere_is_followed() {
    let mut s = anchored(7, 70);
    let cmds = run(
        &mut s,
        BotEvent::VoiceStateChanged { user: ME, guild: 7, old_channel: None, new_channel: Some(72) },
    );
    assert_eq!(cmds.len(), 1);
    assert!(matches!(cmds[0], Command::Join { guild: 7, channel: 72 }));
    assert_eq!(s.current_vc(), Some((7, 72)));
}

#[test]
fn same_channel_update_does_nothing() {
    let mut s = anchored(7, 70);
    let cmds = run(
        &mut s,
        BotEvent::VoiceStateChanged { user: ME, guild: 7, old_channel: Some(70), new_channel: Some(70) },
    );
    assert!(cmds.is_empty());
    assert_eq!(s.current_vc(), Some((7, 70)));
}

#[test]
fn other_user_is_ignored() {
    let mut s = anchored(7, 70);
    let cmds = run(
        &mut s,
        BotEvent::VoiceStateChanged { user: 9, guild: 7, old_channel: Some(70), new_channel: Some(71) },
    );
    assert!(cmds.is_empty());
    assert_eq!(s.current_vc(), Some((7, 70)));
}

#[test]
fn voice_changes_while_idle_are_ignored() {
    let mut s = BotState::new(ME);
    let cmds = run(
        &mut s,
        BotEvent::VoiceStateChanged { user: ME, guild: 7, old_channel: None, new_channel: Some(70) },
    );
    assert!(cmds.is_empty());
    assert_eq!(s.current_vc(), None);
}

#[test]
fn repeated_pauses_keep_the_anchor() {
    let mut s = anchored(7, 70);
    for _ in 0..5 {
        let cmds = run(&mut s, BotEvent::Paused);
        assert_eq!(cmds.len(), 1);
        assert!(matches!(cmds[0], Command::SetPresence { text: None }));
        assert_eq!(s.current_vc(), Some((7, 70)));
        assert_eq!(s.playback(), PlaybackState::Paused);
    }
    let mut idle = BotState::new(ME);
    run(&mut idle, BotEvent::Paused);
    run(&mut idle, BotEvent::Paused);
    assert_eq!(idle.current_vc(), None);
}

#[test]
fn track_change_sets_listening_text() {
    let mut s = BotState::new(ME);
    let cmds = run(
        &mut s,
        BotEvent::TrackChanged { metadata: Some(("Artist".to_string(), "Title".to_string())) },
    );
    assert_eq!(cmds.len(), 1);
    match &cmds[0] {
        Command::SetPresence { text: Some(t) } => assert_eq!(t, "Artist: Title"),
        other => panic!("unexpected command {:?}", other),
    }
}

#[test]
fn track_change_without_metadata_does_nothing() {
    let mut s = anchored(7, 70);
    assert!(run(&mut s, BotEvent::TrackChanged { metadata: None }).is_empty());
    assert_eq!(s.current_vc(), Some((7, 70)));
}

#[test]
fn started_while_anchored_issues_nothing() {
    let mut s = anchored(7, 70);
    assert!(run(&mut s, BotEvent::Started { user_location: Some((8, 80)) }).is_empty());
    assert_eq!(s.current_vc(), Some((7, 70)));
}

#[test]
fn user_channel_takes_first_guild_with_a_channel() {
    assert_eq!(user_channel(&vec![]), None);
    assert_eq!(user_channel(&vec![(1, None), (2, None)]), None);
    assert_eq!(user_channel(&vec![(1, None), (2, Some(20)), (3, Some(30))]), Some((2, 20)));
}

#[test]
fn config_holds_the_followed_user() {
    let c = BotConfig {
        discord_token: "t".to_string(),
        discord_user: 42,
        spotify_username: "u".to_string(),
        spotify_password: "p".to_string(),
        cache_dir: "cache".to_string(),
    };
    let s = BotState::new(c.clone().discord_user);
    assert_eq!(s.followed_user(), 42);
}

#[test]
fn shutdown_leaves_when_anchored() {
    let mut s = anchored(7, 70);
    let cmds = s.shutdown();
    assert_eq!(cmds.len(), 1);
    assert!(matches!(cmds[0], Command::Leave { guild: 7 }));
    s.record(&cmds[0], true);
    assert_eq!(s.current_vc(), None);
    assert!(s.shutdown().is_empty());
}
