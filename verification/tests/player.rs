use seashell::player::{AudioStatus, Command, FailureClass, Message, PlaybackError, Player};

fn playing(track: &str) -> Player {
    let mut player = Player::default();
    player.set_music(track);
    assert_eq!(player.update(Message::Play), Ok(Command::Start { create_session: true }));
    assert_eq!(player.started(Ok(())), Ok(Command::SetVolume { percent: 100 }));
    assert_eq!(player.state(), AudioStatus::Playing);
    player
}

#[test]
fn a_new_player_has_played_nothing() {
    let player = Player::default();
    assert_eq!(player.state(), AudioStatus::Uninitialized);
    assert_eq!(player.volume(), 100);
    assert_eq!(player.music(), "");
    assert!(!player.has_session());
    assert!(!player.has_handle());
    assert!(!player.is_starting());
}

#[test]
fn selecting_a_track_touches_nothing_else() {
    let mut player = Player::default();
    player.set_music("/music/a.mp3");
    assert_eq!(player.music(), "/music/a.mp3");
    assert_eq!(player.state(), AudioStatus::Uninitialized);
    assert_eq!(player.volume(), 100);
    assert!(!player.has_session());

    let mut player = playing("/music/a.mp3");
    player.set_music("/music/b.mp3");
    assert_eq!(player.music(), "/music/b.mp3");
    assert_eq!(player.state(), AudioStatus::Playing);
    assert!(player.has_session());
    assert!(player.has_handle());
}

#[test]
fn pause_and_stop_do_nothing_before_the_first_play() {
    let mut player = Player::default();
    player.set_music("/music/a.mp3");
    assert_eq!(player.update(Message::Pause), Ok(Command::Nothing));
    assert_eq!(player.state(), AudioStatus::Uninitialized);
    assert_eq!(player.update(Message::Stop), Ok(Command::Nothing));
    assert_eq!(player.state(), AudioStatus::Uninitialized);
    assert_eq!(player.pause(), Command::Nothing);
    assert_eq!(player.stop(), Command::Nothing);
    assert_eq!(player.state(), AudioStatus::Uninitialized);
    assert!(!player.has_session());
    assert!(!player.has_handle());
    assert_eq!(player.music(), "/music/a.mp3");
    assert_eq!(player.volume(), 100);
}

#[test]
fn play_without_a_track_fails_and_changes_nothing() {
    let mut player = Player::default();
    let failed = player.update(Message::Play).unwrap_err();
    assert_eq!(failed.class, FailureClass::StreamOpenFailure);
    assert_eq!(failed.cause, "no track selected");
    assert_eq!(player.state(), AudioStatus::Uninitialized);
    assert!(!player.has_session());
    assert_eq!(player.play().unwrap_err().class, FailureClass::StreamOpenFailure);
}

#[test]
fn play_asks_for_the_track_to_be_started_and_waits_for_the_answer() {
    let mut player = Player::default();
    player.set_music("/music/a.mp3");
    assert_eq!(player.update(Message::Play), Ok(Command::Start { create_session: true }));
    assert_eq!(player.state(), AudioStatus::Uninitialized);
    assert!(!player.has_session());
    assert!(!player.has_handle());
    assert!(player.is_starting());
    assert_eq!(player.started(Ok(())), Ok(Command::SetVolume { percent: 100 }));
    assert!(!player.is_starting());
    assert_eq!(player.state(), AudioStatus::Playing);
}

#[test]
fn the_track_that_was_asked_for_plays_even_if_another_is_selected_meanwhile() {
    let mut player = Player::default();
    player.set_music("/music/a.mp3");
    assert_eq!(player.update(Message::Play), Ok(Command::Start { create_session: true }));
    player.set_music("");
    assert_eq!(player.update(Message::VolumeChanged(7)), Ok(Command::Nothing));
    assert_eq!(player.update(Message::Pause), Ok(Command::Nothing));
    assert_eq!(player.update(Message::Stop), Ok(Command::Nothing));
    assert!(player.is_starting());
    assert_eq!(player.started(Ok(())), Ok(Command::SetVolume { percent: 7 }));
    assert_eq!(player.state(), AudioStatus::Playing);
}

#[test]
fn asking_twice_before_the_answer_asks_for_the_start_again() {
    let mut player = Player::default();
    player.set_music("/music/a.mp3");
    assert_eq!(player.update(Message::Play), Ok(Command::Start { create_session: true }));
    assert_eq!(player.update(Message::Play), Ok(Command::Start { create_session: true }));
    assert_eq!(player.started(Ok(())), Ok(Command::SetVolume { percent: 100 }));
    assert_eq!(player.started(Ok(())), Ok(Command::Nothing));
    assert_eq!(player.state(), AudioStatus::Playing);
}

#[test]
fn a_refused_play_starts_nothing() {
    let mut player = Player::default();
    assert!(player.update(Message::Play).is_err());
    assert!(!player.is_starting());
    assert_eq!(player.started(Ok(())), Ok(Command::Nothing));
    assert_eq!(player.state(), AudioStatus::Uninitialized);
    assert!(!player.has_session());
}

#[test]
fn a_started_track_plays_at_the_current_volume() {
    let mut player = Player::default();
    player.set_music("/music/a.mp3");
    assert_eq!(player.update(Message::VolumeChanged(40)), Ok(Command::Nothing));
    assert_eq!(player.update(Message::Play), Ok(Command::Start { create_session: true }));
    assert_eq!(player.started(Ok(())), Ok(Command::SetVolume { percent: 40 }));
    assert_eq!(player.state(), AudioStatus::Playing);
    assert!(player.has_session());
    assert!(player.has_handle());
    assert_eq!(player.volume(), 40);
}

#[test]
fn a_missing_track_leaves_the_player_uninitialized() {
    let mut player = Player::default();
    player.set_music("/missing.mp3");
    assert_eq!(player.update(Message::Play), Ok(Command::Start { create_session: true }));
    let reply = Err(PlaybackError::new(FailureClass::StreamOpenFailure, "No such file or directory"));
    let failed = player.started(reply).unwrap_err();
    assert_eq!(failed.class, FailureClass::StreamOpenFailure);
    assert_eq!(failed.cause, "No such file or directory");
    assert_eq!(player.state(), AudioStatus::Uninitialized);
    assert!(!player.has_handle());
    assert_eq!(player.music(), "/missing.mp3");
    assert_eq!(player.volume(), 100);
}

#[test]
fn a_missing_track_leaves_a_stopped_player_stopped() {
    let mut player = playing("/music/a.mp3");
    assert_eq!(player.update(Message::Stop), Ok(Command::Stop));
    player.set_music("/missing.mp3");
    assert_eq!(player.update(Message::Play), Ok(Command::Start { create_session: false }));
    let reply = Err(PlaybackError::new(FailureClass::StreamOpenFailure, "No such file or directory"));
    assert_eq!(player.started(reply).unwrap_err().class, FailureClass::StreamOpenFailure);
    assert_eq!(player.state(), AudioStatus::Stopped);
    assert!(player.has_session());
    assert!(player.has_handle());
}

#[test]
fn the_session_outlives_a_track_that_could_not_be_opened() {
    let mut player = Player::default();
    player.set_music("/missing.mp3");
    assert_eq!(player.update(Message::Play), Ok(Command::Start { create_session: true }));
    let reply = Err(PlaybackError::new(FailureClass::StreamOpenFailure, "unsupported codec"));
    assert!(player.started(reply).is_err());
    assert!(player.has_session());
    assert_eq!(player.state(), AudioStatus::Uninitialized);
    player.set_music("/music/a.mp3");
    assert_eq!(player.update(Message::Play), Ok(Command::Start { create_session: false }));
    assert_eq!(player.started(Ok(())), Ok(Command::SetVolume { percent: 100 }));
    assert_eq!(player.state(), AudioStatus::Playing);
}

#[test]
fn a_failed_engine_leaves_no_session() {
    let mut player = Player::default();
    player.set_music("/music/a.mp3");
    assert_eq!(player.update(Message::Play), Ok(Command::Start { create_session: true }));
    let reply = Err(PlaybackError::new(FailureClass::EngineInitFailure, "no output device"));
    let failed = player.started(reply).unwrap_err();
    assert_eq!(failed.class, FailureClass::EngineInitFailure);
    assert_eq!(failed.cause, "no output device");
    assert_eq!(player.state(), AudioStatus::Uninitialized);
    assert!(!player.has_session());
    assert!(!player.has_handle());
    // The next attempt creates the session anew.
    assert_eq!(player.update(Message::Play), Ok(Command::Start { create_session: true }));
}

#[test]
fn a_rejected_start_counts_as_a_failure_with_a_session() {
    let mut player = Player::default();
    player.set_music("/music/a.mp3");
    assert_eq!(player.update(Message::Play), Ok(Command::Start { create_session: true }));
    let reply = Err(PlaybackError::new(FailureClass::EngineOperationFailure, "sound limit reached"));
    assert_eq!(player.started(reply).unwrap_err().class, FailureClass::EngineOperationFailure);
    assert_eq!(player.state(), AudioStatus::Uninitialized);
    assert!(player.has_session());
}

#[test]
fn play_while_playing_does_nothing() {
    let mut player = playing("/music/a.mp3");
    assert_eq!(player.update(Message::Play), Ok(Command::Nothing));
    assert_eq!(player.state(), AudioStatus::Playing);
}

#[test]
fn pause_then_play_resumes_on_the_same_session() {
    let mut player = playing("/music/a.mp3");
    assert_eq!(player.update(Message::Pause), Ok(Command::Pause));
    assert_eq!(player.state(), AudioStatus::Paused);
    assert!(player.has_session());
    assert!(player.has_handle());
    assert_eq!(player.update(Message::Play), Ok(Command::Resume));
    assert_eq!(player.state(), AudioStatus::Playing);
    assert!(player.has_session());
    assert!(player.has_handle());
    assert_eq!(player.music(), "/music/a.mp3");
    assert_eq!(player.volume(), 100);
}

#[test]
fn a_paused_player_resumes_even_without_a_selected_track() {
    let mut player = playing("/music/a.mp3");
    assert_eq!(player.update(Message::Pause), Ok(Command::Pause));
    player.set_music("");
    assert_eq!(player.update(Message::Play), Ok(Command::Resume));
    assert_eq!(player.state(), AudioStatus::Playing);
}

#[test]
fn pause_does_nothing_unless_playing() {
    let mut player = playing("/music/a.mp3");
    assert_eq!(player.update(Message::Pause), Ok(Command::Pause));
    assert_eq!(player.update(Message::Pause), Ok(Command::Nothing));
    assert_eq!(player.state(), AudioStatus::Paused);
    assert_eq!(player.update(Message::Stop), Ok(Command::Stop));
    assert_eq!(player.update(Message::Pause), Ok(Command::Nothing));
    assert_eq!(player.state(), AudioStatus::Stopped);
}

#[test]
fn stop_stops_what_plays_or_is_paused() {
    let mut player = playing("/music/a.mp3");
    assert_eq!(player.update(Message::Stop), Ok(Command::Stop));
    assert_eq!(player.state(), AudioStatus::Stopped);
    assert!(player.has_session());

    let mut player = playing("/music/a.mp3");
    assert_eq!(player.update(Message::Pause), Ok(Command::Pause));
    assert_eq!(player.update(Message::Stop), Ok(Command::Stop));
    assert_eq!(player.state(), AudioStatus::Stopped);

    assert_eq!(player.update(Message::Stop), Ok(Command::Nothing));
    assert_eq!(player.state(), AudioStatus::Stopped);
}

#[test]
fn play_after_stop_reuses_the_session_and_opens_a_new_stream() {
    let mut player = Player::default();
    player.set_music("/music/a.mp3");
    assert_eq!(player.update(Message::Play), Ok(Command::Start { create_session: true }));
    assert_eq!(player.started(Ok(())), Ok(Command::SetVolume { percent: 100 }));
    assert_eq!(player.update(Message::Stop), Ok(Command::Stop));
    assert_eq!(player.state(), AudioStatus::Stopped);
    assert!(player.has_session());
    assert_eq!(player.update(Message::Play), Ok(Command::Start { create_session: false }));
    assert_eq!(player.state(), AudioStatus::Stopped);
    assert_eq!(player.started(Ok(())), Ok(Command::SetVolume { percent: 100 }));
    assert_eq!(player.state(), AudioStatus::Playing);
    assert!(player.has_session());
    assert!(player.has_handle());
}

#[test]
fn play_after_stop_without_a_track_fails() {
    let mut player = playing("/music/a.mp3");
    assert_eq!(player.update(Message::Stop), Ok(Command::Stop));
    player.set_music("");
    let failed = player.update(Message::Play).unwrap_err();
    assert_eq!(failed.class, FailureClass::StreamOpenFailure);
    assert_eq!(player.state(), AudioStatus::Stopped);
}

#[test]
fn the_volume_is_stored_without_the_engine_before_the_first_play() {
    let mut player = Player::default();
    assert_eq!(player.update(Message::VolumeChanged(35)), Ok(Command::Nothing));
    assert_eq!(player.volume(), 35);
    assert_eq!(player.state(), AudioStatus::Uninitialized);
    assert!(!player.has_session());
    assert_eq!(player.set_volume(0), Command::Nothing);
    assert_eq!(player.volume(), 0);
}

#[test]
fn the_volume_is_set_on_the_sound_at_once() {
    let mut player = playing("/music/a.mp3");
    assert_eq!(player.update(Message::VolumeChanged(35)), Ok(Command::SetVolume { percent: 35 }));
    assert_eq!(player.volume(), 35);
    assert_eq!(player.state(), AudioStatus::Playing);

    assert_eq!(player.update(Message::Pause), Ok(Command::Pause));
    assert_eq!(player.update(Message::VolumeChanged(70)), Ok(Command::SetVolume { percent: 70 }));
    assert_eq!(player.volume(), 70);
    assert_eq!(player.state(), AudioStatus::Paused);

    assert_eq!(player.update(Message::Stop), Ok(Command::Stop));
    assert_eq!(player.update(Message::VolumeChanged(0)), Ok(Command::SetVolume { percent: 0 }));
    assert_eq!(player.volume(), 0);
    assert_eq!(player.state(), AudioStatus::Stopped);
}

#[test]
fn the_volume_is_not_clamped() {
    let mut player = playing("/music/a.mp3");
    assert_eq!(player.update(Message::VolumeChanged(250)), Ok(Command::SetVolume { percent: 250 }));
    assert_eq!(player.volume(), 250);
    assert_eq!(
        player.update(Message::VolumeChanged(u32::MAX)),
        Ok(Command::SetVolume { percent: u32::MAX })
    );
    assert_eq!(player.volume(), u32::MAX);
}

#[test]
fn the_volume_outlives_stop_and_a_change_of_track() {
    let mut player = playing("/music/a.mp3");
    assert_eq!(player.update(Message::VolumeChanged(20)), Ok(Command::SetVolume { percent: 20 }));
    assert_eq!(player.update(Message::Stop), Ok(Command::Stop));
    player.set_music("/music/b.mp3");
    assert_eq!(player.volume(), 20);
    assert_eq!(player.update(Message::Play), Ok(Command::Start { create_session: false }));
    assert_eq!(player.started(Ok(())), Ok(Command::SetVolume { percent: 20 }));
}

#[test]
fn an_answer_that_nothing_awaits_changes_nothing() {
    let mut player = playing("/music/a.mp3");
    assert_eq!(player.started(Ok(())), Ok(Command::Nothing));
    assert_eq!(player.state(), AudioStatus::Playing);
    let reply = Err(PlaybackError::new(FailureClass::EngineInitFailure, "late"));
    assert_eq!(player.started(reply).unwrap_err().cause, "late");
    assert_eq!(player.state(), AudioStatus::Playing);
    assert!(player.has_session());

    let mut player = Player::default();
    player.set_music("/music/a.mp3");
    assert_eq!(player.started(Ok(())), Ok(Command::Nothing));
    assert_eq!(player.state(), AudioStatus::Uninitialized);
    assert!(!player.has_session());
    let reply = Err(PlaybackError::new(FailureClass::StreamOpenFailure, "late"));
    assert!(player.started(reply).is_err());
    assert!(!player.has_session());
    assert_eq!(player.state(), AudioStatus::Uninitialized);
}

#[test]
fn update_does_what_the_single_operations_do() {
    let mut a = playing("/music/a.mp3");
    let mut b = playing("/music/a.mp3");
    assert_eq!(a.update(Message::Pause), Ok(b.pause()));
    assert_eq!(a.state(), b.state());
    assert_eq!(a.update(Message::Play), b.play());
    assert_eq!(a.state(), b.state());
    assert_eq!(a.update(Message::VolumeChanged(5)), Ok(b.set_volume(5)));
    assert_eq!(a.volume(), b.volume());
    assert_eq!(a.update(Message::Stop), Ok(b.stop()));
    assert_eq!(a.state(), b.state());
}

#[test]
fn the_status_shows_by_name() {
    assert_eq!(AudioStatus::Playing.to_string(), "Playing");
    assert_eq!(AudioStatus::Paused.to_string(), "Paused");
    assert_eq!(AudioStatus::Stopped.to_string(), "Stopped");
    assert_eq!(AudioStatus::Uninitialized.to_string(), "None");
    assert_eq!(AudioStatus::default(), AudioStatus::Uninitialized);
}

#[test]
fn a_failure_shows_its_class_and_cause() {
    let error = PlaybackError::new(FailureClass::StreamOpenFailure, "No such file or directory");
    assert_eq!(error.to_string(), "failed to play: No such file or directory");
    let error = PlaybackError::new(FailureClass::EngineInitFailure, "no output device");
    assert_eq!(error.to_string(), "audio engine failed to start: no output device");
    let error = PlaybackError::new(FailureClass::EngineOperationFailure, "queue full");
    assert_eq!(error.to_string(), "audio engine rejected the command: queue full");
    assert_eq!(FailureClass::StreamOpenFailure.to_string(), "failed to play");
}
