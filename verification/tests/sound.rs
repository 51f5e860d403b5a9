use desktop_cockpit::sound::{next_sound_step, SoundPlayer, SoundStep};
use desktop_cockpit::system::SystemMetricsError;

#[test]
fn the_file_player_comes_first_when_the_file_is_there() {
    assert_eq!(next_sound_step(true, &[]), SoundStep::Play(SoundPlayer::Paplay));
    assert_eq!(next_sound_step(true, &[true]), SoundStep::Play(SoundPlayer::Paplay));
    assert_eq!(next_sound_step(true, &[true, false]), SoundStep::Play(SoundPlayer::Paplay));
    assert_eq!(next_sound_step(true, &[false, true, false]), SoundStep::Done);
}

#[test]
fn the_event_player_follows_when_the_file_player_never_played() {
    assert_eq!(
        next_sound_step(true, &[false, false, false]),
        SoundStep::Play(SoundPlayer::Canberra)
    );
    assert_eq!(
        next_sound_step(true, &[false, false, false, true, false]),
        SoundStep::Play(SoundPlayer::Canberra)
    );
    assert_eq!(
        next_sound_step(true, &[false, false, false, true, false, false]),
        SoundStep::Done
    );
    assert_eq!(
        next_sound_step(true, &[false; 6]),
        SoundStep::ReportFailure
    );
}

#[test]
fn without_the_file_only_the_event_player_is_tried() {
    assert_eq!(next_sound_step(false, &[]), SoundStep::Play(SoundPlayer::Canberra));
    assert_eq!(next_sound_step(false, &[false, false]), SoundStep::Play(SoundPlayer::Canberra));
    assert_eq!(next_sound_step(false, &[false, false, true]), SoundStep::Done);
    assert_eq!(next_sound_step(false, &[false, false, false]), SoundStep::ReportFailure);
}

#[test]
fn metrics_errors_compare_by_kind() {
    assert_eq!(SystemMetricsError::Collect, SystemMetricsError::Collect);
    assert_eq!(format!("{:?}", SystemMetricsError::Collect), "Collect");
}
