//! The end-of-session sound: which player to try next. Each player is tried
//! a fixed number of times in a row; the sound file's own player comes
//! first when the file is there, and the desktop's event-sound player
//! follows when that one never played.

use vstd::prelude::*;

verus! {

/// A program that can play the end-of-session sound.
#[derive(Debug, Clone, Copy, PartialEq, Eq, Structural)]
pub enum SoundPlayer {
    /// `paplay`, playing the sound file.
    Paplay,
    /// `canberra-gtk-play`, playing the desktop's named event sound.
    Canberra,
}

/// What to do next while playing the sound.
#[derive(Debug, Clone, Copy, PartialEq, Eq, Structural)]
pub enum SoundStep {
    /// Run this player once more.
    Play(SoundPlayer),
    /// The sound was played: stop.
    Done,
    /// No attempt played: say so, and stop.
    ReportFailure,
}

/// How many times in a row each player is tried.
pub const SOUND_ATTEMPTS: usize = 3;

/// Some attempt among `outcomes` played the sound.
pub open spec fn any_played(outcomes: Seq<bool>) -> bool {
    exists|i: int| 0 <= i < outcomes.len() && #[trigger] outcomes[i]
}

/// The attempts of the sound file's player: all of its tries when the file
/// is there, none otherwise.
pub open spec fn file_attempts(file_exists: bool) -> int {
    if file_exists {
        SOUND_ATTEMPTS as int
    } else {
        0
    }
}

/// The next step after the attempts whose outcomes (`true`: it played) are
/// `outcomes`, in order: the file's player while it has tries left, then
/// done if it ever played; else the event-sound player while it has tries
/// left, then done if it ever played, else a failure to report.
pub open spec fn sound_step(file_exists: bool, outcomes: Seq<bool>) -> SoundStep {
    let first = file_attempts(file_exists);
    let n = outcomes.len();
    if n < first {
        SoundStep::Play(SoundPlayer::Paplay)
    } else if any_played(outcomes.take(first)) {
        SoundStep::Done
    } else if n < first + SOUND_ATTEMPTS {
        SoundStep::Play(SoundPlayer::Canberra)
    } else if any_played(outcomes.subrange(first, first + SOUND_ATTEMPTS)) {
        SoundStep::Done
    } else {
        SoundStep::ReportFailure
    }
}

/// Whether some attempt in `outcomes[from..to]` played the sound.
fn played_between(outcomes: &[bool], from: usize, to: usize) -> (played: bool)
    requires
        from <= to <= outcomes@.len(),
    ensures
        played == any_played(outcomes@.subrange(from as int, to as int)),
{
    let ghost part = outcomes@.subrange(from as int, to as int);
    let mut i: usize = from;
    while i < to
        invariant
            from <= i <= to <= outcomes@.len(),
            part == outcomes@.subrange(from as int, to as int),
            forall|k: int| from <= k < i ==> !outcomes@[k],
        decreases to - i,
    {
        if outcomes[i] {
            assert(part[i - from]);
            return true;
        }
        i = i + 1;
    }
    assert forall|k: int| 0 <= k < part.len() implies !part[k] by {
        assert(part[k] == outcomes@[from + k]);
    }
    false
}

/// The next step of playing the sound, given whether the sound file is
/// there and the outcomes of the attempts made so far.
pub fn next_sound_step(file_exists: bool, outcomes: &[bool]) -> (step: SoundStep)
    ensures
        step == sound_step(file_exists, outcomes@),
{
    let first: usize = if file_exists {
        SOUND_ATTEMPTS
    } else {
        0
    };
    let n = outcomes.len();
    if n < first {
        return SoundStep::Play(SoundPlayer::Paplay);
    }
    assert(outcomes@.subrange(0, first as int) =~= outcomes@.take(first as int));
    if played_between(outcomes, 0, first) {
        return SoundStep::Done;
    }
    if n < first + SOUND_ATTEMPTS {
        return SoundStep::Play(SoundPlayer::Canberra);
    }
    if played_between(outcomes, first, first + SOUND_ATTEMPTS) {
        SoundStep::Done
    } else {
        SoundStep::ReportFailure
    }
}

/// Playing the sound always comes to an end: once each player has had its
/// tries, the step is done or a failure, never another attempt; and a
/// failure is reported only when none of those tries played.
pub proof fn lemma_sound_ends(file_exists: bool, outcomes: Seq<bool>)
    ensures
        outcomes.len() >= file_attempts(file_exists) + SOUND_ATTEMPTS ==> !(sound_step(
            file_exists,
            outcomes,
        ) is Play),
        sound_step(file_exists, outcomes) == SoundStep::ReportFailure ==> !any_played(
            outcomes.take(file_attempts(file_exists) + SOUND_ATTEMPTS),
        ),
{
    let first = file_attempts(file_exists);
    if sound_step(file_exists, outcomes) == SoundStep::ReportFailure {
        assert(outcomes.len() >= first + SOUND_ATTEMPTS);
        let tried = outcomes.take(first + SOUND_ATTEMPTS);
        assert forall|i: int| 0 <= i < tried.len() implies !(#[trigger] tried[i]) by {
            if i < first {
                assert(outcomes.take(first)[i] == outcomes[i]);
            } else {
                assert(outcomes.subrange(first, first + SOUND_ATTEMPTS)[i - first] == outcomes[i]);
            }
        }
    }
}

} // verus!
