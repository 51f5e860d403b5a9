//! The pomodoro timer of the panel: its modes, its state, and what each
//! button press and each second does to it.
//!
//! The panel owns a `PomodoroState`; each event (a mode button, a tick of
//! the one-second timer, the pause button, the reset button) updates it and
//! answers with the `TimerAction` the panel must take on its timer source.

use vstd::prelude::*;

verus! {

broadcast use vstd::string::group_string_axioms;

/// The character of the decimal digit `d`.
pub open spec fn digit_char(d: nat) -> char {
    (('0' as u32) + d) as char
}

/// `n` in decimal, without leading zeros.
pub open spec fn decimal(n: nat) -> Seq<char>
    decreases n,
{
    if n < 10 {
        seq![digit_char(n)]
    } else {
        decimal(n / 10).push(digit_char(n % 10))
    }
}

/// `n` in decimal, padded with a zero to two digits (`{:02}`).
pub open spec fn two_digits(n: nat) -> Seq<char> {
    if n < 10 {
        seq!['0'] + decimal(n)
    } else {
        decimal(n)
    }
}

/// A number of seconds as the timer shows it: minutes and seconds, `MM:SS`.
pub open spec fn timer_text(total_seconds: nat) -> Seq<char> {
    two_digits(total_seconds / 60) + seq![':'] + two_digits(total_seconds % 60)
}

/// Under a hundred minutes, the timer shows exactly `MM:SS`: two digits of
/// minutes, a colon, two digits of seconds.
pub proof fn lemma_timer_text_shape(total_seconds: nat)
    requires
        total_seconds < 6000,
    ensures
        timer_text(total_seconds).len() == 5,
        timer_text(total_seconds)[2] == ':',
{
    let m = total_seconds / 60;
    let s = total_seconds % 60;
    assert(m < 100);
    if m >= 10 {
        assert(decimal(m / 10).len() == 1);
    }
    if s >= 10 {
        assert(decimal(s / 10).len() == 1);
    }
    assert(two_digits(m).len() == 2);
    assert(two_digits(s).len() == 2);
}

/// Every character of `s` is a decimal digit, `0` to `9`.
pub open spec fn all_digits(s: Seq<char>) -> bool {
    forall|i: int| 0 <= i < s.len() ==> '0' <= #[trigger] s[i] <= '9'
}

/// The number that the decimal digits `s` denote, reading each digit by its
/// distance from `0`.
pub open spec fn digits_value(s: Seq<char>) -> int
    decreases s.len(),
{
    if s.len() == 0 {
        0
    } else {
        digits_value(s.drop_last()) * 10 + ((s.last() as u32) - ('0' as u32))
    }
}

/// `decimal(n)` is made of digits and reads back as `n`.
proof fn lemma_decimal_reads_back(n: nat)
    ensures
        all_digits(decimal(n)),
        digits_value(decimal(n)) == n,
        1 <= decimal(n).len(),
        n < 10 ==> decimal(n).len() == 1,
        10 <= n < 100 ==> decimal(n).len() == 2,
        10 <= n ==> decimal(n).len() >= 2,
    decreases n,
{
    let d = digit_char(n % 10);
    assert('0' as u32 == 48);
    assert(d as u32 == 48 + n % 10);
    assert('0' <= d <= '9');
    assert((d as u32) - ('0' as u32) == n % 10);
    if n >= 10 {
        lemma_decimal_reads_back(n / 10);
        let p = decimal(n / 10);
        assert(decimal(n) == p.push(d));
        assert(p.push(d).drop_last() =~= p);
        assert forall|i: int| 0 <= i < p.push(d).len() implies '0' <= #[trigger] p.push(d)[i] <= '9' by {
            if i < p.len() {
                assert(p.push(d)[i] == p[i]);
            }
        }
        assert(p.push(d).last() == d);
        assert(digits_value(p.push(d)) == digits_value(p) * 10 + ((d as u32) - ('0' as u32)));
        assert((n / 10) * 10 + n % 10 == n);
    } else {
        assert(seq![d].drop_last() =~= Seq::<char>::empty());
        assert(seq![d].last() == d);
        assert(digits_value(seq![d]) == digits_value(Seq::<char>::empty()) * 10 + ((d as u32) - ('0' as u32)));
        assert(n % 10 == n);
    }
}

/// `two_digits(n)` is made of digits, at least two, and reads back as `n`.
proof fn lemma_two_digits_reads_back(n: nat)
    ensures
        all_digits(two_digits(n)),
        digits_value(two_digits(n)) == n,
        2 <= two_digits(n).len(),
        n < 100 ==> two_digits(n).len() == 2,
{
    lemma_decimal_reads_back(n);
    if n < 10 {
        let t = seq!['0'] + decimal(n);
        assert(t.drop_last() =~= seq!['0']);
        assert(seq!['0'].drop_last() =~= Seq::<char>::empty());
        assert(t.last() == decimal(n)[0]);
        assert(decimal(n) =~= seq![decimal(n)[0]]);
        assert(digits_value(decimal(n)) == digits_value(decimal(n).drop_last()) * 10 + ((decimal(n).last() as u32) - ('0' as u32)));
        assert(decimal(n).drop_last() =~= Seq::<char>::empty());
        assert(digits_value(seq!['0']) == 0);
        assert(digits_value(t) == digits_value(t.drop_last()) * 10 + ((t.last() as u32) - ('0' as u32)));
        assert forall|i: int| 0 <= i < t.len() implies '0' <= #[trigger] t[i] <= '9' by {
            if i == 1 {
                assert(t[1] == decimal(n)[0]);
            }
        }
    }
}

/// The timer's text reads back as its number of seconds: it is digits for
/// the minutes (at least two), a colon, and two digits for the seconds; the
/// minutes read as `total_seconds / 60` and the seconds as
/// `total_seconds % 60`.
pub proof fn lemma_timer_text_reads_back(total_seconds: nat)
    ensures
        ({
            let t = timer_text(total_seconds);
            let colon = t.len() - 3;
            &&& t.len() >= 5
            &&& t[colon] == ':'
            &&& all_digits(t.take(colon))
            &&& digits_value(t.take(colon)) == total_seconds / 60
            &&& all_digits(t.skip(colon + 1))
            &&& digits_value(t.skip(colon + 1)) == total_seconds % 60
        }),
{
    let m = two_digits(total_seconds / 60);
    let s = two_digits(total_seconds % 60);
    lemma_two_digits_reads_back(total_seconds / 60);
    lemma_two_digits_reads_back(total_seconds % 60);
    let t = timer_text(total_seconds);
    assert(t == m + seq![':'] + s);
    assert(t.take(m.len() as int) =~= m);
    assert(t.skip((m.len() + 1) as int) =~= s);
}

/// The text of the digit `d`.
fn digit_text(d: u32) -> (s: &'static str)
    requires
        d < 10,
    ensures
        s@ == seq![digit_char(d as nat)],
{
    proof {
        reveal_strlit("0");
        reveal_strlit("1");
        reveal_strlit("2");
        reveal_strlit("3");
        reveal_strlit("4");
        reveal_strlit("5");
        reveal_strlit("6");
        reveal_strlit("7");
        reveal_strlit("8");
        reveal_strlit("9");
    }
    let s = if d == 0 {
        "0"
    } else if d == 1 {
        "1"
    } else if d == 2 {
        "2"
    } else if d == 3 {
        "3"
    } else if d == 4 {
        "4"
    } else if d == 5 {
        "5"
    } else if d == 6 {
        "6"
    } else if d == 7 {
        "7"
    } else if d == 8 {
        "8"
    } else {
        "9"
    };
    assert(s@ =~= seq![digit_char(d as nat)]);
    s
}

/// Appends `n` in decimal.
fn append_decimal(output: &mut String, n: u32)
    ensures
        final(output)@ == old(output)@ + decimal(n as nat),
    decreases n,
{
    if n >= 10 {
        append_decimal(output, n / 10);
    }
    output.append(digit_text(n % 10));
    assert(final(output)@ =~= old(output)@ + decimal(n as nat));
}

/// Appends `n` in decimal, padded with a zero to two digits.
fn append_two_digits(output: &mut String, n: u32)
    ensures
        final(output)@ == old(output)@ + two_digits(n as nat),
{
    if n < 10 {
        output.append("0");
        proof {
            reveal_strlit("0");
        }
    }
    append_decimal(output, n);
    assert(final(output)@ =~= old(output)@ + two_digits(n as nat));
}

/// A number of seconds as `MM:SS`.
pub fn format_timer(total_seconds: u32) -> (text: String)
    ensures
        text@ == timer_text(total_seconds as nat),
{
    let mut text = String::new();
    append_two_digits(&mut text, total_seconds / 60);
    text.append(":");
    proof {
        reveal_strlit(":");
    }
    append_two_digits(&mut text, total_seconds % 60);
    assert(text@ =~= timer_text(total_seconds as nat));
    text
}


/// A kind of session: its label, its icon and its length in minutes.
#[derive(Debug, Clone, Copy, PartialEq, Eq)]
pub struct TimerMode {
    pub label: &'static str,
    pub icon: &'static str,
    pub minutes: u32,
}

/// What a session kind says, as plain values.
pub struct TimerModeView {
    pub label: Seq<char>,
    pub icon: Seq<char>,
    pub minutes: u32,
}

impl View for TimerMode {
    type V = TimerModeView;

    open spec fn view(&self) -> TimerModeView {
        TimerModeView { label: self.label@, icon: self.icon@, minutes: self.minutes }
    }
}

impl TimerMode {
    /// A session kind.
    pub fn new(label: &'static str, icon: &'static str, minutes: u32) -> (m: Self)
        ensures
            m.label == label,
            m.icon == icon,
            m.minutes == minutes,
    {
        TimerMode { label, icon, minutes }
    }
}

/// What the panel does with its one-second timer source.
#[derive(Debug, Clone, Copy, PartialEq, Eq, Structural)]
pub enum TimerAction {
    /// Leave it as it is.
    Nothing,
    /// Start ticking.
    Schedule,
    /// Stop ticking.
    Cancel,
    /// Stop the current ticking, if any, and start anew.
    Restart,
    /// Go on ticking.
    Continue,
    /// Stop ticking and play the end-of-session sound.
    Finish,
}

/// The timer and what its widgets show.
#[derive(Debug)]
pub struct PomodoroState {
    pub remaining_seconds: u32,
    pub current_mode: Option<TimerMode>,
    /// Whether the one-second timer source is running.
    pub ticking: bool,
    pub timer_text: String,
    pub status_text: String,
    pub pause_label: &'static str,
    pub pause_enabled: bool,
    pub reset_enabled: bool,
    pub active_mode: Option<&'static str>,
}

/// The timer state as plain values.
pub struct PomodoroView {
    pub remaining: u32,
    pub mode: Option<TimerModeView>,
    pub ticking: bool,
    pub timer_text: Seq<char>,
    pub status_text: Seq<char>,
    pub pause_label: Seq<char>,
    pub pause_enabled: bool,
    pub reset_enabled: bool,
    pub active_mode: Option<Seq<char>>,
}

impl View for PomodoroState {
    type V = PomodoroView;

    open spec fn view(&self) -> PomodoroView {
        PomodoroView {
            remaining: self.remaining_seconds,
            mode: match self.current_mode {
                Some(m) => Some(m@),
                None => None,
            },
            ticking: self.ticking,
            timer_text: self.timer_text@,
            status_text: self.status_text@,
            pause_label: self.pause_label@,
            pause_enabled: self.pause_enabled,
            reset_enabled: self.reset_enabled,
            active_mode: match self.active_mode {
                Some(l) => Some(l@),
                None => None,
            },
        }
    }
}

/// The label of the pause button while the timer runs.
pub open spec fn pause_symbol() -> Seq<char> {
    "\u{23f8}"@
}

/// The label of the pause button while the timer does not run.
pub open spec fn play_symbol() -> Seq<char> {
    "\u{25b6}"@
}

/// The status shown while a session of `label` runs.
pub open spec fn running_status(label: Seq<char>) -> Seq<char> {
    label + " em andamento"@
}

/// The status shown while a session of `label` is paused.
pub open spec fn paused_status(label: Seq<char>) -> Seq<char> {
    label + " pausado"@
}

/// The status shown when a session of `label` has ended.
pub open spec fn finished_status(label: Seq<char>) -> Seq<char> {
    label + " finalizado"@
}

/// The timer before any session, and after a reset.
pub open spec fn idle_view() -> PomodoroView {
    PomodoroView {
        remaining: 0,
        mode: None,
        ticking: false,
        timer_text: timer_text(0),
        status_text: "Aguardando protocolo"@,
        pause_label: play_symbol(),
        pause_enabled: false,
        reset_enabled: false,
        active_mode: None,
    }
}

/// The timer as a session of `mode` starts: whatever it was before.
pub open spec fn started_view(mode: TimerModeView) -> PomodoroView {
    let seconds = (mode.minutes * 60) as u32;
    PomodoroView {
        remaining: seconds,
        mode: Some(mode),
        ticking: true,
        timer_text: timer_text(seconds as nat),
        status_text: running_status(mode.label),
        pause_label: pause_symbol(),
        pause_enabled: true,
        reset_enabled: true,
        active_mode: Some(mode.label),
    }
}

/// The timer one second later, while it runs: one second less, never below
/// zero; at zero the session ends.
pub open spec fn ticked_view(s: PomodoroView) -> PomodoroView {
    let remaining = if s.remaining == 0 {
        0u32
    } else {
        (s.remaining - 1) as u32
    };
    if remaining == 0 {
        PomodoroView {
            remaining,
            ticking: false,
            timer_text: timer_text(0),
            status_text: match s.mode {
                Some(m) => finished_status(m.label),
                None => s.status_text,
            },
            pause_label: play_symbol(),
            pause_enabled: false,
            reset_enabled: false,
            ..s
        }
    } else {
        PomodoroView { remaining, timer_text: timer_text(remaining as nat), ..s }
    }
}

/// What the panel does after a tick.
pub open spec fn tick_action(s: PomodoroView) -> TimerAction {
    if s.remaining <= 1 {
        TimerAction::Finish
    } else {
        TimerAction::Continue
    }
}

/// The timer after the pause button: a running session pauses, a paused one
/// resumes; with no time left, or no session, nothing changes.
pub open spec fn toggled_view(s: PomodoroView) -> PomodoroView {
    if s.remaining == 0 {
        s
    } else if s.ticking {
        PomodoroView {
            ticking: false,
            pause_label: play_symbol(),
            status_text: match s.mode {
                Some(m) => paused_status(m.label),
                None => s.status_text,
            },
            ..s
        }
    } else {
        match s.mode {
            None => s,
            Some(m) => PomodoroView {
                ticking: true,
                pause_label: pause_symbol(),
                status_text: running_status(m.label),
                ..s
            },
        }
    }
}

/// What the panel does after the pause button.
pub open spec fn toggle_action(s: PomodoroView) -> TimerAction {
    if s.remaining == 0 {
        TimerAction::Nothing
    } else if s.ticking {
        TimerAction::Cancel
    } else if s.mode is None {
        TimerAction::Nothing
    } else {
        TimerAction::Schedule
    }
}

/// The state the panel keeps between events: the text shows the remaining
/// time; while time is left there is a session and both buttons are
/// enabled; a running timer has a session, a pause symbol, a running
/// status, and both buttons enabled.
pub open spec fn well_formed(s: PomodoroView) -> bool {
    &&& s.timer_text == timer_text(s.remaining as nat)
    &&& s.remaining > 0 ==> s.mode is Some && s.pause_enabled && s.reset_enabled
    &&& s.ticking ==> {
        &&& s.mode matches Some(m)
        &&& s.status_text == running_status(m.label)
        &&& s.pause_label == pause_symbol()
        &&& s.pause_enabled
        &&& s.reset_enabled
    }
}


/// The timer after `k` seconds of running from `s`.
pub open spec fn after_ticks(s: PomodoroView, k: nat) -> PomodoroView
    decreases k,
{
    if k == 0 {
        s
    } else {
        ticked_view(after_ticks(s, (k - 1) as nat))
    }
}

/// Pausing a running session and resuming it gives back the same timer:
/// the pause button, pressed twice, cancels and then schedules the ticking.
pub proof fn lemma_pause_then_resume(s: PomodoroView)
    requires
        well_formed(s),
        s.ticking,
        s.remaining > 0,
    ensures
        toggle_action(s) == TimerAction::Cancel,
        toggle_action(toggled_view(s)) == TimerAction::Schedule,
        toggled_view(toggled_view(s)) == s,
{
}

/// A session of `mode` runs for exactly its length: after `k` seconds, fewer
/// than its length, it still runs with `k` seconds fewer left; once its
/// length has passed, it has ended, with nothing left and the end status.
pub proof fn lemma_session_length(mode: TimerModeView, k: nat)
    requires
        mode.minutes > 0,
        mode.minutes * 60 <= u32::MAX,
        k <= mode.minutes * 60,
    ensures
        k < mode.minutes * 60 ==> {
            let now = after_ticks(started_view(mode), k);
            &&& now.ticking
            &&& now.remaining == mode.minutes * 60 - k
            &&& now.mode == Some(mode)
        },
        k == mode.minutes * 60 ==> {
            let end = after_ticks(started_view(mode), k);
            &&& !end.ticking
            &&& end.remaining == 0
            &&& end.status_text == finished_status(mode.label)
            &&& end.mode == Some(mode)
        },
    decreases k,
{
    assert(mode.minutes * 60 > 0) by (nonlinear_arith)
        requires
            mode.minutes > 0,
    ;
    if k > 0 {
        lemma_session_length(mode, (k - 1) as nat);
    }
}

/// A running session, whatever happened before (a fresh start, or a pause
/// and a resume), runs to its end: with `r` seconds left, each of the next
/// `r` seconds takes one second off and shows it, the ticking goes on after
/// each of the first `r - 1` and the session ends at the last, once; then
/// nothing is left, the end status shows, the pause button shows play and
/// both buttons are disabled.
pub proof fn lemma_run_to_end(s: PomodoroView, k: nat)
    requires
        well_formed(s),
        s.ticking,
        s.remaining > 0,
        k <= s.remaining,
    ensures
        k < s.remaining ==> {
            let now = after_ticks(s, k);
            &&& well_formed(now)
            &&& now.ticking
            &&& now.remaining == s.remaining - k
            &&& now.timer_text == timer_text((s.remaining - k) as nat)
            &&& now.mode == s.mode
            &&& now.status_text == s.status_text
            &&& now.pause_label == s.pause_label
            &&& now.active_mode == s.active_mode
            &&& tick_action(now) == (if k + 1 == s.remaining {
                TimerAction::Finish
            } else {
                TimerAction::Continue
            })
        },
        k == s.remaining ==> {
            let end = after_ticks(s, k);
            &&& !end.ticking
            &&& end.remaining == 0
            &&& end.timer_text == timer_text(0)
            &&& end.mode == s.mode
            &&& s.mode matches Some(m) && end.status_text == finished_status(m.label)
            &&& end.pause_label == play_symbol()
            &&& !end.pause_enabled
            &&& !end.reset_enabled
            &&& end.active_mode == s.active_mode
        },
    decreases k,
{
    if k > 0 {
        lemma_run_to_end(s, (k - 1) as nat);
    }
}

/// The text of `label` followed by `suffix`.
fn labelled(label: &str, suffix: &str) -> (text: String)
    ensures
        text@ == label@ + suffix@,
{
    let mut text = String::from_str(label);
    text.append(suffix);
    text
}

impl PomodoroState {
    /// The timer before any session.
    pub fn new() -> (s: Self)
        ensures
            s@ == idle_view(),
            well_formed(s@),
    {
        let s = PomodoroState {
            remaining_seconds: 0,
            current_mode: None,
            ticking: false,
            timer_text: format_timer(0),
            status_text: String::from_str("Aguardando protocolo"),
            pause_label: "\u{25b6}",
            pause_enabled: false,
            reset_enabled: false,
            active_mode: None,
        };
        assert(s@ =~= idle_view());
        s
    }

    /// A mode button: a session of `mode` starts, replacing any other.
    pub fn start(&mut self, mode: TimerMode) -> (action: TimerAction)
        requires
            mode.minutes * 60 <= u32::MAX,
        ensures
            final(self)@ == started_view(mode@),
            well_formed(final(self)@),
            action == (if old(self).ticking {
                TimerAction::Restart
            } else {
                TimerAction::Schedule
            }),
    {
        let action = if self.ticking {
            TimerAction::Restart
        } else {
            TimerAction::Schedule
        };
        let duration_seconds = mode.minutes * 60;
        self.remaining_seconds = duration_seconds;
        self.current_mode = Some(mode);
        self.ticking = true;
        self.timer_text = format_timer(duration_seconds);
        self.status_text = labelled(mode.label, " em andamento");
        self.pause_label = "\u{23f8}";
        self.pause_enabled = true;
        self.reset_enabled = true;
        self.active_mode = Some(mode.label);
        assert(self@ =~= started_view(mode@));
        action
    }

    /// A second has passed on a running timer.
    pub fn tick(&mut self) -> (action: TimerAction)
        requires
            old(self).ticking,
        ensures
            final(self)@ == ticked_view(old(self)@),
            action == tick_action(old(self)@),
            well_formed(old(self)@) ==> well_formed(final(self)@),
    {
        let remaining = if self.remaining_seconds == 0 {
            0
        } else {
            self.remaining_seconds - 1
        };
        self.remaining_seconds = remaining;
        self.timer_text = format_timer(remaining);
        if remaining == 0 {
            match self.current_mode {
                Some(mode) => {
                    self.status_text = labelled(mode.label, " finalizado");
                },
                None => {},
            }
            self.pause_label = "\u{25b6}";
            self.pause_enabled = false;
            self.reset_enabled = false;
            self.ticking = false;
            assert(self@ =~= ticked_view(old(self)@));
            TimerAction::Finish
        } else {
            assert(self@ =~= ticked_view(old(self)@));
            TimerAction::Continue
        }
    }

    /// The pause button.
    pub fn toggle_pause(&mut self) -> (action: TimerAction)
        ensures
            final(self)@ == toggled_view(old(self)@),
            action == toggle_action(old(self)@),
            well_formed(old(self)@) ==> well_formed(final(self)@),
    {
        if self.remaining_seconds == 0 {
            return TimerAction::Nothing;
        }
        if self.ticking {
            self.ticking = false;
            self.pause_label = "\u{25b6}";
            match self.current_mode {
                Some(mode) => {
                    self.status_text = labelled(mode.label, " pausado");
                },
                None => {},
            }
            assert(self@ =~= toggled_view(old(self)@));
            return TimerAction::Cancel;
        }
        match self.current_mode {
            None => TimerAction::Nothing,
            Some(mode) => {
                self.pause_label = "\u{23f8}";
                self.status_text = labelled(mode.label, " em andamento");
                self.ticking = true;
                assert(self@ =~= toggled_view(old(self)@));
                TimerAction::Schedule
            },
        }
    }

    /// The reset button: back to the timer before any session.
    pub fn reset(&mut self) -> (action: TimerAction)
        ensures
            final(self)@ == idle_view(),
            well_formed(final(self)@),
            action == (if old(self).ticking {
                TimerAction::Cancel
            } else {
                TimerAction::Nothing
            }),
    {
        let action = if self.ticking {
            TimerAction::Cancel
        } else {
            TimerAction::Nothing
        };
        self.remaining_seconds = 0;
        self.current_mode = None;
        self.ticking = false;
        self.timer_text = format_timer(0);
        self.status_text = String::from_str("Aguardando protocolo");
        self.pause_label = "\u{25b6}";
        self.pause_enabled = false;
        self.reset_enabled = false;
        self.active_mode = None;
        assert(self@ =~= idle_view());
        action
    }
}

/// The button of `label` is highlighted when it is the active mode.
pub fn mode_button_active(active_mode: Option<&str>, label: &str) -> (active: bool)
    ensures
        active == (active_mode matches Some(a) && a@ == label@),
{
    match active_mode {
        Some(active) => crate::text::same_text(active, label),
        None => false,
    }
}

/// The session kinds of the panel, in the order of their buttons.
pub fn timer_modes() -> (modes: Vec<TimerMode>)
    ensures
        modes@.len() == 3,
        modes@[0].label == "Aula" && modes@[0].minutes == 50,
        modes@[1].label == "Desenv" && modes@[1].minutes == 60,
        modes@[2].label == "Pomodoro" && modes@[2].minutes == 30,
        forall|i: int| 0 <= i < 3 ==> (#[trigger] modes@[i]).icon == "\u{25c8}",
{
    let mut modes: Vec<TimerMode> = Vec::new();
    modes.push(TimerMode::new("Aula", "\u{25c8}", 50));
    modes.push(TimerMode::new("Desenv", "\u{25c8}", 60));
    modes.push(TimerMode::new("Pomodoro", "\u{25c8}", 30));
    modes
}

} // verus!
