//! The game clock, which stands still or runs along with the system's clock,
//! and the way a game time is written.

use crate::text::{decimal, number_text, pad_left, padded};
use std::time::{Duration, SystemTime};
use vstd::prelude::*;
use vstd::string::*;

verus! {

/// The system's time stamp, of which nothing is known here but that it can
/// be kept and handed back.
#[verifier::external_type_specification]
#[verifier::external_body]
pub struct ExSystemTime(SystemTime);

/// Reads the system's clock with `SystemTime::now`. Two readings may differ,
/// so nothing is said of the value.
#[verifier::external_body]
fn system_now() -> SystemTime {
    SystemTime::now()
}

/// Calls `SystemTime::duration_since`: the time from `earlier` to `later`, or
/// nothing where `earlier` is in fact the later of the two.
#[verifier::external_body]
fn elapsed_between(later: &SystemTime, earlier: &SystemTime) -> Option<Duration> {
    match later.duration_since(*earlier) {
        Ok(elapsed) => Some(elapsed),
        Err(_) => None,
    }
}

/// Calls `Duration::as_secs`: the whole seconds of a span of time.
#[verifier::external_body]
fn whole_seconds(elapsed: &Duration) -> u64 {
    elapsed.as_secs()
}

/// A clock of game time: stopped at a time, or running since the system
/// showed a certain time, at which the game time was `start_time`.
#[derive(Debug)]
pub enum GameClock {
    Stopped { stop_time: usize },
    Running { start_time: usize, start_system_time: SystemTime },
}

/// A game time written as hours, minutes and seconds: the hours at least
/// three wide, the others two digits each.
pub open spec fn time_text(time: nat) -> Seq<char> {
    padded(decimal(time / 3600), 3, ' ') + seq![':'] + padded(decimal((time % 3600) / 60), 2, '0') + seq![':']
        + padded(decimal(time % 60), 2, '0')
}

/// The hours, minutes and seconds of a time, as the clock computes them by
/// taking the hours off first and then the minutes.
pub proof fn lemma_time_parts(time: nat)
    ensures
        (time / 3600) * 3600 <= time,
        time - (time / 3600) * 3600 == time % 3600,
        ((time % 3600) / 60) * 60 <= time % 3600,
        (time % 3600) - ((time % 3600) / 60) * 60 == time % 60,
{
    assert((time / 3600) * 3600 <= time && time - (time / 3600) * 3600 == time % 3600) by (nonlinear_arith);
    let rest = time % 3600;
    assert((rest / 60) * 60 <= rest && rest - (rest / 60) * 60 == rest % 60) by (nonlinear_arith);
    assert(rest % 60 == time % 60) by (nonlinear_arith)
        requires
            rest == time % 3600,
    ;
}

impl GameClock {
    /// A clock that stands at the given time.
    pub fn new_stopped(stop_time: usize) -> (r: Self)
        ensures
            r matches GameClock::Stopped { stop_time: t } && t == stop_time,
    {
        Self::Stopped { stop_time }
    }

    /// A clock that runs from now on, starting at the given time.
    pub fn new_running(start_time: usize) -> (r: Self)
        ensures
            r matches GameClock::Running { start_time: t, .. } && t == start_time,
    {
        Self::Running { start_time, start_system_time: system_now() }
    }

    /// A running clock that goes on from where this one stopped; none if this
    /// one runs already.
    pub fn start(&self) -> (r: Option<GameClock>)
        ensures
            match *self {
                GameClock::Stopped { stop_time } => r matches Some(GameClock::Running { start_time, .. })
                    && start_time == stop_time,
                GameClock::Running { .. } => r is None,
            },
    {
        match self {
            GameClock::Stopped { stop_time } => Some(GameClock::new_running(*stop_time)),
            GameClock::Running { .. } => None,
        }
    }

    /// A stopped clock that shows the time this one has reached; none if
    /// this one stands already.
    pub fn stop(&self) -> (r: Option<GameClock>)
        ensures
            match *self {
                GameClock::Stopped { .. } => r is None,
                GameClock::Running { start_time, .. } => r matches Some(GameClock::Stopped { stop_time })
                    && stop_time >= start_time,
            },
    {
        let time = self.time();
        match self {
            GameClock::Stopped { .. } => None,
            GameClock::Running { .. } => Some(GameClock::new_stopped(time)),
        }
    }

    /// The game time when the clock has run for the given seconds: a stopped
    /// clock shows its time, a running one its start and the seconds, and no
    /// more than the greatest time there is.
    pub open spec fn time_after(&self, seconds: nat) -> nat {
        match *self {
            GameClock::Stopped { stop_time } => stop_time as nat,
            GameClock::Running { start_time, .. } => if start_time + seconds <= usize::MAX {
                (start_time + seconds) as nat
            } else {
                usize::MAX as nat
            },
        }
    }

    /// The game time when the clock has run for the given seconds.
    pub fn time_at(&self, seconds: u64) -> (r: usize)
        ensures
            r == self.time_after(seconds as nat),
    {
        match self {
            GameClock::Stopped { stop_time } => *stop_time,
            GameClock::Running { start_time, .. } => {
                let room: usize = usize::MAX - *start_time;
                if seconds <= room as u64 {
                    *start_time + seconds as usize
                } else {
                    usize::MAX
                }
            },
        }
    }

    /// The game time now. Of a running clock it is the start and the whole
    /// seconds that the system's clock has gone on since; where the system's
    /// clock has gone back instead, none are counted.
    pub fn time(&self) -> (r: usize)
        ensures
            exists|seconds: nat| r == self.time_after(seconds),
            *self matches GameClock::Stopped { stop_time } ==> r == stop_time,
            *self matches GameClock::Running { start_time, .. } ==> r >= start_time,
    {
        match self {
            GameClock::Stopped { .. } => {
                let r = self.time_at(0);
                assert(r == self.time_after(0));
                r
            },
            GameClock::Running { start_system_time, .. } => {
                let now = system_now();
                let seconds: u64 = match elapsed_between(&now, start_system_time) {
                    Some(elapsed) => whole_seconds(&elapsed),
                    None => 0,
                };
                let r = self.time_at(seconds);
                assert(r == self.time_after(seconds as nat));
                r
            },
        }
    }

    /// The game time now, written as `format_time` writes it.
    pub fn time_formatted(&self) -> (r: String)
        ensures
            exists|seconds: nat| r@ == time_text(self.time_after(seconds)),
            *self matches GameClock::Stopped { stop_time } ==> r@ == time_text(stop_time as nat),
    {
        let time = self.time();
        let ghost seconds = choose|seconds: nat| time == self.time_after(seconds);
        let r = Self::format_time(time);
        assert(r@ == time_text(self.time_after(seconds)));
        r
    }

    /// Writes a game time as hours, minutes and seconds.
    pub fn format_time(time: usize) -> (r: String)
        ensures
            r@ == time_text(time as nat),
    {
        let hours = time / 3_600;
        let rest = time - (hours * 3_600);
        let minutes = rest / 60;
        let seconds = rest - (minutes * 60);
        proof {
            lemma_time_parts(time as nat);
            reveal_strlit(" ");
            reveal_strlit("0");
            reveal_strlit(":");
        }
        let hours_text = pad_left(number_text(hours).as_str(), 3, " ");
        let minutes_text = pad_left(number_text(minutes).as_str(), 2, "0");
        let seconds_text = pad_left(number_text(seconds).as_str(), 2, "0");
        let mut text = hours_text;
        text.append(":");
        text.append(minutes_text.as_str());
        text.append(":");
        text.append(seconds_text.as_str());
        proof {
            assert(":"@ =~= seq![':']);
        }
        text
    }
}

} // verus!
