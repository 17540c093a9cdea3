//! Frame-accurate positions on a disc: minutes, seconds and frames, 75 frames
//! to the second.

use std::time::Duration;
use vstd::prelude::*;
use vstd::std_specs::convert::FromSpecImpl;
use vstd::string::*;
use crate::decimal::padded;
use crate::decimal::pow10;
use crate::decimal::push_padded;
use crate::error::InvalidArgument;
use crate::utils::digit1;
use crate::utils::lemma_digit1_padded;
use crate::utils::lemma_number_padded;
use crate::utils::number;
use crate::utils::spec_digit1;
use crate::utils::spec_number;
use crate::utils::spec_strip_char;
use crate::utils::strip_char;

verus! {

/// A position in minutes, seconds and frames.
///
/// Minutes and seconds are kept together as a number of seconds; the frames
/// are always below 75.
#[derive(Debug, PartialEq, Eq, Structural, Clone, Copy, Hash)]
pub struct TimeStamp {
    seconds: u32,
    frames: u8,
}

impl TimeStamp {
    /// Whole seconds, the minutes included.
    pub closed spec fn total_seconds(self) -> nat {
        self.seconds as nat
    }

    /// Frames beyond the whole seconds.
    pub closed spec fn frame_part(self) -> nat {
        self.frames as nat
    }

    /// Whole minutes.
    pub open spec fn minute_part(self) -> nat {
        self.total_seconds() / 60
    }

    /// Seconds beyond the whole minutes.
    pub open spec fn second_part(self) -> nat {
        self.total_seconds() % 60
    }

    /// What every `TimeStamp` that the program holds satisfies: the seconds
    /// fit in 32 bits and the frames are below 75.
    #[verifier::type_invariant]
    pub open spec fn wf(self) -> bool {
        self.total_seconds() <= u32::MAX && self.frame_part() < 75
    }

    /// The timestamp of `seconds` whole seconds and `frames` frames.
    pub closed spec fn of(seconds: nat, frames: nat) -> TimeStamp {
        TimeStamp { seconds: seconds as u32, frames: frames as u8 }
    }

    /// `of` builds the timestamp with the given parts.
    pub broadcast proof fn lemma_of(seconds: nat, frames: nat)
        requires
            seconds <= u32::MAX,
            frames < 75,
        ensures
            (#[trigger] Self::of(seconds, frames)).total_seconds() == seconds,
            Self::of(seconds, frames).frame_part() == frames,
            Self::of(seconds, frames).wf(),
    {
    }

    /// A timestamp is determined by its seconds and its frames.
    pub proof fn lemma_eq(self, other: TimeStamp)
        requires
            self.total_seconds() == other.total_seconds(),
            self.frame_part() == other.frame_part(),
        ensures
            self == other,
    {
    }

    /// A well-formed timestamp is the one that `of` builds from its parts.
    pub proof fn lemma_of_parts(self)
        requires
            self.wf(),
        ensures
            self == Self::of(self.total_seconds(), self.frame_part()),
    {
    }

    /// The timestamp of the given minutes, seconds and frames.
    pub fn new(minutes: u32, seconds: u32, frames: u32) -> (r: Self)
        requires
            seconds < 60,
            frames < 75,
            minutes * 60 + seconds <= u32::MAX,
        ensures
            r == Self::of((minutes * 60 + seconds) as nat, frames as nat),
            r.total_seconds() == minutes * 60 + seconds,
            r.frame_part() == frames,
            r.wf(),
    {
        Self { seconds: minutes * 60 + seconds, frames: frames as u8 }
    }

    /// The timestamp of the given minutes, seconds and frames, or `None`
    /// where the seconds are 60 or more, the frames are 75 or more, or the
    /// minutes and seconds together do not fit in 32 bits of seconds.
    pub fn from_msf_opt(minutes: u32, seconds: u32, frames: u32) -> (r: Option<Self>)
        ensures
            r == if seconds < 60 && frames < 75 && minutes * 60 + seconds <= u32::MAX {
                Some(Self::of((minutes * 60 + seconds) as nat, frames as nat))
            } else {
                None
            },
            r matches Some(t) ==> t.total_seconds() == minutes * 60 + seconds && t.frame_part()
                == frames && t.wf(),
    {
        if seconds >= 60 || frames >= 75 {
            None
        } else {
            match minutes.checked_mul(60) {
                None => None,
                Some(ms) => match ms.checked_add(seconds) {
                    None => None,
                    Some(total) => Some(Self { seconds: total, frames: frames as u8 }),
                },
            }
        }
    }

    /// The timestamp of the given minutes, seconds and frames, where whole
    /// seconds among the frames are carried over to the seconds.
    pub fn from_msf(minutes: u32, seconds: u32, frames: u32) -> (r: Self)
        requires
            minutes * 60 + seconds + frames / 75 <= u32::MAX,
        ensures
            r == Self::of((minutes * 60 + seconds + frames / 75) as nat, (frames % 75) as nat),
            r.total_seconds() == minutes * 60 + seconds + frames / 75,
            r.frame_part() == frames % 75,
            r.wf(),
    {
        Self { seconds: minutes * 60 + seconds + (frames / 75), frames: (frames % 75) as u8 }
    }

    /// Whole minutes.
    pub fn minutes(&self) -> (r: u32)
        ensures
            r == self.minute_part(),
    {
        self.seconds / 60
    }

    /// Seconds beyond the whole minutes.
    pub fn seconds(&self) -> (r: u32)
        ensures
            r == self.second_part(),
            r < 60,
    {
        self.seconds % 60
    }

    /// Frames beyond the whole seconds.
    pub fn frames(&self) -> (r: u32)
        ensures
            r == self.frame_part(),
            r < 75,
    {
        proof {
            use_type_invariant(self);
        }
        self.frames as u32
    }

    /// Sets the minutes and keeps seconds and frames.
    pub fn set_minutes(&mut self, minutes: u32)
        requires
            minutes * 60 + old(self).second_part() <= u32::MAX,
        ensures
            *final(self) == Self::of(
                (minutes * 60 + old(self).second_part()) as nat,
                old(self).frame_part(),
            ),
            final(self).total_seconds() == minutes * 60 + old(self).second_part(),
            final(self).frame_part() == old(self).frame_part(),
    {
        proof {
            use_type_invariant(&*self);
        }
        self.seconds = self.seconds % 60 + minutes * 60;
    }

    /// Sets the seconds beyond the whole minutes and keeps minutes and
    /// frames.
    pub fn set_seconds(&mut self, seconds: u32)
        requires
            seconds < 60,
            old(self).minute_part() * 60 + seconds <= u32::MAX,
        ensures
            *final(self) == Self::of(
                (old(self).minute_part() * 60 + seconds) as nat,
                old(self).frame_part(),
            ),
            final(self).total_seconds() == old(self).minute_part() * 60 + seconds,
            final(self).frame_part() == old(self).frame_part(),
    {
        proof {
            use_type_invariant(&*self);
        }
        self.seconds = self.seconds / 60 * 60 + seconds;
    }

    /// Sets the frames and keeps minutes and seconds.
    pub fn set_frames(&mut self, frames: u32)
        requires
            frames < 75,
        ensures
            *final(self) == Self::of(old(self).total_seconds(), frames as nat),
            final(self).total_seconds() == old(self).total_seconds(),
            final(self).frame_part() == frames,
    {
        self.frames = frames as u8;
    }

    /// Whole seconds, the minutes included.
    pub fn as_seconds(&self) -> (r: u32)
        ensures
            r == self.total_seconds(),
    {
        self.seconds
    }

    /// The position as a number of frames.
    pub fn as_frames(&self) -> (r: u32)
        requires
            self.total_seconds() * 75 + self.frame_part() <= u32::MAX,
        ensures
            r == self.total_seconds() * 75 + self.frame_part(),
    {
        self.seconds * 75 + self.frames as u32
    }
}

/// Minutes, seconds and frames as a text of the form `MM:SS:FF` writes
/// them: one or more digits, a colon, two digits, a colon, two digits, and
/// nothing behind them.
pub open spec fn spec_msf(s: Seq<char>) -> Option<(nat, nat, nat)> {
    match spec_digit1(s) {
        Some((r0, m)) => match spec_strip_char(':', r0) {
            Some(r1) => match spec_number(2, r1) {
                Some((r2, sec)) => match spec_strip_char(':', r2) {
                    Some(r3) => match spec_number(2, r3) {
                        Some((r4, fr)) => if r4.len() == 0 {
                            Some((m as nat, sec as nat, fr as nat))
                        } else {
                            None
                        },
                        None => None,
                    },
                    None => None,
                },
                None => None,
            },
            None => None,
        },
        None => None,
    }
}

/// The timestamp that a text denotes.  The text is refused where it is not
/// of the form `MM:SS:FF`, where its seconds are 60 or more or its frames 75
/// or more, and where minutes and seconds together do not fit in 32 bits of
/// seconds.
pub open spec fn spec_timestamp(s: Seq<char>) -> Result<TimeStamp, InvalidArgument> {
    match spec_msf(s) {
        Some((m, sec, f)) => if sec < 60 && f < 75 && m * 60 + sec <= u32::MAX {
            Ok(TimeStamp::of(m * 60 + sec, f))
        } else {
            Err(InvalidArgument::InvalidTimestamp)
        },
        None => Err(InvalidArgument::InvalidTimestamp),
    }
}

fn msf(s: &str) -> (r: Option<(u64, u64, u64)>)
    ensures
        match spec_msf(s@) {
            Some((m, sec, f)) => r == Some((m as u64, sec as u64, f as u64)) && m <= u64::MAX
                && sec <= u64::MAX && f <= u64::MAX,
            None => r is None,
        },
{
    let (r0, m) = match digit1(s) {
        Some(x) => x,
        None => {
            return None;
        },
    };
    let r1 = match strip_char(':', r0) {
        Some(x) => x,
        None => {
            return None;
        },
    };
    let (r2, sec) = match number(2, r1) {
        Some(x) => x,
        None => {
            return None;
        },
    };
    let r3 = match strip_char(':', r2) {
        Some(x) => x,
        None => {
            return None;
        },
    };
    let (r4, fr) = match number(2, r3) {
        Some(x) => x,
        None => {
            return None;
        },
    };
    if r4.unicode_len() == 0 {
        Some((m, sec, fr))
    } else {
        None
    }
}

impl TimeStamp {
    /// The text of this timestamp: minutes, seconds and frames, each in at
    /// least two digits, with colons between them.
    pub open spec fn text(self) -> Seq<char> {
        padded(self.minute_part(), 2) + seq![':'] + padded(self.second_part(), 2) + seq![':']
            + padded(self.frame_part(), 2)
    }

    /// Reads a timestamp of the form `MM:SS:FF`.
    pub fn from_str(s: &str) -> (r: Result<Self, InvalidArgument>)
        ensures
            r == spec_timestamp(s@),
            r matches Ok(t) ==> t.wf(),
    {
        match msf(s) {
            Some((m, sec, f)) => {
                if sec < 60 && f < 75 && m <= (u32::MAX as u64) / 60 && m * 60 + sec
                    <= u32::MAX as u64 {
                    Ok(Self { seconds: (m * 60 + sec) as u32, frames: f as u8 })
                } else {
                    Err(InvalidArgument::InvalidTimestamp)
                }
            },
            None => Err(InvalidArgument::InvalidTimestamp),
        }
    }

    /// Appends the text of this timestamp to `out`.
    pub fn push_to(&self, out: &mut String)
        ensures
            final(out)@ == old(out)@ + self.text(),
    {
        proof {
            reveal_strlit(":");
        }
        push_padded(out, self.minutes() as u64, 2);
        out.append(":");
        push_padded(out, self.seconds() as u64, 2);
        out.append(":");
        push_padded(out, self.frames() as u64, 2);
    }

    /// Renders this timestamp as `MM:SS:FF`.
    pub fn to_string(&self) -> (r: String)
        ensures
            r@ == self.text(),
    {
        let mut r = String::new();
        self.push_to(&mut r);
        r
    }
}

/// The whole seconds of a duration: what `Duration::as_secs` returns.
pub uninterp spec fn spec_duration_secs(d: Duration) -> u64;

/// The part of a duration beyond its whole seconds, in whole milliseconds:
/// what `Duration::subsec_millis` returns.
pub uninterp spec fn spec_duration_subsec_millis(d: Duration) -> u32;

/// `Duration::new`: the duration of `secs` seconds and `nanos` nanoseconds.
/// It panics only where the nanoseconds carry into seconds that overflow,
/// which nanoseconds below a second never do.  Below a second the
/// nanoseconds carry nothing, so the result has `secs` whole seconds and
/// the whole milliseconds among `nanos`.
#[verifier::external_body]
fn duration_new(secs: u64, nanos: u32) -> (r: Duration)
    requires
        nanos < 1_000_000_000,
    ensures
        spec_duration_secs(r) == secs,
        spec_duration_subsec_millis(r) == nanos / 1_000_000,
{
    Duration::new(secs, nanos)
}

/// `Duration::as_secs`: the whole seconds of a duration.
#[verifier::external_body]
fn duration_as_secs(d: &Duration) -> (r: u64)
    ensures
        r == spec_duration_secs(*d),
{
    d.as_secs()
}

/// `Duration::subsec_millis`: the part of a duration beyond its whole
/// seconds, in whole milliseconds, which is documented to be below one
/// thousand.
#[verifier::external_body]
fn duration_subsec_millis(d: &Duration) -> (r: u32)
    ensures
        r == spec_duration_subsec_millis(*d),
        r < 1000,
{
    d.subsec_millis()
}

impl TimeStamp {
    /// Whole seconds of this position and the milliseconds that its frames
    /// make, a frame being 1/75 of a second: `frames * 40 / 3`, cut off.
    pub fn as_secs_millis(&self) -> (r: (u64, u32))
        ensures
            r.0 == self.total_seconds(),
            r.1 == self.frame_part() * 40 / 3,
            r.1 < 1000,
    {
        proof {
            use_type_invariant(self);
        }
        (self.seconds as u64, self.frames as u32 * 40 / 3)
    }

    /// The position of `secs` whole seconds and `millis` milliseconds.  Of
    /// the seconds the low 32 bits are kept; the milliseconds make
    /// `millis * 3 / 40` frames, what is left of a frame being cut off.
    pub fn from_secs_millis(secs: u64, millis: u32) -> (r: Self)
        requires
            millis < 1000,
        ensures
            r == Self::of((secs % 0x1_0000_0000) as nat, (millis * 3 / 40) as nat),
            r.total_seconds() == secs % 0x1_0000_0000,
            r.frame_part() == millis * 3 / 40,
            r.wf(),
    {
        Self { seconds: (secs % 0x1_0000_0000) as u32, frames: (millis * 3 / 40) as u8 }
    }
}

impl From<TimeStamp> for Duration {
    /// The duration from the start of the disc to this position: its whole
    /// seconds, the minutes included, and the milliseconds that its frames
    /// make, a frame being 1/75 of a second: `frames * 40 / 3`, cut off.
    fn from(ti: TimeStamp) -> (r: Duration)
        ensures
            spec_duration_secs(r) == ti.total_seconds(),
            spec_duration_subsec_millis(r) == ti.frame_part() * 40 / 3,
    {
        let (secs, millis) = ti.as_secs_millis();
        duration_new(secs, millis * 1_000_000)
    }
}

impl FromSpecImpl<TimeStamp> for Duration {
    open spec fn obeys_from_spec() -> bool {
        false
    }

    open spec fn from_spec(ti: TimeStamp) -> Self {
        arbitrary()
    }
}

impl From<Duration> for TimeStamp {
    /// The position that a duration from the start of the disc leads to.
    /// Of its whole seconds the low 32 bits are kept; its milliseconds make
    /// `millis * 3 / 40` frames, what is left of a frame being cut off.
    fn from(dr: Duration) -> (r: TimeStamp)
        ensures
            r == spec_timestamp_of_duration(dr),
            r.total_seconds() == spec_duration_secs(dr) % 0x1_0000_0000,
            r.frame_part() == spec_duration_subsec_millis(dr) * 3 / 40,
            r.wf(),
    {
        TimeStamp::from_secs_millis(duration_as_secs(&dr), duration_subsec_millis(&dr))
    }
}

/// The position that a duration from the start of the disc leads to.
pub open spec fn spec_timestamp_of_duration(dr: Duration) -> TimeStamp {
    TimeStamp::of(
        (spec_duration_secs(dr) % 0x1_0000_0000) as nat,
        (spec_duration_subsec_millis(dr) * 3 / 40) as nat,
    )
}

impl FromSpecImpl<Duration> for TimeStamp {
    open spec fn obeys_from_spec() -> bool {
        true
    }

    open spec fn from_spec(dr: Duration) -> Self {
        spec_timestamp_of_duration(dr)
    }
}

/// A timestamp that was read from a text is well formed.
pub proof fn lemma_timestamp_wf(s: Seq<char>)
    ensures
        spec_timestamp(s) matches Ok(t) ==> t.wf(),
{
    match spec_msf(s) {
        Some((m, sec, f)) => {
            if sec < 60 && f < 75 && m * 60 + sec <= u32::MAX {
                TimeStamp::lemma_of(m * 60 + sec, f);
            }
        },
        None => {},
    }
}

/// Reading the text of a timestamp gives the timestamp back: hence writing,
/// reading and writing again gives the same text as writing once.
pub proof fn lemma_timestamp_round_trip(t: TimeStamp)
    requires
        t.wf(),
    ensures
        spec_timestamp(t.text()) == Ok::<TimeStamp, InvalidArgument>(t),
{
    let m = t.minute_part();
    let s = t.second_part();
    let f = t.frame_part();
    let r3 = padded(f, 2);
    let r2 = seq![':'] + r3;
    let r1 = padded(s, 2) + r2;
    let r0 = seq![':'] + r1;
    assert(t.text() =~= padded(m, 2) + r0);
    assert(pow10(2) == 100) by {
        reveal_with_fuel(pow10, 3);
    }
    lemma_digit1_padded(m, 2, r0);
    assert(r0.skip(1) =~= r1);
    lemma_number_padded(s, 2, r2);
    assert(r2.skip(1) =~= r3);
    lemma_number_padded(f, 2, Seq::<char>::empty());
    t.lemma_of_parts();
}

impl std::str::FromStr for TimeStamp {
    type Err = InvalidArgument;

    fn from_str(s: &str) -> (r: Result<Self, InvalidArgument>)
        ensures
            r == spec_timestamp(s@),
    {
        TimeStamp::from_str(s)
    }
}

impl Default for TimeStamp {
    fn default() -> (r: Self)
        ensures
            r == TimeStamp::of(0, 0),
            r.total_seconds() == 0,
            r.frame_part() == 0,
    {
        TimeStamp { seconds: 0, frames: 0 }
    }
}

} // verus!
