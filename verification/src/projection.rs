//! When the value will cross a threshold, going by the two latest entries.

use crate::log::MeassurementLog;
use crate::meassurement::Meassurement;
use crate::ratio::Ratio;
use vstd::prelude::*;
use vstd::string::StringExecFns;

verus! {

/// The value that a falling trend is measured against.
pub const LOW_THRESHOLD: i16 = 80;

/// The value that a rising trend is measured against.
pub const HIGH_THRESHOLD: i16 = 300;

/// Which threshold the value is heading for.
#[derive(Clone, Copy, Debug, PartialEq, Eq, Structural)]
pub enum Direction {
    /// Falling, or level: toward the low threshold.
    Low,
    /// Rising: toward the high threshold.
    High,
}

/// What the two latest entries say about the crossing of a threshold.
#[derive(Clone, Copy, Debug, PartialEq, Eq, Structural)]
pub enum Projection {
    /// There are fewer than two entries.
    NoPrediction,
    /// The two latest entries share a timestamp, so there is no rate.
    DegenerateRate,
    /// The threshold headed for, and the minutes until the value reaches it
    /// at the present rate. The minutes are negative where the value is
    /// already past the threshold, and undefined where the rate is zero.
    Crossing { direction: Direction, minutes: Ratio },
}

impl Direction {
    /// The threshold that lies in this direction.
    pub open spec fn spec_target(self) -> i16 {
        match self {
            Direction::Low => LOW_THRESHOLD,
            Direction::High => HIGH_THRESHOLD,
        }
    }

    /// The threshold that lies in this direction.
    #[verifier::when_used_as_spec(spec_target)]
    pub fn target(self) -> (t: i16)
        ensures
            t == self.target(),
    {
        match self {
            Direction::Low => LOW_THRESHOLD,
            Direction::High => HIGH_THRESHOLD,
        }
    }
}

/// The direction that goes with a rate: high for a rate above zero, low for
/// every other.
pub open spec fn direction_of(rate: Ratio) -> Direction {
    if rate.positive() {
        Direction::High
    } else {
        Direction::Low
    }
}

/// The minutes from `last` until the value reaches `target` at the rate from
/// `prev` to `last`: the distance to the target over the rate, that is the
/// distance times the minutes elapsed, over the change of the value.
pub open spec fn minutes_to(target: i16, prev: Meassurement, last: Meassurement) -> Ratio {
    Ratio {
        num: ((target - last.y()) * (last.timestamp() - prev.timestamp())) as i32,
        den: (last.y() - prev.y()) as i32,
    }
}

/// What the pair `prev`, `last` says about the crossing of a threshold.
pub open spec fn crossing(prev: Meassurement, last: Meassurement) -> Projection {
    let rate = last.diff(&prev);
    if !rate.defined() {
        Projection::DegenerateRate
    } else {
        let direction = direction_of(rate);
        Projection::Crossing { direction, minutes: minutes_to(direction.target(), prev, last) }
    }
}

/// What a log says about the crossing of a threshold: what its last two
/// entries say, where it has two.
pub open spec fn projection(log: Seq<Meassurement>) -> Projection {
    if log.len() < 2 {
        Projection::NoPrediction
    } else {
        crossing(log[log.len() - 2], log[log.len() - 1])
    }
}

/// The size of `x` without its sign.
pub open spec fn size(x: int) -> int {
    if x < 0 {
        -x
    } else {
        x
    }
}

/// The whole seconds in a span of minutes: sixty times the minutes, cut off
/// toward zero. A span that is not above zero has none.
pub open spec fn whole_seconds(minutes: Ratio) -> int {
    if minutes.positive() {
        (60 * size(minutes.num as int)) / size(minutes.den as int)
    } else {
        0
    }
}

/// The line that tells the projection: `Time to low: ` or `Time to high: `,
/// then the duration.
pub open spec fn label_text(direction: Direction, duration: Seq<char>) -> Seq<char> {
    match direction {
        Direction::Low => "Time to low: "@ + duration,
        Direction::High => "Time to high: "@ + duration,
    }
}

/// The line shown while the log holds fewer than two entries.
pub open spec fn waiting_text() -> Seq<char> {
    "Waiting for meassurements..."@
}

/// The line for a projection, where it has one: the wait for more entries
/// where there is no prediction yet, and the threshold with the duration in
/// words where the minutes until the crossing are defined.
pub open spec fn line_text(p: Projection) -> Option<Seq<char>> {
    match p {
        Projection::NoPrediction => Some(waiting_text()),
        Projection::DegenerateRate => None,
        Projection::Crossing { direction, minutes } => if minutes.defined() {
            Some(label_text(direction, human_duration_text(whole_seconds(minutes) as u64)))
        } else {
            None
        },
    }
}

/// The text that the crate `human_duration` gives for a span of whole
/// seconds.
pub uninterp spec fn human_duration_text(secs: u64) -> Seq<char>;

/// Calls `human_duration::human_duration` on a duration of `secs` whole
/// seconds. The function reads nothing but its argument, takes it apart with
/// divisions by constants and formats the parts, so it returns for every
/// argument, and the same text for the same seconds.
#[verifier::external_body]
fn duration_text(secs: u64) -> (text: String)
    ensures
        text@ == human_duration_text(secs),
{
    human_duration::human_duration(&std::time::Duration::from_secs(secs))
}

/// What the pair `prev`, `last` says about the crossing of a threshold.
pub fn crossing_between(prev: &Meassurement, last: &Meassurement) -> (p: Projection)
    ensures
        p == crossing(*prev, *last),
        last.timestamp() == prev.timestamp() <==> p == Projection::DegenerateRate,
        p matches Projection::Crossing { direction, minutes } ==> {
            &&& direction == direction_of(last.diff(prev))
            &&& minutes.num == (direction.target() - last.y()) * (last.timestamp()
                - prev.timestamp())
            &&& minutes.den == last.y() - prev.y()
        },
{
    let rate = last.diff(prev);
    if !rate.is_defined() {
        return Projection::DegenerateRate;
    }
    let direction = if rate.is_positive() {
        Direction::High
    } else {
        Direction::Low
    };
    let distance: i32 = direction.target() as i32 - last.y() as i32;
    proof {
        let d = distance as int;
        let t = rate.den as int;
        assert(-0x4000_0000 <= d * t <= 0x4000_0000) by (nonlinear_arith)
            requires
                -33_100 <= d <= 33_100,
                -15_600 <= t <= 15_600,
        ;
    }
    Projection::Crossing { direction, minutes: Ratio { num: distance * rate.den, den: rate.num } }
}

/// What the log says about the crossing of a threshold.
pub fn project_crossing(log: &MeassurementLog) -> (p: Projection)
    ensures
        p == projection(log@),
        log@.len() < 2 <==> p == Projection::NoPrediction,
{
    let entries = log.entries();
    let n = entries.len();
    if n < 2 {
        Projection::NoPrediction
    } else {
        crossing_between(&entries[n - 2], &entries[n - 1])
    }
}

/// The whole seconds in a span of minutes, where the span is defined.
pub fn seconds_in(minutes: &Ratio) -> (secs: Option<u64>)
    ensures
        secs == if minutes.defined() {
            Some(whole_seconds(*minutes) as u64)
        } else {
            None
        },
        secs matches Some(s) ==> s == whole_seconds(*minutes),
{
    if !minutes.is_defined() {
        return None;
    }
    if !minutes.is_positive() {
        return Some(0);
    }
    let n: i64 = minutes.num as i64;
    let d: i64 = minutes.den as i64;
    let n: u64 = (if n < 0 {
        0 - n
    } else {
        n
    }) as u64;
    let d: u64 = (if d < 0 {
        0 - d
    } else {
        d
    }) as u64;
    let secs = (60 * n) / d;
    proof {
        let total = 60 * n as int;
        assert(0 <= total / (d as int) <= total) by (nonlinear_arith)
            requires
                total >= 0,
                d >= 1,
        ;
    }
    Some(secs)
}

/// The line that tells a projection, given the text of its duration.
pub fn projection_label(direction: Direction, duration: &str) -> (line: String)
    ensures
        line@ == label_text(direction, duration@),
{
    let mut line = match direction {
        Direction::Low => String::from_str("Time to low: "),
        Direction::High => String::from_str("Time to high: "),
    };
    line.append(duration);
    line
}

/// The line for a projection: the wait for more entries, or the threshold
/// and the duration in words. There is none where the projection has no
/// duration: the caller says what is shown then.
pub fn projection_line(p: &Projection) -> (line: Option<String>)
    ensures
        match line_text(*p) {
            Some(text) => line is Some && line.unwrap()@ == text,
            None => line is None,
        },
{
    match p {
        Projection::NoPrediction => Some(String::from_str("Waiting for meassurements...")),
        Projection::DegenerateRate => None,
        Projection::Crossing { direction, minutes } => match seconds_in(minutes) {
            Some(secs) => {
                let duration = duration_text(secs);
                Some(projection_label(*direction, duration.as_str()))
            },
            None => None,
        },
    }
}

/// The line for what the log projects: the wait for more entries while
/// there are fewer than two, else `Time to low: ` or `Time to high: ` and the
/// duration in words. There is none where the last two entries share a
/// timestamp or a value.
pub fn projection_text(log: &MeassurementLog) -> (line: Option<String>)
    ensures
        match line_text(projection(log@)) {
            Some(text) => line is Some && line.unwrap()@ == text,
            None => line is None,
        },
        log@.len() < 2 ==> line is Some && line.unwrap()@ == waiting_text(),
{
    let p = project_crossing(log);
    projection_line(&p)
}

} // verus!
