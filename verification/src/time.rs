//! Minimal time model: timelines and the points logged onto them.

use vstd::prelude::*;

verus! {

/// How a timeline's values are to be read.
#[derive(Clone, Copy, Debug, Hash, PartialEq, Eq, Structural)]
pub enum TimeType {
    /// A plain sequence number, e.g. a frame count.
    Sequence,
    /// Nanoseconds since the Unix epoch.
    Timestamp,
}

/// A point in wall-clock time, in nanoseconds since the Unix epoch.
#[derive(Clone, Copy, Debug, Hash, PartialEq, Eq, Structural)]
pub struct Timestamp {
    nanos: i64,
}

impl Timestamp {
    pub closed spec fn spec_nanos(self) -> i64 {
        self.nanos
    }

    pub fn from_nanos_since_epoch(nanos: i64) -> (r: Timestamp)
        ensures
            r.spec_nanos() == nanos,
    {
        Timestamp { nanos }
    }

    pub fn nanos_since_epoch(&self) -> (r: i64)
        ensures
            r == self.spec_nanos(),
    {
        self.nanos
    }
}

/// A named axis along which data is logged.
#[derive(Clone, Debug, Hash, PartialEq, Eq)]
pub struct Timeline {
    name: String,
    typ: TimeType,
}

impl Timeline {
    pub closed spec fn spec_name(&self) -> Seq<char> {
        self.name@
    }

    pub closed spec fn spec_typ(&self) -> TimeType {
        self.typ
    }

    pub fn new(name: &str, typ: TimeType) -> (r: Timeline)
        ensures
            r.spec_name() == name@,
            r.spec_typ() == typ,
    {
        Timeline { name: name.to_owned(), typ }
    }

    /// The timeline that carries the log reception time.
    pub fn log_time() -> (r: Timeline)
        ensures
            r.spec_name() == "log_time"@,
            r.spec_typ() == TimeType::Timestamp,
    {
        Timeline::new("log_time", TimeType::Timestamp)
    }

    pub fn name(&self) -> (r: &str)
        ensures
            r@ == self.spec_name(),
    {
        self.name.as_str()
    }

    pub fn typ(&self) -> (r: TimeType)
        ensures
            r == self.spec_typ(),
    {
        self.typ
    }
}

/// A point on a timeline. The least `i64` is reserved as a sentinel for
/// static data and never stands in a `TimeInt`: temporal constructors
/// saturate to one past it.
#[derive(Clone, Copy, Debug, Hash, PartialEq, Eq, PartialOrd, Ord, Structural)]
pub struct TimeInt {
    value: i64,
}

impl TimeInt {
    pub closed spec fn spec_value(self) -> i64 {
        self.value
    }

    /// The reserved sentinel never stands in a temporal value.
    pub open spec fn wf(self) -> bool {
        self.spec_value() != i64::MIN
    }

    /// A temporal point from raw nanoseconds or sequence counts,
    /// saturating away from the reserved sentinel.
    pub fn new_temporal(value: i64) -> (r: TimeInt)
        ensures
            r.wf(),
            r.spec_value() == if value == i64::MIN {
                i64::MIN + 1
            } else {
                value as int
            },
    {
        if value == i64::MIN {
            TimeInt { value: i64::MIN + 1 }
        } else {
            TimeInt { value }
        }
    }

    pub fn as_i64(&self) -> (r: i64)
        ensures
            r == self.spec_value(),
    {
        self.value
    }
}

/// The (timeline, time point) pair under which a message received at
/// `log_time` is filed.
pub fn build_log_time(log_time: Timestamp) -> (r: (Timeline, TimeInt))
    ensures
        r.0.spec_name() == "log_time"@,
        r.0.spec_typ() == TimeType::Timestamp,
        r.1.wf(),
        r.1.spec_value() == if log_time.spec_nanos() == i64::MIN {
            i64::MIN + 1
        } else {
            log_time.spec_nanos() as int
        },
{
    (Timeline::log_time(), TimeInt::new_temporal(log_time.nanos_since_epoch()))
}

/// The (timeline, time point) pair under which a message logged at frame
/// `frame_nr` is filed.
pub fn build_frame_nr(frame_nr: i64) -> (r: (Timeline, TimeInt))
    ensures
        r.0.spec_name() == "frame_nr"@,
        r.0.spec_typ() == TimeType::Sequence,
        r.1.wf(),
        r.1.spec_value() == if frame_nr == i64::MIN {
            i64::MIN + 1
        } else {
            frame_nr as int
        },
{
    (Timeline::new("frame_nr", TimeType::Sequence), TimeInt::new_temporal(frame_nr))
}

} // verus!
