//! A small wall-clock profiler for the pipeline stages: records
//! start and end instants per stage and reports elapsed time. Time
//! itself comes from the system clock, so nothing is promised about
//! the durations; what is verified is the bookkeeping — which stages
//! have a recorded start, and when a reading exists.

use vstd::prelude::*;

verus! {

/// Declares std::time::Instant so clock readings can sit in fields
/// and signatures; the type stays opaque and nothing is assumed of
/// its values.
#[verifier::external_type_specification]
#[verifier::external_body]
pub struct ExInstant(std::time::Instant);

/// Relies on std::time::Instant::now for a reading of the monotonic
/// clock; the value is opaque and nothing is assumed of it.
pub assume_specification[ std::time::Instant::now ]() -> std::time::Instant;

/// Relies on std::time::Instant::duration_since; by its
/// documentation it returns the elapsed time from `earlier` to
/// `self`, or zero if `earlier` is later, and does not panic. The
/// duration is opaque and nothing more is assumed of it.
pub assume_specification[ std::time::Instant::duration_since ](
    this: &std::time::Instant,
    earlier: std::time::Instant,
) -> std::time::Duration;

/// Relies on std::time::Duration::as_millis for the whole-millisecond
/// count of an opaque duration; nothing is assumed of the value.
pub assume_specification[ std::time::Duration::as_millis ](this: &std::time::Duration) -> u128;

/// The pipeline stages the profiler can time.
#[derive(Copy, Clone, Debug, PartialEq, Eq, Structural)]
pub enum Profile {
    Decode,
    Crop,
    Whitebalance,
    Debayer,
}

/// Start and end clock readings, tagged by stage, in the order they
/// were recorded.
pub struct Profiler {
    start: Vec<(Profile, std::time::Instant)>,
    end: Vec<(Profile, std::time::Instant)>,
}

impl Profiler {
    /// The recorded stage starts, in recording order.
    pub closed spec fn starts(self) -> Seq<(Profile, std::time::Instant)> {
        self.start@
    }

    /// The recorded stage ends, in recording order.
    pub closed spec fn ends(self) -> Seq<(Profile, std::time::Instant)> {
        self.end@
    }

    /// A profiler with nothing recorded.
    pub fn new() -> (r: Profiler)
        ensures
            r.starts().len() == 0,
            r.ends().len() == 0,
    {
        Profiler { start: Vec::new(), end: Vec::new() }
    }

    /// Records that `prof` starts now.
    pub fn start(&mut self, prof: Profile)
        ensures
            final(self).starts().len() == old(self).starts().len() + 1,
            final(self).starts()[old(self).starts().len() as int].0 == prof,
            forall|i: int|
                0 <= i < old(self).starts().len() ==> final(self).starts()[i] == old(
                self,
            ).starts()[i],
            final(self).ends() == old(self).ends(),
    {
        self.start.push((prof, std::time::Instant::now()));
    }

    /// Records that `prof` ends now.
    pub fn end(&mut self, prof: Profile)
        ensures
            final(self).ends().len() == old(self).ends().len() + 1,
            final(self).ends()[old(self).ends().len() as int].0 == prof,
            forall|i: int|
                0 <= i < old(self).ends().len() ==> final(self).ends()[i] == old(self).ends()[i],
            final(self).starts() == old(self).starts(),
    {
        self.end.push((prof, std::time::Instant::now()));
    }

    /// The time from the first recorded start of `prof` to its first
    /// recorded end, or to now if no end was recorded. A reading
    /// exists exactly when a start was recorded for `prof`.
    pub fn elapsed(&self, prof: Profile) -> (r: Option<std::time::Duration>)
        ensures
            r is Some <==> exists|i: int|
                0 <= i < self.starts().len() && (#[trigger] self.starts()[i]).0 == prof,
    {
        let n = self.start.len();
        let mut i: usize = 0;
        while i < n
            invariant
                n == self.starts().len(),
                i <= n,
                forall|j: int| 0 <= j < i ==> (#[trigger] self.starts()[j]).0 != prof,
            decreases n - i,
        {
            let (p, st) = self.start[i];
            if p == prof {
                let m = self.end.len();
                let mut k: usize = 0;
                while k < m
                    invariant
                        m == self.ends().len(),
                        k <= m,
                        n == self.starts().len(),
                        i < n,
                        self.starts()[i as int].0 == prof,
                    decreases m - k,
                {
                    let (q, en) = self.end[k];
                    if q == prof {
                        return Some(en.duration_since(st));
                    }
                    k = k + 1;
                }
                let now = std::time::Instant::now();
                return Some(now.duration_since(st));
            }
            i = i + 1;
        }
        None
    }

    /// `elapsed`, in whole milliseconds; exists exactly when a start
    /// was recorded for `prof`.
    pub fn elapsed_ms(&self, prof: Profile) -> (r: Option<u128>)
        ensures
            r is Some <==> exists|i: int|
                0 <= i < self.starts().len() && (#[trigger] self.starts()[i]).0 == prof,
    {
        match self.elapsed(prof) {
            None => None,
            Some(dur) => Some(dur.as_millis()),
        }
    }
}

} // verus!
