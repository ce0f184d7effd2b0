//! Presentation cadence and time spent waiting on the graphics processor.

use vstd::prelude::*;

verus! {

/// Marks a snapshot in memory for a reader outside the machine.
pub const HARDWARE_PERF_MAGIC: u32 = 0x5057_4851;

/// A measurement is complete after this many frames.
pub const HARDWARE_PERF_SAMPLE_FRAMES: u32 = 600;

/// Snapshot of presentation cadence and GPU back-pressure.
#[derive(Copy, Clone, Debug, PartialEq, Eq, Structural)]
pub struct HardwarePerformance {
    pub magic: u32,
    pub version: u32,
    pub samples: u32,
    pub total_vblanks: u32,
    pub one_vblank: u32,
    pub two_vblank: u32,
    pub three_plus_vblank: u32,
    pub max_vblanks: u32,
    pub gpu_wait_events: u32,
    pub gpu_wait_vblanks: u32,
    pub gpu_wait_max_vblanks: u32,
    pub active: bool,
    pub complete: bool,
}

/// An empty snapshot.
pub open spec fn no_samples() -> HardwarePerformance {
    HardwarePerformance {
        magic: HARDWARE_PERF_MAGIC,
        version: 2,
        samples: 0,
        total_vblanks: 0,
        one_vblank: 0,
        two_vblank: 0,
        three_plus_vblank: 0,
        max_vblanks: 0,
        gpu_wait_events: 0,
        gpu_wait_vblanks: 0,
        gpu_wait_max_vblanks: 0,
        active: true,
        complete: false,
    }
}

impl HardwarePerformance {
    pub fn new() -> (snapshot: Self)
        ensures
            snapshot == no_samples(),
    {
        HardwarePerformance {
            magic: HARDWARE_PERF_MAGIC,
            version: 2,
            samples: 0,
            total_vblanks: 0,
            one_vblank: 0,
            two_vblank: 0,
            three_plus_vblank: 0,
            max_vblanks: 0,
            gpu_wait_events: 0,
            gpu_wait_vblanks: 0,
            gpu_wait_max_vblanks: 0,
            active: true,
            complete: false,
        }
    }

    /// Every sample is in one of the three interval counters, all of which
    /// wrap around alike.
    pub open spec fn balanced(self) -> bool {
        self.samples == (self.one_vblank + self.two_vblank + self.three_plus_vblank) % 0x1_0000_0000
    }
}

/// A snapshot in the making.
#[derive(Copy, Clone, Debug, PartialEq, Eq, Structural)]
pub struct PresentMeter {
    pub snapshot: HardwarePerformance,
    pub last_present: u32,
    pub has_present: bool,
}

pub open spec fn larger_u32(left: u32, right: u32) -> u32 {
    if left < right {
        right
    } else {
        left
    }
}

fn max_u32(left: u32, right: u32) -> (largest: u32)
    ensures
        largest == larger_u32(left, right),
{
    if left < right {
        right
    } else {
        left
    }
}

/// One interval between two frames that were shown.
#[derive(Copy, Clone, Debug, PartialEq, Eq, Structural)]
pub struct PresentInterval {
    pub elapsed: u32,
    /// Blanks beyond the two that a frame may take.
    pub lateness: u32,
}

/// The snapshot with one more interval of `elapsed` blanks.
pub open spec fn with_interval(snapshot: HardwarePerformance, elapsed: u32) -> HardwarePerformance {
    HardwarePerformance {
        samples: snapshot.samples.wrapping_add(1),
        total_vblanks: snapshot.total_vblanks.wrapping_add(elapsed),
        max_vblanks: larger_u32(snapshot.max_vblanks, elapsed),
        one_vblank: if elapsed == 1 {
            snapshot.one_vblank.wrapping_add(1)
        } else {
            snapshot.one_vblank
        },
        two_vblank: if elapsed == 2 {
            snapshot.two_vblank.wrapping_add(1)
        } else {
            snapshot.two_vblank
        },
        three_plus_vblank: if elapsed != 1 && elapsed != 2 {
            snapshot.three_plus_vblank.wrapping_add(1)
        } else {
            snapshot.three_plus_vblank
        },
        ..snapshot
    }
}

/// Adding an interval keeps the counters balanced.
pub proof fn intervals_balance(snapshot: HardwarePerformance, elapsed: u32)
    requires
        snapshot.balanced(),
    ensures
        with_interval(snapshot, elapsed).balanced(),
{
}

/// The meter after a frame is shown at `now`.
pub open spec fn after_present(meter: PresentMeter, now: u32, limited: bool) -> PresentMeter {
    let elapsed = now.wrapping_sub(meter.last_present);
    let counted = with_interval(meter.snapshot, elapsed);
    if !meter.snapshot.active {
        meter
    } else if !meter.has_present {
        PresentMeter { last_present: now, has_present: true, ..meter }
    } else if elapsed == 0 {
        PresentMeter { last_present: now, ..meter }
    } else if limited && counted.samples >= HARDWARE_PERF_SAMPLE_FRAMES {
        PresentMeter {
            snapshot: HardwarePerformance { active: false, complete: true, ..counted },
            last_present: now,
            has_present: false,
        }
    } else {
        PresentMeter { snapshot: counted, last_present: now, ..meter }
    }
}

impl PresentMeter {
    /// Start over.
    pub fn hardware_perf_reset() -> (meter: Self)
        ensures
            meter.snapshot == no_samples(),
            meter.last_present == 0,
            !meter.has_present,
            meter.snapshot.balanced(),
    {
        PresentMeter { snapshot: HardwarePerformance::new(), last_present: 0, has_present: false }
    }

    /// The graphics processor was waited for from `before` to `after`.
    pub fn hardware_perf_record_gpu_wait(&mut self, before: u32, after: u32)
        ensures
            final(self).last_present == old(self).last_present,
            final(self).has_present == old(self).has_present,
            ({
                let elapsed = after.wrapping_sub(before);
                let snapshot = old(self).snapshot;
                final(self).snapshot == if snapshot.active && old(self).has_present && elapsed
                    != 0 {
                    HardwarePerformance {
                        gpu_wait_events: snapshot.gpu_wait_events.wrapping_add(1),
                        gpu_wait_vblanks: snapshot.gpu_wait_vblanks.wrapping_add(elapsed),
                        gpu_wait_max_vblanks: larger_u32(snapshot.gpu_wait_max_vblanks, elapsed),
                        ..snapshot
                    }
                } else {
                    snapshot
                }
            }),
    {
        if !self.snapshot.active || !self.has_present {
            return ;
        }
        let elapsed: u32 = after.wrapping_sub(before);
        if elapsed == 0 {
            return ;
        }
        self.snapshot.gpu_wait_events = self.snapshot.gpu_wait_events.wrapping_add(1);
        self.snapshot.gpu_wait_vblanks = self.snapshot.gpu_wait_vblanks.wrapping_add(elapsed);
        self.snapshot.gpu_wait_max_vblanks = max_u32(self.snapshot.gpu_wait_max_vblanks, elapsed);
    }

    /// A frame is shown at `now`. The interval since the last one, if it was
    /// counted. A limited measurement ends by itself; an unlimited one runs
    /// until it is finished.
    pub fn hardware_perf_record_present(&mut self, now: u32, limited: bool) -> (interval: Option<
        PresentInterval,
    >)
        ensures
            *final(self) == after_present(*old(self), now, limited),
            ({
                let elapsed = now.wrapping_sub(old(self).last_present);
                interval == if old(self).snapshot.active && old(self).has_present && elapsed != 0 {
                    Some(
                        PresentInterval {
                            elapsed,
                            lateness: if elapsed > 2 {
                                (elapsed - 2) as u32
                            } else {
                                0
                            },
                        },
                    )
                } else {
                    None
                }
            }),
            old(self).snapshot.balanced() ==> final(self).snapshot.balanced(),
    {
        if !self.snapshot.active {
            return None;
        }
        if !self.has_present {
            self.last_present = now;
            self.has_present = true;
            return None;
        }
        let elapsed: u32 = now.wrapping_sub(self.last_present);
        self.last_present = now;
        if elapsed == 0 {
            return None;
        }
        self.snapshot.samples = self.snapshot.samples.wrapping_add(1);
        self.snapshot.total_vblanks = self.snapshot.total_vblanks.wrapping_add(elapsed);
        self.snapshot.max_vblanks = max_u32(self.snapshot.max_vblanks, elapsed);
        if elapsed == 1 {
            self.snapshot.one_vblank = self.snapshot.one_vblank.wrapping_add(1);
        } else if elapsed == 2 {
            self.snapshot.two_vblank = self.snapshot.two_vblank.wrapping_add(1);
        } else {
            self.snapshot.three_plus_vblank = self.snapshot.three_plus_vblank.wrapping_add(1);
        }
        if limited && self.snapshot.samples >= HARDWARE_PERF_SAMPLE_FRAMES {
            self.snapshot.active = false;
            self.snapshot.complete = true;
            self.has_present = false;
        }
        let lateness: u32 = elapsed.saturating_sub(2);
        Some(PresentInterval { elapsed, lateness })
    }

    /// The snapshot so far.
    pub fn hardware_performance(&self) -> (snapshot: HardwarePerformance)
        ensures
            snapshot == self.snapshot,
    {
        self.snapshot
    }

    pub fn hardware_performance_pause(&mut self)
        ensures
            *final(self) == (PresentMeter {
                snapshot: HardwarePerformance { active: false, ..old(self).snapshot },
                has_present: false,
                ..*old(self)
            }),
    {
        self.snapshot.active = false;
        self.has_present = false;
    }

    /// Go on measuring, unless the measurement is complete. The time spent
    /// paused is no interval.
    pub fn hardware_performance_resume(&mut self)
        ensures
            *final(self) == if old(self).snapshot.complete {
                *old(self)
            } else {
                PresentMeter {
                    snapshot: HardwarePerformance { active: true, ..old(self).snapshot },
                    has_present: false,
                    ..*old(self)
                }
            },
    {
        if !self.snapshot.complete {
            self.snapshot.active = true;
            self.has_present = false;
        }
    }

    pub fn hardware_performance_finish(&mut self)
        ensures
            *final(self) == (PresentMeter {
                snapshot: HardwarePerformance {
                    active: false,
                    complete: true,
                    ..old(self).snapshot
                },
                has_present: false,
                ..*old(self)
            }),
    {
        self.snapshot.active = false;
        self.snapshot.complete = true;
        self.has_present = false;
    }
}

/// Once a measurement is complete and stopped, showing frames changes nothing.
pub proof fn complete_snapshots_stay(meter: PresentMeter, now: u32, limited: bool)
    requires
        !meter.snapshot.active,
    ensures
        after_present(meter, now, limited) == meter,
{
}

/// A limited measurement holds at most its number of samples.
pub proof fn limited_snapshots_are_bounded(meter: PresentMeter, now: u32)
    requires
        meter.snapshot.active ==> meter.snapshot.samples < HARDWARE_PERF_SAMPLE_FRAMES,
        meter.snapshot.samples <= HARDWARE_PERF_SAMPLE_FRAMES,
    ensures
        ({
            let after = after_present(meter, now, true).snapshot;
            &&& after.samples <= HARDWARE_PERF_SAMPLE_FRAMES
            &&& after.active ==> after.samples < HARDWARE_PERF_SAMPLE_FRAMES
        }),
{
}

/// An interval is counted once, under its own length, and adds its blanks to the
/// total; the longest so far is kept and nothing else changes.
pub proof fn intervals_are_counted_by_length(snapshot: HardwarePerformance, elapsed: u32)
    requires
        snapshot.samples < u32::MAX,
        snapshot.one_vblank < u32::MAX,
        snapshot.two_vblank < u32::MAX,
        snapshot.three_plus_vblank < u32::MAX,
        snapshot.total_vblanks + elapsed <= u32::MAX,
        elapsed > 0,
    ensures
        ({
            let after = with_interval(snapshot, elapsed);
            &&& after.samples == snapshot.samples + 1
            &&& after.total_vblanks == snapshot.total_vblanks + elapsed
            &&& after.one_vblank - snapshot.one_vblank == (if elapsed == 1 {
                1int
            } else {
                0
            })
            &&& after.two_vblank - snapshot.two_vblank == (if elapsed == 2 {
                1int
            } else {
                0
            })
            &&& after.three_plus_vblank - snapshot.three_plus_vblank == (if elapsed >= 3 {
                1int
            } else {
                0
            })
            &&& after.max_vblanks >= elapsed && after.max_vblanks >= snapshot.max_vblanks
            &&& after.max_vblanks == elapsed || after.max_vblanks == snapshot.max_vblanks
            &&& after.gpu_wait_events == snapshot.gpu_wait_events && after.gpu_wait_vblanks
                == snapshot.gpu_wait_vblanks && after.gpu_wait_max_vblanks
                == snapshot.gpu_wait_max_vblanks
            &&& after.active == snapshot.active && after.complete == snapshot.complete
        }),
{
}

/// The meter measures from one present to the next: the first one only starts
/// it, and one within the same blank does not count.
pub proof fn presents_are_measured_between(meter: PresentMeter, blanks: u32)
    requires
        meter.snapshot.active,
    ensures
        ({
            let now = meter.last_present.wrapping_add(blanks);
            let after = after_present(meter, now, false);
            &&& after.last_present == now
            &&& !meter.has_present ==> after.has_present && after.snapshot == meter.snapshot
            &&& meter.has_present && blanks == 0 ==> after.snapshot == meter.snapshot
            &&& meter.has_present && blanks > 0 ==> after.snapshot == with_interval(
                meter.snapshot,
                blanks,
            )
        }),
{
}

/// A snapshot begins running, with nothing counted.
pub proof fn snapshots_begin_empty()
    ensures
        ({
            let snapshot = no_samples();
            &&& snapshot.samples == 0 && snapshot.total_vblanks == 0 && snapshot.max_vblanks == 0
            &&& snapshot.one_vblank == 0 && snapshot.two_vblank == 0 && snapshot.three_plus_vblank
                == 0
            &&& snapshot.gpu_wait_events == 0 && snapshot.gpu_wait_vblanks == 0
                && snapshot.gpu_wait_max_vblanks == 0
            &&& snapshot.active && !snapshot.complete && snapshot.balanced()
        }),
{
}

} // verus!
