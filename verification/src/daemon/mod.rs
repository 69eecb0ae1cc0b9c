//! State and decisions of the background feed daemon.
//!
//! The daemon polls three feeds on independent schedules. Each poll either
//! fails (the error is counted and the poll retried on the next tick) or
//! brings values that are appended to the feed's rolling series; the full
//! series is then analysed, actionable signals are persisted and counted,
//! and the poll time is recorded. The I/O, the timers and the analyses
//! themselves run outside this module, which holds the state those steps
//! update and the decisions between them.

pub mod feed_buffer;

use vstd::prelude::*;
use crate::daemon::feed_buffer::{
    BufferSizes, FEED_PRICE, FEED_SEISMIC, FEED_WEATHER, FeedBuffer, series_or_empty,
};
use crate::api::signals_db::Timestamp;

verus! {

/// The fewest seismic magnitudes the daemon analyses.
pub const MIN_SEISMIC_SERIES: usize = 50;

/// One of the daemon's three feeds.
#[derive(Debug, Clone, Copy, PartialEq, Eq, Structural)]
pub enum FeedKind {
    /// Open-Meteo hourly temperatures, every 30 minutes.
    Weather,
    /// CoinGecko BTC/USD prices, every 5 minutes.
    Price,
    /// USGS earthquake magnitudes, every 10 minutes.
    Seismic,
}

pub open spec fn feed_name(f: FeedKind) -> Seq<char> {
    match f {
        FeedKind::Weather => FEED_WEATHER@,
        FeedKind::Price => FEED_PRICE@,
        FeedKind::Seismic => FEED_SEISMIC@,
    }
}

/// What a poll does once the feed's series has been updated.
#[derive(Debug, Clone, Copy, PartialEq, Eq, Structural)]
pub enum PollStep {
    /// End the poll without recording its time.
    Abandon,
    /// Record the poll time and end the poll without analysis.
    RecordOnly,
    /// Analyse the series, then record the poll time.
    Analyze,
}

/// The step after a successful fetch, given the length of the updated
/// series: weather and price polls end early on an empty series; seismic
/// polls skip the analysis (but count as polls) below 50 magnitudes.
pub open spec fn step_for(feed: FeedKind, series_len: nat) -> PollStep {
    match feed {
        FeedKind::Seismic => if series_len < MIN_SEISMIC_SERIES {
            PollStep::RecordOnly
        } else {
            PollStep::Analyze
        },
        _ => if series_len == 0 {
            PollStep::Abandon
        } else {
            PollStep::Analyze
        },
    }
}

/// Weather and price polls go on to the analysis whenever their series
/// holds a value and end otherwise; seismic polls are always recorded and
/// are analysed from 50 magnitudes on. No seismic poll is abandoned, and no
/// weather or price poll records its time without analysis.
pub proof fn law_poll_steps(series_len: nat)
    ensures
        step_for(FeedKind::Weather, series_len) == (if series_len > 0 {
            PollStep::Analyze
        } else {
            PollStep::Abandon
        }),
        step_for(FeedKind::Price, series_len) == step_for(FeedKind::Weather, series_len),
        step_for(FeedKind::Seismic, series_len) == (if series_len >= 50 {
            PollStep::Analyze
        } else {
            PollStep::RecordOnly
        }),
        step_for(FeedKind::Seismic, series_len) != PollStep::Abandon,
        step_for(FeedKind::Weather, series_len) != PollStep::RecordOnly,
{
}

/// What a poll does once its bookkeeping is done.
pub enum PollAction<T> {
    /// The poll is over.
    Done,
    /// Analyse this series (the feed's full rolling window), then record
    /// the poll time with `DaemonState::record_poll`.
    Analyze(Vec<T>),
}

impl FeedKind {
    /// The name of the feed's series in the buffer.
    pub fn series_name(&self) -> (r: &'static str)
        ensures
            r@ == feed_name(*self),
    {
        match self {
            FeedKind::Weather => FEED_WEATHER,
            FeedKind::Price => FEED_PRICE,
            FeedKind::Seismic => FEED_SEISMIC,
        }
    }

    /// The step after a successful fetch, given the length of the updated
    /// series: weather and price polls end early on an empty series;
    /// seismic polls skip the analysis (but count as polls) below 50
    /// magnitudes.
    pub fn next_step(&self, series_len: usize) -> (s: PollStep)
        ensures
            s == step_for(*self, series_len as nat),
    {
        match self {
            FeedKind::Seismic => if series_len < MIN_SEISMIC_SERIES {
                PollStep::RecordOnly
            } else {
                PollStep::Analyze
            },
            _ => if series_len == 0 {
                PollStep::Abandon
            } else {
                PollStep::Analyze
            },
        }
    }
}

/// The daemon's state: whether it runs, the rolling series of its feeds,
/// and its metrics (signals persisted, fetch errors and last poll time per
/// feed).
pub struct DaemonState<T> {
    running: bool,
    buffer: FeedBuffer<T>,
    signals_generated: u64,
    weather_errors: u64,
    price_errors: u64,
    seismic_errors: u64,
    last_weather_poll: Option<Timestamp>,
    last_price_poll: Option<Timestamp>,
    last_seismic_poll: Option<Timestamp>,
}

/// A snapshot of the daemon's state for the status endpoint.
#[derive(Debug, Clone, Copy, PartialEq, Eq, Structural)]
pub struct DaemonSnapshot {
    pub running: bool,
    pub last_weather_poll: Option<Timestamp>,
    pub last_price_poll: Option<Timestamp>,
    pub last_seismic_poll: Option<Timestamp>,
    pub signals_generated: u64,
    pub weather_errors: u64,
    pub price_errors: u64,
    pub seismic_errors: u64,
    pub buffer_sizes: BufferSizes,
}

impl<T> DaemonState<T> {
    pub closed spec fn is_running(&self) -> bool {
        self.running
    }

    pub closed spec fn series(&self) -> Map<Seq<char>, Seq<T>> {
        self.buffer@
    }

    pub closed spec fn capacity(&self) -> nat {
        self.buffer.capacity()
    }

    pub closed spec fn signals(&self) -> u64 {
        self.signals_generated
    }

    pub closed spec fn errors(&self, f: FeedKind) -> u64 {
        match f {
            FeedKind::Weather => self.weather_errors,
            FeedKind::Price => self.price_errors,
            FeedKind::Seismic => self.seismic_errors,
        }
    }

    pub closed spec fn last_poll(&self, f: FeedKind) -> Option<Timestamp> {
        match f {
            FeedKind::Weather => self.last_weather_poll,
            FeedKind::Price => self.last_price_poll,
            FeedKind::Seismic => self.last_seismic_poll,
        }
    }

    /// The state after a start: running, everything else as before.
    pub closed spec fn started(self) -> DaemonState<T> {
        DaemonState { running: true, ..self }
    }

    /// The state after a stop: not running, everything else as before.
    pub closed spec fn stopped(self) -> DaemonState<T> {
        DaemonState { running: false, ..self }
    }

    /// A stopped daemon with empty series of at most `max_len` values, and
    /// all metrics at zero.
    pub fn new(max_len: usize) -> (d: DaemonState<T>)
        ensures
            !d.is_running(),
            d.series() == Map::<Seq<char>, Seq<T>>::empty(),
            d.capacity() == max_len,
            d.signals() == 0,
            forall|f: FeedKind| d.errors(f) == 0 && d.last_poll(f) is None,
    {
        DaemonState {
            running: false,
            buffer: FeedBuffer::new(max_len),
            signals_generated: 0,
            weather_errors: 0,
            price_errors: 0,
            seismic_errors: 0,
            last_weather_poll: None,
            last_price_poll: None,
            last_seismic_poll: None,
        }
    }

    /// Mark the daemon running. Returns whether it was already running, in
    /// which case the start is a duplicate and is ignored. Nothing else
    /// changes.
    pub fn start(&mut self) -> (was_running: bool)
        ensures
            was_running == old(self).is_running(),
            *final(self) == old(self).started(),
            final(self).is_running(),
            final(self).series() == old(self).series(),
            final(self).capacity() == old(self).capacity(),
            final(self).signals() == old(self).signals(),
            forall|f: FeedKind| #[trigger] final(self).errors(f) == old(self).errors(f),
            forall|f: FeedKind| #[trigger] final(self).last_poll(f) == old(self).last_poll(f),
    {
        let was = self.running;
        self.running = true;
        was
    }

    /// Mark the daemon stopped: its loops end after their current
    /// iteration. Nothing else changes.
    pub fn stop(&mut self)
        ensures
            *final(self) == old(self).stopped(),
            !final(self).is_running(),
            final(self).series() == old(self).series(),
            final(self).capacity() == old(self).capacity(),
            final(self).signals() == old(self).signals(),
            forall|f: FeedKind| #[trigger] final(self).errors(f) == old(self).errors(f),
            forall|f: FeedKind| #[trigger] final(self).last_poll(f) == old(self).last_poll(f),
    {
        self.running = false;
    }

    /// Whether the daemon runs.
    pub fn running(&self) -> (r: bool)
        ensures
            r == self.is_running(),
    {
        self.running
    }

    /// Count a failed fetch of `feed` (wrapping at `u64::MAX`). The series,
    /// the poll times and the other counters are unchanged.
    pub fn record_fetch_error(&mut self, feed: FeedKind)
        ensures
            final(self).errors(feed) == vstd::wrapping::u64_specs::wrapping_add(old(self).errors(feed), 1),
            forall|f: FeedKind| f != feed ==> #[trigger] final(self).errors(f) == old(self).errors(f),
            final(self).is_running() == old(self).is_running(),
            final(self).series() == old(self).series(),
            final(self).capacity() == old(self).capacity(),
            final(self).signals() == old(self).signals(),
            forall|f: FeedKind| #[trigger] final(self).last_poll(f) == old(self).last_poll(f),
    {
        match feed {
            FeedKind::Weather => {
                self.weather_errors = self.weather_errors.wrapping_add(1);
            },
            FeedKind::Price => {
                self.price_errors = self.price_errors.wrapping_add(1);
            },
            FeedKind::Seismic => {
                self.seismic_errors = self.seismic_errors.wrapping_add(1);
            },
        }
    }

    /// Count a persisted signal (wrapping at `u64::MAX`). Nothing else
    /// changes.
    pub fn record_signal(&mut self)
        ensures
            final(self).signals() == vstd::wrapping::u64_specs::wrapping_add(old(self).signals(), 1),
            final(self).is_running() == old(self).is_running(),
            final(self).series() == old(self).series(),
            final(self).capacity() == old(self).capacity(),
            forall|f: FeedKind| #[trigger] final(self).errors(f) == old(self).errors(f),
            forall|f: FeedKind| #[trigger] final(self).last_poll(f) == old(self).last_poll(f),
    {
        self.signals_generated = self.signals_generated.wrapping_add(1);
    }

    /// Record that a poll of `feed` completed at `at`. Nothing else
    /// changes.
    pub fn record_poll(&mut self, feed: FeedKind, at: Timestamp)
        ensures
            final(self).last_poll(feed) == Some(at),
            forall|f: FeedKind| f != feed ==> #[trigger] final(self).last_poll(f) == old(self).last_poll(f),
            final(self).is_running() == old(self).is_running(),
            final(self).series() == old(self).series(),
            final(self).capacity() == old(self).capacity(),
            final(self).signals() == old(self).signals(),
            forall|f: FeedKind| #[trigger] final(self).errors(f) == old(self).errors(f),
    {
        match feed {
            FeedKind::Weather => {
                self.last_weather_poll = Some(at);
            },
            FeedKind::Price => {
                self.last_price_poll = Some(at);
            },
            FeedKind::Seismic => {
                self.last_seismic_poll = Some(at);
            },
        }
    }

    /// The status snapshot: running flag, poll times, counters and the
    /// length of each series.
    pub fn snapshot(&self) -> (s: DaemonSnapshot)
        ensures
            s.running == self.is_running(),
            s.last_weather_poll == self.last_poll(FeedKind::Weather),
            s.last_price_poll == self.last_poll(FeedKind::Price),
            s.last_seismic_poll == self.last_poll(FeedKind::Seismic),
            s.signals_generated == self.signals(),
            s.weather_errors == self.errors(FeedKind::Weather),
            s.price_errors == self.errors(FeedKind::Price),
            s.seismic_errors == self.errors(FeedKind::Seismic),
            s.buffer_sizes.weather == series_or_empty(self.series(), FEED_WEATHER@).len(),
            s.buffer_sizes.price == series_or_empty(self.series(), FEED_PRICE@).len(),
            s.buffer_sizes.seismic == series_or_empty(self.series(), FEED_SEISMIC@).len(),
    {
        DaemonSnapshot {
            running: self.running,
            last_weather_poll: self.last_weather_poll,
            last_price_poll: self.last_price_poll,
            last_seismic_poll: self.last_seismic_poll,
            signals_generated: self.signals_generated,
            weather_errors: self.weather_errors,
            price_errors: self.price_errors,
            seismic_errors: self.seismic_errors,
            buffer_sizes: BufferSizes::of(&self.buffer),
        }
    }

    /// Read access to the rolling series.
    pub fn buffer(&self) -> (b: &FeedBuffer<T>)
        ensures
            b@ == self.series(),
            b.capacity() == self.capacity(),
    {
        &self.buffer
    }
}

/// Starting a running daemon changes nothing (the start is reported as a
/// duplicate by `DaemonState::start`), and starting twice is starting once:
/// after a start the daemon runs, whatever came before.
pub proof fn law_start_idempotent<T>(d: DaemonState<T>)
    ensures
        d.started().is_running(),
        d.is_running() ==> d.started() == d,
        d.started().started() == d.started(),
{
}

/// After a stop the daemon is not running, whatever came before; stopping
/// twice is stopping once; and a start followed by a stop leaves everything
/// but the running flag as it was.
pub proof fn law_stop_halts<T>(d: DaemonState<T>)
    ensures
        !d.stopped().is_running(),
        d.stopped().stopped() == d.stopped(),
        d.started().stopped() == d.stopped(),
        !d.is_running() ==> d.stopped() == d,
{
}

impl<T: Copy> DaemonState<T> {
    /// Append freshly fetched values to `feed`'s series (evicting the
    /// oldest beyond the capacity) and return the full updated series. The
    /// other series and the metrics are unchanged.
    pub fn accept_values(&mut self, feed: FeedKind, values: &[T]) -> (series: Vec<T>)
        ensures
            final(self).series() == old(self).series().insert(
                feed_name(feed),
                crate::daemon::feed_buffer::keep_last(
                    series_or_empty(old(self).series(), feed_name(feed)) + values@,
                    old(self).capacity(),
                ),
            ),
            series@ == final(self).series()[feed_name(feed)],
            final(self).capacity() == old(self).capacity(),
            final(self).is_running() == old(self).is_running(),
            final(self).signals() == old(self).signals(),
            forall|f: FeedKind| #[trigger] final(self).errors(f) == old(self).errors(f),
            forall|f: FeedKind| #[trigger] final(self).last_poll(f) == old(self).last_poll(f),
    {
        let name = feed.series_name();
        self.buffer.push(name, values);
        match self.buffer.snapshot(name) {
            Some(v) => v,
            None => Vec::new(),
        }
    }

    /// The bookkeeping of one poll of `feed` that started at `now`, from
    /// the fetch's outcome (`None` for a failed fetch). A failed fetch is
    /// counted and ends the poll. Fetched values are appended to the feed's
    /// series; then, by `step_for` on the updated series, the poll is
    /// abandoned, or its time is recorded and it ends, or the series is
    /// handed back for analysis, after which the caller records the poll
    /// time. Nothing else changes.
    pub fn begin_poll(&mut self, feed: FeedKind, fetched: Option<&[T]>, now: Timestamp) -> (a: PollAction<T>)
        ensures
            final(self).capacity() == old(self).capacity(),
            final(self).is_running() == old(self).is_running(),
            final(self).signals() == old(self).signals(),
            match fetched {
                None => {
                    &&& a is Done
                    &&& final(self).errors(feed) == vstd::wrapping::u64_specs::wrapping_add(
                        old(self).errors(feed),
                        1,
                    )
                    &&& forall|f: FeedKind| f != feed ==> #[trigger] final(self).errors(f) == old(self).errors(f)
                    &&& final(self).series() == old(self).series()
                    &&& forall|f: FeedKind| #[trigger] final(self).last_poll(f) == old(self).last_poll(f)
                },
                Some(values) => {
                    let s = crate::daemon::feed_buffer::keep_last(
                        series_or_empty(old(self).series(), feed_name(feed)) + values@,
                        old(self).capacity(),
                    );
                    &&& final(self).series() == old(self).series().insert(feed_name(feed), s)
                    &&& forall|f: FeedKind| #[trigger] final(self).errors(f) == old(self).errors(f)
                    &&& forall|f: FeedKind| f != feed ==> #[trigger] final(self).last_poll(f) == old(self).last_poll(f)
                    &&& match step_for(feed, s.len()) {
                        PollStep::Abandon => a is Done && final(self).last_poll(feed) == old(self).last_poll(feed),
                        PollStep::RecordOnly => a is Done && final(self).last_poll(feed) == Some(now),
                        PollStep::Analyze => a matches PollAction::Analyze(v) && v@ == s
                            && final(self).last_poll(feed) == old(self).last_poll(feed),
                    }
                },
            },
    {
        match fetched {
            None => {
                self.record_fetch_error(feed);
                PollAction::Done
            },
            Some(values) => {
                let series = self.accept_values(feed, values);
                match feed.next_step(series.len()) {
                    PollStep::Abandon => PollAction::Done,
                    PollStep::RecordOnly => {
                        self.record_poll(feed, now);
                        PollAction::Done
                    },
                    PollStep::Analyze => PollAction::Analyze(series),
                }
            },
        }
    }
}

} // verus!
