//! The acquisition service: its buses, the per-tick read, and the decisions
//! of the acquisition loop. The loop itself, with its sleeps and bus
//! transactions, runs outside the library and hands the results in.
use vstd::prelude::*;
use crate::bus::{spec_devices, I2CBus, I2CConfig};
use crate::config::AppConfig;
use crate::error::AppError;
use crate::mpu6500::MPU6500;
use crate::sensors::{SensorConfig, SensorData, SensorType, TimedReading};

verus! {

/// How the service runs.
#[derive(Debug, Clone, Copy, PartialEq, Eq)]
pub enum RunMode {
    /// With the terminal interface.
    Interactive,
    /// In the background.
    Daemon,
}

/// The devices that a sensor group configures.
pub open spec fn group_of(t: SensorType) -> I2CConfig {
    match t {
        SensorType::I2C(c) => c,
    }
}

/// Readings of one tick: for each bus, for each device, what was read, if
/// anything.
pub type TickReadings = Vec<Vec<Option<TimedReading>>>;

/// What was read from device `d` of bus `b`; nothing when out of range.
pub open spec fn reading_at(rs: Seq<Vec<Option<TimedReading>>>, b: int, d: int) -> Option<
    TimedReading,
> {
    if 0 <= b < rs.len() && 0 <= d < rs[b]@.len() {
        rs[b]@[d]
    } else {
        None
    }
}

/// Whether a device yields a sample this tick: it is enabled and was read.
pub open spec fn yields(dev: MPU6500, r: Option<TimedReading>) -> bool {
    dev.enabled && r is Some
}

/// A device after a tick.
pub open spec fn after_tick(dev: MPU6500, r: Option<TimedReading>) -> MPU6500 {
    if yields(dev, r) {
        dev.after_read(r->Some_0.raw)
    } else {
        dev
    }
}

/// Positions, in order, of the first `n` devices of bus `b` that yield.
pub open spec fn bus_sources(
    devs: Seq<MPU6500>,
    rs: Seq<Vec<Option<TimedReading>>>,
    b: int,
    n: int,
) -> Seq<(int, int)>
    decreases n,
{
    if n <= 0 {
        Seq::empty()
    } else {
        let prev = bus_sources(devs, rs, b, n - 1);
        if yields(devs[n - 1], reading_at(rs, b, n - 1)) {
            prev.push((b, n - 1))
        } else {
            prev
        }
    }
}

/// Positions, in order, of the devices of the first `nb` buses that yield.
pub open spec fn tick_sources(buses: Seq<I2CBus>, rs: Seq<Vec<Option<TimedReading>>>, nb: int) -> Seq<
    (int, int),
>
    decreases nb,
{
    if nb <= 0 {
        Seq::empty()
    } else {
        tick_sources(buses, rs, nb - 1) + bus_sources(
            buses[nb - 1].devices@,
            rs,
            nb - 1,
            buses[nb - 1].devices@.len() as int,
        )
    }
}

/// Positions, in order, of the devices that yield a sample this tick.
pub open spec fn sources(buses: Seq<I2CBus>, rs: Seq<Vec<Option<TimedReading>>>) -> Seq<(int, int)> {
    tick_sources(buses, rs, buses.len() as int)
}

/// The sample that the device at `at` yields, with its name.
pub open spec fn sample_from(
    buses: Seq<I2CBus>,
    rs: Seq<Vec<Option<TimedReading>>>,
    at: (int, int),
) -> (String, SensorData) {
    let dev = buses[at.0].devices@[at.1];
    let r = reading_at(rs, at.0, at.1)->Some_0;
    (dev.name, dev.sample_of(r.raw, r.timestamp_ms))
}

/// `(b1, d1)` comes before `(b2, d2)` in bus order, then device order.
pub open spec fn precedes(a: (int, int), c: (int, int)) -> bool {
    a.0 < c.0 || (a.0 == c.0 && a.1 < c.1)
}

/// The service: configuration and buses.
#[derive(Debug)]
pub struct SensorService {
    pub config: AppConfig,
    pub sensor_buses: Vec<I2CBus>,
}

impl SensorService {
    pub open spec fn wf(&self) -> bool {
        forall|b: int| 0 <= b < self.sensor_buses@.len() ==> #[trigger] self.sensor_buses@[b].wf()
    }

    /// Makes the buses of `sensors` in order. The first bus that fails fails
    /// the service.
    pub fn new(config: AppConfig, sensors: SensorConfig) -> (res: Result<SensorService, AppError>)
        ensures
            res is Ok <==> forall|i: int|
                0 <= i < sensors.sensors@.len() ==> #[trigger] spec_devices(
                    group_of(sensors.sensors@[i]).devices@,
                ) is Some,
            res is Err ==> res->Err_0 is Sensor,
            res matches Ok(s) ==> {
                &&& s.wf()
                &&& s.config == config
                &&& s.sensor_buses@.len() == sensors.sensors@.len()
                &&& forall|i: int|
                    0 <= i < s.sensor_buses@.len() ==> #[trigger] s.sensor_buses@[i].bus == group_of(
                        sensors.sensors@[i],
                    ).bus && s.sensor_buses@[i].devices@ == spec_devices(
                        group_of(sensors.sensors@[i]).devices@,
                    )->Some_0
            },
    {
        let mut buses: Vec<I2CBus> = Vec::new();
        let ghost all = sensors.sensors@;
        let mut list = sensors.sensors;
        while list.len() > 0
            invariant
                all == sensors.sensors@,
                buses@.len() + list@.len() == all.len(),
                list@ == all.skip(buses@.len() as int),
                forall|b: int| 0 <= b < buses@.len() ==> #[trigger] buses@[b].wf(),
                forall|b: int|
                    0 <= b < buses@.len() ==> #[trigger] buses@[b].bus == group_of(all[b]).bus
                        && spec_devices(group_of(all[b]).devices@) is Some && buses@[b].devices@
                        == spec_devices(group_of(all[b]).devices@)->Some_0,
            decreases list@.len(),
        {
            let ghost k = buses@.len() as int;
            let entry = list.remove(0);
            assert(entry == all[k]);
            match entry {
                SensorType::I2C(c) => {
                    let ghost group = c;
                    assert(group == group_of(all[k]));
                    match I2CBus::new(c) {
                        Ok(bus) => {
                            buses.push(bus);
                            assert(list@ =~= all.skip(buses@.len() as int));
                        },
                        Err(e) => {
                            assert(spec_devices(group_of(all[k]).devices@) is None);
                            assert(!(forall|i: int|
                                0 <= i < all.len() ==> #[trigger] spec_devices(
                                    group_of(all[i]).devices@,
                                ) is Some));
                            return Err(AppError::Sensor(e));
                        },
                    }
                },
            }
        }
        assert forall|i: int| 0 <= i < all.len() implies #[trigger] spec_devices(
            group_of(all[i]).devices@,
        ) is Some by {
            assert(buses@[i].bus == group_of(all[i]).bus);
        }
        Ok(SensorService { config, sensor_buses: buses })
    }

    /// Turns the readings of one tick into samples. Devices are taken in bus
    /// order, then device order; a device yields a sample when it is enabled
    /// and a reading was taken from it, and only then do its filters move.
    pub fn read_sensors(&mut self, readings: &TickReadings) -> (r: Vec<(String, SensorData)>)
        requires
            old(self).wf(),
        ensures
            final(self).wf(),
            final(self).config == old(self).config,
            r@.len() == sources(old(self).sensor_buses@, readings@).len(),
            forall|k: int|
                0 <= k < r@.len() ==> #[trigger] r@[k] == sample_from(
                    old(self).sensor_buses@,
                    readings@,
                    sources(old(self).sensor_buses@, readings@)[k],
                ),
            final(self).sensor_buses@.len() == old(self).sensor_buses@.len(),
            forall|b: int|
                #![trigger final(self).sensor_buses@[b]]
                0 <= b < old(self).sensor_buses@.len() ==> {
                    let ob = old(self).sensor_buses@[b];
                    let nb = final(self).sensor_buses@[b];
                    &&& nb.bus == ob.bus
                    &&& nb.devices@.len() == ob.devices@.len()
                    &&& forall|d: int|
                        0 <= d < ob.devices@.len() ==> #[trigger] nb.devices@[d] == after_tick(
                            ob.devices@[d],
                            reading_at(readings@, b, d),
                        )
                },
    {
        let ghost ob = self.sensor_buses@;
        let ghost rs = readings@;
        let ghost f = |s: (int, int)| sample_from(ob, rs, s);
        let mut r: Vec<(String, SensorData)> = Vec::new();
        let mut b: usize = 0;
        while b < self.sensor_buses.len()
            invariant
                self.wf(),
                self.config == old(self).config,
                ob == old(self).sensor_buses@,
                rs == readings@,
                f == (|s: (int, int)| sample_from(ob, rs, s)),
                self.sensor_buses@.len() == ob.len(),
                b <= ob.len(),
                r@ == tick_sources(ob, rs, b as int).map_values(f),
                forall|bb: int|
                    #![trigger self.sensor_buses@[bb]]
                    0 <= bb < ob.len() ==> {
                        let o = ob[bb];
                        let c = self.sensor_buses@[bb];
                        &&& c.bus == o.bus
                        &&& c.devices@.len() == o.devices@.len()
                        &&& forall|d: int|
                            0 <= d < o.devices@.len() ==> #[trigger] c.devices@[d] == if bb < b {
                                after_tick(o.devices@[d], reading_at(rs, bb, d))
                            } else {
                                o.devices@[d]
                            }
                    },
            decreases ob.len() - b,
        {
            let mut d: usize = 0;
            let ghost base = r@;
            while d < self.sensor_buses[b].devices.len()
                invariant
                    self.wf(),
                    self.config == old(self).config,
                    ob == old(self).sensor_buses@,
                    rs == readings@,
                    f == (|s: (int, int)| sample_from(ob, rs, s)),
                    self.sensor_buses@.len() == ob.len(),
                    b < ob.len(),
                    d <= ob[b as int].devices@.len(),
                    base == tick_sources(ob, rs, b as int).map_values(f),
                    r@ == base + bus_sources(ob[b as int].devices@, rs, b as int, d as int).map_values(f),
                    forall|bb: int|
                        #![trigger self.sensor_buses@[bb]]
                        0 <= bb < ob.len() ==> {
                            let o = ob[bb];
                            let c = self.sensor_buses@[bb];
                            &&& c.bus == o.bus
                            &&& c.devices@.len() == o.devices@.len()
                            &&& forall|dd: int|
                                0 <= dd < o.devices@.len() ==> #[trigger] c.devices@[dd] == if bb
                                    < b || (bb == b && dd < d) {
                                    after_tick(o.devices@[dd], reading_at(rs, bb, dd))
                                } else {
                                    o.devices@[dd]
                                }
                        },
                decreases ob[b as int].devices@.len() - d,
            {
                let taken: Option<TimedReading> = if b < readings.len() && d < readings[b].len() {
                    readings[b][d]
                } else {
                    None
                };
                assert(taken == reading_at(rs, b as int, d as int));
                let ghost prev = bus_sources(ob[b as int].devices@, rs, b as int, d as int);
                assert(self.sensor_buses@[b as int].devices@[d as int] == ob[b as int].devices@[d as int]);
                if self.sensor_buses[b].devices[d].enabled {
                    if let Some(t) = taken {
                        assert(self.sensor_buses@[b as int].wf());
                        let sample = self.sensor_buses[b].devices[d].read(&t.raw, t.timestamp_ms);
                        let name = self.sensor_buses[b].devices[d].name.clone();
                        r.push((name, sample));
                        proof {
                            assert(prev.push((b as int, d as int)).map_values(f) =~= prev.map_values(
                                f,
                            ).push(f((b as int, d as int))));
                        }
                    }
                }
                d = d + 1;
                proof {
                    assert(self.sensor_buses@[b as int].wf());
                }
            }
            proof {
                assert(tick_sources(ob, rs, b + 1) == tick_sources(ob, rs, b as int) + bus_sources(
                    ob[b as int].devices@,
                    rs,
                    b as int,
                    ob[b as int].devices@.len() as int,
                ));
                assert((tick_sources(ob, rs, b as int) + bus_sources(
                    ob[b as int].devices@,
                    rs,
                    b as int,
                    ob[b as int].devices@.len() as int,
                )).map_values(f) =~= base + bus_sources(
                    ob[b as int].devices@,
                    rs,
                    b as int,
                    ob[b as int].devices@.len() as int,
                ).map_values(f));
            }
            b = b + 1;
        }
        r
    }
}

} // verus!

verus! {

proof fn lemma_bus_sources(devs: Seq<MPU6500>, rs: Seq<Vec<Option<TimedReading>>>, b: int, n: int)
    requires
        0 <= n <= devs.len(),
    ensures
        ({
            let s = bus_sources(devs, rs, b, n);
            &&& forall|k: int| 0 <= k < s.len() ==> (#[trigger] s[k]).0 == b && 0 <= s[k].1 < n
                && yields(devs[s[k].1], reading_at(rs, b, s[k].1))
            &&& forall|i: int, j: int| 0 <= i < j < s.len() ==> s[i].1 < s[j].1
            &&& forall|d: int|
                0 <= d < n && yields(devs[d], reading_at(rs, b, d)) ==> s.contains((b, d))
        }),
    decreases n,
{
    if n > 0 {
        lemma_bus_sources(devs, rs, b, n - 1);
        let prev = bus_sources(devs, rs, b, n - 1);
        let s = bus_sources(devs, rs, b, n);
        assert forall|d: int|
            0 <= d < n && yields(devs[d], reading_at(rs, b, d)) implies s.contains((b, d)) by {
            if d < n - 1 {
                let k = choose|k: int| 0 <= k < prev.len() && prev[k] == (b, d);
                assert(s[k] == (b, d));
            } else {
                assert(s[s.len() - 1] == (b, d));
            }
        }
    }
}

proof fn lemma_tick_sources(buses: Seq<I2CBus>, rs: Seq<Vec<Option<TimedReading>>>, nb: int)
    requires
        0 <= nb <= buses.len(),
    ensures
        ({
            let s = tick_sources(buses, rs, nb);
            &&& forall|k: int|
                0 <= k < s.len() ==> 0 <= (#[trigger] s[k]).0 < nb && 0 <= s[k].1
                    < buses[s[k].0].devices@.len() && yields(
                    buses[s[k].0].devices@[s[k].1],
                    reading_at(rs, s[k].0, s[k].1),
                )
            &&& forall|i: int, j: int| 0 <= i < j < s.len() ==> precedes(s[i], s[j])
            &&& forall|b: int, d: int|
                0 <= b < nb && 0 <= d < buses[b].devices@.len() && yields(
                    buses[b].devices@[d],
                    reading_at(rs, b, d),
                ) ==> s.contains((b, d))
        }),
    decreases nb,
{
    if nb > 0 {
        lemma_tick_sources(buses, rs, nb - 1);
        let last = nb - 1;
        let devs = buses[last].devices@;
        lemma_bus_sources(devs, rs, last, devs.len() as int);
        let prev = tick_sources(buses, rs, nb - 1);
        let tail = bus_sources(devs, rs, last, devs.len() as int);
        let s = tick_sources(buses, rs, nb);
        assert(s == prev + tail);
        assert forall|k: int| 0 <= k < s.len() implies 0 <= (#[trigger] s[k]).0 < nb && 0 <= s[k].1
            < buses[s[k].0].devices@.len() && yields(
            buses[s[k].0].devices@[s[k].1],
            reading_at(rs, s[k].0, s[k].1),
        ) by {
            if k >= prev.len() {
                assert(s[k] == tail[k - prev.len()]);
            }
        }
        assert forall|i: int, j: int| 0 <= i < j < s.len() implies precedes(s[i], s[j]) by {
            if j >= prev.len() {
                assert(s[j] == tail[j - prev.len()]);
                if i >= prev.len() {
                    assert(s[i] == tail[i - prev.len()]);
                }
            }
        }
        assert forall|b: int, d: int|
            0 <= b < nb && 0 <= d < buses[b].devices@.len() && yields(
                buses[b].devices@[d],
                reading_at(rs, b, d),
            ) implies s.contains((b, d)) by {
            if b < last {
                let k = choose|k: int| 0 <= k < prev.len() && prev[k] == (b, d);
                assert(s[k] == (b, d));
            } else {
                let k = choose|k: int| 0 <= k < tail.len() && tail[k] == (b, d);
                assert(s[prev.len() + k] == (b, d));
            }
        }
    }
}

/// Within a tick, samples come in bus order, then device order: each comes
/// from an enabled device that was read, every such device yields exactly
/// one, and none comes before one of a device declared earlier.
pub proof fn lemma_sample_order(buses: Seq<I2CBus>, rs: Seq<Vec<Option<TimedReading>>>)
    ensures
        ({
            let s = sources(buses, rs);
            &&& forall|i: int, j: int| 0 <= i < j < s.len() ==> precedes(s[i], s[j])
            &&& forall|k: int|
                0 <= k < s.len() ==> 0 <= (#[trigger] s[k]).0 < buses.len() && 0 <= s[k].1
                    < buses[s[k].0].devices@.len() && yields(
                    buses[s[k].0].devices@[s[k].1],
                    reading_at(rs, s[k].0, s[k].1),
                )
            &&& forall|b: int, d: int|
                0 <= b < buses.len() && 0 <= d < buses[b].devices@.len() && yields(
                    buses[b].devices@[d],
                    reading_at(rs, b, d),
                ) ==> s.contains((b, d))
        }),
{
    lemma_tick_sources(buses, rs, buses.len() as int);
}

/// Timing of reconnection attempts at the head of the acquisition loop.
#[derive(Debug, Clone, Copy, PartialEq, Eq)]
pub struct ReconnectThrottle {
    /// Least time between two attempts, in milliseconds.
    pub delay_ms: u64,
    /// Time of the previous attempt, or of the start of the loop.
    pub last_attempt_ms: u64,
}

impl ReconnectThrottle {
    /// Whether an attempt is due at `now_ms`: the sink is not connected and
    /// at least the delay has passed since the previous attempt.
    pub open spec fn due(&self, now_ms: u64, connected: bool) -> bool {
        !connected && now_ms >= self.last_attempt_ms && now_ms - self.last_attempt_ms
            >= self.delay_ms
    }

    /// State of the throttle once the loop head at `now_ms` has passed.
    pub open spec fn after_head(&self, now_ms: u64, connected: bool) -> ReconnectThrottle {
        if self.due(now_ms, connected) {
            ReconnectThrottle { last_attempt_ms: now_ms, ..*self }
        } else {
            *self
        }
    }

    /// A throttle for a loop that starts at `now_ms`.
    pub fn new(delay_ms: u64, now_ms: u64) -> (g: ReconnectThrottle)
        ensures
            g == (ReconnectThrottle { delay_ms, last_attempt_ms: now_ms }),
    {
        ReconnectThrottle { delay_ms, last_attempt_ms: now_ms }
    }

    /// Decides at the loop head whether to attempt a reconnection, and
    /// records the attempt.
    pub fn at_loop_head(&mut self, now_ms: u64, connected: bool) -> (attempt: bool)
        ensures
            attempt == old(self).due(now_ms, connected),
            *final(self) == old(self).after_head(now_ms, connected),
    {
        if !connected && now_ms >= self.last_attempt_ms && now_ms - self.last_attempt_ms
            >= self.delay_ms {
            self.last_attempt_ms = now_ms;
            true
        } else {
            false
        }
    }
}

/// State of the throttle once the first `n` loop heads of `heads` have passed, each a time and
/// whether the sink was connected.
pub open spec fn throttle_after(g: ReconnectThrottle, heads: Seq<(u64, bool)>, n: int) -> ReconnectThrottle
    decreases n,
{
    if n <= 0 {
        g
    } else {
        throttle_after(g, heads, n - 1).after_head(heads[n - 1].0, heads[n - 1].1)
    }
}

/// Whether the loop head `i` of `heads` attempts a reconnection.
pub open spec fn attempts_at(g: ReconnectThrottle, heads: Seq<(u64, bool)>, i: int) -> bool {
    throttle_after(g, heads, i).due(heads[i].0, heads[i].1)
}

proof fn lemma_throttle_monotone(g: ReconnectThrottle, heads: Seq<(u64, bool)>, m: int, n: int)
    requires
        0 <= m <= n <= heads.len(),
    ensures
        throttle_after(g, heads, m).last_attempt_ms <= throttle_after(g, heads, n).last_attempt_ms,
        throttle_after(g, heads, n).delay_ms == g.delay_ms,
    decreases n,
{
    if n > 0 {
        lemma_throttle_monotone(g, heads, if m == n { m - 1 } else { m }, n - 1);
    }
}

/// Two reconnection attempts are never closer than the delay: within any
/// window shorter than the delay, at most one attempt is made.
pub proof fn lemma_reconnect_spacing(g: ReconnectThrottle, heads: Seq<(u64, bool)>, i: int, j: int)
    requires
        0 <= i < j < heads.len(),
        attempts_at(g, heads, i),
        attempts_at(g, heads, j),
    ensures
        heads[j].0 - heads[i].0 >= g.delay_ms,
{
    lemma_throttle_monotone(g, heads, i + 1, j);
    lemma_throttle_monotone(g, heads, 0, j);
}

/// Time left to sleep in a tick of `period_ms` that took `elapsed_ms`: the
/// difference, or zero once the tick has overrun.
pub fn remaining_ms(period_ms: u64, elapsed_ms: u64) -> (r: u64)
    ensures
        r == if elapsed_ms < period_ms {
            period_ms - elapsed_ms
        } else {
            0
        },
{
    if elapsed_ms < period_ms {
        period_ms - elapsed_ms
    } else {
        0
    }
}

} // verus!

verus! {

/// The devices of the buses, flattened in bus order, then device order.
pub open spec fn all_devices(buses: Seq<I2CBus>) -> Seq<MPU6500>
    decreases buses.len(),
{
    if buses.len() == 0 {
        Seq::empty()
    } else {
        all_devices(buses.drop_last()) + buses.last().devices@
    }
}

/// Whether no device before `(b, d)` in bus order, then device order, is named `name`.
pub open spec fn first_named(buses: Seq<I2CBus>, name: Seq<char>, b: int, d: int) -> bool {
    forall|bb: int, dd: int|
        0 <= bb < buses.len() && 0 <= dd < buses[bb].devices@.len() && precedes((bb, dd), (b, d))
            ==> #[trigger] buses[bb].devices@[dd].name@ != name
}

impl SensorService {
    /// Names of all devices, in bus order, then device order.
    pub fn get_sensor_names(&self) -> (names: Vec<String>)
        ensures
            names@.len() == all_devices(self.sensor_buses@).len(),
            forall|i: int|
                0 <= i < names@.len() ==> #[trigger] names@[i]@ == all_devices(
                    self.sensor_buses@,
                )[i].name@,
    {
        let mut names: Vec<String> = Vec::new();
        let mut b: usize = 0;
        while b < self.sensor_buses.len()
            invariant
                b <= self.sensor_buses@.len(),
                names@.len() == all_devices(self.sensor_buses@.take(b as int)).len(),
                forall|i: int|
                    0 <= i < names@.len() ==> #[trigger] names@[i]@ == all_devices(
                        self.sensor_buses@.take(b as int),
                    )[i].name@,
            decreases self.sensor_buses@.len() - b,
        {
            let bus = &self.sensor_buses[b];
            let ghost before = all_devices(self.sensor_buses@.take(b as int));
            assert(self.sensor_buses@.take(b + 1).drop_last() =~= self.sensor_buses@.take(b as int));
            assert(all_devices(self.sensor_buses@.take(b + 1)) == before + bus.devices@);
            let mut d: usize = 0;
            while d < bus.devices.len()
                invariant
                    d <= bus.devices@.len(),
                    names@.len() == before.len() + d,
                    forall|i: int|
                        0 <= i < names@.len() ==> #[trigger] names@[i]@ == (before + bus.devices@)[i].name@,
                decreases bus.devices@.len() - d,
            {
                names.push(bus.devices[d].name.clone());
                d = d + 1;
            }
            b = b + 1;
        }
        assert(self.sensor_buses@.take(self.sensor_buses@.len() as int) =~= self.sensor_buses@);
        names
    }

    /// Position of the first device named `name`, in bus order, then device
    /// order; none when no device has that name.
    pub fn find_sensor(&self, name: &String) -> (at: Option<(usize, usize)>)
        ensures
            at matches Some(p) ==> p.0 < self.sensor_buses@.len() && p.1
                < self.sensor_buses@[p.0 as int].devices@.len()
                && self.sensor_buses@[p.0 as int].devices@[p.1 as int].name@ == name@
                && first_named(self.sensor_buses@, name@, p.0 as int, p.1 as int),
            at is None ==> forall|bb: int, dd: int|
                0 <= bb < self.sensor_buses@.len() && 0 <= dd
                    < self.sensor_buses@[bb].devices@.len()
                    ==> #[trigger] self.sensor_buses@[bb].devices@[dd].name@ != name@,
    {
        let mut b: usize = 0;
        while b < self.sensor_buses.len()
            invariant
                b <= self.sensor_buses@.len(),
                forall|bb: int, dd: int|
                    0 <= bb < b && 0 <= dd < self.sensor_buses@[bb].devices@.len()
                        ==> #[trigger] self.sensor_buses@[bb].devices@[dd].name@ != name@,
            decreases self.sensor_buses@.len() - b,
        {
            let mut d: usize = 0;
            while d < self.sensor_buses[b].devices.len()
                invariant
                    b < self.sensor_buses@.len(),
                    d <= self.sensor_buses@[b as int].devices@.len(),
                    forall|bb: int, dd: int|
                        0 <= bb < b && 0 <= dd < self.sensor_buses@[bb].devices@.len()
                            ==> #[trigger] self.sensor_buses@[bb].devices@[dd].name@ != name@,
                    forall|dd: int|
                        0 <= dd < d ==> #[trigger] self.sensor_buses@[b as int].devices@[dd].name@
                            != name@,
                decreases self.sensor_buses@[b as int].devices@.len() - d,
            {
                if self.sensor_buses[b].devices[d].name == *name {
                    return Some((b, d));
                }
                d = d + 1;
            }
            b = b + 1;
        }
        None
    }
}

} // verus!
