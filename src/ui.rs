//! State of the terminal interface: the selected device, which devices are
//! shown, their latest samples and a bounded history of G-forces.
use vstd::prelude::*;
use crate::fixed::{isqrt, root, trunc_div};
use crate::kalman::MAX_MEASUREMENT;
use crate::sensors::SensorData;

verus! {

/// Number of points kept per history: 60 seconds at 10 ms.
pub const MAX_HISTORY_SIZE: usize = 600;

/// `s` with its oldest element dropped when it holds more than the history
/// bound.
pub open spec fn window(s: Seq<i64>) -> Seq<i64> {
    if s.len() > MAX_HISTORY_SIZE {
        s.drop_first()
    } else {
        s
    }
}

/// Smallest element of a non-empty sequence.
pub open spec fn seq_min(s: Seq<i64>) -> int
    decreases s.len(),
{
    if s.len() <= 1 {
        s[0] as int
    } else {
        let m = seq_min(s.drop_last());
        if (s.last() as int) < m {
            s.last() as int
        } else {
            m
        }
    }
}

/// Largest element of a non-empty sequence.
pub open spec fn seq_max(s: Seq<i64>) -> int
    decreases s.len(),
{
    if s.len() <= 1 {
        s[0] as int
    } else {
        let m = seq_max(s.drop_last());
        if (s.last() as int) > m {
            s.last() as int
        } else {
            m
        }
    }
}

/// Sum of a sequence.
pub open spec fn seq_sum(s: Seq<i64>) -> int
    decreases s.len(),
{
    if s.len() == 0 {
        0
    } else {
        seq_sum(s.drop_last()) + s.last()
    }
}

/// Minimum, maximum and mean (rounded toward zero) of a history; zeros
/// when it is empty.
pub open spec fn spec_stats(s: Seq<i64>) -> (i64, i64, i64) {
    if s.len() == 0 {
        (0, 0, 0)
    } else {
        (seq_min(s) as i64, seq_max(s) as i64, trunc_div(seq_sum(s), s.len() as int) as i64)
    }
}

/// Bound on the values a history holds, in micro-g.
pub open spec fn bounded(s: Seq<i64>) -> bool {
    forall|i: int| 0 <= i < s.len() ==> -3 * MAX_MEASUREMENT <= #[trigger] s[i] <= 3 * MAX_MEASUREMENT
}

proof fn lemma_stats_bounds(s: Seq<i64>)
    requires
        bounded(s),
        s.len() > 0,
    ensures
        -3 * MAX_MEASUREMENT <= seq_min(s) <= 3 * MAX_MEASUREMENT,
        -3 * MAX_MEASUREMENT <= seq_max(s) <= 3 * MAX_MEASUREMENT,
    decreases s.len(),
{
    if s.len() > 1 {
        assert(bounded(s.drop_last()));
        lemma_stats_bounds(s.drop_last());
    }
}

proof fn lemma_sum_bounds(s: Seq<i64>)
    requires
        bounded(s),
    ensures
        -3 * MAX_MEASUREMENT * s.len() <= seq_sum(s) <= 3 * MAX_MEASUREMENT * s.len(),
    decreases s.len(),
{
    if s.len() > 0 {
        assert(bounded(s.drop_last()));
        lemma_sum_bounds(s.drop_last());
        let c = 3 * MAX_MEASUREMENT;
        let n = s.len() as int;
        assert(c * (n - 1) + c == c * n && -c * (n - 1) - c == -c * n) by (nonlinear_arith);
        assert(s.last() == s[n - 1]);
    }
}

/// Minimum, maximum and mean of one axis history.
fn axis_stats(v: &Vec<i64>) -> (r: (i64, i64, i64))
    requires
        bounded(v@),
        v@.len() <= MAX_HISTORY_SIZE,
    ensures
        r == spec_stats(v@),
{
    if v.len() == 0 {
        return (0, 0, 0);
    }
    let mut lo: i64 = v[0];
    let mut hi: i64 = v[0];
    let mut sum: i128 = v[0] as i128;
    let mut i: usize = 1;
    assert(v@.take(1).drop_last() =~= Seq::<i64>::empty());
    assert(v@.take(1).last() == v@[0]);
    assert(seq_sum(Seq::<i64>::empty()) == 0);
    assert(seq_sum(v@.take(1)) == v@[0]);
    while i < v.len()
        invariant
            1 <= i <= v@.len(),
            v@.len() <= MAX_HISTORY_SIZE,
            bounded(v@),
            lo == seq_min(v@.take(i as int)),
            hi == seq_max(v@.take(i as int)),
            sum == seq_sum(v@.take(i as int)),
        decreases v@.len() - i,
    {
        let x = v[i];
        proof {
            let t = v@.take(i + 1);
            assert(t.drop_last() =~= v@.take(i as int));
            assert(bounded(v@.take(i as int)));
            lemma_sum_bounds(v@.take(i as int));
            let ghost k = i as int;
            assert(v@.take(k).len() == k);
            assert(-1_800_000_000_000_000 <= sum <= 1_800_000_000_000_000) by (nonlinear_arith)
                requires
                    -3 * MAX_MEASUREMENT * k <= sum <= 3 * MAX_MEASUREMENT * k,
                    0 <= k <= 600,
            ;
        }
        if x < lo {
            lo = x;
        }
        if x > hi {
            hi = x;
        }
        sum = sum + x as i128;
        i = i + 1;
    }
    proof {
        assert(v@.take(v@.len() as int) =~= v@);
        lemma_sum_bounds(v@);
        lemma_stats_bounds(v@);
        let k = v@.len() as int;
        assert(-1_800_000_000_000_000 <= sum <= 1_800_000_000_000_000) by (nonlinear_arith)
            requires
                -3 * MAX_MEASUREMENT * k <= sum <= 3 * MAX_MEASUREMENT * k,
                0 <= k <= 600,
        ;
        crate::fixed::lemma_trunc_div_bounds(sum as int, v@.len() as int);
    }
    let n: i128 = v.len() as i128;
    let mean = crate::fixed::div_trunc(sum, n);
    proof {
        let t = trunc_div(sum as int, n as int);
        if sum >= 0 {
            assert(t <= sum) by (nonlinear_arith)
                requires n * t <= sum, n >= 1, t >= 0;
        } else {
            assert(t >= sum) by (nonlinear_arith)
                requires n * t >= sum, n >= 1, t <= 0;
        }
    }
    (lo, hi, mean as i64)
}

/// Statistics of a history, per axis (minimum, maximum, mean), in micro-g.
#[derive(Debug, Clone, Copy, PartialEq, Eq)]
pub struct HistoryStats {
    pub g_force_x: (i64, i64, i64),
    pub g_force_y: (i64, i64, i64),
    pub g_force_z: (i64, i64, i64),
    pub max_magnitude: i64,
}

/// Recent G-forces of one device, oldest first, in micro-g.
#[derive(Debug, Clone)]
pub struct SensorHistory {
    pub timestamps: Vec<i64>,
    pub g_force_x: Vec<i64>,
    pub g_force_y: Vec<i64>,
    pub g_force_z: Vec<i64>,
    /// Largest G-force magnitude seen since the history was made or cleared.
    pub max_g_magnitude: i64,
}

/// Magnitude of a G-force vector, rounded down.
pub open spec fn magnitude(x: i64, y: i64, z: i64) -> int {
    root(x * x + y * y + z * z)
}

impl SensorHistory {
    pub open spec fn wf(&self) -> bool {
        &&& self.timestamps@.len() <= MAX_HISTORY_SIZE
        &&& self.g_force_x@.len() <= MAX_HISTORY_SIZE
        &&& self.g_force_y@.len() <= MAX_HISTORY_SIZE
        &&& self.g_force_z@.len() <= MAX_HISTORY_SIZE
        &&& bounded(self.g_force_x@)
        &&& bounded(self.g_force_y@)
        &&& bounded(self.g_force_z@)
        &&& self.max_g_magnitude >= 0
    }

    /// An empty history.
    pub fn new() -> (h: SensorHistory)
        ensures
            h.wf(),
            h.timestamps@.len() == 0 && h.g_force_x@.len() == 0 && h.g_force_y@.len() == 0
                && h.g_force_z@.len() == 0,
            h.max_g_magnitude == 0,
    {
        SensorHistory {
            timestamps: Vec::new(),
            g_force_x: Vec::new(),
            g_force_y: Vec::new(),
            g_force_z: Vec::new(),
            max_g_magnitude: 0,
        }
    }

    /// Appends the G-forces of a sample, dropping the oldest point when the
    /// history is full, and raises the largest magnitude if this one is larger.
    pub fn add_data(&mut self, data: &SensorData)
        requires
            old(self).wf(),
            -3 * MAX_MEASUREMENT <= data.accel.x <= 3 * MAX_MEASUREMENT,
            -3 * MAX_MEASUREMENT <= data.accel.y <= 3 * MAX_MEASUREMENT,
            -3 * MAX_MEASUREMENT <= data.accel.z <= 3 * MAX_MEASUREMENT,
        ensures
            final(self).wf(),
            final(self).timestamps@ == window(old(self).timestamps@.push(data.timestamp_ms)),
            final(self).g_force_x@ == window(old(self).g_force_x@.push(data.accel.x)),
            final(self).g_force_y@ == window(old(self).g_force_y@.push(data.accel.y)),
            final(self).g_force_z@ == window(old(self).g_force_z@.push(data.accel.z)),
            final(self).max_g_magnitude == if magnitude(data.accel.x, data.accel.y, data.accel.z)
                > old(self).max_g_magnitude {
                magnitude(data.accel.x, data.accel.y, data.accel.z)
            } else {
                old(self).max_g_magnitude as int
            },
    {
        push_bounded(&mut self.timestamps, data.timestamp_ms);
        push_bounded(&mut self.g_force_x, data.accel.x);
        push_bounded(&mut self.g_force_y, data.accel.y);
        push_bounded(&mut self.g_force_z, data.accel.z);
        let x = data.accel.x as i128;
        let y = data.accel.y as i128;
        let z = data.accel.z as i128;
        assert(0 <= x * x <= 9_000_000_000_000_000_000_000_000 && 0 <= y * y
            <= 9_000_000_000_000_000_000_000_000 && 0 <= z * z <= 9_000_000_000_000_000_000_000_000)
            by (nonlinear_arith)
            requires
                -3 * MAX_MEASUREMENT <= x <= 3 * MAX_MEASUREMENT,
                -3 * MAX_MEASUREMENT <= y <= 3 * MAX_MEASUREMENT,
                -3 * MAX_MEASUREMENT <= z <= 3 * MAX_MEASUREMENT,
        ;
        let n: i128 = x * x + y * y + z * z;
        let m = isqrt(n as u128);
        assert(m <= 6_000_000_000_000) by (nonlinear_arith)
            requires m * m <= n, n <= 27_000_000_000_000_000_000_000_000, m >= 0;
        if m as i64 > self.max_g_magnitude {
            self.max_g_magnitude = m as i64;
        }
    }

    /// Empties the history and forgets the largest magnitude.
    pub fn clear(&mut self)
        ensures
            final(self).wf(),
            final(self).timestamps@.len() == 0 && final(self).g_force_x@.len() == 0
                && final(self).g_force_y@.len() == 0 && final(self).g_force_z@.len() == 0,
            final(self).max_g_magnitude == 0,
    {
        self.timestamps.clear();
        self.g_force_x.clear();
        self.g_force_y.clear();
        self.g_force_z.clear();
        self.max_g_magnitude = 0;
    }

    /// Minimum, maximum and mean of each axis, and the largest magnitude.
    pub fn get_stats(&self) -> (s: HistoryStats)
        requires
            self.wf(),
        ensures
            s == (HistoryStats {
                g_force_x: spec_stats(self.g_force_x@),
                g_force_y: spec_stats(self.g_force_y@),
                g_force_z: spec_stats(self.g_force_z@),
                max_magnitude: self.max_g_magnitude,
            }),
    {
        HistoryStats {
            g_force_x: axis_stats(&self.g_force_x),
            g_force_y: axis_stats(&self.g_force_y),
            g_force_z: axis_stats(&self.g_force_z),
            max_magnitude: self.max_g_magnitude,
        }
    }
}

/// Appends `x`, first dropping the oldest element when `v` is full.
fn push_bounded(v: &mut Vec<i64>, x: i64)
    requires
        old(v)@.len() <= MAX_HISTORY_SIZE,
    ensures
        final(v)@ == window(old(v)@.push(x)),
        final(v)@.len() <= MAX_HISTORY_SIZE,
{
    if v.len() >= MAX_HISTORY_SIZE {
        v.remove(0);
        v.push(x);
        assert(v@ =~= window(old(v)@.push(x)));
    } else {
        v.push(x);
    }
}

} // verus!

verus! {

/// State of the terminal interface. The per-device vectors follow
/// `sensor_names`.
#[derive(Debug)]
pub struct App {
    pub should_quit: bool,
    pub is_measuring: bool,
    /// Index of the selected device in `sensor_names`.
    pub selected_sensor: usize,
    pub sensor_count: usize,
    pub sensor_names: Vec<String>,
    /// Whether each device's history is recorded.
    pub sensor_enabled: Vec<bool>,
    pub sensor_history: Vec<SensorHistory>,
    /// Latest sample of each device.
    pub current_data: Vec<Option<SensorData>>,
    pub status_message: Option<String>,
    pub error_message: Option<String>,
    pub mqtt_connected: bool,
    pub show_help: bool,
}

/// Whether no name before position `i` of `names` is `name`.
pub open spec fn first_index(names: Seq<String>, name: Seq<char>, i: int) -> bool {
    0 <= i < names.len() && names[i]@ == name && forall|j: int| 0 <= j < i ==> #[trigger] names[j]@ != name
}

impl App {
    pub open spec fn wf(&self) -> bool {
        &&& self.sensor_count == self.sensor_names@.len()
        &&& self.sensor_enabled@.len() == self.sensor_count
        &&& self.sensor_history@.len() == self.sensor_count
        &&& self.current_data@.len() == self.sensor_count
        &&& (self.sensor_count == 0 ==> self.selected_sensor == 0)
        &&& (self.sensor_count > 0 ==> self.selected_sensor < self.sensor_count)
        &&& forall|i: int| 0 <= i < self.sensor_history@.len() ==> #[trigger] self.sensor_history@[i].wf()
    }

    /// State for devices `sensor_names`: measuring, first device selected,
    /// every device shown, empty histories.
    pub fn new(sensor_names: Vec<String>) -> (a: App)
        ensures
            a.wf(),
            a.sensor_names == sensor_names,
            a.is_measuring && !a.should_quit && !a.show_help && !a.mqtt_connected,
            a.selected_sensor == 0,
            forall|i: int| 0 <= i < a.sensor_count ==> #[trigger] a.sensor_enabled@[i],
            forall|i: int| 0 <= i < a.sensor_count ==> #[trigger] a.current_data@[i] is None,
            a.status_message matches Some(m) && m@ == "Application started"@,
            a.error_message is None,
    {
        let n = sensor_names.len();
        let mut sensor_enabled: Vec<bool> = Vec::new();
        let mut sensor_history: Vec<SensorHistory> = Vec::new();
        let mut current_data: Vec<Option<SensorData>> = Vec::new();
        let mut i: usize = 0;
        while i < n
            invariant
                i <= n,
                sensor_enabled@.len() == i,
                sensor_history@.len() == i,
                current_data@.len() == i,
                forall|j: int| 0 <= j < i ==> #[trigger] sensor_enabled@[j],
                forall|j: int| 0 <= j < i ==> #[trigger] current_data@[j] is None,
                forall|j: int| 0 <= j < i ==> #[trigger] sensor_history@[j].wf(),
            decreases n - i,
        {
            sensor_enabled.push(true);
            sensor_history.push(SensorHistory::new());
            current_data.push(None);
            i = i + 1;
        }
        App {
            should_quit: false,
            is_measuring: true,
            selected_sensor: 0,
            sensor_count: n,
            sensor_names,
            sensor_enabled,
            sensor_history,
            current_data,
            status_message: Some(String::from_str("Application started")),
            error_message: None,
            mqtt_connected: false,
            show_help: false,
        }
    }

    /// Position of the first device named `name`.
    pub fn index_of(&self, name: &String) -> (r: Option<usize>)
        ensures
            r matches Some(i) ==> first_index(self.sensor_names@, name@, i as int),
            r is None ==> forall|j: int|
                0 <= j < self.sensor_names@.len() ==> #[trigger] self.sensor_names@[j]@ != name@,
    {
        let mut i: usize = 0;
        while i < self.sensor_names.len()
            invariant
                i <= self.sensor_names@.len(),
                forall|j: int| 0 <= j < i ==> #[trigger] self.sensor_names@[j]@ != name@,
            decreases self.sensor_names@.len() - i,
        {
            if self.sensor_names[i] == *name {
                return Some(i);
            }
            i = i + 1;
        }
        None
    }

    /// Records the latest sample of a device, and adds it to the device's
    /// history when the device is shown. Unknown names change nothing.
    pub fn update_sensor_data(&mut self, sensor_name: &String, data: SensorData)
        requires
            old(self).wf(),
            -3 * MAX_MEASUREMENT <= data.accel.x <= 3 * MAX_MEASUREMENT,
            -3 * MAX_MEASUREMENT <= data.accel.y <= 3 * MAX_MEASUREMENT,
            -3 * MAX_MEASUREMENT <= data.accel.z <= 3 * MAX_MEASUREMENT,
        ensures
            final(self).wf(),
            final(self).sensor_names == old(self).sensor_names,
            final(self).sensor_enabled == old(self).sensor_enabled,
            forall|i: int|
                first_index(old(self).sensor_names@, sensor_name@, i) ==> {
                    let before = old(self).sensor_history@;
                    let after = final(self).sensor_history@;
                    let h = before[i];
                    &&& final(self).current_data@ == old(self).current_data@.update(i, Some(data))
                    &&& after.len() == before.len()
                    &&& forall|j: int| 0 <= j < before.len() && j != i ==> #[trigger] after[j] == before[j]
                    &&& old(self).sensor_enabled@[i] ==> {
                        &&& after[i].g_force_x@ == window(h.g_force_x@.push(data.accel.x))
                        &&& after[i].g_force_y@ == window(h.g_force_y@.push(data.accel.y))
                        &&& after[i].g_force_z@ == window(h.g_force_z@.push(data.accel.z))
                        &&& after[i].timestamps@ == window(h.timestamps@.push(data.timestamp_ms))
                    }
                    &&& !old(self).sensor_enabled@[i] ==> after[i] == h
                },
            (forall|i: int|
                0 <= i < old(self).sensor_names@.len() ==> #[trigger] old(self).sensor_names@[i]@
                    != sensor_name@) ==> final(self).current_data == old(self).current_data
                && final(self).sensor_history == old(self).sensor_history,
    {
        match self.index_of(sensor_name) {
            Some(i) => {
                self.current_data.set(i, Some(data));
                if self.sensor_enabled[i] {
                    self.sensor_history[i].add_data(&data);
                }
                proof {
                    assert forall|k: int|
                        first_index(old(self).sensor_names@, sensor_name@, k) implies k == i by {
                        if k < i {
                            assert(old(self).sensor_names@[k]@ != sensor_name@);
                        } else if k > i {
                            assert(old(self).sensor_names@[i as int]@ != sensor_name@);
                        }
                    }
                }
            },
            None => {},
        }
    }

    /// Pauses or resumes measuring.
    pub fn toggle_measuring(&mut self)
        ensures
            final(self).is_measuring == !old(self).is_measuring,
            final(self).status_message matches Some(m) && m@ == if final(self).is_measuring {
                "Measurement started"@
            } else {
                "Measurement paused"@
            },
            final(self).selected_sensor == old(self).selected_sensor,
            final(self).sensor_names == old(self).sensor_names,
    {
        self.is_measuring = !self.is_measuring;
        if self.is_measuring {
            self.status_message = Some(String::from_str("Measurement started"));
        } else {
            self.status_message = Some(String::from_str("Measurement paused"));
        }
    }

    /// Selects the next device, wrapping to the first.
    pub fn next_sensor(&mut self)
        requires
            old(self).wf(),
        ensures
            final(self).wf(),
            final(self).selected_sensor == if old(self).sensor_count > 0 {
                (old(self).selected_sensor + 1) % (old(self).sensor_count as int)
            } else {
                old(self).selected_sensor as int
            },
    {
        if self.sensor_count > 0 {
            self.selected_sensor = (self.selected_sensor + 1) % self.sensor_count;
        }
    }

    /// Selects the previous device, wrapping to the last.
    pub fn prev_sensor(&mut self)
        requires
            old(self).wf(),
        ensures
            final(self).wf(),
            final(self).selected_sensor == if old(self).sensor_count == 0 {
                old(self).selected_sensor as int
            } else if old(self).selected_sensor == 0 {
                old(self).sensor_count - 1
            } else {
                old(self).selected_sensor - 1
            },
    {
        if self.sensor_count > 0 {
            self.selected_sensor = if self.selected_sensor == 0 {
                self.sensor_count - 1
            } else {
                self.selected_sensor - 1
            };
        }
    }

    /// Shows or hides the selected device and says so in the status line.
    pub fn toggle_selected_sensor(&mut self)
        requires
            old(self).wf(),
        ensures
            final(self).wf(),
            final(self).sensor_names == old(self).sensor_names,
            final(self).selected_sensor == old(self).selected_sensor,
            old(self).sensor_count == 0 ==> final(self).sensor_enabled == old(self).sensor_enabled,
            old(self).sensor_count > 0 ==> {
                let i = old(self).selected_sensor as int;
                let now = !old(self).sensor_enabled@[i];
                &&& final(self).sensor_enabled@ == old(self).sensor_enabled@.update(i, now)
                &&& final(self).status_message matches Some(m) && m@ == "Sensor "@
                    + old(self).sensor_names@[i]@ + if now {
                    " enabled"@
                } else {
                    " disabled"@
                }
            },
    {
        if self.selected_sensor < self.sensor_names.len() {
            let i = self.selected_sensor;
            let now = !self.sensor_enabled[i];
            self.sensor_enabled.set(i, now);
            let msg = String::from_str("Sensor ");
            let msg = msg.concat(self.sensor_names[i].as_str());
            let msg = if now {
                msg.concat(" enabled")
            } else {
                msg.concat(" disabled")
            };
            self.status_message = Some(msg);
        }
    }

    /// Empties every history.
    pub fn clear_charts(&mut self)
        requires
            old(self).wf(),
        ensures
            final(self).wf(),
            final(self).sensor_history@.len() == old(self).sensor_history@.len(),
            forall|i: int|
                0 <= i < final(self).sensor_history@.len() ==> #[trigger] final(self).sensor_history@[i].g_force_x@.len() == 0
                    && final(self).sensor_history@[i].max_g_magnitude == 0,
            final(self).status_message matches Some(m) && m@ == "Charts cleared"@,
    {
        let mut i: usize = 0;
        while i < self.sensor_history.len()
            invariant
                self.wf(),
                self.sensor_history@.len() == old(self).sensor_history@.len(),
                self.sensor_count == old(self).sensor_count,
                i <= self.sensor_history@.len(),
                forall|j: int|
                    0 <= j < i ==> #[trigger] self.sensor_history@[j].g_force_x@.len() == 0
                        && self.sensor_history@[j].max_g_magnitude == 0,
            decreases self.sensor_history@.len() - i,
        {
            self.sensor_history[i].clear();
            i = i + 1;
        }
        self.status_message = Some(String::from_str("Charts cleared"));
    }

    pub fn toggle_help(&mut self)
        ensures
            final(self).show_help == !old(self).show_help,
    {
        self.show_help = !self.show_help;
    }

    pub fn set_status(&mut self, message: String)
        ensures
            final(self).status_message == Some(message),
    {
        self.status_message = Some(message);
    }

    pub fn set_error(&mut self, message: String)
        ensures
            final(self).error_message == Some(message),
    {
        self.error_message = Some(message);
    }

    pub fn clear_error(&mut self)
        ensures
            final(self).error_message is None,
    {
        self.error_message = None;
    }

    /// Name of the selected device, if there is one.
    pub fn get_selected_sensor_name(&self) -> (n: Option<&str>)
        ensures
            self.selected_sensor < self.sensor_names@.len() ==> (n matches Some(s) && s@
                == self.sensor_names@[self.selected_sensor as int]@),
            self.selected_sensor >= self.sensor_names@.len() ==> n is None,
    {
        if self.selected_sensor < self.sensor_names.len() {
            Some(self.sensor_names[self.selected_sensor].as_str())
        } else {
            None
        }
    }
}

} // verus!
