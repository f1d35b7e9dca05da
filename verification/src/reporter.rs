use vstd::prelude::*;
use crate::model::DeviceAlarmThreshold;
use crate::text::text_eq;

verus! {

/// Whole seconds from `start` to `now` (both in nanoseconds), truncated
/// toward zero.
pub open spec fn whole_seconds(start: i64, now: i64) -> int {
    let d = now - start;
    if d >= 0 { d / 1_000_000_000 } else { -((-d) / 1_000_000_000) }
}

/// The samples of one sensor in the current window: IEEE-754 bit patterns
/// of the values, and when the window opened (nanoseconds).
#[derive(Debug)]
pub struct SensorWindow {
    pub sensor_code: String,
    pub samples: Vec<u64>,
    pub started_at: i64,
}

/// A closed window handed out for aggregation.
#[derive(Debug)]
pub struct WindowBatch {
    pub sensor_code: String,
    pub samples: Vec<u64>,
    pub started_at: i64,
}

/// Collects the readings of one device per sensor and hands out each
/// sensor's window once it has lasted `window_secs`.
#[derive(Debug)]
pub struct Aggregator {
    pub window_secs: i64,
    pub device_id: i64,
    pub windows: Vec<SensorWindow>,
}

/// The abstract state of one window: sensor, samples, opening time.
pub open spec fn window_view(w: SensorWindow) -> (Seq<char>, Seq<u64>, i64) {
    (w.sensor_code@, w.samples@, w.started_at)
}

/// A window is due at `now`: it holds samples and has lasted the window
/// length.
pub open spec fn window_due(w: (Seq<char>, Seq<u64>, i64), now: i64, window_secs: i64) -> bool {
    w.1.len() > 0 && whole_seconds(w.2, now) >= window_secs
}

impl Aggregator {
    /// The windows, in the order their sensors first reported.
    pub open spec fn view_windows(&self) -> Seq<(Seq<char>, Seq<u64>, i64)> {
        self.windows@.map_values(|w: SensorWindow| window_view(w))
    }

    /// Each sensor has at most one window.
    pub open spec fn wf(&self) -> bool {
        forall|i: int, j: int|
            0 <= i < self.windows@.len() && 0 <= j < self.windows@.len() && i != j
                ==> (#[trigger] self.windows@[i]).sensor_code@ != (#[trigger] self.windows@[j]).sensor_code@
    }

    /// An aggregator for device `device_id` with windows of `window_secs`
    /// seconds (kept as a signed number, as the arithmetic on times is).
    pub fn new(device_id: i64, window_secs: u64) -> (r: Self)
        ensures
            r.wf(),
            r.device_id == device_id,
            r.window_secs == window_secs as i64,
            r.windows@.len() == 0,
    {
        Aggregator { window_secs: window_secs as i64, device_id, windows: Vec::new() }
    }

    fn find(&self, sensor_code: &str) -> (r: Option<usize>)
        ensures
            r matches Some(i) ==> i < self.windows@.len() && self.windows@[i as int].sensor_code@ == sensor_code@,
            r is None ==> forall|i: int|
                0 <= i < self.windows@.len() ==> (#[trigger] self.windows@[i]).sensor_code@ != sensor_code@,
    {
        let mut i: usize = 0;
        while i < self.windows.len()
            invariant
                i <= self.windows@.len(),
                forall|j: int| 0 <= j < i ==> (#[trigger] self.windows@[j]).sensor_code@ != sensor_code@,
            decreases self.windows@.len() - i,
        {
            if text_eq(self.windows[i].sensor_code.as_str(), sensor_code) {
                return Some(i);
            }
            i = i + 1;
        }
        None
    }

    /// Adds a reading (the bit pattern of its value) of a sensor of device
    /// `device_id` at time `now`; a sensor whose window is empty starts its
    /// window at `now`.
    pub fn push(&mut self, device_id: i64, sensor_code: &str, value_bits: u64, now: i64)
        requires
            old(self).wf(),
        ensures
            final(self).wf(),
            final(self).device_id == device_id,
            final(self).window_secs == old(self).window_secs,
            ({
                let before = old(self).view_windows();
                let after = final(self).view_windows();
                match before_index(before, sensor_code@) {
                    Some(i) => after == before.update(i, (sensor_code@, before[i].1.push(value_bits),
                        if before[i].1.len() == 0 { now } else { before[i].2 })),
                    None => after == before.push((sensor_code@, seq![value_bits], now)),
                }
            }),
    {
        self.device_id = device_id;
        let ghost before = self.view_windows();
        match self.find(sensor_code) {
            Some(i) => {
                let mut w = self.windows.remove(i);
                let ghost w0 = w;
                if w.samples.len() == 0 {
                    w.started_at = now;
                }
                w.samples.push(value_bits);
                self.windows.insert(i, w);
                proof {
                    lemma_before_index_found(before, sensor_code@, i as int);
                    assert(self.view_windows() =~= before.update(i as int, (sensor_code@, before[i as int].1.push(value_bits),
                        if before[i as int].1.len() == 0 { now } else { before[i as int].2 })));
                    assert forall|a: int, b: int|
                        0 <= a < self.windows@.len() && 0 <= b < self.windows@.len() && a != b
                            implies (#[trigger] self.windows@[a]).sensor_code@ != (#[trigger] self.windows@[b]).sensor_code@ by {
                        assert(self.windows@[a].sensor_code@ == old(self).windows@[a].sensor_code@);
                        assert(self.windows@[b].sensor_code@ == old(self).windows@[b].sensor_code@);
                    }
                }
            },
            None => {
                let mut samples: Vec<u64> = Vec::new();
                samples.push(value_bits);
                self.windows.push(SensorWindow { sensor_code: String::from_str(sensor_code), samples, started_at: now });
                proof {
                    lemma_before_index_missing(before, sensor_code@);
                    assert(self.view_windows() =~= before.push((sensor_code@, seq![value_bits], now)));
                }
            },
        }
    }

    /// Some window is due at `now`.
    pub fn is_ready(&self, now: i64) -> (r: bool)
        ensures
            r == exists|i: int| 0 <= i < self.windows@.len() && window_due(#[trigger] self.view_windows()[i], now, self.window_secs),
    {
        let mut i: usize = 0;
        while i < self.windows.len()
            invariant
                i <= self.windows@.len(),
                forall|j: int| 0 <= j < i ==> !window_due(#[trigger] self.view_windows()[j], now, self.window_secs),
            decreases self.windows@.len() - i,
        {
            if self.window_is_due(i, now) {
                return true;
            }
            i = i + 1;
        }
        false
    }

    fn window_is_due(&self, i: usize, now: i64) -> (r: bool)
        requires
            i < self.windows@.len(),
        ensures
            r == window_due(self.view_windows()[i as int], now, self.window_secs),
    {
        let w = &self.windows[i];
        if w.samples.len() == 0 {
            return false;
        }
        let d: i128 = now as i128 - w.started_at as i128;
        let secs: i128 = if d >= 0 {
            d / 1_000_000_000
        } else {
            -((-d) / 1_000_000_000)
        };
        secs >= self.window_secs as i128
    }

    /// Hands out every window due at `now`, in window order, and restarts
    /// it empty at `now`; other windows are left as they are.
    pub fn flush(&mut self, now: i64) -> (r: Vec<WindowBatch>)
        requires
            old(self).wf(),
        ensures
            final(self).wf(),
            final(self).device_id == old(self).device_id,
            final(self).window_secs == old(self).window_secs,
            final(self).view_windows() == flushed(old(self).view_windows(), now, old(self).window_secs),
            r@.map_values(|b: WindowBatch| (b.sensor_code@, b.samples@, b.started_at))
                == due_windows(old(self).view_windows(), now, old(self).window_secs),
    {
        let ghost v0 = self.view_windows();
        let ghost ws = self.window_secs;
        let mut out: Vec<WindowBatch> = Vec::new();
        let mut i: usize = 0;
        while i < self.windows.len()
            invariant
                i <= self.windows@.len(),
                self.windows@.len() == v0.len(),
                self.window_secs == ws,
                self.device_id == old(self).device_id,
                forall|j: int| 0 <= j < v0.len() ==> (#[trigger] self.windows@[j]).sensor_code@ == v0[j].0,
                forall|j: int| i <= j < v0.len() ==> window_view(#[trigger] self.windows@[j]) == v0[j],
                forall|j: int| 0 <= j < i ==> window_view(#[trigger] self.windows@[j]) == flushed(v0, now, ws)[j],
                out@.map_values(|b: WindowBatch| (b.sensor_code@, b.samples@, b.started_at))
                    == due_windows(v0.subrange(0, i as int), now, ws),
                old(self).wf(),
                v0 == old(self).view_windows(),
            decreases self.windows@.len() - i,
        {
            let ghost vi = v0[i as int];
            proof {
                assert(v0.subrange(0, i + 1).drop_last() =~= v0.subrange(0, i as int));
                assert(v0.subrange(0, i + 1).last() == vi);
            }
            let ghost out_before = out@;
            if self.window_is_due(i, now) {
                let w = self.windows.remove(i);
                let code = w.sensor_code;
                let samples = w.samples;
                let started_at = w.started_at;
                out.push(WindowBatch { sensor_code: code.clone(), samples, started_at });
                self.windows.insert(i, SensorWindow { sensor_code: code, samples: Vec::new(), started_at: now });
                proof {
                    let m = |b: WindowBatch| (b.sensor_code@, b.samples@, b.started_at);
                    assert(out@.map_values(m) =~= out@.drop_last().map_values(m).push(m(out@.last())));
                    assert(out@.drop_last() =~= out_before);
                }
            }
            i = i + 1;
        }
        proof {
            assert(v0.subrange(0, v0.len() as int) =~= v0);
            assert(self.view_windows() =~= flushed(v0, now, ws));
            assert forall|a: int, b: int|
                0 <= a < self.windows@.len() && 0 <= b < self.windows@.len() && a != b
                    implies (#[trigger] self.windows@[a]).sensor_code@ != (#[trigger] self.windows@[b]).sensor_code@ by {
                assert(old(self).windows@[a].sensor_code@ == v0[a].0);
                assert(old(self).windows@[b].sensor_code@ == v0[b].0);
            }
        }
        out
    }

    /// Drops all windows.
    pub fn reset(&mut self)
        ensures
            final(self).windows@.len() == 0,
            final(self).device_id == old(self).device_id,
            final(self).window_secs == old(self).window_secs,
            final(self).wf(),
    {
        self.windows.clear();
    }
}

/// The position of a sensor's window.
pub open spec fn before_index(v: Seq<(Seq<char>, Seq<u64>, i64)>, code: Seq<char>) -> Option<int> {
    if exists|i: int| 0 <= i < v.len() && v[i].0 == code {
        Some(choose|i: int| 0 <= i < v.len() && v[i].0 == code)
    } else {
        None
    }
}

/// A sensor's window is found exactly where the sensor has one: the found
/// window is the sensor's, and where none is found no window is.
pub proof fn law_window_lookup(v: Seq<(Seq<char>, Seq<u64>, i64)>, code: Seq<char>)
    ensures
        before_index(v, code) matches Some(i) ==> 0 <= i < v.len() && v[i].0 == code,
        before_index(v, code) is None ==> forall|i: int| 0 <= i < v.len() ==> #[trigger] v[i].0 != code,
{
}

proof fn lemma_before_index_found(v: Seq<(Seq<char>, Seq<u64>, i64)>, code: Seq<char>, i: int)
    requires
        0 <= i < v.len(),
        v[i].0 == code,
        forall|a: int, b: int| 0 <= a < v.len() && 0 <= b < v.len() && a != b ==> #[trigger] v[a].0 != #[trigger] v[b].0,
    ensures
        before_index(v, code) == Some(i),
{
}

proof fn lemma_before_index_missing(v: Seq<(Seq<char>, Seq<u64>, i64)>, code: Seq<char>)
    requires
        forall|i: int| 0 <= i < v.len() ==> #[trigger] v[i].0 != code,
    ensures
        before_index(v, code) is None,
{
}

/// The windows after a flush at `now`: each due window restarts empty at
/// `now`.
pub open spec fn flushed(v: Seq<(Seq<char>, Seq<u64>, i64)>, now: i64, window_secs: i64) -> Seq<(Seq<char>, Seq<u64>, i64)> {
    v.map_values(|w: (Seq<char>, Seq<u64>, i64)| if window_due(w, now, window_secs) { (w.0, Seq::<u64>::empty(), now) } else { w })
}

/// The windows due at `now`, in order.
pub open spec fn due_windows(v: Seq<(Seq<char>, Seq<u64>, i64)>, now: i64, window_secs: i64) -> Seq<(Seq<char>, Seq<u64>, i64)>
    decreases v.len(),
{
    if v.len() == 0 {
        seq![]
    } else {
        let rest = due_windows(v.drop_last(), now, window_secs);
        if window_due(v.last(), now, window_secs) { rest.push(v.last()) } else { rest }
    }
}

/// The enabled rules of `cfg` for sensor `code`, in configuration order.
pub open spec fn enabled_rules(cfg: Seq<DeviceAlarmThreshold>, code: Seq<char>) -> Seq<DeviceAlarmThreshold>
    decreases cfg.len(),
{
    if cfg.len() == 0 {
        seq![]
    } else {
        let rest = enabled_rules(cfg.drop_last(), code);
        if cfg.last().enabled && cfg.last().sensor_code@ == code { rest.push(cfg.last()) } else { rest }
    }
}

/// The rules of one sensor.
#[derive(Debug)]
pub struct AlarmGroup {
    pub sensor_code: String,
    pub rules: Vec<DeviceAlarmThreshold>,
}

/// Checks readings against a device's alarm rules, grouped by sensor.
#[derive(Debug)]
pub struct AlarmEngine {
    pub thresholds: Vec<AlarmGroup>,
}

/// The groups hold exactly the enabled rules of `cfg`: one group per
/// sensor that has such a rule, holding those rules in order.
pub open spec fn groups_match(g: Seq<AlarmGroup>, cfg: Seq<DeviceAlarmThreshold>) -> bool {
    &&& forall|i: int, j: int|
        0 <= i < g.len() && 0 <= j < g.len() && i != j ==> (#[trigger] g[i]).sensor_code@ != (#[trigger] g[j]).sensor_code@
    &&& forall|i: int| 0 <= i < g.len() ==> (#[trigger] g[i]).rules@ == enabled_rules(cfg, g[i].sensor_code@)
    &&& forall|i: int| 0 <= i < g.len() ==> (#[trigger] g[i]).rules@.len() > 0
    &&& forall|code: Seq<char>|
        (#[trigger] enabled_rules(cfg, code)).len() > 0 ==> exists|i: int| 0 <= i < g.len() && (#[trigger] g[i]).sensor_code@ == code
}

proof fn lemma_enabled_rules_step(cfg: Seq<DeviceAlarmThreshold>, k: int, code: Seq<char>)
    requires
        0 <= k < cfg.len(),
    ensures
        enabled_rules(cfg.subrange(0, k + 1), code) == if cfg[k].enabled && cfg[k].sensor_code@ == code {
            enabled_rules(cfg.subrange(0, k), code).push(cfg[k])
        } else {
            enabled_rules(cfg.subrange(0, k), code)
        },
{
    assert(cfg.subrange(0, k + 1).drop_last() =~= cfg.subrange(0, k));
}

fn find_alarm_group(groups: &Vec<AlarmGroup>, code: &String) -> (r: Option<usize>)
    ensures
        r matches Some(i) ==> i < groups@.len() && groups@[i as int].sensor_code@ == code@,
        r is None ==> forall|i: int| 0 <= i < groups@.len() ==> (#[trigger] groups@[i]).sensor_code@ != code@,
{
    let mut j: usize = 0;
    while j < groups.len()
        invariant
            j <= groups@.len(),
            forall|a: int| 0 <= a < j ==> (#[trigger] groups@[a]).sensor_code@ != code@,
        decreases groups@.len() - j,
    {
        if groups[j].sensor_code == *code {
            return Some(j);
        }
        j = j + 1;
    }
    None
}

impl AlarmEngine {
    /// The rules the engine holds for a sensor.
    pub open spec fn rules_of(&self, code: Seq<char>) -> Seq<DeviceAlarmThreshold> {
        let g = self.thresholds@;
        if exists|i: int| 0 <= i < g.len() && g[i].sensor_code@ == code {
            g[choose|i: int| 0 <= i < g.len() && g[i].sensor_code@ == code].rules@
        } else {
            seq![]
        }
    }

    /// Each sensor has at most one group.
    pub open spec fn wf(&self) -> bool {
        forall|i: int, j: int|
            0 <= i < self.thresholds@.len() && 0 <= j < self.thresholds@.len() && i != j
                ==> (#[trigger] self.thresholds@[i]).sensor_code@ != (#[trigger] self.thresholds@[j]).sensor_code@
    }

    /// The rules for a sensor, in configuration order; `None` where it has
    /// none.
    pub fn rules_for(&self, sensor_code: &str) -> (r: Option<&Vec<DeviceAlarmThreshold>>)
        requires
            self.wf(),
        ensures
            r matches Some(v) ==> v@ == self.rules_of(sensor_code@),
            r is None ==> self.rules_of(sensor_code@).len() == 0,
    {
        let mut j: usize = 0;
        while j < self.thresholds.len()
            invariant
                self.wf(),
                j <= self.thresholds@.len(),
                forall|a: int| 0 <= a < j ==> (#[trigger] self.thresholds@[a]).sensor_code@ != sensor_code@,
            decreases self.thresholds@.len() - j,
        {
            if text_eq(self.thresholds[j].sensor_code.as_str(), sensor_code) {
                let g = &self.thresholds[j];
                proof {
                    assert(self.thresholds@[j as int].sensor_code@ == sensor_code@);
                    let k = choose|i: int| 0 <= i < self.thresholds@.len() && self.thresholds@[i].sensor_code@ == sensor_code@;
                    if k != j {
                        assert(self.thresholds@[k].sensor_code@ != self.thresholds@[j as int].sensor_code@);
                    }
                }
                return Some(&g.rules);
            }
            j = j + 1;
        }
        None
    }

    /// An engine for a device's alarm configuration: the enabled rules,
    /// grouped by sensor. No configuration means no rules.
    pub fn new(alarm_config: &Option<Vec<DeviceAlarmThreshold>>) -> (r: Self)
        ensures
            r.wf(),
            forall|code: Seq<char>| #[trigger] r.rules_of(code) == match *alarm_config {
                Some(cfg) => enabled_rules(cfg@, code),
                None => Seq::<DeviceAlarmThreshold>::empty(),
            },
    {
        let mut groups: Vec<AlarmGroup> = Vec::new();
        match alarm_config {
            None => {
                let r = AlarmEngine { thresholds: groups };
                proof {
                    assert forall|code: Seq<char>| #[trigger] r.rules_of(code) == Seq::<DeviceAlarmThreshold>::empty() by {}
                    assert(r.thresholds@.len() == 0);
                }
                r
            },
            Some(cfg) => {
                let mut k: usize = 0;
                assert forall|code: Seq<char>| #[trigger] enabled_rules(cfg@.subrange(0, 0), code).len() == 0 by {
                    assert(cfg@.subrange(0, 0).len() == 0);
                }
                while k < cfg.len()
                    invariant
                        k <= cfg@.len(),
                        groups_match(groups@, cfg@.subrange(0, k as int)),
                    decreases cfg@.len() - k,
                {
                    let t = &cfg[k];
                    let ghost g0 = groups@;
                    let ghost pre = cfg@.subrange(0, k as int);
                    let ghost post = cfg@.subrange(0, k + 1);
                    proof {
                        assert forall|code: Seq<char>| #[trigger] enabled_rules(post, code) == if t.enabled && t.sensor_code@ == code {
                            enabled_rules(pre, code).push(*t)
                        } else {
                            enabled_rules(pre, code)
                        } by {
                            lemma_enabled_rules_step(cfg@, k as int, code);
                        }
                    }
                    if t.enabled {
                        let found = find_alarm_group(&groups, &t.sensor_code);
                        match found {
                            Some(gi) => {
                                let mut grp = groups.remove(gi);
                                grp.rules.push(t.clone());
                                groups.insert(gi, grp);
                                proof {
                                    assert(groups@ =~= g0.update(gi as int, groups@[gi as int]));
                                    assert forall|code: Seq<char>| (#[trigger] enabled_rules(post, code)).len() > 0 implies exists|i: int|
                                        0 <= i < groups@.len() && (#[trigger] groups@[i]).sensor_code@ == code by {
                                        if code == t.sensor_code@ {
                                            assert(groups@[gi as int].sensor_code@ == code);
                                        } else {
                                            let i = choose|i: int| 0 <= i < g0.len() && (#[trigger] g0[i]).sensor_code@ == code;
                                            assert(groups@[i].sensor_code@ == g0[i].sensor_code@);
                                        }
                                    }
                                    assert forall|i: int| 0 <= i < groups@.len() implies (#[trigger] groups@[i]).rules@ == enabled_rules(post, groups@[i].sensor_code@) by {
                                        if i != gi {
                                            assert(g0[i].sensor_code@ != g0[gi as int].sensor_code@);
                                        }
                                    }
                                }
                            },
                            None => {
                                let mut rules: Vec<DeviceAlarmThreshold> = Vec::new();
                                rules.push(t.clone());
                                groups.push(AlarmGroup { sensor_code: t.sensor_code.clone(), rules });
                                proof {
                                    if enabled_rules(pre, t.sensor_code@).len() > 0 {
                                        let i = choose|i: int| 0 <= i < g0.len() && (#[trigger] g0[i]).sensor_code@ == t.sensor_code@;
                                        assert(false);
                                    }
                                    assert(rules@ =~= enabled_rules(pre, t.sensor_code@).push(*t));
                                    assert forall|code: Seq<char>| (#[trigger] enabled_rules(post, code)).len() > 0 implies exists|i: int|
                                        0 <= i < groups@.len() && (#[trigger] groups@[i]).sensor_code@ == code by {
                                        if code == t.sensor_code@ {
                                            assert(groups@[g0.len() as int].sensor_code@ == code);
                                        } else {
                                            let i = choose|i: int| 0 <= i < g0.len() && (#[trigger] g0[i]).sensor_code@ == code;
                                            assert(groups@[i] == g0[i]);
                                        }
                                    }
                                    assert forall|i: int| 0 <= i < groups@.len() implies (#[trigger] groups@[i]).rules@ == enabled_rules(post, groups@[i].sensor_code@) by {
                                        if i < g0.len() {
                                            assert(groups@[i] == g0[i]);
                                        }
                                    }
                                    assert forall|i: int| 0 <= i < groups@.len() implies (#[trigger] groups@[i]).rules@.len() > 0 by {
                                        if i < g0.len() {
                                            assert(groups@[i] == g0[i]);
                                        }
                                    }
                                    assert forall|a: int, b: int|
                                        0 <= a < groups@.len() && 0 <= b < groups@.len() && a != b
                                            implies (#[trigger] groups@[a]).sensor_code@ != (#[trigger] groups@[b]).sensor_code@ by {
                                        if a < g0.len() {
                                            assert(groups@[a] == g0[a]);
                                        }
                                        if b < g0.len() {
                                            assert(groups@[b] == g0[b]);
                                        }
                                    }
                                }
                            },
                        }
                    } else {
                        proof {
                            assert forall|code: Seq<char>| (#[trigger] enabled_rules(post, code)).len() > 0 implies exists|i: int|
                                0 <= i < groups@.len() && (#[trigger] groups@[i]).sensor_code@ == code by {
                                assert(enabled_rules(pre, code).len() > 0);
                            }
                        }
                    }
                    k = k + 1;
                }
                assert(cfg@.subrange(0, cfg@.len() as int) =~= cfg@);
                let r = AlarmEngine { thresholds: groups };
                proof {
                    assert forall|code: Seq<char>| #[trigger] r.rules_of(code) == enabled_rules(cfg@, code) by {
                        let g = r.thresholds@;
                        if exists|i: int| 0 <= i < g.len() && g[i].sensor_code@ == code {
                        } else {
                            if enabled_rules(cfg@, code).len() > 0 {
                                let i = choose|i: int| 0 <= i < g.len() && (#[trigger] g[i]).sensor_code@ == code;
                            }
                            assert(enabled_rules(cfg@, code) =~= Seq::<DeviceAlarmThreshold>::empty());
                        }
                    }
                    assert(r.wf());
                }
                r
            },
        }
    }
}

/// The kinds of alarm rule the engine evaluates.
#[derive(Debug, Clone, Copy, PartialEq, Eq, Structural)]
pub enum AlarmKind {
    /// `limit_upper`: the value exceeds `upper`.
    LimitUpper,
    /// `limit_lower`: the value is below `lower`.
    LimitLower,
    /// `limit_both`: either of the above.
    LimitBoth,
    /// Any other type (rate, deviation, timeout and so on): never fires.
    Unsupported,
}

/// The kind of a rule type name.
pub open spec fn alarm_kind_of(t: Seq<char>) -> AlarmKind {
    if t == "limit_upper"@ {
        AlarmKind::LimitUpper
    } else if t == "limit_lower"@ {
        AlarmKind::LimitLower
    } else if t == "limit_both"@ {
        AlarmKind::LimitBoth
    } else {
        AlarmKind::Unsupported
    }
}

/// The kind of an alarm rule's type name.
pub fn alarm_kind(alarm_type: &str) -> (r: AlarmKind)
    ensures
        r == alarm_kind_of(alarm_type@),
{
    if text_eq(alarm_type, "limit_upper") {
        AlarmKind::LimitUpper
    } else if text_eq(alarm_type, "limit_lower") {
        AlarmKind::LimitLower
    } else if text_eq(alarm_type, "limit_both") {
        AlarmKind::LimitBoth
    } else {
        AlarmKind::Unsupported
    }
}

/// Whether a rule fires, given how the value compares with the rule's
/// limits: `above_upper` is whether it exceeds `upper`, `below_lower`
/// whether it is below `lower`, each `None` where the rule has no such
/// numeric parameter (which counts as not firing).
pub open spec fn fires(kind: AlarmKind, above_upper: Option<bool>, below_lower: Option<bool>) -> bool {
    let up = above_upper == Some(true);
    let low = below_lower == Some(true);
    match kind {
        AlarmKind::LimitUpper => up,
        AlarmKind::LimitLower => low,
        AlarmKind::LimitBoth => up || low,
        AlarmKind::Unsupported => false,
    }
}

/// Whether a rule of this kind fires.
pub fn rule_fires(kind: AlarmKind, above_upper: Option<bool>, below_lower: Option<bool>) -> (r: bool)
    ensures
        r == fires(kind, above_upper, below_lower),
{
    let up = match above_upper {
        Some(b) => b,
        None => false,
    };
    let low = match below_lower {
        Some(b) => b,
        None => false,
    };
    match kind {
        AlarmKind::LimitUpper => up,
        AlarmKind::LimitLower => low,
        AlarmKind::LimitBoth => up || low,
        AlarmKind::Unsupported => false,
    }
}


/// After a flush at `now` no window is due at `now`, and every window keeps
/// its sensor and its place.
pub proof fn law_flush_leaves_nothing_due(v: Seq<(Seq<char>, Seq<u64>, i64)>, now: i64, window_secs: i64)
    ensures
        flushed(v, now, window_secs).len() == v.len(),
        forall|i: int| 0 <= i < v.len() ==> !window_due(#[trigger] flushed(v, now, window_secs)[i], now, window_secs),
        forall|i: int| 0 <= i < v.len() ==> (#[trigger] flushed(v, now, window_secs)[i]).0 == v[i].0,
{
}

/// Only windows with samples are ever due: a flush hands out no empty
/// batch, an aggregator whose windows are all empty is not ready, and a
/// window a flush has just emptied is not due again, whenever asked, until
/// a new sample arrives.
pub proof fn law_empty_window_never_due(v: Seq<(Seq<char>, Seq<u64>, i64)>, now: i64, later: i64, window_secs: i64)
    ensures
        forall|w: (Seq<char>, Seq<u64>, i64)| #[trigger] due_windows(v, now, window_secs).contains(w) ==> w.1.len() > 0,
        (forall|i: int| 0 <= i < v.len() ==> (#[trigger] v[i]).1.len() == 0)
            ==> forall|i: int| 0 <= i < v.len() ==> !window_due(#[trigger] v[i], now, window_secs),
        (forall|i: int| 0 <= i < v.len() ==> (#[trigger] v[i]).1.len() == 0)
            ==> due_windows(v, now, window_secs).len() == 0,
        forall|i: int| 0 <= i < v.len() && window_due(v[i], now, window_secs)
            ==> (#[trigger] flushed(v, now, window_secs)[i]).1.len() == 0
                && !window_due(flushed(v, now, window_secs)[i], later, window_secs),
    decreases v.len(),
{
    law_flush_hands_out_due_windows(v, now, window_secs);
    if v.len() > 0 {
        law_empty_window_never_due(v.drop_last(), now, later, window_secs);
        if forall|i: int| 0 <= i < v.len() ==> (#[trigger] v[i]).1.len() == 0 {
            assert forall|i: int| 0 <= i < v.drop_last().len() implies (#[trigger] v.drop_last()[i]).1.len() == 0 by {
                assert(v.drop_last()[i] == v[i]);
            }
            assert(v.last() == v[v.len() - 1]);
        }
    }
}

/// A window that has samples and opened at or before `now` is due exactly
/// when at least `window_secs` whole seconds (of 10^9 ns) have passed since
/// it opened.
pub proof fn law_window_due_after_its_length(w: (Seq<char>, Seq<u64>, i64), now: i64, window_secs: i64)
    requires
        w.2 <= now,
        window_secs >= 0,
    ensures
        window_due(w, now, window_secs) == (w.1.len() > 0 && now - w.2 >= window_secs * 1_000_000_000),
{
    let d = now - w.2;
    assert(d >= 0);
    let q = d / 1_000_000_000;
    assert(q * 1_000_000_000 <= d < q * 1_000_000_000 + 1_000_000_000);
    assert((q >= window_secs) == (d >= window_secs * 1_000_000_000)) by (nonlinear_arith)
        requires
            q * 1_000_000_000 <= d < q * 1_000_000_000 + 1_000_000_000,
            window_secs >= 0,
    ;
}

/// A flush loses no sample: each window due at `now` is handed out whole and
/// restarts empty at `now`; each other window stays as it was; and nothing
/// else is handed out.
pub proof fn law_flush_hands_out_due_windows(v: Seq<(Seq<char>, Seq<u64>, i64)>, now: i64, window_secs: i64)
    ensures
        forall|i: int| 0 <= i < v.len() && window_due(v[i], now, window_secs) ==> due_windows(v, now, window_secs).contains(
            #[trigger] v[i],
        ) && flushed(v, now, window_secs)[i] == (v[i].0, Seq::<u64>::empty(), now),
        forall|i: int| 0 <= i < v.len() && !window_due(v[i], now, window_secs) ==> #[trigger] flushed(v, now, window_secs)[i] == v[i],
        forall|w: (Seq<char>, Seq<u64>, i64)| #[trigger] due_windows(v, now, window_secs).contains(w) ==> v.contains(w) && window_due(w, now, window_secs),
    decreases v.len(),
{
    if v.len() > 0 {
        let p = v.drop_last();
        law_flush_hands_out_due_windows(p, now, window_secs);
        let rest = due_windows(p, now, window_secs);
        assert forall|i: int| 0 <= i < v.len() && window_due(v[i], now, window_secs) implies due_windows(v, now, window_secs).contains(
            #[trigger] v[i],
        ) by {
            if i < v.len() - 1 {
                assert(p[i] == v[i]);
                let k = choose|k: int| 0 <= k < rest.len() && rest[k] == p[i];
                if window_due(v.last(), now, window_secs) {
                    assert(rest.push(v.last())[k] == v[i]);
                }
            } else {
                assert(rest.push(v.last())[rest.len() as int] == v[i]);
            }
        }
        assert forall|w: (Seq<char>, Seq<u64>, i64)| #[trigger] due_windows(v, now, window_secs).contains(w) implies v.contains(w)
            && window_due(w, now, window_secs) by {
            let d = due_windows(v, now, window_secs);
            let k = choose|k: int| 0 <= k < d.len() && d[k] == w;
            if k < rest.len() {
                assert(rest[k] == w);
                assert(rest.contains(w));
                let j = choose|j: int| 0 <= j < p.len() && p[j] == w;
                assert(v[j] == w);
            } else {
                assert(w == v.last());
                assert(v[v.len() - 1] == w);
            }
        }
    }
}


/// Rule `i` of `rules` fires, given how the value compares with each rule's
/// limits.
pub open spec fn fires_at(rules: Seq<DeviceAlarmThreshold>, above: Seq<Option<bool>>, below: Seq<Option<bool>>, i: int) -> bool {
    fires(alarm_kind_of(rules[i].alarm_type@), above[i], below[i])
}

/// The rule that raises the alarm for a value: the first, in configuration
/// order, that fires; `above[i]` and `below[i]` say how the value compares
/// with the limits of rule `i`.
pub fn first_firing_rule(rules: &Vec<DeviceAlarmThreshold>, above: &Vec<Option<bool>>, below: &Vec<Option<bool>>) -> (r: Option<usize>)
    requires
        above@.len() == rules@.len(),
        below@.len() == rules@.len(),
    ensures
        r matches Some(i) ==> i < rules@.len() && fires_at(rules@, above@, below@, i as int)
            && forall|j: int| 0 <= j < i ==> !fires_at(rules@, above@, below@, j),
        r is None ==> forall|j: int| 0 <= j < rules@.len() ==> !fires_at(rules@, above@, below@, j),
{
    let mut i: usize = 0;
    while i < rules.len()
        invariant
            i <= rules@.len(),
            above@.len() == rules@.len(),
            below@.len() == rules@.len(),
            forall|j: int| 0 <= j < i ==> !fires_at(rules@, above@, below@, j),
        decreases rules@.len() - i,
    {
        let kind = alarm_kind(rules[i].alarm_type.as_str());
        if rule_fires(kind, above[i], below[i]) {
            return Some(i);
        }
        i = i + 1;
    }
    None
}

/// A `limit_upper` rule fires exactly when the value is above its upper
/// limit, a `limit_lower` rule exactly when it is below its lower limit, a
/// `limit_both` rule when either holds; a rule of any other type, or one
/// without the numeric limit it needs, never fires.
pub proof fn law_limit_rules(t: Seq<char>, above_upper: Option<bool>, below_lower: Option<bool>)
    ensures
        fires(alarm_kind_of("limit_upper"@), above_upper, below_lower) == (above_upper == Some(true)),
        fires(alarm_kind_of("limit_lower"@), above_upper, below_lower) == (below_lower == Some(true)),
        fires(alarm_kind_of("limit_both"@), above_upper, below_lower)
            == (above_upper == Some(true) || below_lower == Some(true)),
        t != "limit_upper"@ && t != "limit_lower"@ && t != "limit_both"@ ==> !fires(alarm_kind_of(t), above_upper, below_lower),
        above_upper is None && below_lower is None ==> !fires(alarm_kind_of(t), above_upper, below_lower),
{
    reveal_strlit("limit_upper");
    reveal_strlit("limit_lower");
    reveal_strlit("limit_both");
    assert("limit_upper"@.len() == 11 && "limit_lower"@.len() == 11 && "limit_both"@.len() == 10);
    assert("limit_upper"@[6] != "limit_lower"@[6]);
}

} // verus!
