use vstd::prelude::*;
use std::collections::HashMap;
use crate::model::{BusType, ConfigDelta, Device};
use crate::text::{decimal_chars, push_decimal, text_eq};
use crate::uploader::{broker_address, law_broker_url_roundtrip, no_scheme_separator};

verus! {

broadcast use vstd::std_specs::hash::group_hash_axioms;

/// The bus a device sits on: its serial port name, or `host:port`.
pub open spec fn bus_key_of(bus: BusType) -> Seq<char> {
    match bus {
        BusType::Serial { port_name, .. } => port_name@,
        BusType::Tcp { host, port } => host@ + ":"@ + decimal_chars(port as nat),
    }
}

/// The bus key of a device.
pub fn bus_key(device: &Device) -> (r: String)
    ensures
        r@ == bus_key_of(device.bus),
{
    match &device.bus {
        BusType::Serial { port_name, .. } => port_name.clone(),
        BusType::Tcp { host, port } => {
            let mut out = host.clone().concat(":");
            push_decimal(&mut out, *port as u64);
            out
        },
    }
}

/// The devices that share one bus, in the order they were registered.
#[derive(Debug, Clone)]
pub struct BusGroup {
    pub key: String,
    pub ids: Vec<i64>,
}

/// The configured devices, by id, and the devices of each bus.
#[derive(Debug)]
pub struct DeviceRegistry {
    pub devices: HashMap<i64, Device>,
    pub bus_groups: Vec<BusGroup>,
}

/// The consistency condition of a registry's parts; see
/// [`DeviceRegistry::wf`].
pub open spec fn wf_parts(g: Seq<BusGroup>, d: Map<i64, Device>) -> bool {
        &&& forall|id: i64| #[trigger] d.contains_key(id) ==> d[id].id == id
        &&& forall|i: int| 0 <= i < g.len() ==> (#[trigger] g[i]).ids@.len() > 0
        &&& forall|i: int, j: int|
            0 <= i < g.len() && 0 <= j < g.len() && i != j ==> (#[trigger] g[i]).key@ != (#[trigger] g[j]).key@
        &&& forall|i: int, a: int, b: int|
            0 <= i < g.len() && 0 <= a < g[i].ids@.len() && 0 <= b < g[i].ids@.len() && a != b
                ==> (#[trigger] g[i].ids@[a]) != (#[trigger] g[i].ids@[b])
        &&& forall|i: int, id: i64|
            0 <= i < g.len() ==> ((#[trigger] g[i].ids@.contains(id)) <==> (d.contains_key(id)
                && bus_key_of(d[id].bus) == g[i].key@))
        &&& forall|id: i64|
            #[trigger] d.contains_key(id) ==> exists|i: int|
                0 <= i < g.len() && (#[trigger] g[i]).key@ == bus_key_of(d[id].bus)
}

/// `ids` without `id`, the others in their order.
pub open spec fn ids_without(ids: Seq<i64>, id: i64) -> Seq<i64>
    decreases ids.len(),
{
    if ids.len() == 0 {
        ids
    } else {
        let r = ids_without(ids.drop_last(), id);
        if ids.last() == id { r } else { r.push(ids.last()) }
    }
}

/// The bus groups as keys and id lists, in order.
pub open spec fn groups_view(g: Seq<BusGroup>) -> Seq<(Seq<char>, Seq<i64>)> {
    g.map_values(|x: BusGroup| (x.key@, x.ids@))
}

/// The groups after device `id` leaves the group keyed `key`: the group
/// keeps its other ids in order, or goes where none are left; the other
/// groups stay as they are, in order.
pub open spec fn groups_without(gv: Seq<(Seq<char>, Seq<i64>)>, key: Seq<char>, id: i64) -> Seq<(Seq<char>, Seq<i64>)> {
    if exists|i: int| 0 <= i < gv.len() && gv[i].0 == key {
        let i = choose|i: int| 0 <= i < gv.len() && gv[i].0 == key;
        let ids = ids_without(gv[i].1, id);
        if ids.len() == 0 { gv.remove(i) } else { gv.update(i, (key, ids)) }
    } else {
        gv
    }
}

/// The groups after device `id` joins the group keyed `key`: at the end of
/// that group, or in a new group at the end where there is none.
pub open spec fn groups_join(gv: Seq<(Seq<char>, Seq<i64>)>, key: Seq<char>, id: i64) -> Seq<(Seq<char>, Seq<i64>)> {
    if exists|i: int| 0 <= i < gv.len() && gv[i].0 == key {
        let i = choose|i: int| 0 <= i < gv.len() && gv[i].0 == key;
        gv.update(i, (key, gv[i].1.push(id)))
    } else {
        gv.push((key, seq![id]))
    }
}

/// The groups after device `id` is removed from a registry with devices `d`.
pub open spec fn groups_after_remove(g: Seq<BusGroup>, d: Map<i64, Device>, id: i64) -> Seq<(Seq<char>, Seq<i64>)> {
    if d.contains_key(id) {
        groups_without(groups_view(g), bus_key_of(d[id].bus), id)
    } else {
        groups_view(g)
    }
}

/// In groups with distinct keys, the group a key picks is the one with that
/// key.
proof fn lemma_choose_group(g: Seq<BusGroup>, key: Seq<char>, gi: int)
    requires
        0 <= gi < g.len(),
        g[gi].key@ == key,
        forall|i: int, j: int| 0 <= i < g.len() && 0 <= j < g.len() && i != j ==> (#[trigger] g[i]).key@ != (#[trigger] g[j]).key@,
    ensures
        exists|i: int| 0 <= i < groups_view(g).len() && groups_view(g)[i].0 == key,
        (choose|i: int| 0 <= i < groups_view(g).len() && groups_view(g)[i].0 == key) == gi,
{
    let gv = groups_view(g);
    assert(gv[gi].0 == key);
    let c = choose|i: int| 0 <= i < gv.len() && gv[i].0 == key;
    assert(gv[c].0 == g[c].key@);
    if c != gi {
        assert(g[c].key@ != g[gi].key@);
    }
}

/// Health change of a device that the collector reports.
#[derive(Debug, Clone, Copy, PartialEq, Eq, Structural)]
pub enum StatusChange {
    Online,
    Offline,
}

/// What applying a configuration change did.
#[derive(Debug, Clone, Copy, PartialEq, Eq, Structural)]
pub enum DeltaOutcome {
    /// `add` or `update`: the device with this id was registered.
    Registered(i64),
    /// `remove`: the device with this id was removed (where it was there).
    Removed(i64),
    /// The change names no device.
    MissingDevice,
    /// The action is none of `add`, `update`, `remove`.
    UnknownAction,
}

/// Consecutive failed polls after which an online device is reported
/// offline.
pub const OFFLINE_AFTER_FAILURES: u32 = 3;

/// Online flag and failure count after a successful poll.
pub open spec fn health_after_success(online: bool, failures: u32) -> (bool, u32) {
    (true, 0)
}

/// Online flag and failure count after a failed poll.
pub open spec fn health_after_failure(online: bool, failures: u32) -> (bool, u32) {
    let n = (failures + 1) as u32;
    (online && n < OFFLINE_AFTER_FAILURES, n)
}

/// The status change reported after a successful poll.
pub open spec fn status_after_success(online: bool) -> Option<StatusChange> {
    if online { None } else { Some(StatusChange::Online) }
}

/// The status change reported after a failed poll.
pub open spec fn status_after_failure(online: bool, failures: u32) -> Option<StatusChange> {
    if online && failures + 1 >= OFFLINE_AFTER_FAILURES { Some(StatusChange::Offline) } else { None }
}

/// Why a poll failed: the driver returned no value at all, an I/O error, a
/// JSON error, another error, the driver panicked, or it took longer than
/// five seconds.
#[derive(Debug, Clone, Copy, PartialEq, Eq, Structural)]
pub enum PollFailure {
    EmptyResult,
    IoError,
    ParseError,
    UnknownError,
    DriverPanic,
    Timeout,
}

/// The error type under which a failed poll is logged.
pub open spec fn failure_type_name(f: PollFailure) -> Seq<char> {
    match f {
        PollFailure::EmptyResult => "empty_result"@,
        PollFailure::IoError => "io_error"@,
        PollFailure::ParseError => "parse_error"@,
        PollFailure::UnknownError => "unknown_error"@,
        PollFailure::DriverPanic => "driver_panic"@,
        PollFailure::Timeout => "timeout"@,
    }
}

impl PollFailure {
    /// The error type under which the failure is logged.
    pub fn error_type(&self) -> (r: &'static str)
        ensures
            r@ == failure_type_name(*self),
    {
        match self {
            PollFailure::EmptyResult => "empty_result",
            PollFailure::IoError => "io_error",
            PollFailure::ParseError => "parse_error",
            PollFailure::UnknownError => "unknown_error",
            PollFailure::DriverPanic => "driver_panic",
            PollFailure::Timeout => "timeout",
        }
    }
}

/// How one poll of a device ended: the driver returned values for these
/// sensor codes, or it failed.
#[derive(Debug, Clone)]
pub enum PollOutcome {
    Collected(Vec<String>),
    Failed(PollFailure),
}

/// The failure a poll counts as: the driver's own, or `EmptyResult` where it
/// returned no value; `None` for a poll that succeeded.
pub open spec fn poll_failure_of(o: PollOutcome) -> Option<PollFailure> {
    match o {
        PollOutcome::Collected(codes) => if codes@.len() == 0 { Some(PollFailure::EmptyResult) } else { None },
        PollOutcome::Failed(f) => Some(f),
    }
}

/// Whether the reading of point `code` is published and aggregated: only
/// after a successful poll that returned a value for it.
pub open spec fn point_published(o: PollOutcome, code: Seq<char>) -> bool {
    match o {
        PollOutcome::Collected(codes) => codes@.len() > 0 && codes.deep_view().contains(code),
        PollOutcome::Failed(_) => false,
    }
}

/// The error message a failed poll leaves on the device: a fixed text for an
/// empty result, else the driver's error text `msg`.
pub open spec fn failure_message(f: PollFailure, msg: Seq<char>) -> Seq<char> {
    if f == PollFailure::EmptyResult { "empty result (no data points collected)"@ } else { msg }
}

/// Whether `codes` holds `code`.
pub fn holds_code(codes: &Vec<String>, code: &str) -> (r: bool)
    ensures
        r == codes.deep_view().contains(code@),
{
    let ghost all = codes.deep_view();
    let mut i: usize = 0;
    while i < codes.len()
        invariant
            i <= codes@.len(),
            all == codes.deep_view(),
            forall|j: int| 0 <= j < i ==> all[j] != code@,
        decreases codes@.len() - i,
    {
        if text_eq(codes[i].as_str(), code) {
            assert(all[i as int] == code@);
            return true;
        }
        i = i + 1;
    }
    proof {
        if all.contains(code@) {
            let j = choose|j: int| 0 <= j < all.len() && all[j] == code@;
            assert(all[j] != code@);
        }
    }
    false
}

/// Judges one poll for a device whose points have the sensor codes
/// `points`: the failure it counts as, if any, and for each point whether
/// its reading is published and aggregated.
pub fn judge_poll(outcome: &PollOutcome, points: &Vec<String>) -> (r: (Option<PollFailure>, Vec<bool>))
    ensures
        r.0 == poll_failure_of(*outcome),
        r.1@.len() == points@.len(),
        forall|i: int| 0 <= i < points@.len() ==> #[trigger] r.1@[i] == point_published(*outcome, points@[i]@),
{
    let failure = match outcome {
        PollOutcome::Collected(codes) => if codes.len() == 0 {
            Some(PollFailure::EmptyResult)
        } else {
            None
        },
        PollOutcome::Failed(f) => Some(*f),
    };
    let mut publish: Vec<bool> = Vec::new();
    let mut i: usize = 0;
    while i < points.len()
        invariant
            i <= points@.len(),
            failure == poll_failure_of(*outcome),
            publish@.len() == i,
            forall|j: int| 0 <= j < i ==> #[trigger] publish@[j] == point_published(*outcome, points@[j]@),
        decreases points@.len() - i,
    {
        let p = match outcome {
            PollOutcome::Collected(codes) => codes.len() > 0 && holds_code(codes, points[i].as_str()),
            PollOutcome::Failed(_) => false,
        };
        publish.push(p);
        i = i + 1;
    }
    (failure, publish)
}

/// A poll that failed counts as that failure and publishes nothing; a poll
/// that returned no value counts as an empty result and publishes nothing; a
/// poll that returned values succeeds and publishes exactly the points whose
/// codes came back.
pub proof fn law_poll_judgement(outcome: PollOutcome, code: Seq<char>)
    ensures
        outcome matches PollOutcome::Failed(f) ==> poll_failure_of(outcome) == Some(f) && !point_published(outcome, code),
        outcome matches PollOutcome::Collected(c) ==> (c@.len() == 0 ==> poll_failure_of(outcome) == Some(PollFailure::EmptyResult)
            && !point_published(outcome, code)),
        outcome matches PollOutcome::Collected(c) ==> (c@.len() > 0 ==> poll_failure_of(outcome) is None
            && point_published(outcome, code) == c.deep_view().contains(code)),
{
}

/// The key of a device on a TCP bus reads back, as a broker URL without a
/// scheme, as its host and port, wherever the host holds no `://`.
pub proof fn law_tcp_bus_key_parses(host: String, port: u16)
    requires
        no_scheme_separator(host@),
    ensures
        broker_address(bus_key_of(BusType::Tcp { host, port })) == Some((host@, port)),
{
    law_broker_url_roundtrip(Seq::<char>::empty(), host@, port);
    reveal_strlit(":");
    assert(Seq::<char>::empty() + host@ + seq![':'] + decimal_chars(port as nat)
        =~= host@ + ":"@ + decimal_chars(port as nat));
}

/// Online flag and failure count after a poll that failed (`failed`) or not.
pub open spec fn health_after_poll(online: bool, failures: u32, failed: bool) -> (bool, u32) {
    if failed { health_after_failure(online, failures) } else { health_after_success(online, failures) }
}

/// The status change reported after a poll that failed (`failed`) or not.
pub open spec fn status_after_poll(online: bool, failures: u32, failed: bool) -> Option<StatusChange> {
    if failed { status_after_failure(online, failures) } else { status_after_success(online) }
}

/// Whatever a poll's outcome, a status change is reported exactly when the
/// device's online flag flips, and it names the new state: `Online` when
/// the device comes back, `Offline` when it goes.
pub proof fn law_poll_reports_exactly_on_flip(online: bool, failures: u32, failed: bool)
    requires
        failed ==> failures < u32::MAX,
    ensures
        (status_after_poll(online, failures, failed) is Some) == (health_after_poll(online, failures, failed).0 != online),
        status_after_poll(online, failures, failed) == Some(StatusChange::Online)
            ==> health_after_poll(online, failures, failed).0,
        status_after_poll(online, failures, failed) == Some(StatusChange::Offline)
            ==> !health_after_poll(online, failures, failed).0,
{
}

/// The configuration of a device is unchanged by recording a poll.
pub open spec fn same_except_health(a: Device, b: Device) -> bool {
    &&& a.id == b.id
    &&& a.code == b.code
    &&& a.name == b.name
    &&& a.protocol == b.protocol
    &&& a.slave_addr == b.slave_addr
    &&& a.bus == b.bus
    &&& a.collect_interval_sec == b.collect_interval_sec
    &&& a.data_points == b.data_points
    &&& a.alarm_config == b.alarm_config
}

/// What applying a configuration change reports.
pub open spec fn delta_outcome(delta: ConfigDelta) -> DeltaOutcome {
    if delta.action@ == "add"@ || delta.action@ == "update"@ {
        match delta.device {
            Some(d) => DeltaOutcome::Registered(d.id),
            None => DeltaOutcome::MissingDevice,
        }
    } else if delta.action@ == "remove"@ {
        match delta.device {
            Some(d) => DeltaOutcome::Removed(d.id),
            None => DeltaOutcome::MissingDevice,
        }
    } else {
        DeltaOutcome::UnknownAction
    }
}

impl DeviceRegistry {
    /// The registry is consistent: each device is stored under its own id;
    /// bus groups have distinct keys, are not empty, hold no id twice, and
    /// group `k` lists exactly the devices whose bus key is `k`; every
    /// device has its group.
    pub open spec fn wf(&self) -> bool {
        wf_parts(self.bus_groups@, self.devices@)
    }

    /// An empty registry.
    pub fn new() -> (r: Self)
        ensures
            r.wf(),
            r.devices@ == Map::<i64, Device>::empty(),
            r.bus_groups@.len() == 0,
    {
        DeviceRegistry { devices: HashMap::new(), bus_groups: Vec::new() }
    }

    /// The device with this id.
    pub fn get(&self, id: i64) -> (r: Option<&Device>)
        ensures
            r matches Some(d) ==> self.devices@.contains_key(id) && *d == self.devices@[id],
            r is None ==> !self.devices@.contains_key(id),
    {
        self.devices.get(&id)
    }

    /// Index of the bus group with this key.
    fn find_group(&self, key: &String) -> (r: Option<usize>)
        ensures
            r matches Some(i) ==> i < self.bus_groups@.len() && self.bus_groups@[i as int].key@ == key@,
            r is None ==> forall|i: int|
                0 <= i < self.bus_groups@.len() ==> (#[trigger] self.bus_groups@[i]).key@ != key@,
    {
        let mut i: usize = 0;
        while i < self.bus_groups.len()
            invariant
                i <= self.bus_groups@.len(),
                forall|j: int| 0 <= j < i ==> (#[trigger] self.bus_groups@[j]).key@ != key@,
            decreases self.bus_groups@.len() - i,
        {
            if self.bus_groups[i].key == *key {
                return Some(i);
            }
            i = i + 1;
        }
        None
    }

    /// Removes the device with this id, and its place in its bus group; a
    /// group left empty goes too.
    pub fn remove(&mut self, id: i64)
        requires
            old(self).wf(),
        ensures
            final(self).wf(),
            final(self).devices@ == old(self).devices@.remove(id),
            groups_view(final(self).bus_groups@) == groups_after_remove(old(self).bus_groups@, old(self).devices@, id),
    {
        let removed = self.devices.remove(&id);
        match removed {
            None => {},
            Some(device) => {
                let key = bus_key(&device);
                let ghost d0 = old(self).devices@;
                assert(d0.contains_key(id) && d0[id] == device);
                assert(self.bus_groups@ == old(self).bus_groups@);
                let found = self.find_group(&key);
                match found {
                    None => {
                        proof {
                            let gi = choose|i: int|
                                0 <= i < self.bus_groups@.len() && (#[trigger] self.bus_groups@[i]).key@
                                    == bus_key_of(d0[id].bus);
                            assert(self.bus_groups@[gi].key@ != key@);
                        }
                    },
                    Some(gi) => {
                        let group = self.bus_groups.remove(gi);
                        let ghost g0 = old(self).bus_groups@;
                        assert(group == g0[gi as int]);
                        let mut kept: Vec<i64> = Vec::new();
                        let mut k: usize = 0;
                        while k < group.ids.len()
                            invariant
                                k <= group.ids@.len(),
                                kept@ == ids_without(group.ids@.subrange(0, k as int), id),
                                forall|x: i64| #[trigger] kept@.contains(x) <==> (x != id
                                    && group.ids@.subrange(0, k as int).contains(x)),
                                forall|a: int, b: int|
                                    0 <= a < kept@.len() && 0 <= b < kept@.len() && a != b
                                        ==> (#[trigger] kept@[a]) != (#[trigger] kept@[b]),
                                forall|a: int, b: int|
                                    0 <= a < group.ids@.len() && 0 <= b < group.ids@.len() && a
                                        != b ==> (#[trigger] group.ids@[a]) != (#[trigger] group.ids@[b]),
                            decreases group.ids@.len() - k,
                        {
                            let x = group.ids[k];
                            let ghost before = group.ids@.subrange(0, k as int);
                            assert(group.ids@.subrange(0, k + 1) =~= before.push(x));
                            assert(before.push(x).drop_last() =~= before);
                            proof {
                                assert(!before.contains(x)) by {
                                    if before.contains(x) {
                                        let c = choose|c: int| 0 <= c < before.len() && before[c] == x;
                                        assert(group.ids@[c] == group.ids@[k as int]);
                                    }
                                }
                            }
                            if x != id {
                                let ghost old_kept = kept@;
                                kept.push(x);
                                proof {
                                    assert forall|y: i64| #[trigger] kept@.contains(y) <==> (y != id
                                        && group.ids@.subrange(0, k + 1).contains(y)) by {
                                        if kept@.contains(y) {
                                            let p = choose|p: int| 0 <= p < kept@.len() && kept@[p] == y;
                                            if p < old_kept.len() {
                                                assert(old_kept[p] == y);
                                                assert(old_kept.contains(y));
                                            } else {
                                                assert(y == x);
                                                assert(before.push(x)[before.len() as int] == x);
                                            }
                                        }
                                        if y != id && before.push(x).contains(y) {
                                            let p = choose|p: int| 0 <= p < before.len() + 1 && before.push(x)[p] == y;
                                            if p < before.len() {
                                                assert(before[p] == y);
                                                assert(before.contains(y));
                                                assert(old_kept.contains(y));
                                                let q = choose|q: int| 0 <= q < old_kept.len() && old_kept[q] == y;
                                                assert(kept@[q] == y);
                                            } else {
                                                assert(kept@[old_kept.len() as int] == y);
                                            }
                                        }
                                        if old_kept.contains(y) {
                                            let q = choose|q: int| 0 <= q < old_kept.len() && old_kept[q] == y;
                                            assert(before.contains(y));
                                            let p = choose|p: int| 0 <= p < before.len() && before[p] == y;
                                            assert(before.push(x)[p] == y);
                                        }
                                    }
                                    assert(!old_kept.contains(x));
                                    assert forall|a: int, b: int|
                                        0 <= a < kept@.len() && 0 <= b < kept@.len() && a != b
                                            implies (#[trigger] kept@[a]) != (#[trigger] kept@[b]) by {
                                        if a == old_kept.len() as int {
                                            assert(old_kept[b] == kept@[b]);
                                            if kept@[b] == x {
                                                assert(old_kept.contains(x));
                                            }
                                        } else if b == old_kept.len() as int {
                                            assert(old_kept[a] == kept@[a]);
                                            if kept@[a] == x {
                                                assert(old_kept.contains(x));
                                            }
                                        } else {
                                            assert(old_kept[a] == kept@[a]);
                                            assert(old_kept[b] == kept@[b]);
                                        }
                                    }
                                }
                            } else {
                                proof {
                                    assert forall|y: i64| #[trigger] kept@.contains(y) <==> (y != id
                                        && group.ids@.subrange(0, k + 1).contains(y)) by {
                                        if y != id && before.push(x).contains(y) {
                                            let p = choose|p: int| 0 <= p < before.len() + 1 && before.push(x)[p] == y;
                                            assert(p < before.len());
                                            assert(before[p] == y);
                                            assert(before.contains(y));
                                        }
                                        if before.contains(y) {
                                            let p = choose|p: int| 0 <= p < before.len() && before[p] == y;
                                            assert(before.push(x)[p] == y);
                                        }
                                    }
                                }
                            }
                            k = k + 1;
                        }
                        assert(group.ids@.subrange(0, group.ids@.len() as int) =~= group.ids@);
                        proof {
                            lemma_choose_group(g0, key@, gi as int);
                            assert(kept@ == ids_without(g0[gi as int].ids@, id));
                        }
                        if kept.len() > 0 {
                            let key_of_group = group.key;
                            self.bus_groups.insert(gi, BusGroup { key: key_of_group, ids: kept });
                            proof {
                                assert(self.bus_groups@ =~= g0.update(gi as int, self.bus_groups@[gi as int]));
                                self.lemma_wf_after_shrink(old(self), id, gi as int);
                                assert(groups_view(self.bus_groups@) =~= groups_view(g0).update(
                                    gi as int,
                                    (key@, ids_without(g0[gi as int].ids@, id)),
                                ));
                            }
                        } else {
                            proof {
                                assert forall|x: i64| !(x != id && g0[gi as int].ids@.contains(x)) by {
                                    assert(!kept@.contains(x));
                                }
                                assert(self.bus_groups@ =~= g0.remove(gi as int));
                                self.lemma_wf_after_drop(old(self), id, gi as int);
                                assert(groups_view(self.bus_groups@) =~= groups_view(g0).remove(gi as int));
                            }
                        }
                    },
                }
            },
        }
    }

    /// Registers a device, replacing any device with the same id; the
    /// device joins the end of its bus group.
    pub fn register(&mut self, device: Device)
        requires
            old(self).wf(),
        ensures
            final(self).wf(),
            final(self).devices@ == old(self).devices@.insert(device.id, device),
            groups_view(final(self).bus_groups@) == groups_join(
                groups_after_remove(old(self).bus_groups@, old(self).devices@, device.id),
                bus_key_of(device.bus),
                device.id,
            ),
    {
        let key = bus_key(&device);
        let id = device.id;
        self.remove(id);
        let ghost mid_groups = self.bus_groups@;
        let ghost mid_devices = self.devices@;
        let found = self.find_group(&key);
        match found {
            Some(gi) => {
                let mut group = self.bus_groups.remove(gi);
                let ghost old_ids = group.ids@;
                assert(group == mid_groups[gi as int]);
                group.ids.push(id);
                self.bus_groups.insert(gi, group);
                assert(self.bus_groups@ =~= mid_groups.update(gi as int, self.bus_groups@[gi as int]));
                self.devices.insert(id, device);
                proof {
                    assert(!old_ids.contains(id));
                    self.lemma_wf_after_join(mid_groups, mid_devices, id, gi as int);
                    lemma_choose_group(mid_groups, key@, gi as int);
                    assert(groups_view(self.bus_groups@) =~= groups_view(mid_groups).update(
                        gi as int,
                        (key@, mid_groups[gi as int].ids@.push(id)),
                    ));
                }
            },
            None => {
                let mut ids: Vec<i64> = Vec::new();
                ids.push(id);
                assert(ids@ =~= seq![id]);
                self.bus_groups.push(BusGroup { key, ids });
                self.devices.insert(id, device);
                proof {
                    self.lemma_wf_after_new_group(mid_groups, mid_devices, id);
                    let gv = groups_view(mid_groups);
                    assert forall|i: int| 0 <= i < gv.len() implies gv[i].0 != key@ by {
                        assert(gv[i].0 == mid_groups[i].key@);
                    }
                    assert(groups_view(self.bus_groups@) =~= gv.push((key@, seq![id])));
                }
            },
        }
    }
}

impl Default for DeviceRegistry {
    /// An empty registry.
    fn default() -> (r: Self)
        ensures
            r.wf(),
            r.devices@ == Map::<i64, Device>::empty(),
            r.bus_groups@.len() == 0,
    {
        DeviceRegistry::new()
    }
}

impl DeviceRegistry {
    proof fn lemma_wf_after_join(&self, g0: Seq<BusGroup>, d0: Map<i64, Device>, id: i64, gi: int)
        requires
            wf_parts(g0, d0),
            !d0.contains_key(id),
            self.devices@ == d0.insert(id, self.devices@[id]),
            self.devices@[id].id == id,
            0 <= gi < g0.len(),
            g0[gi].key@ == bus_key_of(self.devices@[id].bus),
            self.bus_groups@.len() == g0.len(),
            forall|i: int| 0 <= i < g0.len() && i != gi ==> self.bus_groups@[i] == g0[i],
            self.bus_groups@[gi].key@ == g0[gi].key@,
            self.bus_groups@[gi].ids@ == g0[gi].ids@.push(id),
            !g0[gi].ids@.contains(id),
        ensures
            self.wf(),
    {
        let g = self.bus_groups@;
        let d = self.devices@;
        assert forall|i: int, x: i64| 0 <= i < g.len() implies ((#[trigger] g[i].ids@.contains(x)) <==> (d.contains_key(x)
            && bus_key_of(d[x].bus) == g[i].key@)) by {
            assert(g0[i].ids@.contains(x) <==> (d0.contains_key(x) && bus_key_of(d0[x].bus) == g0[i].key@));
            if i == gi {
                if g[i].ids@.contains(x) && x != id {
                    let p = choose|p: int| 0 <= p < g[i].ids@.len() && g[i].ids@[p] == x;
                    assert(p < g0[i].ids@.len());
                    assert(g0[i].ids@[p] == x);
                }
                if x == id {
                    assert(g[i].ids@[g0[i].ids@.len() as int] == id);
                }
                if g0[i].ids@.contains(x) {
                    let p = choose|p: int| 0 <= p < g0[i].ids@.len() && g0[i].ids@[p] == x;
                    assert(g[i].ids@[p] == x);
                }
            } else {
                assert(g[i] == g0[i]);
                if x == id {
                    assert(g0[i].key@ != g0[gi].key@);
                }
            }
        }
        assert forall|x: i64| #[trigger] d.contains_key(x) implies exists|i: int|
            0 <= i < g.len() && (#[trigger] g[i]).key@ == bus_key_of(d[x].bus) by {
            if x == id {
                assert(g[gi].key@ == bus_key_of(d[x].bus));
            } else {
                assert(d0.contains_key(x));
                let i = choose|i: int| 0 <= i < g0.len() && (#[trigger] g0[i]).key@ == bus_key_of(d0[x].bus);
                assert(g[i].key@ == g0[i].key@);
            }
        }
        assert forall|i: int, a: int, b: int|
            0 <= i < g.len() && 0 <= a < g[i].ids@.len() && 0 <= b < g[i].ids@.len() && a != b
                implies (#[trigger] g[i].ids@[a]) != (#[trigger] g[i].ids@[b]) by {
            if i != gi {
                assert(g[i] == g0[i]);
            } else {
                let n = g0[i].ids@.len() as int;
                if a < n && b < n {
                    assert(g[i].ids@[a] == g0[i].ids@[a]);
                    assert(g[i].ids@[b] == g0[i].ids@[b]);
                } else if a == n {
                    assert(g[i].ids@[b] == g0[i].ids@[b]);
                    assert(g0[i].ids@.contains(g0[i].ids@[b]));
                } else {
                    assert(g[i].ids@[a] == g0[i].ids@[a]);
                    assert(g0[i].ids@.contains(g0[i].ids@[a]));
                }
            }
        }
        assert forall|i: int| 0 <= i < g.len() implies (#[trigger] g[i]).ids@.len() > 0 by {
            if i != gi {
                assert(g[i] == g0[i]);
            }
        }
        assert forall|i: int, j: int|
            0 <= i < g.len() && 0 <= j < g.len() && i != j implies (#[trigger] g[i]).key@ != (#[trigger] g[j]).key@ by {
            assert(g[i].key@ == g0[i].key@);
            assert(g[j].key@ == g0[j].key@);
        }
        assert forall|x: i64| #[trigger] d.contains_key(x) implies d[x].id == x by {}
    }

    proof fn lemma_wf_after_new_group(&self, g0: Seq<BusGroup>, d0: Map<i64, Device>, id: i64)
        requires
            wf_parts(g0, d0),
            !d0.contains_key(id),
            self.devices@ == d0.insert(id, self.devices@[id]),
            self.devices@[id].id == id,
            forall|i: int| 0 <= i < g0.len() ==> (#[trigger] g0[i]).key@ != bus_key_of(self.devices@[id].bus),
            self.bus_groups@.len() == g0.len() + 1,
            forall|i: int| 0 <= i < g0.len() ==> self.bus_groups@[i] == g0[i],
            self.bus_groups@[g0.len() as int].key@ == bus_key_of(self.devices@[id].bus),
            self.bus_groups@[g0.len() as int].ids@ == seq![id],
        ensures
            self.wf(),
    {
        let g = self.bus_groups@;
        let d = self.devices@;
        let n = g0.len() as int;
        assert forall|i: int, x: i64| 0 <= i < g.len() implies ((#[trigger] g[i].ids@.contains(x)) <==> (d.contains_key(x)
            && bus_key_of(d[x].bus) == g[i].key@)) by {
            if i == n {
                if g[i].ids@.contains(x) {
                    let p = choose|p: int| 0 <= p < g[i].ids@.len() && g[i].ids@[p] == x;
                    assert(x == id);
                }
                if x == id {
                    assert(g[i].ids@[0] == id);
                }
                if d.contains_key(x) && x != id && bus_key_of(d[x].bus) == g[i].key@ {
                    assert(d0.contains_key(x));
                    let j = choose|j: int| 0 <= j < g0.len() && (#[trigger] g0[j]).key@ == bus_key_of(d0[x].bus);
                }
            } else {
                assert(g[i] == g0[i]);
                assert(g0[i].ids@.contains(x) <==> (d0.contains_key(x) && bus_key_of(d0[x].bus) == g0[i].key@));
            }
        }
        assert forall|x: i64| #[trigger] d.contains_key(x) implies exists|i: int|
            0 <= i < g.len() && (#[trigger] g[i]).key@ == bus_key_of(d[x].bus) by {
            if x == id {
                assert(g[n].key@ == bus_key_of(d[x].bus));
            } else {
                assert(d0.contains_key(x));
                let i = choose|i: int| 0 <= i < g0.len() && (#[trigger] g0[i]).key@ == bus_key_of(d0[x].bus);
                assert(g[i] == g0[i]);
            }
        }
        assert forall|i: int, a: int, b: int|
            0 <= i < g.len() && 0 <= a < g[i].ids@.len() && 0 <= b < g[i].ids@.len() && a != b
                implies (#[trigger] g[i].ids@[a]) != (#[trigger] g[i].ids@[b]) by {
            if i < n {
                assert(g[i] == g0[i]);
            }
        }
        assert forall|i: int| 0 <= i < g.len() implies (#[trigger] g[i]).ids@.len() > 0 by {
            if i < n {
                assert(g[i] == g0[i]);
            }
        }
        assert forall|i: int, j: int|
            0 <= i < g.len() && 0 <= j < g.len() && i != j implies (#[trigger] g[i]).key@ != (#[trigger] g[j]).key@ by {
            if i < n {
                assert(g[i] == g0[i]);
            }
            if j < n {
                assert(g[j] == g0[j]);
            }
        }
    }

    proof fn lemma_wf_same_shape(&self, g0: Seq<BusGroup>, d0: Map<i64, Device>, id: i64)
        requires
            wf_parts(g0, d0),
            d0.contains_key(id),
            self.bus_groups@ == g0,
            self.devices@ == d0.insert(id, self.devices@[id]),
            self.devices@[id].id == id,
            self.devices@[id].bus == d0[id].bus,
        ensures
            self.wf(),
    {
        let g = self.bus_groups@;
        let d = self.devices@;
        assert forall|i: int, x: i64| 0 <= i < g.len() implies ((#[trigger] g[i].ids@.contains(x)) <==> (d.contains_key(x)
            && bus_key_of(d[x].bus) == g[i].key@)) by {
            assert(g0[i].ids@.contains(x) <==> (d0.contains_key(x) && bus_key_of(d0[x].bus) == g0[i].key@));
        }
        assert forall|x: i64| #[trigger] d.contains_key(x) implies exists|i: int|
            0 <= i < g.len() && (#[trigger] g[i]).key@ == bus_key_of(d[x].bus) by {
            assert(d0.contains_key(x));
            let i = choose|i: int| 0 <= i < g0.len() && (#[trigger] g0[i]).key@ == bus_key_of(d0[x].bus);
        }
    }

    /// Records a successful poll of device `id` at time `now`: the failure
    /// count drops to zero, the error message is cleared, and the device is
    /// online. Reports `Online` when it was offline before.
    pub fn record_success(&mut self, id: i64, now: i64) -> (r: Option<StatusChange>)
        requires
            old(self).wf(),
        ensures
            final(self).wf(),
            final(self).bus_groups@ == old(self).bus_groups@,
            !old(self).devices@.contains_key(id) ==> final(self).devices@ == old(self).devices@ && r is None,
            old(self).devices@.contains_key(id) ==> {
                let before = old(self).devices@[id];
                let after = final(self).devices@[id];
                &&& final(self).devices@ == old(self).devices@.insert(id, after)
                &&& (after.online, after.consecutive_failures) == health_after_success(before.online, before.consecutive_failures)
                &&& after.last_success_at == Some(now)
                &&& after.last_error_msg@.len() == 0
                &&& same_except_health(before, after)
                &&& after.last_error_at == before.last_error_at
                &&& r == status_after_success(before.online)
            },
    {
        let ghost g0 = self.bus_groups@;
        let ghost d0 = self.devices@;
        match self.devices.remove(&id) {
            None => None,
            Some(mut dev) => {
                let was_online = dev.online;
                dev.consecutive_failures = 0;
                dev.last_success_at = Some(now);
                dev.last_error_msg = String::new();
                dev.online = true;
                self.devices.insert(id, dev);
                proof {
                    assert(self.devices@ =~= d0.insert(id, self.devices@[id]));
                    self.lemma_wf_same_shape(g0, d0, id);
                }
                if was_online {
                    None
                } else {
                    Some(StatusChange::Online)
                }
            },
        }
    }

    /// Records a failed poll of device `id` at time `now` with message
    /// `msg`: the failure count goes up by one, and an online device goes
    /// offline once the count reaches three. Reports `Offline` on that
    /// change.
    pub fn record_failure(&mut self, id: i64, now: i64, msg: String) -> (r: Option<StatusChange>)
        requires
            old(self).wf(),
            old(self).devices@.contains_key(id) ==> old(self).devices@[id].consecutive_failures < u32::MAX,
        ensures
            final(self).wf(),
            final(self).bus_groups@ == old(self).bus_groups@,
            !old(self).devices@.contains_key(id) ==> final(self).devices@ == old(self).devices@ && r is None,
            old(self).devices@.contains_key(id) ==> {
                let before = old(self).devices@[id];
                let after = final(self).devices@[id];
                &&& final(self).devices@ == old(self).devices@.insert(id, after)
                &&& (after.online, after.consecutive_failures) == health_after_failure(before.online, before.consecutive_failures)
                &&& after.last_error_at == Some(now)
                &&& after.last_error_msg == msg
                &&& same_except_health(before, after)
                &&& after.last_success_at == before.last_success_at
                &&& r == status_after_failure(before.online, before.consecutive_failures)
            },
    {
        let ghost g0 = self.bus_groups@;
        let ghost d0 = self.devices@;
        match self.devices.remove(&id) {
            None => None,
            Some(mut dev) => {
                dev.consecutive_failures = dev.consecutive_failures + 1;
                dev.last_error_at = Some(now);
                dev.last_error_msg = msg;
                let mut change = None;
                if dev.consecutive_failures >= OFFLINE_AFTER_FAILURES && dev.online {
                    dev.online = false;
                    change = Some(StatusChange::Offline);
                }
                self.devices.insert(id, dev);
                proof {
                    assert(self.devices@ =~= d0.insert(id, self.devices@[id]));
                    self.lemma_wf_same_shape(g0, d0, id);
                }
                change
            },
        }
    }

    /// Records one poll of device `id` at time `now`: a failed poll (see
    /// [`judge_poll`]) as [`Self::record_failure`] with its error message
    /// (`msg` from the driver), a successful one as
    /// [`Self::record_success`]. Gives the status change to report, the
    /// failure the poll counts as, and, per point of `points`, whether its
    /// reading is published and aggregated.
    pub fn record_poll(&mut self, id: i64, now: i64, outcome: &PollOutcome, points: &Vec<String>, msg: String)
        -> (r: (Option<StatusChange>, Option<PollFailure>, Vec<bool>))
        requires
            old(self).wf(),
            poll_failure_of(*outcome) is Some && old(self).devices@.contains_key(id)
                ==> old(self).devices@[id].consecutive_failures < u32::MAX,
        ensures
            final(self).wf(),
            final(self).bus_groups@ == old(self).bus_groups@,
            r.1 == poll_failure_of(*outcome),
            r.2@.len() == points@.len(),
            forall|i: int| 0 <= i < points@.len() ==> #[trigger] r.2@[i] == point_published(*outcome, points@[i]@),
            !old(self).devices@.contains_key(id) ==> final(self).devices@ == old(self).devices@ && r.0 is None,
            old(self).devices@.contains_key(id) ==> {
                let before = old(self).devices@[id];
                let after = final(self).devices@[id];
                let failed = poll_failure_of(*outcome) is Some;
                &&& final(self).devices@ == old(self).devices@.insert(id, after)
                &&& (after.online, after.consecutive_failures)
                    == health_after_poll(before.online, before.consecutive_failures, failed)
                &&& same_except_health(before, after)
                &&& r.0 == status_after_poll(before.online, before.consecutive_failures, failed)
                &&& (poll_failure_of(*outcome) matches Some(f) ==> {
                    &&& after.last_error_at == Some(now)
                    &&& after.last_error_msg@ == failure_message(f, msg@)
                    &&& after.last_success_at == before.last_success_at
                })
                &&& (!failed ==> {
                    &&& after.last_success_at == Some(now)
                    &&& after.last_error_msg@.len() == 0
                    &&& after.last_error_at == before.last_error_at
                })
            },
    {
        let (failure, publish) = judge_poll(outcome, points);
        let change = match failure {
            Some(f) => {
                let text = match f {
                    PollFailure::EmptyResult => String::from_str("empty result (no data points collected)"),
                    _ => msg,
                };
                proof {
                    reveal_strlit("empty result (no data points collected)");
                }
                self.record_failure(id, now, text)
            },
            None => self.record_success(id, now),
        };
        (change, failure, publish)
    }

    /// Applies a configuration change: `add` and `update` register the
    /// device, `remove` removes the device with its id.
    pub fn apply_delta(&mut self, delta: ConfigDelta) -> (r: DeltaOutcome)
        requires
            old(self).wf(),
        ensures
            final(self).wf(),
            r == delta_outcome(delta),
            (delta.action@ == "add"@ || delta.action@ == "update"@) && delta.device is Some
                ==> final(self).devices@ == old(self).devices@.insert(
                    delta.device->0.id,
                    delta.device->0,
                ),
            delta.action@ == "remove"@ && delta.device is Some ==> final(self).devices@ == old(
                self,
            ).devices@.remove(delta.device->0.id),
            !((delta.action@ == "add"@ || delta.action@ == "update"@ || delta.action@ == "remove"@)
                && delta.device is Some) ==> final(self).devices@ == old(self).devices@,
            (delta.action@ == "add"@ || delta.action@ == "update"@) && delta.device is Some
                ==> groups_view(final(self).bus_groups@) == groups_join(
                    groups_after_remove(old(self).bus_groups@, old(self).devices@, delta.device->0.id),
                    bus_key_of(delta.device->0.bus),
                    delta.device->0.id,
                ),
            delta.action@ == "remove"@ && delta.device is Some ==> groups_view(final(self).bus_groups@)
                == groups_after_remove(old(self).bus_groups@, old(self).devices@, delta.device->0.id),
            !((delta.action@ == "add"@ || delta.action@ == "update"@ || delta.action@ == "remove"@)
                && delta.device is Some) ==> final(self).bus_groups@ == old(self).bus_groups@,
    {
        proof {
            reveal_strlit("add");
            reveal_strlit("update");
            reveal_strlit("remove");
            assert("remove"@.len() != "add"@.len());
            assert("remove"@.len() != "update"@.len() || "remove"@[0] != "update"@[0]);
        }
        let is_upsert = text_eq(delta.action.as_str(), "add") || text_eq(delta.action.as_str(), "update");
        let is_remove = text_eq(delta.action.as_str(), "remove");
        if is_upsert {
            match delta.device {
                Some(device) => {
                    let id = device.id;
                    self.register(device);
                    DeltaOutcome::Registered(id)
                },
                None => DeltaOutcome::MissingDevice,
            }
        } else if is_remove {
            match delta.device {
                Some(device) => {
                    self.remove(device.id);
                    DeltaOutcome::Removed(device.id)
                },
                None => DeltaOutcome::MissingDevice,
            }
        } else {
            DeltaOutcome::UnknownAction
        }
    }

    proof fn lemma_wf_after_shrink(&self, prev: &Self, id: i64, gi: int)
        requires
            prev.wf(),
            prev.devices@.contains_key(id),
            self.devices@ == prev.devices@.remove(id),
            0 <= gi < prev.bus_groups@.len(),
            prev.bus_groups@[gi].key@ == bus_key_of(prev.devices@[id].bus),
            self.bus_groups@.len() == prev.bus_groups@.len(),
            forall|i: int| 0 <= i < prev.bus_groups@.len() && i != gi ==> self.bus_groups@[i] == prev.bus_groups@[i],
            self.bus_groups@[gi].key@ == prev.bus_groups@[gi].key@,
            self.bus_groups@[gi].ids@.len() > 0,
            forall|x: i64| self.bus_groups@[gi].ids@.contains(x) <==> (x != id && prev.bus_groups@[gi].ids@.contains(x)),
            forall|a: int, b: int|
                0 <= a < self.bus_groups@[gi].ids@.len() && 0 <= b < self.bus_groups@[gi].ids@.len() && a != b
                    ==> (#[trigger] self.bus_groups@[gi].ids@[a]) != (#[trigger] self.bus_groups@[gi].ids@[b]),
        ensures
            self.wf(),
    {
        let g = self.bus_groups@;
        let d = self.devices@;
        let g0 = prev.bus_groups@;
        let d0 = prev.devices@;
        assert forall|i: int, x: i64| 0 <= i < g.len() implies ((#[trigger] g[i].ids@.contains(x)) <==> (d.contains_key(x)
            && bus_key_of(d[x].bus) == g[i].key@)) by {
            if i != gi {
                assert(g0[i].ids@.contains(x) <==> (d0.contains_key(x) && bus_key_of(d0[x].bus) == g0[i].key@));
                if x == id {
                    assert(g0[i].key@ != g0[gi].key@);
                }
            } else {
                assert(g0[i].ids@.contains(x) <==> (d0.contains_key(x) && bus_key_of(d0[x].bus) == g0[i].key@));
            }
        }
        assert forall|x: i64| #[trigger] d.contains_key(x) implies exists|i: int|
            0 <= i < g.len() && (#[trigger] g[i]).key@ == bus_key_of(d[x].bus) by {
            assert(d0.contains_key(x));
            let i = choose|i: int| 0 <= i < g0.len() && (#[trigger] g0[i]).key@ == bus_key_of(d0[x].bus);
            assert(g[i].key@ == bus_key_of(d[x].bus));
        }
        assert forall|i: int, a: int, b: int|
            0 <= i < g.len() && 0 <= a < g[i].ids@.len() && 0 <= b < g[i].ids@.len() && a != b
                implies (#[trigger] g[i].ids@[a]) != (#[trigger] g[i].ids@[b]) by {
            if i != gi {
                assert(g[i] == g0[i]);
            }
        }
        assert forall|i: int| 0 <= i < g.len() implies (#[trigger] g[i]).ids@.len() > 0 by {
            if i != gi {
                assert(g[i] == g0[i]);
            }
        }
        assert forall|i: int, j: int|
            0 <= i < g.len() && 0 <= j < g.len() && i != j implies (#[trigger] g[i]).key@ != (#[trigger] g[j]).key@ by {
            assert(g[i].key@ == g0[i].key@);
            assert(g[j].key@ == g0[j].key@);
        }
    }

    proof fn lemma_wf_after_drop(&self, prev: &Self, id: i64, gi: int)
        requires
            prev.wf(),
            prev.devices@.contains_key(id),
            self.devices@ == prev.devices@.remove(id),
            0 <= gi < prev.bus_groups@.len(),
            prev.bus_groups@[gi].key@ == bus_key_of(prev.devices@[id].bus),
            self.bus_groups@ == prev.bus_groups@.remove(gi),
            forall|x: i64| !(x != id && prev.bus_groups@[gi].ids@.contains(x)),
        ensures
            self.wf(),
    {
        let g = self.bus_groups@;
        let d = self.devices@;
        let g0 = prev.bus_groups@;
        let d0 = prev.devices@;
        assert forall|i: int| 0 <= i < g.len() implies #[trigger] g[i] == g0[if i < gi { i } else { i + 1 }] by {}
        assert forall|i: int, x: i64| 0 <= i < g.len() implies ((#[trigger] g[i].ids@.contains(x)) <==> (d.contains_key(x)
            && bus_key_of(d[x].bus) == g[i].key@)) by {
            let i0 = if i < gi { i } else { i + 1 };
            assert(g[i] == g0[i0]);
            assert(g0[i0].ids@.contains(x) <==> (d0.contains_key(x) && bus_key_of(d0[x].bus) == g0[i0].key@));
            if x == id {
                assert(g0[i0].key@ != g0[gi].key@);
            }
        }
        assert forall|x: i64| #[trigger] d.contains_key(x) implies exists|i: int|
            0 <= i < g.len() && (#[trigger] g[i]).key@ == bus_key_of(d[x].bus) by {
            assert(d0.contains_key(x) && x != id);
            let i0 = choose|i: int| 0 <= i < g0.len() && (#[trigger] g0[i]).key@ == bus_key_of(d0[x].bus);
            if i0 == gi {
                assert(g0[gi].ids@.contains(x));
            }
            let i = if i0 < gi { i0 } else { i0 - 1 };
            assert(g[i] == g0[i0]);
        }
        assert forall|i: int, a: int, b: int|
            0 <= i < g.len() && 0 <= a < g[i].ids@.len() && 0 <= b < g[i].ids@.len() && a != b
                implies (#[trigger] g[i].ids@[a]) != (#[trigger] g[i].ids@[b]) by {
            let i0 = if i < gi { i } else { i + 1 };
            assert(g[i] == g0[i0]);
        }
        assert forall|i: int| 0 <= i < g.len() implies (#[trigger] g[i]).ids@.len() > 0 by {
            let i0 = if i < gi { i } else { i + 1 };
            assert(g[i] == g0[i0]);
        }
        assert forall|i: int, j: int|
            0 <= i < g.len() && 0 <= j < g.len() && i != j implies (#[trigger] g[i]).key@ != (#[trigger] g[j]).key@ by {
            let i0 = if i < gi { i } else { i + 1 };
            let j0 = if j < gi { j } else { j + 1 };
            assert(g[i] == g0[i0]);
            assert(g[j] == g0[j0]);
        }
    }
}


/// After a device is registered, looking its id up gives that device, and
/// every other id looks up as before.
pub proof fn law_register_then_get(before: Map<i64, Device>, after: Map<i64, Device>, d: Device, other: i64)
    requires
        after == before.insert(d.id, d),
        other != d.id,
    ensures
        after.contains_key(d.id),
        after[d.id] == d,
        after.contains_key(other) == before.contains_key(other),
        before.contains_key(other) ==> after[other] == before[other],
{
}

/// After a device is removed, its id looks up as missing, and every other id
/// looks up as before; removing a device that was just registered under a
/// fresh id gives back the devices from before.
pub proof fn law_remove_then_get(before: Map<i64, Device>, after: Map<i64, Device>, id: i64, other: i64)
    requires
        after == before.remove(id),
        other != id,
    ensures
        !after.contains_key(id),
        after.contains_key(other) == before.contains_key(other),
        before.contains_key(other) ==> after[other] == before[other],
{
}

/// Registering a device under an id not yet in use and then removing that id
/// leaves the devices as they were.
pub proof fn law_register_remove_undo(before: Map<i64, Device>, d: Device)
    requires
        !before.contains_key(d.id),
    ensures
        before.insert(d.id, d).remove(d.id) == before,
{
    assert(before.insert(d.id, d).remove(d.id) =~= before);
}

impl DeviceRegistry {
    /// In a consistent registry each device belongs to exactly one bus group:
    /// the one keyed by its bus key.
    pub proof fn law_device_in_one_group(&self, id: i64)
        requires
            self.wf(),
            self.devices@.contains_key(id),
        ensures
            exists|i: int| 0 <= i < self.bus_groups@.len() && (#[trigger] self.bus_groups@[i]).ids@.contains(id)
                && self.bus_groups@[i].key@ == bus_key_of(self.devices@[id].bus),
            forall|i: int, j: int|
                0 <= i < self.bus_groups@.len() && 0 <= j < self.bus_groups@.len()
                    && (#[trigger] self.bus_groups@[i]).ids@.contains(id) && (#[trigger] self.bus_groups@[j]).ids@.contains(id)
                    ==> i == j,
    {
        let g = self.bus_groups@;
        let d = self.devices@;
        let i = choose|i: int| 0 <= i < g.len() && (#[trigger] g[i]).key@ == bus_key_of(d[id].bus);
        assert(g[i].ids@.contains(id));
        assert forall|a: int, b: int|
            0 <= a < g.len() && 0 <= b < g.len() && (#[trigger] g[a]).ids@.contains(id) && (#[trigger] g[b]).ids@.contains(id)
                implies a == b by {
            assert(g[a].key@ == bus_key_of(d[id].bus));
            assert(g[b].key@ == bus_key_of(d[id].bus));
        }
    }
}

/// Starting online with no failures, the first two failed polls keep the
/// device online without a report; the third takes it offline and reports
/// `Offline`.
pub proof fn law_offline_at_third_failure()
    ensures
        health_after_failure(true, 0) == (true, 1u32),
        status_after_failure(true, 0) is None,
        health_after_failure(true, 1) == (true, 2u32),
        status_after_failure(true, 1) is None,
        health_after_failure(true, 2) == (false, 3u32),
        status_after_failure(true, 2) == Some(StatusChange::Offline),
{
}

/// A successful poll brings any device back online with no failures, and
/// reports `Online` exactly when the device was offline.
pub proof fn law_success_resets(online: bool, failures: u32)
    ensures
        health_after_success(online, failures) == (true, 0u32),
        (status_after_success(online) == Some(StatusChange::Online)) == !online,
        status_after_success(online) is None == online,
{
}

/// A status change is reported exactly when the online flag flips: `Offline`
/// when a failure takes an online device offline, `Online` when a success
/// brings an offline device back; so an offline device is reported once per
/// run of failures.
pub proof fn law_report_on_flip(online: bool, failures: u32)
    requires
        failures < u32::MAX,
    ensures
        (status_after_failure(online, failures) == Some(StatusChange::Offline))
            == (online && !health_after_failure(online, failures).0),
        status_after_failure(online, failures) != Some(StatusChange::Online),
        (status_after_success(online) == Some(StatusChange::Online))
            == (!online && health_after_success(online, failures).0),
{
}

/// A device that is online has fewer than three consecutive failures, and
/// polls keep it so.
pub proof fn law_online_below_threshold(online: bool, failures: u32)
    requires
        online ==> failures < OFFLINE_AFTER_FAILURES,
        failures < u32::MAX,
    ensures
        health_after_failure(online, failures).0 ==> health_after_failure(online, failures).1 < OFFLINE_AFTER_FAILURES,
        health_after_success(online, failures).0 ==> health_after_success(online, failures).1 < OFFLINE_AFTER_FAILURES,
{
}

} // verus!
