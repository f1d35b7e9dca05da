use vstd::prelude::*;
use crate::model::{BusType, DataPoint, Device, ProtocolType};
use crate::scheduler::holds_code;

verus! {

/// Bit pattern of the IEEE-754 double 1.0, the identity scale factor.
pub const UNIT_COEFFICIENT_BITS: u64 = 0x3FF0_0000_0000_0000;

/// Id of the device built for a manual test.
pub const MANUAL_DEVICE_ID: i64 = 9999;

/// The single data point of a manual test: sensor `manual_test`, raw unit,
/// scale 1 and offset 0, reading `count` registers at `register`.
pub open spec fn manual_point_ok(p: DataPoint, register: u16, count: u16, func_code: Seq<char>, data_type: Seq<char>, byte_order: Seq<char>) -> bool {
    &&& p.sensor_code@ == "manual_test"@
    &&& p.sensor_name@ == "手动测试"@
    &&& p.register_address == register
    &&& p.register_count == count
    &&& p.data_type@ == data_type
    &&& p.byte_order@ == byte_order
    &&& p.func_code@ == func_code
    &&& p.coefficient_bits == UNIT_COEFFICIENT_BITS
    &&& p.offset_bits == 0
    &&& p.unit@ == "raw"@
    &&& p.extra_params is None
}

/// A throw-away device for testing one register by hand: id 9999, code
/// `MANUAL`, online, no alarms, and the one point described by the
/// arguments.
pub fn build_manual_device(
    protocol: ProtocolType,
    bus: BusType,
    slave_addr: u8,
    register: u16,
    count: u16,
    func_code: &str,
    data_type: &str,
    byte_order: &str,
) -> (r: Device)
    ensures
        r.id == MANUAL_DEVICE_ID,
        r.code@ == "MANUAL"@,
        r.name@ == "手动测试设备"@,
        r.protocol == protocol,
        r.slave_addr == slave_addr,
        r.bus == bus,
        r.collect_interval_sec is None,
        r.data_points@.len() == 1,
        manual_point_ok(r.data_points@[0], register, count, func_code@, data_type@, byte_order@),
        r.alarm_config is None,
        r.online,
        r.consecutive_failures == 0,
        r.last_success_at is None,
        r.last_error_at is None,
        r.last_error_msg@.len() == 0,
{
    let point = DataPoint {
        sensor_code: String::from_str("manual_test"),
        sensor_name: String::from_str("手动测试"),
        register_address: register,
        register_count: count,
        data_type: String::from_str(data_type),
        byte_order: String::from_str(byte_order),
        func_code: String::from_str(func_code),
        coefficient_bits: UNIT_COEFFICIENT_BITS,
        offset_bits: 0,
        unit: String::from_str("raw"),
        extra_params: None,
    };
    let mut data_points: Vec<DataPoint> = Vec::new();
    data_points.push(point);
    Device {
        id: MANUAL_DEVICE_ID,
        code: String::from_str("MANUAL"),
        name: String::from_str("手动测试设备"),
        protocol,
        slave_addr,
        bus,
        collect_interval_sec: None,
        data_points,
        alarm_config: None,
        online: true,
        consecutive_failures: 0,
        last_success_at: None,
        last_error_at: None,
        last_error_msg: String::new(),
    }
}

/// What one manual driver run gave: no driver on this platform, a failure,
/// or values for these sensor codes.
#[derive(Debug, Clone)]
pub enum CollectRun {
    Unavailable,
    Failed,
    Returned(Vec<String>),
}

/// What a manual test shows for one point: its value, no value returned,
/// the protocol unavailable, or the run's error.
#[derive(Debug, Clone, Copy, PartialEq, Eq, Structural)]
pub enum PointStatus {
    Value,
    NoValue,
    Unavailable,
    Failed,
}

/// The status of point `code` after run `run`.
pub open spec fn point_status_of(run: CollectRun, code: Seq<char>) -> PointStatus {
    match run {
        CollectRun::Unavailable => PointStatus::Unavailable,
        CollectRun::Failed => PointStatus::Failed,
        CollectRun::Returned(codes) => if codes.deep_view().contains(code) {
            PointStatus::Value
        } else {
            PointStatus::NoValue
        },
    }
}

/// After a run that returned values, a point shows a value exactly when its
/// code came back and "no value" otherwise; after an unavailable or failed
/// run every point shows that.
pub proof fn law_point_status(run: CollectRun, code: Seq<char>)
    ensures
        run matches CollectRun::Returned(c) ==> (point_status_of(run, code) == PointStatus::Value) == c.deep_view().contains(code),
        run matches CollectRun::Returned(c) ==> (point_status_of(run, code) == PointStatus::NoValue) == !c.deep_view().contains(code),
        run is Unavailable ==> point_status_of(run, code) == PointStatus::Unavailable,
        run is Failed ==> point_status_of(run, code) == PointStatus::Failed,
{
}

/// The status of each point, with sensor codes `points`, after a manual run.
pub fn point_statuses(run: &CollectRun, points: &Vec<String>) -> (r: Vec<PointStatus>)
    ensures
        r@.len() == points@.len(),
        forall|i: int| 0 <= i < points@.len() ==> #[trigger] r@[i] == point_status_of(*run, points@[i]@),
{
    let mut out: Vec<PointStatus> = Vec::new();
    let mut i: usize = 0;
    while i < points.len()
        invariant
            i <= points@.len(),
            out@.len() == i,
            forall|j: int| 0 <= j < i ==> #[trigger] out@[j] == point_status_of(*run, points@[j]@),
        decreases points@.len() - i,
    {
        let st = match run {
            CollectRun::Unavailable => PointStatus::Unavailable,
            CollectRun::Failed => PointStatus::Failed,
            CollectRun::Returned(codes) => if holds_code(codes, points[i].as_str()) {
                PointStatus::Value
            } else {
                PointStatus::NoValue
            },
        };
        out.push(st);
        i = i + 1;
    }
    out
}

} // verus!
