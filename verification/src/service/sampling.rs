//! Sysfs nodes of sensors and fans, and the inventory updates that the
//! service applies between discoveries.

use vstd::prelude::*;

use crate::config::FriendlyNames;
use crate::inventory::{
    copy_modes, ControlMode, FanChannel, FanChannelView, HwmonDevice, HwmonDeviceView, InventorySnapshot, TemperatureSensor,
    TemperatureSensorView,
};
use crate::strmap::{group_strmap, lookup};
use crate::text::{copy_opt_string, decimal, join_path, join_path_str, push_decimal};

verus! {

broadcast use group_strmap;

/// `{prefix}{channel}_input`, the input node of a channel.
pub open spec fn input_node(prefix: Seq<char>, channel: u32) -> Seq<char> {
    prefix + decimal(channel as nat) + "_input"@
}

fn input_node_path(dir: &str, prefix: &str, channel: u32) -> (r: String)
    ensures
        r@ == join_path(dir@, input_node(prefix@, channel)),
{
    let mut name = prefix.to_owned();
    push_decimal(&mut name, channel as u64);
    let name = name.concat("_input");
    join_path_str(dir, name.as_str())
}

/// The first sensor of `temps` with id `id`.
pub open spec fn sensor_in(temps: Seq<TemperatureSensorView>, id: Seq<char>) -> Option<TemperatureSensorView>
    decreases temps.len(),
{
    if temps.len() == 0 {
        None
    } else {
        match sensor_in(temps.drop_last(), id) {
            Some(t) => Some(t),
            None => if temps.last().id == id { Some(temps.last()) } else { None },
        }
    }
}

/// The input node of sensor `id`: in the first device that has it.
pub open spec fn sensor_input_path(devices: Seq<HwmonDeviceView>, id: Seq<char>) -> Option<Seq<char>>
    decreases devices.len(),
{
    if devices.len() == 0 {
        None
    } else {
        match sensor_input_path(devices.drop_last(), id) {
            Some(p) => Some(p),
            None => match sensor_in(devices.last().temperatures, id) {
                Some(t) => Some(join_path(devices.last().sysfs_path, input_node("temp"@, t.channel))),
                None => None,
            },
        }
    }
}

/// The sensors of `ids` that the inventory has, each with its input node,
/// in the order of `ids`.
pub open spec fn resolved_sensors(devices: Seq<HwmonDeviceView>, ids: Seq<Seq<char>>) -> Seq<(Seq<char>, Seq<char>)>
    decreases ids.len(),
{
    if ids.len() == 0 {
        Seq::empty()
    } else {
        let prev = resolved_sensors(devices, ids.drop_last());
        match sensor_input_path(devices, ids.last()) {
            Some(p) => prev.push((ids.last(), p)),
            None => prev,
        }
    }
}

fn sensor_path(snapshot: &InventorySnapshot, temp_id: &str) -> (r: Option<String>)
    ensures
        r.deep_view() == sensor_input_path(snapshot@, temp_id@),
{
    let ghost dv = snapshot@;
    let mut d: usize = 0;
    while d < snapshot.devices.len()
        invariant
            dv == snapshot@,
            d <= dv.len(),
            sensor_input_path(dv.take(d as int), temp_id@) is None,
        decreases snapshot.devices.len() - d,
    {
        let device = &snapshot.devices[d];
        assert(dv.take(d + 1).drop_last() =~= dv.take(d as int));
        assert(dv.take(d + 1).last() == dv[d as int]);
        let ghost tv = device@.temperatures;
        let mut t: usize = 0;
        while t < device.temperatures.len()
            invariant
                d < dv.len(),
                device@ == dv[d as int],
                tv == device@.temperatures,
                t <= tv.len(),
                sensor_in(tv.take(t as int), temp_id@) is None,
                dv == snapshot@,
                dv.take(d + 1).drop_last() == dv.take(d as int),
                dv.take(d + 1).last() == dv[d as int],
                sensor_input_path(dv.take(d as int), temp_id@) is None,
            decreases device.temperatures.len() - t,
        {
            assert(tv.take(t + 1).drop_last() =~= tv.take(t as int));
            assert(tv.take(t + 1).last() == tv[t as int]);
            if crate::text::str_eq(device.temperatures[t].id.as_str(), temp_id) {
                let p = input_node_path(device.sysfs_path.as_str(), "temp", device.temperatures[t].channel);
                proof {
                    assert(sensor_in(tv.take(t + 1), temp_id@) == Some(tv[t as int]));
                    lemma_sensor_in_prefix(tv, t as int + 1, temp_id@);
                    assert(sensor_input_path(dv.take(d + 1), temp_id@) == Some(p@));
                    lemma_sensor_path_prefix(dv, d as int + 1, temp_id@);
                }
                return Some(p);
            }
            t = t + 1;
        }
        assert(tv.take(t as int) =~= tv);
        d = d + 1;
    }
    assert(dv.take(d as int) =~= dv);
    None
}

proof fn lemma_sensor_in_prefix(s: Seq<TemperatureSensorView>, k: int, id: Seq<char>)
    requires
        0 <= k <= s.len(),
        sensor_in(s.take(k), id) is Some,
    ensures
        sensor_in(s, id) == sensor_in(s.take(k), id),
    decreases s.len(),
{
    if k < s.len() {
        assert(s.drop_last().take(k) =~= s.take(k));
        lemma_sensor_in_prefix(s.drop_last(), k, id);
    } else {
        assert(s.take(k) =~= s);
    }
}

proof fn lemma_sensor_path_prefix(s: Seq<HwmonDeviceView>, k: int, id: Seq<char>)
    requires
        0 <= k <= s.len(),
        sensor_input_path(s.take(k), id) is Some,
    ensures
        sensor_input_path(s, id) == sensor_input_path(s.take(k), id),
    decreases s.len(),
{
    if k < s.len() {
        assert(s.drop_last().take(k) =~= s.take(k));
        lemma_sensor_path_prefix(s.drop_last(), k, id);
    } else {
        assert(s.take(k) =~= s);
    }
}

/// The input node of each sensor of `temp_sources` that the inventory has,
/// in order; sensors it lacks are left out.
pub fn resolve_temp_sources(snapshot: &InventorySnapshot, temp_sources: &Vec<String>) -> (r: Vec<(String, String)>)
    ensures
        r.deep_view() == resolved_sensors(snapshot@, temp_sources.deep_view()),
{
    let ghost iv = temp_sources.deep_view();
    let mut r: Vec<(String, String)> = Vec::new();
    let mut i: usize = 0;
    while i < temp_sources.len()
        invariant
            iv == temp_sources.deep_view(),
            i <= iv.len(),
            r.deep_view() == resolved_sensors(snapshot@, iv.take(i as int)),
        decreases temp_sources.len() - i,
    {
        assert(iv.take(i + 1).drop_last() =~= iv.take(i as int));
        assert(iv.take(i + 1).last() == iv[i as int]);
        match sensor_path(snapshot, temp_sources[i].as_str()) {
            Some(p) => {
                let ghost before = r.deep_view();
                let ghost pv = p@;
                r.push((temp_sources[i].clone(), p));
                assert(r.deep_view() =~= before.push((iv[i as int], pv)));
            },
            None => {},
        }
        i = i + 1;
    }
    assert(iv.take(i as int) =~= iv);
    r
}

/// The first fan of `fans` with id `id` and tach feedback.
pub open spec fn tach_fan_in(fans: Seq<FanChannelView>, id: Seq<char>) -> Option<FanChannelView>
    decreases fans.len(),
{
    if fans.len() == 0 {
        None
    } else {
        match tach_fan_in(fans.drop_last(), id) {
            Some(f) => Some(f),
            None => if fans.last().id == id && fans.last().rpm_feedback { Some(fans.last()) } else { None },
        }
    }
}

/// The tach input node of fan `id`: in the first device where it has tach
/// feedback.
pub open spec fn fan_rpm_path(devices: Seq<HwmonDeviceView>, id: Seq<char>) -> Option<Seq<char>>
    decreases devices.len(),
{
    if devices.len() == 0 {
        None
    } else {
        match fan_rpm_path(devices.drop_last(), id) {
            Some(p) => Some(p),
            None => match tach_fan_in(devices.last().fans, id) {
                Some(f) => Some(join_path(devices.last().sysfs_path, input_node("fan"@, f.channel))),
                None => None,
            },
        }
    }
}

proof fn lemma_tach_fan_prefix(s: Seq<FanChannelView>, k: int, id: Seq<char>)
    requires
        0 <= k <= s.len(),
        tach_fan_in(s.take(k), id) is Some,
    ensures
        tach_fan_in(s, id) == tach_fan_in(s.take(k), id),
    decreases s.len(),
{
    if k < s.len() {
        assert(s.drop_last().take(k) =~= s.take(k));
        lemma_tach_fan_prefix(s.drop_last(), k, id);
    } else {
        assert(s.take(k) =~= s);
    }
}

proof fn lemma_rpm_path_prefix(s: Seq<HwmonDeviceView>, k: int, id: Seq<char>)
    requires
        0 <= k <= s.len(),
        fan_rpm_path(s.take(k), id) is Some,
    ensures
        fan_rpm_path(s, id) == fan_rpm_path(s.take(k), id),
    decreases s.len(),
{
    if k < s.len() {
        assert(s.drop_last().take(k) =~= s.take(k));
        lemma_rpm_path_prefix(s.drop_last(), k, id);
    } else {
        assert(s.take(k) =~= s);
    }
}

/// The tach input node of fan `fan_id`, if it has tach feedback.
pub fn resolve_fan_rpm_path(snapshot: &InventorySnapshot, fan_id: &str) -> (r: Option<String>)
    ensures
        r.deep_view() == fan_rpm_path(snapshot@, fan_id@),
{
    let ghost dv = snapshot@;
    let mut d: usize = 0;
    while d < snapshot.devices.len()
        invariant
            dv == snapshot@,
            d <= dv.len(),
            fan_rpm_path(dv.take(d as int), fan_id@) is None,
        decreases snapshot.devices.len() - d,
    {
        let device = &snapshot.devices[d];
        assert(dv.take(d + 1).drop_last() =~= dv.take(d as int));
        assert(dv.take(d + 1).last() == dv[d as int]);
        let ghost fv = device@.fans;
        let mut f: usize = 0;
        while f < device.fans.len()
            invariant
                d < dv.len(),
                device@ == dv[d as int],
                fv == device@.fans,
                f <= fv.len(),
                tach_fan_in(fv.take(f as int), fan_id@) is None,
                dv == snapshot@,
                dv.take(d + 1).drop_last() == dv.take(d as int),
                dv.take(d + 1).last() == dv[d as int],
                fan_rpm_path(dv.take(d as int), fan_id@) is None,
            decreases device.fans.len() - f,
        {
            assert(fv.take(f + 1).drop_last() =~= fv.take(f as int));
            assert(fv.take(f + 1).last() == fv[f as int]);
            if device.fans[f].rpm_feedback && crate::text::str_eq(device.fans[f].id.as_str(), fan_id) {
                let p = input_node_path(device.sysfs_path.as_str(), "fan", device.fans[f].channel);
                proof {
                    assert(tach_fan_in(fv.take(f + 1), fan_id@) == Some(fv[f as int]));
                    lemma_tach_fan_prefix(fv, f as int + 1, fan_id@);
                    assert(fan_rpm_path(dv.take(d + 1), fan_id@) == Some(p@));
                    lemma_rpm_path_prefix(dv, d as int + 1, fan_id@);
                }
                return Some(p);
            }
            f = f + 1;
        }
        assert(fv.take(f as int) =~= fv);
        d = d + 1;
    }
    assert(dv.take(d as int) =~= dv);
    None
}

/// Every fan with tach feedback, with its tach input node, in inventory
/// order.
pub open spec fn tach_nodes(devices: Seq<HwmonDeviceView>) -> Seq<(Seq<char>, Seq<char>)>
    decreases devices.len(),
{
    if devices.len() == 0 {
        Seq::empty()
    } else {
        let d = devices.last();
        tach_nodes(devices.drop_last()) + d.fans.filter(|f: FanChannelView| f.rpm_feedback).map_values(
            |f: FanChannelView| (f.id, join_path(d.sysfs_path, input_node("fan"@, f.channel))),
        )
    }
}

/// The fans whose speed the service polls, with their tach input nodes.
pub fn rpm_poll_paths(snapshot: &InventorySnapshot) -> (r: Vec<(String, String)>)
    ensures
        r.deep_view() == tach_nodes(snapshot@),
{
    let ghost dv = snapshot@;
    let mut r: Vec<(String, String)> = Vec::new();
    let mut d: usize = 0;
    while d < snapshot.devices.len()
        invariant
            dv == snapshot@,
            d <= dv.len(),
            r.deep_view() == tach_nodes(dv.take(d as int)),
        decreases snapshot.devices.len() - d,
    {
        let device = &snapshot.devices[d];
        assert(dv.take(d + 1).drop_last() =~= dv.take(d as int));
        assert(dv.take(d + 1).last() == dv[d as int]);
        let ghost fv = device@.fans;
        let ghost base = r.deep_view();
        let ghost path = device@.sysfs_path;
        let ghost pred = |f: FanChannelView| f.rpm_feedback;
        let ghost g = |f: FanChannelView| (f.id, join_path(path, input_node("fan"@, f.channel)));
        proof {
            reveal(Seq::filter);
            assert(fv.take(0).filter(pred) =~= Seq::<FanChannelView>::empty());
            assert(base + fv.take(0).filter(pred).map_values(g) =~= base);
        }
        let mut f: usize = 0;
        while f < device.fans.len()
            invariant
                d < dv.len(),
                device@ == dv[d as int],
                fv == device@.fans,
                path == device@.sysfs_path,
                f <= fv.len(),
                pred == (|f: FanChannelView| f.rpm_feedback),
                g == (|f: FanChannelView| (f.id, join_path(path, input_node("fan"@, f.channel)))),
                r.deep_view() == base + fv.take(f as int).filter(pred).map_values(g),
            decreases device.fans.len() - f,
        {
            assert(fv.take(f + 1).drop_last() =~= fv.take(f as int));
            assert(fv.take(f + 1).last() == fv[f as int]);
            proof {
                reveal(Seq::filter);
            }
            if device.fans[f].rpm_feedback {
                let p = input_node_path(device.sysfs_path.as_str(), "fan", device.fans[f].channel);
                let ghost before = r.deep_view();
                let ghost item = (fv[f as int].id, p@);
                r.push((device.fans[f].id.clone(), p));
                assert(r.deep_view() =~= before.push(item));
                assert(fv.take(f + 1).filter(pred) == fv.take(f as int).filter(pred).push(fv[f as int]));
                assert(fv.take(f + 1).filter(pred).map_values(g) =~= fv.take(f as int).filter(pred).map_values(g).push(
                    item,
                ));
            } else {
                assert(fv.take(f + 1).filter(pred) == fv.take(f as int).filter(pred));
            }
            f = f + 1;
        }
        assert(fv.take(f as int) =~= fv);
        d = d + 1;
    }
    assert(dv.take(d as int) =~= dv);
    r
}


/// A copy of a fan channel with the given friendly name and speed.
fn fan_with(f: &FanChannel, friendly_name: Option<String>, current_rpm: Option<u64>) -> (r: FanChannel)
    ensures
        r@ == (FanChannelView { friendly_name: friendly_name.deep_view(), current_rpm, ..f@ }),
{
    FanChannel {
        id: f.id.clone(),
        channel: f.channel,
        label: copy_opt_string(&f.label),
        friendly_name,
        rpm_feedback: f.rpm_feedback,
        current_rpm,
        control_modes: copy_modes(&f.control_modes),
        support_state: f.support_state,
        support_reason: copy_opt_string(&f.support_reason),
    }
}

/// The inventory with each sensor and fan named as the friendly names say
/// (and unnamed when they do not name it).
pub open spec fn named_devices(
    devices: Seq<HwmonDeviceView>,
    sensors: Seq<(Seq<char>, Seq<char>)>,
    fans: Seq<(Seq<char>, Seq<char>)>,
) -> Seq<HwmonDeviceView> {
    devices.map_values(
        |d: HwmonDeviceView|
            HwmonDeviceView {
                temperatures: d.temperatures.map_values(
                    |t: TemperatureSensorView| TemperatureSensorView { friendly_name: lookup(sensors, t.id), ..t },
                ),
                fans: d.fans.map_values(|f: FanChannelView| FanChannelView { friendly_name: lookup(fans, f.id), ..f }),
                ..d
            },
    )
}

/// The inventory with every sensor's and fan's friendly name taken from the
/// configured names.
pub fn apply_friendly_names(snapshot: &InventorySnapshot, names: &FriendlyNames) -> (r: InventorySnapshot)
    ensures
        r@ == named_devices(snapshot@, names.sensors@, names.fans@),
{
    let ghost dv = snapshot@;
    let ghost sn = names.sensors@;
    let ghost fnm = names.fans@;
    let mut devices: Vec<HwmonDevice> = Vec::new();
    let mut d: usize = 0;
    while d < snapshot.devices.len()
        invariant
            dv == snapshot@,
            sn == names.sensors@,
            fnm == names.fans@,
            d <= dv.len(),
            devices.deep_view() == named_devices(dv.take(d as int), sn, fnm),
        decreases snapshot.devices.len() - d,
    {
        let device = &snapshot.devices[d];
        let ghost tf = |t: TemperatureSensorView| TemperatureSensorView { friendly_name: lookup(sn, t.id), ..t };
        let ghost ff = |f: FanChannelView| FanChannelView { friendly_name: lookup(fnm, f.id), ..f };
        let mut temps: Vec<TemperatureSensor> = Vec::new();
        let mut t: usize = 0;
        while t < device.temperatures.len()
            invariant
                d < dv.len(),
                device@ == dv[d as int],
                sn == names.sensors@,
                t <= device@.temperatures.len(),
                tf == (|t: TemperatureSensorView| TemperatureSensorView { friendly_name: lookup(sn, t.id), ..t }),
                temps.deep_view() == device@.temperatures.take(t as int).map_values(tf),
            decreases device.temperatures.len() - t,
        {
            let s = &device.temperatures[t];
            let name = match names.sensors.get(s.id.as_str()) {
                Some(n) => Some(n.clone()),
                None => None,
            };
            let copy = TemperatureSensor {
                id: s.id.clone(),
                channel: s.channel,
                label: copy_opt_string(&s.label),
                friendly_name: name,
                input_millidegrees_celsius: s.input_millidegrees_celsius,
            };
            let ghost cv = copy@;
            assert(cv == tf(device@.temperatures[t as int]));
            let ghost before = temps.deep_view();
            temps.push(copy);
            assert(temps.deep_view() =~= before.push(cv));
            assert(device@.temperatures.take(t + 1) =~= device@.temperatures.take(t as int).push(device@.temperatures[t as int]));
            assert(temps.deep_view() =~= device@.temperatures.take(t + 1).map_values(tf));
            t = t + 1;
        }
        let mut fans: Vec<FanChannel> = Vec::new();
        let mut f: usize = 0;
        while f < device.fans.len()
            invariant
                d < dv.len(),
                device@ == dv[d as int],
                fnm == names.fans@,
                f <= device@.fans.len(),
                ff == (|f: FanChannelView| FanChannelView { friendly_name: lookup(fnm, f.id), ..f }),
                fans.deep_view() == device@.fans.take(f as int).map_values(ff),
            decreases device.fans.len() - f,
        {
            let fan = &device.fans[f];
            let name = match names.fans.get(fan.id.as_str()) {
                Some(n) => Some(n.clone()),
                None => None,
            };
            let copy = fan_with(fan, name, fan.current_rpm);
            let ghost cv = copy@;
            assert(cv == ff(device@.fans[f as int]));
            let ghost before = fans.deep_view();
            fans.push(copy);
            assert(fans.deep_view() =~= before.push(cv));
            assert(device@.fans.take(f + 1) =~= device@.fans.take(f as int).push(device@.fans[f as int]));
            assert(fans.deep_view() =~= device@.fans.take(f + 1).map_values(ff));
            f = f + 1;
        }
        assert(device@.temperatures.take(t as int) =~= device@.temperatures);
        assert(device@.fans.take(f as int) =~= device@.fans);
        let nd = HwmonDevice {
            id: device.id.clone(),
            name: device.name.clone(),
            sysfs_path: device.sysfs_path.clone(),
            stable_identity: device.stable_identity.clone(),
            temperatures: temps,
            fans,
        };
        let ghost ndv = nd@;
        let ghost before = devices.deep_view();
        devices.push(nd);
        assert(devices.deep_view() =~= before.push(ndv));
        assert(dv.take(d + 1) =~= dv.take(d as int).push(dv[d as int]));
        assert(devices.deep_view() =~= named_devices(dv.take(d + 1), sn, fnm));
        d = d + 1;
    }
    assert(dv.take(d as int) =~= dv);
    InventorySnapshot { devices }
}

/// The inventory with every fan whose id is `fan_id` reporting speed `rpm`.
pub open spec fn with_fan_rpm(devices: Seq<HwmonDeviceView>, fan_id: Seq<char>, rpm: Option<u64>) -> Seq<HwmonDeviceView> {
    devices.map_values(
        |d: HwmonDeviceView|
            HwmonDeviceView {
                fans: d.fans.map_values(
                    |f: FanChannelView| if f.id == fan_id { FanChannelView { current_rpm: rpm, ..f } } else { f },
                ),
                ..d
            },
    )
}

impl InventorySnapshot {
    /// Records a new speed reading for fan `fan_id`.
    pub fn update_fan_rpm(&mut self, fan_id: &str, rpm: Option<u64>)
        ensures
            final(self)@ == with_fan_rpm(old(self)@, fan_id@, rpm),
    {
        let ghost dv = self@;
        let mut devices: Vec<HwmonDevice> = Vec::new();
        let mut d: usize = 0;
        while d < self.devices.len()
            invariant
                dv == self@,
                d <= dv.len(),
                devices.deep_view() == with_fan_rpm(dv.take(d as int), fan_id@, rpm),
            decreases self.devices.len() - d,
        {
            let device = &self.devices[d];
            let ghost ff = |f: FanChannelView| if f.id == fan_id@ { FanChannelView { current_rpm: rpm, ..f } } else { f };
            let mut fans: Vec<FanChannel> = Vec::new();
            let mut f: usize = 0;
            while f < device.fans.len()
                invariant
                    d < dv.len(),
                device@ == dv[d as int],
                    f <= device@.fans.len(),
                    ff == (|f: FanChannelView| if f.id == fan_id@ { FanChannelView { current_rpm: rpm, ..f } } else { f }),
                    fans.deep_view() == device@.fans.take(f as int).map_values(ff),
                decreases device.fans.len() - f,
            {
                let fan = &device.fans[f];
                let speed = if crate::text::str_eq(fan.id.as_str(), fan_id) { rpm } else { fan.current_rpm };
                let copy = fan_with(fan, copy_opt_string(&fan.friendly_name), speed);
                let ghost cv = copy@;
                assert(cv == ff(device@.fans[f as int]));
                let ghost before = fans.deep_view();
                fans.push(copy);
                assert(fans.deep_view() =~= before.push(cv));
                assert(device@.fans.take(f + 1) =~= device@.fans.take(f as int).push(device@.fans[f as int]));
                assert(fans.deep_view() =~= device@.fans.take(f + 1).map_values(ff));
                f = f + 1;
            }
            assert(device@.fans.take(f as int) =~= device@.fans);
            let mut temps: Vec<TemperatureSensor> = Vec::new();
            let mut t: usize = 0;
            while t < device.temperatures.len()
                invariant
                    d < dv.len(),
                device@ == dv[d as int],
                    t <= device@.temperatures.len(),
                    temps.deep_view() == device@.temperatures.take(t as int),
                decreases device.temperatures.len() - t,
            {
                let s = &device.temperatures[t];
                let copy = TemperatureSensor {
                    id: s.id.clone(),
                    channel: s.channel,
                    label: copy_opt_string(&s.label),
                    friendly_name: copy_opt_string(&s.friendly_name),
                    input_millidegrees_celsius: s.input_millidegrees_celsius,
                };
                let ghost cv = copy@;
                let ghost before = temps.deep_view();
                temps.push(copy);
                assert(temps.deep_view() =~= before.push(cv));
                assert(temps.deep_view() =~= device@.temperatures.take(t + 1));
                t = t + 1;
            }
            assert(device@.temperatures.take(t as int) =~= device@.temperatures);
            let nd = HwmonDevice {
                id: device.id.clone(),
                name: device.name.clone(),
                sysfs_path: device.sysfs_path.clone(),
                stable_identity: device.stable_identity.clone(),
                temperatures: temps,
                fans,
            };
            let ghost ndv = nd@;
            let ghost before = devices.deep_view();
            devices.push(nd);
            assert(devices.deep_view() =~= before.push(ndv));
            assert(dv.take(d + 1) =~= dv.take(d as int).push(dv[d as int]));
            assert(devices.deep_view() =~= with_fan_rpm(dv.take(d + 1), fan_id@, rpm));
            d = d + 1;
        }
        assert(dv.take(d as int) =~= dv);
        self.devices = devices;
    }
}

} // verus!
