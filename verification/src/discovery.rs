//! Building inventory entries from what a scan of a hwmon device found.
//!
//! The scan itself (listing directories, reading and probing sysfs nodes)
//! is the caller's; these functions turn its findings into sensors, fan
//! channels and an ordered device list.

use vstd::prelude::*;

use crate::inventory::{
    all_digits, digits_value, fan_channel_id, fan_support, fan_support_spec, lemma_digits_value_grows,
    strictly_increasing, temperature_sensor_id, FanChannel, FanChannelView, HwmonDevice, HwmonDeviceView,
    TemperatureSensor, TemperatureSensorView,
};
use crate::inventory::chars_of;
use crate::text::{decimal, seq_lt, str_lt, trim_range, trim_spec};

verus! {

// ---------------------------------------------------------------------------
// Channel lists
// ---------------------------------------------------------------------------

/// Inserts channel `c` into an ascending list without repeats.
pub fn insert_channel(v: &mut Vec<u32>, c: u32)
    requires
        strictly_increasing(old(v)@),
    ensures
        strictly_increasing(final(v)@),
        forall|x: u32| final(v)@.contains(x) <==> (old(v)@.contains(x) || x == c),
{
    let ghost rv = v@;
    let mut p: usize = 0;
    while p < v.len() && v[p] < c
        invariant
            rv == v@,
            p <= rv.len(),
            forall|q: int| 0 <= q < p ==> rv[q] < c,
        decreases v.len() - p,
    {
        p = p + 1;
    }
    if p < v.len() && v[p] == c {
        assert forall|x: u32| v@.contains(x) <==> (rv.contains(x) || x == c) by {
            if x == c {
                assert(v@[p as int] == c);
            }
        }
    } else {
        v.insert(p, c);
        assert(v@ =~= rv.insert(p as int, c));
        assert forall|a: int, b: int| 0 <= a < b < v@.len() implies v@[a] < v@[b] by {
            if b < p {
            } else if a < p && b == p {
            } else if a < p {
                if b - 1 > p {
                    assert(rv[p as int] < rv[b - 1]);
                }
            } else if a == p {
                assert(rv[p as int] > c);
                if b - 1 > p {
                    assert(rv[p as int] < rv[b - 1]);
                }
            }
        }
        assert forall|x: u32| v@.contains(x) <==> (rv.contains(x) || x == c) by {
            if x == c {
                assert(v@[p as int] == c);
            }
            if rv.contains(x) {
                let j = choose|j: int| 0 <= j < rv.len() && rv[j] == x;
                if j < p {
                    assert(v@[j] == x);
                } else {
                    assert(v@[j + 1] == x);
                }
            }
            if v@.contains(x) && x != c {
                let j = choose|j: int| 0 <= j < v@.len() && v@[j] == x;
                if j < p {
                    assert(rv[j] == x);
                } else {
                    assert(rv[j - 1] == x);
                }
            }
        }
    }
}

/// The channels of `a` and `b` together, ascending without repeats (the
/// fan channels of a device are those with a tach input or a PWM node).
pub fn merge_channels(a: &Vec<u32>, b: &Vec<u32>) -> (r: Vec<u32>)
    requires
        strictly_increasing(a@),
    ensures
        strictly_increasing(r@),
        forall|x: u32| r@.contains(x) <==> (a@.contains(x) || b@.contains(x)),
{
    let mut r: Vec<u32> = Vec::new();
    let mut i: usize = 0;
    while i < a.len()
        invariant
            i <= a@.len(),
            strictly_increasing(a@),
            r@ == a@.take(i as int),
        decreases a.len() - i,
    {
        r.push(a[i]);
        assert(r@ =~= a@.take(i + 1));
        i = i + 1;
    }
    assert(a@.take(i as int) =~= a@);
    let mut j: usize = 0;
    while j < b.len()
        invariant
            j <= b@.len(),
            strictly_increasing(r@),
            forall|x: u32| r@.contains(x) <==> (a@.contains(x) || b@.take(j as int).contains(x)),
        decreases b.len() - j,
    {
        insert_channel(&mut r, b[j]);
        assert forall|x: u32| b@.take(j + 1).contains(x) <==> (b@.take(j as int).contains(x) || x == b@[j as int]) by {
            let t1 = b@.take(j + 1);
            let t0 = b@.take(j as int);
            if t1.contains(x) && x != b@[j as int] {
                let k = choose|k: int| 0 <= k < t1.len() && t1[k] == x;
                assert(t0[k] == x);
            }
            if t0.contains(x) {
                let k = choose|k: int| 0 <= k < t0.len() && t0[k] == x;
                assert(t1[k] == x);
            }
            if x == b@[j as int] {
                assert(b@.take(j + 1)[j as int] == x);
            }
        }
        j = j + 1;
    }
    assert(b@.take(j as int) =~= b@);
    r
}

// ---------------------------------------------------------------------------
// Numbers read from sysfs
// ---------------------------------------------------------------------------

/// The unsigned value of the digit string `s[lo..hi]` when it is non-empty,
/// all digits and at most `limit`.
fn parse_digits(s: &Vec<char>, lo: usize, hi: usize, limit: u128) -> (r: Option<u128>)
    requires
        lo <= hi <= s@.len(),
        limit <= 0x1_0000_0000_0000_0000,
    ensures
        r == ({
            let d = s@.subrange(lo as int, hi as int);
            if d.len() > 0 && all_digits(d) && digits_value(d) <= limit {
                Some(digits_value(d) as u128)
            } else {
                None::<u128>
            }
        }),
{
    let ghost d = s@.subrange(lo as int, hi as int);
    if lo == hi {
        return None;
    }
    let mut value: u128 = 0;
    let mut i: usize = lo;
    while i < hi
        invariant
            lo <= i <= hi,
            hi <= s@.len(),
            d == s@.subrange(lo as int, hi as int),
            limit <= 0x1_0000_0000_0000_0000,
            all_digits(s@.subrange(lo as int, i as int)),
            value == digits_value(s@.subrange(lo as int, i as int)),
            value <= limit,
        decreases hi - i,
    {
        let c = s[i];
        assert(s@.subrange(lo as int, i + 1).drop_last() =~= s@.subrange(lo as int, i as int));
        if !('0' <= c && c <= '9') {
            assert(!all_digits(d)) by {
                assert(d[i - lo] == c);
            }
            return None;
        }
        let digit = (c as u32 - 48) as u128;
        value = value * 10 + digit;
        assert(value == digits_value(s@.subrange(lo as int, i + 1)));
        if value > limit {
            proof {
                assert(d.take((i + 1 - lo) as int) =~= s@.subrange(lo as int, i + 1));
                lemma_digits_value_grows(d, (i + 1 - lo) as int);
            }
            return None;
        }
        i = i + 1;
    }
    assert(s@.subrange(lo as int, i as int) =~= d);
    Some(value)
}

/// `u64::from_str` on the trimmed text: an optional `+`, then one or more
/// digits whose value fits.
pub open spec fn parse_u64_spec(s: Seq<char>) -> Option<u64> {
    let digits = if s.len() > 0 && s[0] == '+' { s.drop_first() } else { s };
    if digits.len() > 0 && all_digits(digits) && digits_value(digits) <= u64::MAX {
        Some(digits_value(digits) as u64)
    } else {
        None
    }
}

/// `i64::from_str` on the trimmed text: an optional sign, then one or more
/// digits whose signed value fits.
pub open spec fn parse_i64_spec(s: Seq<char>) -> Option<i64> {
    let neg = s.len() > 0 && s[0] == '-';
    let digits = if s.len() > 0 && (s[0] == '+' || s[0] == '-') { s.drop_first() } else { s };
    if digits.len() > 0 && all_digits(digits) && (if neg {
        digits_value(digits) <= 0x8000_0000_0000_0000
    } else {
        digits_value(digits) <= i64::MAX
    }) {
        Some((if neg { -(digits_value(digits) as int) } else { digits_value(digits) as int }) as i64)
    } else {
        None
    }
}

/// The trimmed content of a sysfs value.
pub fn trimmed_value(raw: &str) -> (r: String)
    ensures
        r@ == trim_spec(raw@),
{
    let chars = chars_of(raw);
    assert(chars@.subrange(0, chars@.len() as int) =~= chars@);
    trim_range(&chars, 0, chars.len())
}

/// An unsigned sysfs value (surrounding whitespace ignored).
pub fn parse_u64_value(raw: &str) -> (r: Option<u64>)
    ensures
        r == parse_u64_spec(trim_spec(raw@)),
{
    let t = trimmed_value(raw);
    let s = chars_of(t.as_str());
    let n = s.len();
    let start: usize = if n > 0 && s[0] == '+' { 1 } else { 0 };
    assert(s@.subrange(start as int, n as int) =~= if s@.len() > 0 && s@[0] == '+' {
        s@.drop_first()
    } else {
        s@
    });
    match parse_digits(&s, start, n, 0xffff_ffff_ffff_ffff) {
        Some(v) => Some(v as u64),
        None => None,
    }
}

/// A signed sysfs value (surrounding whitespace ignored).
pub fn parse_i64_value(raw: &str) -> (r: Option<i64>)
    ensures
        r == parse_i64_spec(trim_spec(raw@)),
{
    let t = trimmed_value(raw);
    let s = chars_of(t.as_str());
    let n = s.len();
    let neg = n > 0 && s[0] == '-';
    let start: usize = if n > 0 && (s[0] == '+' || s[0] == '-') { 1 } else { 0 };
    assert(s@.subrange(start as int, n as int) =~= if s@.len() > 0 && (s@[0] == '+' || s@[0] == '-') {
        s@.drop_first()
    } else {
        s@
    });
    let limit: u128 = if neg { 0x8000_0000_0000_0000 } else { 0x7fff_ffff_ffff_ffff };
    match parse_digits(&s, start, n, limit) {
        Some(v) => {
            if neg {
                let r: i128 = 0 - (v as i128);
                Some(r as i64)
            } else {
                Some(v as i64)
            }
        },
        None => None,
    }
}

// ---------------------------------------------------------------------------
// Sensors and fan channels
// ---------------------------------------------------------------------------

/// What probing one temperature channel found.
pub open spec fn sensor_spec(
    device_id: Seq<char>,
    channel: u32,
    label: Option<Seq<char>>,
    input: Option<i64>,
) -> TemperatureSensorView {
    TemperatureSensorView {
        id: device_id + "-temp"@ + decimal(channel as nat),
        channel,
        label,
        friendly_name: None,
        input_millidegrees_celsius: input,
    }
}

/// The sensor of temperature channel `channel` of device `device_id`, with
/// the label and reading found for it.
pub fn build_temperature_sensor(
    device_id: &str,
    channel: u32,
    label: Option<String>,
    input_millidegrees_celsius: Option<i64>,
) -> (r: TemperatureSensor)
    ensures
        r@ == sensor_spec(device_id@, channel, label.deep_view(), input_millidegrees_celsius),
{
    TemperatureSensor {
        id: temperature_sensor_id(device_id, channel),
        channel,
        label,
        friendly_name: None,
        input_millidegrees_celsius,
    }
}

/// What probing the nodes of one fan channel found.
#[derive(Debug)]
pub struct FanProbe {
    /// A tach input exists.
    pub rpm_feedback: bool,
    pub has_pwm_node: bool,
    pub pwm_writable: bool,
    pub pwm_enable_exists: bool,
    pub pwm_enable_writable: bool,
    pub label: Option<String>,
    pub current_rpm: Option<u64>,
}

/// The fan channel that a probe describes.
pub open spec fn fan_channel_spec(
    device_id: Seq<char>,
    channel: u32,
    p: (bool, bool, bool, bool, bool, Option<Seq<char>>, Option<u64>),
) -> FanChannelView {
    let support = fan_support_spec(p.0, p.1, p.2, p.3, p.4);
    FanChannelView {
        id: device_id + "-fan"@ + decimal(channel as nat),
        channel,
        label: p.5,
        friendly_name: None,
        rpm_feedback: p.0,
        current_rpm: p.6,
        control_modes: support.0,
        support_state: support.1,
        support_reason: support.2,
    }
}

/// The fan channel `channel` of device `device_id` as probed.
pub fn build_fan_channel(device_id: &str, channel: u32, probe: FanProbe) -> (r: FanChannel)
    ensures
        r@ == fan_channel_spec(
            device_id@,
            channel,
            (
                probe.rpm_feedback,
                probe.has_pwm_node,
                probe.pwm_writable,
                probe.pwm_enable_exists,
                probe.pwm_enable_writable,
                probe.label.deep_view(),
                probe.current_rpm,
            ),
        ),
{
    let (control_modes, support_state, support_reason) = fan_support(
        probe.rpm_feedback,
        probe.has_pwm_node,
        probe.pwm_writable,
        probe.pwm_enable_exists,
        probe.pwm_enable_writable,
    );
    FanChannel {
        id: fan_channel_id(device_id, channel),
        channel,
        label: probe.label,
        friendly_name: None,
        rpm_feedback: probe.rpm_feedback,
        current_rpm: probe.current_rpm,
        control_modes,
        support_state,
        support_reason,
    }
}

/// A device's name, `unknown` when it has none.
pub fn device_name_or_unknown(name: Option<String>) -> (r: String)
    ensures
        r@ == match name {
            Some(n) => n@,
            None => "unknown"@,
        },
{
    match name {
        Some(n) => n,
        None => "unknown".to_owned(),
    }
}

// ---------------------------------------------------------------------------
// Device order
// ---------------------------------------------------------------------------

/// Where device `x` goes among devices ordered by id: after every device
/// whose id is not greater than its own.
pub open spec fn device_pos(s: Seq<HwmonDeviceView>, x: HwmonDeviceView) -> nat
    decreases s.len(),
{
    if s.len() == 0 {
        0
    } else if seq_lt(x.id, s[0].id) {
        0
    } else {
        1 + device_pos(s.drop_first(), x)
    }
}

/// The devices in ascending id order, a stable sort.
pub open spec fn devices_by_id(s: Seq<HwmonDeviceView>) -> Seq<HwmonDeviceView>
    decreases s.len(),
{
    if s.len() == 0 {
        Seq::empty()
    } else {
        let prev = devices_by_id(s.drop_last());
        let p = device_pos(prev, s.last()) as int;
        prev.take(p) + seq![s.last()] + prev.skip(p)
    }
}

proof fn lemma_device_pos(s: Seq<HwmonDeviceView>, x: HwmonDeviceView, p: int)
    requires
        0 <= p <= s.len(),
        forall|j: int| 0 <= j < p ==> !seq_lt(x.id, #[trigger] s[j].id),
        p == s.len() || seq_lt(x.id, s[p].id),
    ensures
        device_pos(s, x) == p,
    decreases p,
{
    if p > 0 {
        assert(!seq_lt(x.id, s[0].id));
        assert forall|j: int| 0 <= j < p - 1 implies !seq_lt(x.id, #[trigger] s.drop_first()[j].id) by {
            assert(s.drop_first()[j] == s[j + 1]);
        }
        if p < s.len() {
            assert(s.drop_first()[p - 1] == s[p]);
        }
        lemma_device_pos(s.drop_first(), x, p - 1);
    }
}

/// The discovered devices ordered by id.
pub fn sort_devices_by_id(devices: Vec<HwmonDevice>) -> (r: Vec<HwmonDevice>)
    ensures
        r.deep_view() == devices_by_id(devices.deep_view()),
{
    let ghost input = devices.deep_view();
    let mut rest = devices;
    let mut r: Vec<HwmonDevice> = Vec::new();
    let mut k: usize = 0;
    let n = rest.len();
    while k < n
        invariant
            n == input.len(),
            k <= n,
            rest.deep_view() == input.skip(k as int),
            rest@.len() == n - k,
            r.deep_view() == devices_by_id(input.take(k as int)),
        decreases n - k,
    {
        let ghost old_rest = rest@;
        let ghost rv = rest.deep_view();
        assert(rv[0] == old_rest[0].deep_view());
        let x = rest.remove(0);
        let ghost xv = x@;
        assert(xv == input[k as int]);
        assert(rest@ =~= old_rest.drop_first());
        assert(rest.deep_view() =~= input.skip(k + 1)) by {
            assert forall|j: int| 0 <= j < rest@.len() implies rest.deep_view()[j] == input.skip(k + 1)[j] by {
                assert(rest.deep_view()[j] == rest@[j].deep_view());
                assert(rest@[j] == old_rest[j + 1]);
                assert(rv[j + 1] == old_rest[j + 1].deep_view());
            }
        }
        let ghost s = r.deep_view();
        let mut p: usize = 0;
        while p < r.len() && !str_lt(x.id.as_str(), r[p].id.as_str())
            invariant
                s == r.deep_view(),
                xv == x@,
                p <= s.len(),
                forall|j: int| 0 <= j < p ==> !seq_lt(xv.id, #[trigger] s[j].id),
            decreases r.len() - p,
        {
            p = p + 1;
        }
        proof {
            lemma_device_pos(s, xv, p as int);
        }
        r.insert(p, x);
        assert(r.deep_view() =~= s.take(p as int) + seq![xv] + s.skip(p as int));
        assert(input.take(k + 1).drop_last() =~= input.take(k as int));
        assert(input.take(k + 1).last() == xv);
        k = k + 1;
    }
    assert(input.take(k as int) =~= input);
    r
}

} // verus!
