//! Hardware inventory model: hwmon devices, their temperature sensors and
//! fan channels, and lookups over a discovered snapshot.

use vstd::prelude::*;

use vstd::string::*;

use crate::text::{decimal, push_char, push_decimal, str_eq};

verus! {

/// How a fan's speed can be driven.
#[derive(Clone, Copy, Debug, PartialEq, Eq, Structural)]
pub enum ControlMode {
    Pwm,
    Voltage,
}

/// Whether a fan channel can be enrolled for daemon control.
#[derive(Clone, Copy, Debug, PartialEq, Eq, Structural)]
pub enum SupportState {
    Available,
    Partial,
    Unavailable,
}

impl View for ControlMode {
    type V = ControlMode;

    open spec fn view(&self) -> ControlMode {
        *self
    }
}

impl DeepView for ControlMode {
    type V = ControlMode;

    open spec fn deep_view(&self) -> ControlMode {
        *self
    }
}

impl View for SupportState {
    type V = SupportState;

    open spec fn view(&self) -> SupportState {
        *self
    }
}

impl DeepView for SupportState {
    type V = SupportState;

    open spec fn deep_view(&self) -> SupportState {
        *self
    }
}

/// `{:?}` of a control mode.
pub open spec fn control_mode_name(m: ControlMode) -> Seq<char> {
    match m {
        ControlMode::Pwm => "Pwm"@,
        ControlMode::Voltage => "Voltage"@,
    }
}

/// `{:?}` of a support state.
pub open spec fn support_state_name(s: SupportState) -> Seq<char> {
    match s {
        SupportState::Available => "Available"@,
        SupportState::Partial => "Partial"@,
        SupportState::Unavailable => "Unavailable"@,
    }
}

impl ControlMode {
    /// The variant's name, as `{:?}` writes it.
    pub fn debug_name(&self) -> (r: &'static str)
        ensures
            r@ == control_mode_name(*self),
    {
        match self {
            ControlMode::Pwm => "Pwm",
            ControlMode::Voltage => "Voltage",
        }
    }
}

impl SupportState {
    /// The variant's name, as `{:?}` writes it.
    pub fn debug_name(&self) -> (r: &'static str)
        ensures
            r@ == support_state_name(*self),
    {
        match self {
            SupportState::Available => "Available",
            SupportState::Partial => "Partial",
            SupportState::Unavailable => "Unavailable",
        }
    }
}

/// One temperature input of a hwmon device.
#[derive(Clone, Debug)]
pub struct TemperatureSensor {
    pub id: String,
    pub channel: u32,
    pub label: Option<String>,
    pub friendly_name: Option<String>,
    pub input_millidegrees_celsius: Option<i64>,
}

pub struct TemperatureSensorView {
    pub id: Seq<char>,
    pub channel: u32,
    pub label: Option<Seq<char>>,
    pub friendly_name: Option<Seq<char>>,
    pub input_millidegrees_celsius: Option<i64>,
}

impl View for TemperatureSensor {
    type V = TemperatureSensorView;

    open spec fn view(&self) -> TemperatureSensorView {
        TemperatureSensorView {
            id: self.id@,
            channel: self.channel,
            label: self.label.deep_view(),
            friendly_name: self.friendly_name.deep_view(),
            input_millidegrees_celsius: self.input_millidegrees_celsius,
        }
    }
}

impl DeepView for TemperatureSensor {
    type V = TemperatureSensorView;

    open spec fn deep_view(&self) -> TemperatureSensorView {
        self@
    }
}

/// One fan channel of a hwmon device.
#[derive(Clone, Debug)]
pub struct FanChannel {
    pub id: String,
    pub channel: u32,
    pub label: Option<String>,
    pub friendly_name: Option<String>,
    pub rpm_feedback: bool,
    pub current_rpm: Option<u64>,
    pub control_modes: Vec<ControlMode>,
    pub support_state: SupportState,
    pub support_reason: Option<String>,
}

pub struct FanChannelView {
    pub id: Seq<char>,
    pub channel: u32,
    pub label: Option<Seq<char>>,
    pub friendly_name: Option<Seq<char>>,
    pub rpm_feedback: bool,
    pub current_rpm: Option<u64>,
    pub control_modes: Seq<ControlMode>,
    pub support_state: SupportState,
    pub support_reason: Option<Seq<char>>,
}

impl View for FanChannel {
    type V = FanChannelView;

    open spec fn view(&self) -> FanChannelView {
        FanChannelView {
            id: self.id@,
            channel: self.channel,
            label: self.label.deep_view(),
            friendly_name: self.friendly_name.deep_view(),
            rpm_feedback: self.rpm_feedback,
            current_rpm: self.current_rpm,
            control_modes: self.control_modes@,
            support_state: self.support_state,
            support_reason: self.support_reason.deep_view(),
        }
    }
}

impl DeepView for FanChannel {
    type V = FanChannelView;

    open spec fn deep_view(&self) -> FanChannelView {
        self@
    }
}

/// One hwmon device with its sensors and fans.
#[derive(Clone, Debug)]
pub struct HwmonDevice {
    pub id: String,
    pub name: String,
    pub sysfs_path: String,
    pub stable_identity: String,
    pub temperatures: Vec<TemperatureSensor>,
    pub fans: Vec<FanChannel>,
}

pub struct HwmonDeviceView {
    pub id: Seq<char>,
    pub name: Seq<char>,
    pub sysfs_path: Seq<char>,
    pub stable_identity: Seq<char>,
    pub temperatures: Seq<TemperatureSensorView>,
    pub fans: Seq<FanChannelView>,
}

impl View for HwmonDevice {
    type V = HwmonDeviceView;

    open spec fn view(&self) -> HwmonDeviceView {
        HwmonDeviceView {
            id: self.id@,
            name: self.name@,
            sysfs_path: self.sysfs_path@,
            stable_identity: self.stable_identity@,
            temperatures: self.temperatures.deep_view(),
            fans: self.fans.deep_view(),
        }
    }
}

impl DeepView for HwmonDevice {
    type V = HwmonDeviceView;

    open spec fn deep_view(&self) -> HwmonDeviceView {
        self@
    }
}

/// Everything discovered under the hwmon class directory.
#[derive(Clone, Debug)]
pub struct InventorySnapshot {
    pub devices: Vec<HwmonDevice>,
}

impl View for InventorySnapshot {
    type V = Seq<HwmonDeviceView>;

    open spec fn view(&self) -> Seq<HwmonDeviceView> {
        self.devices.deep_view()
    }
}

impl DeepView for InventorySnapshot {
    type V = Seq<HwmonDeviceView>;

    open spec fn deep_view(&self) -> Seq<HwmonDeviceView> {
        self@
    }
}

/// The first fan in `fans` whose id is `id`.
pub open spec fn first_fan_in(fans: Seq<FanChannelView>, id: Seq<char>) -> Option<FanChannelView>
    decreases fans.len(),
{
    if fans.len() == 0 {
        None
    } else {
        match first_fan_in(fans.drop_last(), id) {
            Some(f) => Some(f),
            None => if fans.last().id == id {
                Some(fans.last())
            } else {
                None
            },
        }
    }
}

/// The first fan with id `id`, scanning devices in order and each device's
/// fans in order.
pub open spec fn find_fan(devices: Seq<HwmonDeviceView>, id: Seq<char>) -> Option<FanChannelView>
    decreases devices.len(),
{
    if devices.len() == 0 {
        None
    } else {
        match find_fan(devices.drop_last(), id) {
            Some(f) => Some(f),
            None => first_fan_in(devices.last().fans, id),
        }
    }
}

/// Index of the first device that holds a fan with id `id`, or -1.
pub open spec fn device_index_of_fan(devices: Seq<HwmonDeviceView>, id: Seq<char>) -> int
    decreases devices.len(),
{
    if devices.len() == 0 {
        -1
    } else if device_index_of_fan(devices.drop_last(), id) >= 0 {
        device_index_of_fan(devices.drop_last(), id)
    } else if first_fan_in(devices.last().fans, id) is Some {
        devices.len() - 1
    } else {
        -1
    }
}

/// Whether some device has a temperature sensor with id `id`.
pub open spec fn has_temp_source(devices: Seq<HwmonDeviceView>, id: Seq<char>) -> bool {
    exists|i: int, j: int|
        0 <= i < devices.len() && 0 <= j < devices[i].temperatures.len()
            && #[trigger] devices[i].temperatures[j].id == id
}

/// Whether `modes` holds `m`.
pub fn modes_contain(modes: &Vec<ControlMode>, m: ControlMode) -> (r: bool)
    ensures
        r == modes@.contains(m),
{
    let mut i: usize = 0;
    while i < modes.len()
        invariant
            i <= modes@.len(),
            forall|j: int| 0 <= j < i ==> modes@[j] != m,
        decreases modes.len() - i,
    {
        if modes[i] == m {
            assert(modes@[i as int] == m);
            return true;
        }
        i = i + 1;
    }
    false
}

/// Index of the first fan in `fans` with id `id`.
fn position_in_fans(fans: &Vec<FanChannel>, id: &str) -> (r: Option<usize>)
    ensures
        match r {
            Some(j) => j < fans@.len() && first_fan_in(fans.deep_view(), id@) == Some(fans.deep_view()[j as int]),
            None => first_fan_in(fans.deep_view(), id@) is None,
        },
{
    let ghost fv = fans.deep_view();
    let mut j: usize = 0;
    while j < fans.len()
        invariant
            fv == fans.deep_view(),
            j <= fans@.len(),
            first_fan_in(fv.take(j as int), id@) is None,
        decreases fans.len() - j,
    {
        assert(fv.take(j + 1).drop_last() =~= fv.take(j as int));
        if str_eq(fans[j].id.as_str(), id) {
            proof {
                assert(fv.take(j + 1).last() == fv[j as int]);
                lemma_first_fan_prefix(fv, j as int, id@);
            }
            return Some(j);
        }
        j = j + 1;
    }
    assert(fv.take(j as int) =~= fv);
    None
}

/// Locates the first fan with id `id`: (device index, fan index).
pub fn locate_fan(snapshot: &InventorySnapshot, id: &str) -> (r: Option<(usize, usize)>)
    ensures
        match r {
            Some((d, j)) => {
                &&& d < snapshot@.len()
                &&& j < snapshot@[d as int].fans.len()
                &&& d == device_index_of_fan(snapshot@, id@)
                &&& find_fan(snapshot@, id@) == Some(snapshot@[d as int].fans[j as int])
            },
            None => find_fan(snapshot@, id@) is None && device_index_of_fan(snapshot@, id@) == -1,
        },
{
    let ghost dv = snapshot@;
    let mut d: usize = 0;
    while d < snapshot.devices.len()
        invariant
            dv == snapshot@,
            d <= dv.len(),
            find_fan(dv.take(d as int), id@) is None,
            device_index_of_fan(dv.take(d as int), id@) == -1,
        decreases snapshot.devices.len() - d,
    {
        assert(dv.take(d + 1).drop_last() =~= dv.take(d as int));
        assert(dv.take(d + 1).last() == dv[d as int]);
        match position_in_fans(&snapshot.devices[d].fans, id) {
            Some(j) => {
                proof {
                    lemma_find_fan_prefix(dv, d as int, id@);
                }
                return Some((d, j));
            },
            None => {},
        }
        d = d + 1;
    }
    assert(dv.take(d as int) =~= dv);
    None
}

/// A fan found in a prefix of a fan list is the fan found in the whole list.
proof fn lemma_first_fan_prefix(fv: Seq<FanChannelView>, j: int, id: Seq<char>)
    requires
        0 <= j < fv.len(),
        first_fan_in(fv.take(j + 1), id) is Some,
    ensures
        first_fan_in(fv, id) == first_fan_in(fv.take(j + 1), id),
    decreases fv.len(),
{
    if fv.len() == j + 1 {
        assert(fv.take(j + 1) =~= fv);
    } else {
        assert(fv.drop_last().take(j + 1) =~= fv.take(j + 1));
        lemma_first_fan_prefix(fv.drop_last(), j, id);
    }
}

/// A fan found in a prefix of the devices is the fan found in all of them.
proof fn lemma_find_fan_prefix(dv: Seq<HwmonDeviceView>, d: int, id: Seq<char>)
    requires
        0 <= d < dv.len(),
        find_fan(dv.take(d + 1), id) is Some,
        device_index_of_fan(dv.take(d + 1), id) == d,
    ensures
        find_fan(dv, id) == find_fan(dv.take(d + 1), id),
        device_index_of_fan(dv, id) == d,
    decreases dv.len(),
{
    if dv.len() == d + 1 {
        assert(dv.take(d + 1) =~= dv);
    } else {
        assert(dv.drop_last().take(d + 1) =~= dv.take(d + 1));
        lemma_find_fan_prefix(dv.drop_last(), d, id);
    }
}

/// The first fan with id `fan_id`, if any.
pub fn find_fan_by_id<'a>(snapshot: &'a InventorySnapshot, fan_id: &str) -> (r: Option<&'a FanChannel>)
    ensures
        match r {
            Some(f) => find_fan(snapshot@, fan_id@) == Some(f@),
            None => find_fan(snapshot@, fan_id@) is None,
        },
{
    match locate_fan(snapshot, fan_id) {
        Some((d, j)) => Some(&snapshot.devices[d].fans[j]),
        None => None,
    }
}

/// Whether a temperature sensor with id `temp_id` exists.
pub fn temp_source_exists(snapshot: &InventorySnapshot, temp_id: &str) -> (r: bool)
    ensures
        r == has_temp_source(snapshot@, temp_id@),
{
    let ghost dv = snapshot@;
    let mut d: usize = 0;
    while d < snapshot.devices.len()
        invariant
            dv == snapshot@,
            d <= dv.len(),
            forall|i: int, j: int|
                0 <= i < d && 0 <= j < dv[i].temperatures.len() ==> #[trigger] dv[i].temperatures[j].id != temp_id@,
        decreases snapshot.devices.len() - d,
    {
        let temps = &snapshot.devices[d].temperatures;
        let mut j: usize = 0;
        while j < temps.len()
            invariant
                dv == snapshot@,
                d < dv.len(),
                temps.deep_view() == dv[d as int].temperatures,
                j <= temps@.len(),
                forall|i: int, k: int|
                    0 <= i < d && 0 <= k < dv[i].temperatures.len() ==> #[trigger] dv[i].temperatures[k].id != temp_id@,
                forall|k: int| 0 <= k < j ==> #[trigger] dv[d as int].temperatures[k].id != temp_id@,
            decreases temps.len() - j,
        {
            if str_eq(temps[j].id.as_str(), temp_id) {
                assert(dv[d as int].temperatures[j as int].id == temp_id@);
                return true;
            }
            j = j + 1;
        }
        d = d + 1;
    }
    false
}

// ---------------------------------------------------------------------------
// Stable identifiers of discovered hardware
// ---------------------------------------------------------------------------

/// FNV-1a 64-bit offset basis.
pub const FNV_OFFSET_BASIS: u64 = 0xcbf29ce484222325;

/// FNV-1a 64-bit prime.
pub const FNV_PRIME: u64 = 0x100000001b3;

/// FNV-1a 64-bit hash of a byte sequence.
pub open spec fn fnv1a64_spec(bytes: Seq<u8>) -> u64
    decreases bytes.len(),
{
    if bytes.len() == 0 {
        FNV_OFFSET_BASIS
    } else {
        (fnv1a64_spec(bytes.drop_last()) ^ (bytes.last() as u64)).wrapping_mul(FNV_PRIME)
    }
}

/// FNV-1a 64-bit hash of the string's UTF-8 bytes.
pub fn fnv1a64(value: &str) -> (r: u64)
    ensures
        r == fnv1a64_spec(value.spec_bytes()),
{
    let bytes = value.as_bytes();
    let ghost bv = bytes@;
    let mut hash: u64 = FNV_OFFSET_BASIS;
    let mut i: usize = 0;
    while i < bytes.len()
        invariant
            bv == bytes@,
            i <= bv.len(),
            hash == fnv1a64_spec(bv.take(i as int)),
        decreases bytes.len() - i,
    {
        assert(bv.take(i + 1).drop_last() =~= bv.take(i as int));
        hash = (hash ^ (bytes[i] as u64)).wrapping_mul(FNV_PRIME);
        i = i + 1;
    }
    assert(bv.take(i as int) =~= bv);
    hash
}

/// Whether `c` is an ASCII letter or digit.
pub open spec fn is_ascii_alphanumeric(c: char) -> bool {
    ('0' <= c && c <= '9') || ('a' <= c && c <= 'z') || ('A' <= c && c <= 'Z')
}

/// ASCII lowercase of `c`.
pub open spec fn ascii_lower(c: char) -> char {
    if 'A' <= c && c <= 'Z' {
        ((c as u32) + 32) as char
    } else {
        c
    }
}

/// The character that replaces `c` in a sanitized name.
pub open spec fn sanitize_char(c: char) -> char {
    if is_ascii_alphanumeric(c) {
        ascii_lower(c)
    } else {
        '_'
    }
}

/// Number of leading `_` of `s`.
pub open spec fn leading_underscores(s: Seq<char>) -> nat
    decreases s.len(),
{
    if s.len() == 0 || s[0] != '_' {
        0
    } else {
        1 + leading_underscores(s.drop_first())
    }
}

/// Number of trailing `_` of `s`.
pub open spec fn trailing_underscores(s: Seq<char>) -> nat
    decreases s.len(),
{
    if s.len() == 0 || s.last() != '_' {
        0
    } else {
        1 + trailing_underscores(s.drop_last())
    }
}

/// `s` without leading and trailing `_`.
pub open spec fn trim_underscores(s: Seq<char>) -> Seq<char> {
    if leading_underscores(s) == s.len() {
        Seq::empty()
    } else {
        s.subrange(leading_underscores(s) as int, s.len() - trailing_underscores(s))
    }
}

/// A device name reduced to lowercase ASCII letters and digits, other
/// characters replaced by `_`, with `_` trimmed from both ends.
pub open spec fn sanitize_spec(s: Seq<char>) -> Seq<char> {
    trim_underscores(s.map_values(|c: char| sanitize_char(c)))
}

proof fn lemma_leading(s: Seq<char>, i: int)
    requires
        0 <= i <= s.len(),
        forall|j: int| 0 <= j < i ==> s[j] == '_',
        i == s.len() || s[i] != '_',
    ensures
        leading_underscores(s) == i,
    decreases s.len(),
{
    if i > 0 {
        lemma_leading(s.drop_first(), i - 1);
    }
}

proof fn lemma_trailing(s: Seq<char>, i: int)
    requires
        0 <= i <= s.len(),
        forall|j: int| s.len() - i <= j < s.len() ==> s[j] == '_',
        i == s.len() || s[s.len() - i - 1] != '_',
    ensures
        trailing_underscores(s) == i,
    decreases s.len(),
{
    if i > 0 {
        lemma_trailing(s.drop_last(), i - 1);
    }
}

/// The characters of a string slice.
pub fn chars_of(s: &str) -> (r: Vec<char>)
    ensures
        r@ == s@,
{
    let n = s.unicode_len();
    let mut r: Vec<char> = Vec::new();
    let mut i: usize = 0;
    while i < n
        invariant
            n == s@.len(),
            i <= n,
            r@ == s@.take(i as int),
        decreases n - i,
    {
        r.push(s.get_char(i));
        assert(r@ =~= s@.take(i + 1));
        i = i + 1;
    }
    assert(s@.take(i as int) =~= s@);
    r
}

/// Sanitizes a device name for use in a stable id.
pub fn sanitize(value: &str) -> (r: String)
    ensures
        r@ == sanitize_spec(value@),
{
    let chars = chars_of(value);
    let ghost mapped = value@.map_values(|c: char| sanitize_char(c));
    let mut m: Vec<char> = Vec::new();
    let mut i: usize = 0;
    while i < chars.len()
        invariant
            chars@ == value@,
            mapped == value@.map_values(|c: char| sanitize_char(c)),
            i <= chars@.len(),
            m@ == mapped.take(i as int),
        decreases chars.len() - i,
    {
        let c = chars[i];
        let is_alnum = ('0' <= c && c <= '9') || ('a' <= c && c <= 'z') || ('A' <= c && c <= 'Z');
        let out = if is_alnum {
            if 'A' <= c && c <= 'Z' {
                ((c as u32 + 32) as u8) as char
            } else {
                c
            }
        } else {
            '_'
        };
        m.push(out);
        assert(m@ =~= mapped.take(i + 1));
        i = i + 1;
    }
    assert(mapped.take(i as int) =~= mapped);
    let n = m.len();
    let mut lo: usize = 0;
    while lo < n && m[lo] == '_'
        invariant
            n == m@.len(),
            lo <= n,
            forall|j: int| 0 <= j < lo ==> m@[j] == '_',
        decreases n - lo,
    {
        lo = lo + 1;
    }
    proof {
        lemma_leading(m@, lo as int);
    }
    let mut out = String::new();
    if lo == n {
        return out;
    }
    let mut t: usize = 0;
    while t < n && m[n - 1 - t] == '_'
        invariant
            n == m@.len(),
            t <= n,
            forall|j: int| n - t <= j < n ==> m@[j] == '_',
        decreases n - t,
    {
        t = t + 1;
    }
    proof {
        lemma_trailing(m@, t as int);
    }
    let hi = n - t;
    let mut k: usize = lo;
    while k < hi
        invariant
            lo <= k <= hi,
            hi <= n,
            n == m@.len(),
            out@ == m@.subrange(lo as int, k as int),
        decreases hi - k,
    {
        push_char(&mut out, m[k]);
        assert(out@ =~= m@.subrange(lo as int, k + 1));
        k = k + 1;
    }
    out
}

/// Lowercase hexadecimal digit of `d`.
pub open spec fn hex_char(d: nat) -> char {
    if d < 10 {
        (48 + d) as char
    } else {
        (87 + d) as char
    }
}

/// The `n` low hexadecimal digits of `h`, most significant first.
pub open spec fn hex_digits(h: nat, n: nat) -> Seq<char>
    decreases n,
{
    if n == 0 {
        Seq::empty()
    } else {
        hex_digits(h / 16, (n - 1) as nat).push(hex_char(h % 16))
    }
}

fn push_hex(s: &mut String, h: u64, n: u64)
    ensures
        final(s)@ == old(s)@ + hex_digits(h as nat, n as nat),
    decreases n,
{
    if n > 0 {
        push_hex(s, h / 16, n - 1);
        let d = h % 16;
        let c = if d < 10 { ((48 + d) as u8) as char } else { ((87 + d) as u8) as char };
        push_char(s, c);
    }
    assert(s@ =~= old(s)@ + hex_digits(h as nat, n as nat));
}

/// `hwmon-<sanitized name>-<16 hex digits of the identity's FNV-1a hash>`.
pub open spec fn device_id_spec(name: Seq<char>, stable_identity: &str) -> Seq<char> {
    "hwmon-"@ + sanitize_spec(name) + "-"@ + hex_digits(fnv1a64_spec(stable_identity.spec_bytes()) as nat, 16)
}

/// The stable id of a hwmon device from its chip name and the canonical
/// path of its device node.
pub fn device_id(name: &str, stable_identity: &str) -> (r: String)
    ensures
        r@ == device_id_spec(name@, stable_identity),
{
    let mut id = "hwmon-".to_owned();
    let sanitized = sanitize(name);
    id.append(sanitized.as_str());
    id.append("-");
    push_hex(&mut id, fnv1a64(stable_identity), 16);
    id
}

/// `<device id>-temp<channel>`.
pub fn temperature_sensor_id(device_id: &str, channel: u32) -> (r: String)
    ensures
        r@ == device_id@ + "-temp"@ + decimal(channel as nat),
{
    let mut id = device_id.to_owned();
    id.append("-temp");
    push_decimal(&mut id, channel as u64);
    id
}

/// `<device id>-fan<channel>`.
pub fn fan_channel_id(device_id: &str, channel: u32) -> (r: String)
    ensures
        r@ == device_id@ + "-fan"@ + decimal(channel as nat),
{
    let mut id = device_id.to_owned();
    id.append("-fan");
    push_decimal(&mut id, channel as u64);
    id
}

/// How a fan channel can be controlled, from what its sysfs nodes allow:
/// a writable PWM node makes it available for PWM control; a PWM node that
/// cannot be written, or tach feedback alone, makes it partial; neither
/// makes it unavailable.
pub open spec fn fan_support_spec(
    rpm_feedback: bool,
    has_pwm_node: bool,
    pwm_writable: bool,
    pwm_enable_exists: bool,
    pwm_enable_writable: bool,
) -> (Seq<ControlMode>, SupportState, Option<Seq<char>>) {
    let writable = has_pwm_node && pwm_writable;
    if writable {
        (seq![ControlMode::Pwm], SupportState::Available, None)
    } else if has_pwm_node {
        (
            Seq::empty(),
            SupportState::Partial,
            Some(if pwm_enable_exists && !(pwm_enable_exists && pwm_enable_writable) {
                "pwm control exists but mode switching is not writable"@
            } else {
                "pwm control node exists but is not writable"@
            }),
        )
    } else if rpm_feedback {
        (Seq::empty(), SupportState::Partial, Some("tach feedback exists but no writable control node was detected"@))
    } else {
        (Seq::empty(), SupportState::Unavailable, Some("no tach feedback or controllable output node was detected"@))
    }
}

/// The control modes, support state and reason of a fan channel whose
/// nodes were probed: `rpm_feedback` (a tach input exists), `has_pwm_node`,
/// `pwm_writable` (the PWM node can be written), `pwm_enable_exists` and
/// `pwm_enable_writable`.
pub fn fan_support(
    rpm_feedback: bool,
    has_pwm_node: bool,
    pwm_writable: bool,
    pwm_enable_exists: bool,
    pwm_enable_writable: bool,
) -> (r: (Vec<ControlMode>, SupportState, Option<String>))
    ensures
        (r.0@, r.1, r.2.deep_view()) == fan_support_spec(
            rpm_feedback,
            has_pwm_node,
            pwm_writable,
            pwm_enable_exists,
            pwm_enable_writable,
        ),
{
    let writable = has_pwm_node && pwm_writable;
    let enable_writable = pwm_enable_exists && pwm_enable_writable;
    let mut modes: Vec<ControlMode> = Vec::new();
    if writable {
        modes.push(ControlMode::Pwm);
        assert(modes@ =~= seq![ControlMode::Pwm]);
        (modes, SupportState::Available, None)
    } else if has_pwm_node {
        assert(modes@ =~= Seq::<ControlMode>::empty());
        let reason = if pwm_enable_exists && !enable_writable {
            "pwm control exists but mode switching is not writable".to_owned()
        } else {
            "pwm control node exists but is not writable".to_owned()
        };
        (modes, SupportState::Partial, Some(reason))
    } else if rpm_feedback {
        assert(modes@ =~= Seq::<ControlMode>::empty());
        (modes, SupportState::Partial, Some("tach feedback exists but no writable control node was detected".to_owned()))
    } else {
        assert(modes@ =~= Seq::<ControlMode>::empty());
        (
            modes,
            SupportState::Unavailable,
            Some("no tach feedback or controllable output node was detected".to_owned()),
        )
    }
}

/// Whether every character is an ASCII digit.
pub open spec fn all_digits(s: Seq<char>) -> bool {
    forall|i: int| 0 <= i < s.len() ==> '0' <= #[trigger] s[i] && s[i] <= '9'
}

/// The value of a digit string.
pub open spec fn digits_value(s: Seq<char>) -> nat
    decreases s.len(),
{
    if s.len() == 0 {
        0
    } else {
        digits_value(s.drop_last()) * 10 + ((s.last() as u32) - 48) as nat
    }
}

/// `u32::from_str`: an optional `+` then one or more ASCII digits whose
/// value fits in a `u32`.
pub open spec fn parse_u32_spec(s: Seq<char>) -> Option<u32> {
    let digits = if s.len() > 0 && s[0] == '+' { s.drop_first() } else { s };
    if digits.len() == 0 || !all_digits(digits) || digits_value(digits) > u32::MAX {
        None
    } else {
        Some(digits_value(digits) as u32)
    }
}

/// Parses `s[lo..hi]` as a `u32`.
fn parse_u32_range(s: &Vec<char>, lo: usize, hi: usize) -> (r: Option<u32>)
    requires
        lo <= hi <= s@.len(),
    ensures
        r == parse_u32_spec(s@.subrange(lo as int, hi as int)),
{
    let ghost whole = s@.subrange(lo as int, hi as int);
    let mut start = lo;
    if lo < hi && s[lo] == '+' {
        start = lo + 1;
    }
    let ghost digits = s@.subrange(start as int, hi as int);
    assert(digits =~= if whole.len() > 0 && whole[0] == '+' { whole.drop_first() } else { whole });
    if start == hi {
        return None;
    }
    let mut value: u64 = 0;
    let mut i: usize = start;
    while i < hi
        invariant
            lo <= start <= i <= hi,
            hi <= s@.len(),
            whole == s@.subrange(lo as int, hi as int),
            digits == s@.subrange(start as int, hi as int),
            digits == (if whole.len() > 0 && whole[0] == '+' { whole.drop_first() } else { whole }),
            all_digits(s@.subrange(start as int, i as int)),
            value == digits_value(s@.subrange(start as int, i as int)),
            value <= u32::MAX,
        decreases hi - i,
    {
        let c = s[i];
        assert(s@.subrange(start as int, i + 1).drop_last() =~= s@.subrange(start as int, i as int));
        if !('0' <= c && c <= '9') {
            assert(!all_digits(digits)) by {
                assert(digits[i - start] == c);
            }
            return None;
        }
        let d = (c as u32 - 48) as u64;
        value = value * 10 + d;
        assert(value == digits_value(s@.subrange(start as int, i + 1)));
        if value > 0xffff_ffff {
            proof {
                assert(digits.take((i + 1 - start) as int) =~= s@.subrange(start as int, i + 1));
                lemma_digits_value_grows(digits, (i + 1 - start) as int);
            }
            assert(!all_digits(digits) || digits_value(digits) > u32::MAX);
            return None;
        }
        i = i + 1;
    }
    assert(s@.subrange(start as int, i as int) =~= digits);
    Some(value as u32)
}

/// A digit string's value is at least the value of any of its prefixes.
pub proof fn lemma_digits_value_grows(s: Seq<char>, k: int)
    requires
        0 <= k <= s.len(),
    ensures
        all_digits(s) ==> digits_value(s) >= digits_value(s.take(k)),
    decreases s.len(),
{
    if k < s.len() {
        assert(s.drop_last().take(k) =~= s.take(k));
        lemma_digits_value_grows(s.drop_last(), k);
        if all_digits(s) {
            assert(all_digits(s.drop_last()));
        }
    } else {
        assert(s.take(k) =~= s);
    }
}

/// Whether `s` starts with `p`.
pub open spec fn starts_with(s: Seq<char>, p: Seq<char>) -> bool {
    p.len() <= s.len() && s.take(p.len() as int) == p
}

/// Whether `s` ends with `p`.
pub open spec fn ends_with(s: Seq<char>, p: Seq<char>) -> bool {
    p.len() <= s.len() && s.skip(s.len() - p.len()) == p
}

/// The channel number named by a directory entry: the entry must start
/// with `prefix`, end with `suffix` (when one is given) and have a `u32` in
/// between.
pub open spec fn channel_of(entry: Seq<char>, prefix: Seq<char>, suffix: Option<Seq<char>>) -> Option<u32> {
    if !starts_with(entry, prefix) {
        None
    } else {
        let rest = entry.skip(prefix.len() as int);
        match suffix {
            Some(suf) => if ends_with(rest, suf) {
                parse_u32_spec(rest.take(rest.len() - suf.len()))
            } else {
                None
            },
            None => parse_u32_spec(rest),
        }
    }
}

fn seq_starts_with(s: &Vec<char>, from: usize, p: &Vec<char>) -> (r: bool)
    requires
        from <= s@.len(),
    ensures
        r == starts_with(s@.skip(from as int), p@),
{
    if p.len() > s.len() - from {
        return false;
    }
    let mut i: usize = 0;
    while i < p.len()
        invariant
            from + p@.len() <= s@.len(),
            i <= p@.len(),
            forall|j: int| 0 <= j < i ==> s@[from + j] == p@[j],
        decreases p.len() - i,
    {
        assert(from + i < s@.len());
        assert(s@.len() == s.len());
        let idx: usize = from + i;
        if s[idx] != p[i] {
            assert(s@.skip(from as int).take(p@.len() as int)[i as int] != p@[i as int]);
            return false;
        }
        i = i + 1;
    }
    assert(s@.skip(from as int).take(p@.len() as int) =~= p@);
    true
}

fn seq_ends_with(s: &Vec<char>, from: usize, p: &Vec<char>) -> (r: bool)
    requires
        from <= s@.len(),
    ensures
        r == ends_with(s@.skip(from as int), p@),
{
    let n = s.len();
    if p.len() > n - from {
        return false;
    }
    let base = n - p.len();
    let mut i: usize = 0;
    while i < p.len()
        invariant
            base + p@.len() == s@.len(),
            n == s@.len(),
            from <= base,
            i <= p@.len(),
            forall|j: int| 0 <= j < i ==> s@[base + j] == p@[j],
        decreases p.len() - i,
    {
        if s[base + i] != p[i] {
            let ghost rest = s@.skip(from as int);
            assert(rest.skip(rest.len() - p@.len())[i as int] != p@[i as int]);
            return false;
        }
        i = i + 1;
    }
    let ghost rest = s@.skip(from as int);
    assert(rest.skip(rest.len() - p@.len()) =~= p@);
    true
}

/// The channel number named by directory entry `entry`, if any.
pub fn parse_channel(entry: &str, prefix: &str, suffix: Option<&str>) -> (r: Option<u32>)
    ensures
        r == channel_of(entry@, prefix@, suffix.deep_view()),
{
    let e = chars_of(entry);
    let p = chars_of(prefix);
    assert(e@.skip(0) =~= e@);
    if !seq_starts_with(&e, 0, &p) {
        return None;
    }
    let from = p.len();
    let ghost rest = e@.skip(from as int);
    match suffix {
        Some(suf) => {
            let sv = chars_of(suf);
            if !seq_ends_with(&e, from, &sv) {
                return None;
            }
            assert(rest.take(rest.len() - sv@.len()) =~= e@.subrange(from as int, (e@.len() - sv@.len()) as int));
            parse_u32_range(&e, from, e.len() - sv.len())
        },
        None => {
            assert(rest =~= e@.subrange(from as int, e@.len() as int));
            parse_u32_range(&e, from, e.len())
        },
    }
}

/// Whether `v` is strictly increasing.
pub open spec fn strictly_increasing(v: Seq<u32>) -> bool {
    forall|i: int, j: int| 0 <= i < j < v.len() ==> v[i] < v[j]
}

/// The channel numbers named by the directory entries, ascending and
/// without repeats.
pub fn collect_channel_numbers(entries: &Vec<String>, prefix: &str, suffix: Option<&str>) -> (r: Vec<u32>)
    ensures
        strictly_increasing(r@),
        forall|c: u32|
            r@.contains(c) <==> exists|i: int|
                0 <= i < entries@.len() && #[trigger] channel_of(entries@[i]@, prefix@, suffix.deep_view())
                    == Some(c),
{
    let mut r: Vec<u32> = Vec::new();
    let mut i: usize = 0;
    while i < entries.len()
        invariant
            i <= entries@.len(),
            strictly_increasing(r@),
            forall|c: u32|
                r@.contains(c) <==> exists|k: int|
                    0 <= k < i && #[trigger] channel_of(entries@[k]@, prefix@, suffix.deep_view()) == Some(c),
        decreases entries.len() - i,
    {
        match parse_channel(entries[i].as_str(), prefix, suffix) {
            Some(c) => {
                let ghost rv = r@;
                let mut p: usize = 0;
                while p < r.len() && r[p] < c
                    invariant
                        rv == r@,
                        p <= rv.len(),
                        forall|q: int| 0 <= q < p ==> rv[q] < c,
                    decreases r.len() - p,
                {
                    p = p + 1;
                }
                if p < r.len() && r[p] == c {
                    assert(rv.contains(c) ==> true);
                } else {
                    r.insert(p, c);
                    assert(r@ =~= rv.insert(p as int, c));
                    assert(strictly_increasing(r@)) by {
                        assert forall|a: int, b: int| 0 <= a < b < r@.len() implies r@[a] < r@[b] by {
                            if b < p {
                            } else if a < p && b == p {
                            } else if a < p {
                                assert(rv[b - 1] > c || rv[b - 1] == c || rv[b - 1] < c);
                                assert(p < rv.len() ==> rv[p as int] > c);
                                if b - 1 > p {
                                    assert(rv[p as int] < rv[b - 1]);
                                }
                            } else if a == p {
                                assert(rv[p as int] > c);
                                if b - 1 > p {
                                    assert(rv[p as int] < rv[b - 1]);
                                }
                            } else {
                            }
                        }
                    }
                }
                assert forall|x: u32| r@.contains(x) <==> exists|k: int|
                    0 <= k < i + 1 && #[trigger] channel_of(entries@[k]@, prefix@, suffix.deep_view()) == Some(x) by {
                    if r@.contains(x) && x != c {
                        let j = choose|j: int| 0 <= j < r@.len() && r@[j] == x;
                        assert(rv.contains(x));
                    }
                    if x == c {
                        assert(channel_of(entries@[i as int]@, prefix@, suffix.deep_view()) == Some(x));
                        if p < rv.len() && rv[p as int] == c {
                            assert(r@[p as int] == c);
                        } else {
                            assert(r@[p as int] == c);
                        }
                    }
                    if exists|k: int| 0 <= k < i && #[trigger] channel_of(entries@[k]@, prefix@, suffix.deep_view()) == Some(x) {
                        assert(rv.contains(x));
                        let j = choose|j: int| 0 <= j < rv.len() && rv[j] == x;
                        if j < p {
                            assert(r@[j] == x);
                        } else if !(p < rv.len() && rv[p as int] == c) {
                            assert(r@[j + 1] == x);
                        } else {
                            assert(r@[j] == x);
                        }
                    }
                }
            },
            None => {
                assert forall|x: u32| r@.contains(x) <==> exists|k: int|
                    0 <= k < i + 1 && #[trigger] channel_of(entries@[k]@, prefix@, suffix.deep_view()) == Some(x) by {
                    if exists|k: int| 0 <= k < i + 1 && #[trigger] channel_of(entries@[k]@, prefix@, suffix.deep_view()) == Some(x) {
                        let k = choose|k: int| 0 <= k < i + 1 && #[trigger] channel_of(entries@[k]@, prefix@, suffix.deep_view()) == Some(x);
                        assert(k < i);
                    }
                }
            },
        }
        i = i + 1;
    }
    r
}

/// A copy of a list of control modes.
pub(crate) fn copy_modes(v: &Vec<ControlMode>) -> (r: Vec<ControlMode>)
    ensures
        r@ == v@,
{
    let mut r: Vec<ControlMode> = Vec::new();
    let mut i: usize = 0;
    while i < v.len()
        invariant
            i <= v@.len(),
            r@ == v@.take(i as int),
        decreases v.len() - i,
    {
        r.push(v[i]);
        assert(r@ =~= v@.take(i + 1));
        i = i + 1;
    }
    assert(v@.take(i as int) =~= v@);
    r
}

} // verus!
