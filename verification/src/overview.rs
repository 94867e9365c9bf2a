//! The overview shown to clients: one structure row per fan, ordered by how
//! urgently it needs attention, and the per-fan live readings.
//!
//! Fallback fans come first, then degraded fans, managed fans that run hot,
//! other managed fans and finally unmanaged fans; within a bucket rows are
//! ordered by display name, and rows that tie keep the inventory order.

use vstd::prelude::*;

use crate::config::AppConfig;
use crate::inventory::{FanChannel, FanChannelView, HwmonDeviceView, InventorySnapshot, SupportState};
use crate::lifecycle::runtime::{FanRuntimeStatus, FanRuntimeStatusView, RuntimeState};
use crate::strmap::{group_strmap, lookup};
use crate::text::{
    decimal, lemma_seq_lt_irreflexive, lemma_seq_lt_transitive, push_decimal, seq_lt, str_eq, str_lt,
};

verus! {

broadcast use group_strmap;

/// One fan's row of the overview structure.
#[derive(Debug)]
pub struct OverviewStructureRow {
    pub fan_id: String,
    pub display_name: String,
    pub friendly_name: Option<String>,
    pub hardware_label: Option<String>,
    pub support_state: String,
    pub control_mode: Option<String>,
    pub has_tach: bool,
    pub support_reason: Option<String>,
    pub ordering_bucket: String,
    pub state_text: String,
    pub state_icon_name: String,
    pub state_color: String,
    pub show_support_reason: bool,
}

pub struct OverviewStructureRowView {
    pub fan_id: Seq<char>,
    pub display_name: Seq<char>,
    pub friendly_name: Option<Seq<char>>,
    pub hardware_label: Option<Seq<char>>,
    pub support_state: Seq<char>,
    pub control_mode: Option<Seq<char>>,
    pub has_tach: bool,
    pub support_reason: Option<Seq<char>>,
    pub ordering_bucket: Seq<char>,
    pub state_text: Seq<char>,
    pub state_icon_name: Seq<char>,
    pub state_color: Seq<char>,
    pub show_support_reason: bool,
}

impl View for OverviewStructureRow {
    type V = OverviewStructureRowView;

    open spec fn view(&self) -> OverviewStructureRowView {
        OverviewStructureRowView {
            fan_id: self.fan_id@,
            display_name: self.display_name@,
            friendly_name: self.friendly_name.deep_view(),
            hardware_label: self.hardware_label.deep_view(),
            support_state: self.support_state@,
            control_mode: self.control_mode.deep_view(),
            has_tach: self.has_tach,
            support_reason: self.support_reason.deep_view(),
            ordering_bucket: self.ordering_bucket@,
            state_text: self.state_text@,
            state_icon_name: self.state_icon_name@,
            state_color: self.state_color@,
            show_support_reason: self.show_support_reason,
        }
    }
}

impl DeepView for OverviewStructureRow {
    type V = OverviewStructureRowView;

    open spec fn deep_view(&self) -> OverviewStructureRowView {
        self@
    }
}

/// The overview structure: every fan's row, in display order.
#[derive(Debug)]
pub struct OverviewStructureSnapshot {
    pub rows: Vec<OverviewStructureRow>,
}

// ---------------------------------------------------------------------------
// Per-status presentation
// ---------------------------------------------------------------------------

/// The ordering bucket of a status; a managed fan with a high-temperature
/// alert is `managed_hot`.
pub open spec fn bucket_name(status: FanRuntimeStatusView, hot: bool) -> Seq<char> {
    match status {
        FanRuntimeStatusView::Fallback => "fallback"@,
        FanRuntimeStatusView::Degraded { .. } => "degraded"@,
        FanRuntimeStatusView::Managed { .. } => if hot { "managed_hot"@ } else { "managed"@ },
        FanRuntimeStatusView::Unmanaged => "unmanaged"@,
    }
}

/// Rank of a bucket name: fallback first, unknown names last.
pub open spec fn bucket_rank(bucket: Seq<char>) -> u8 {
    if bucket == "fallback"@ {
        0
    } else if bucket == "degraded"@ {
        1
    } else if bucket == "managed_hot"@ {
        2
    } else if bucket == "managed"@ {
        3
    } else if bucket == "unmanaged"@ {
        4
    } else {
        5
    }
}

pub open spec fn state_text_spec(status: FanRuntimeStatusView) -> Seq<char> {
    match status {
        FanRuntimeStatusView::Fallback => "Fallback"@,
        FanRuntimeStatusView::Degraded { .. } => "Degraded"@,
        FanRuntimeStatusView::Managed { .. } => "Managed"@,
        FanRuntimeStatusView::Unmanaged => "Unmanaged"@,
    }
}

pub open spec fn state_icon_spec(status: FanRuntimeStatusView) -> Seq<char> {
    match status {
        FanRuntimeStatusView::Fallback => "dialog-error-symbolic"@,
        FanRuntimeStatusView::Degraded { .. } => "data-warning-symbolic"@,
        FanRuntimeStatusView::Managed { .. } => "emblem-ok-symbolic"@,
        FanRuntimeStatusView::Unmanaged => "dialog-information-symbolic"@,
    }
}

pub open spec fn state_color_spec(status: FanRuntimeStatusView, hot: bool) -> Seq<char> {
    match status {
        FanRuntimeStatusView::Fallback => "#e53935"@,
        FanRuntimeStatusView::Degraded { .. } => "#ff9800"@,
        FanRuntimeStatusView::Managed { .. } => if hot { "#e53935"@ } else { "#43a047"@ },
        FanRuntimeStatusView::Unmanaged => "#9e9e9e"@,
    }
}

/// The bucket of a status.
pub fn ordering_bucket(status: &FanRuntimeStatus, high_temp_alert: bool) -> (r: &'static str)
    ensures
        r@ == bucket_name(status@, high_temp_alert),
{
    proof {
        reveal_strlit("fallback");
        reveal_strlit("degraded");
        reveal_strlit("managed_hot");
        reveal_strlit("managed");
        reveal_strlit("unmanaged");
    }
    match status {
        FanRuntimeStatus::Fallback => "fallback",
        FanRuntimeStatus::Degraded { .. } => "degraded",
        FanRuntimeStatus::Managed { .. } => if high_temp_alert {
            "managed_hot"
        } else {
            "managed"
        },
        FanRuntimeStatus::Unmanaged => "unmanaged",
    }
}

/// The rank of a bucket name in display order.
pub fn bucket_sort_key(bucket: &str) -> (r: u8)
    ensures
        r == bucket_rank(bucket@),
{
    if str_eq(bucket, "fallback") {
        0
    } else if str_eq(bucket, "degraded") {
        1
    } else if str_eq(bucket, "managed_hot") {
        2
    } else if str_eq(bucket, "managed") {
        3
    } else if str_eq(bucket, "unmanaged") {
        4
    } else {
        5
    }
}

/// The state text of a status.
pub fn state_text(status: &FanRuntimeStatus) -> (r: String)
    ensures
        r@ == state_text_spec(status@),
{
    match status {
        FanRuntimeStatus::Fallback => "Fallback".to_owned(),
        FanRuntimeStatus::Degraded { .. } => "Degraded".to_owned(),
        FanRuntimeStatus::Managed { .. } => "Managed".to_owned(),
        FanRuntimeStatus::Unmanaged => "Unmanaged".to_owned(),
    }
}

/// The icon name of a status.
pub fn state_icon_name(status: &FanRuntimeStatus) -> (r: &'static str)
    ensures
        r@ == state_icon_spec(status@),
{
    proof {
        reveal_strlit("dialog-error-symbolic");
        reveal_strlit("data-warning-symbolic");
        reveal_strlit("emblem-ok-symbolic");
        reveal_strlit("dialog-information-symbolic");
    }
    match status {
        FanRuntimeStatus::Fallback => "dialog-error-symbolic",
        FanRuntimeStatus::Degraded { .. } => "data-warning-symbolic",
        FanRuntimeStatus::Managed { .. } => "emblem-ok-symbolic",
        FanRuntimeStatus::Unmanaged => "dialog-information-symbolic",
    }
}

/// The colour of a status; a hot managed fan shows the alert colour.
pub fn state_color(status: &FanRuntimeStatus, high_temp_alert: bool) -> (r: &'static str)
    ensures
        r@ == state_color_spec(status@, high_temp_alert),
{
    proof {
        reveal_strlit("#e53935");
        reveal_strlit("#ff9800");
        reveal_strlit("#43a047");
        reveal_strlit("#9e9e9e");
    }
    match status {
        FanRuntimeStatus::Fallback => "#e53935",
        FanRuntimeStatus::Degraded { .. } => "#ff9800",
        FanRuntimeStatus::Managed { .. } => if high_temp_alert {
            "#e53935"
        } else {
            "#43a047"
        },
        FanRuntimeStatus::Unmanaged => "#9e9e9e",
    }
}

/// The name shown for a fan: its friendly name, else its hardware label,
/// else its id (empty names are skipped).
pub open spec fn display_name_spec(f: FanChannelView) -> Seq<char> {
    match f.friendly_name {
        Some(n) if n.len() > 0 => n,
        _ => match f.label {
            Some(l) if l.len() > 0 => l,
            _ => f.id,
        },
    }
}

/// The display name of a fan.
pub fn fan_display_name(fan: &FanChannel) -> (r: String)
    ensures
        r@ == display_name_spec(fan@),
{
    match &fan.friendly_name {
        Some(name) if name.unicode_len() > 0 => {
            return name.clone();
        },
        _ => {},
    }
    match &fan.label {
        Some(label) if label.unicode_len() > 0 => label.clone(),
        _ => fan.id.clone(),
    }
}

/// `{rpm} RPM` for a positive speed, `0 RPM` otherwise.
pub open spec fn rpm_text_spec(rpm: i64) -> Seq<char> {
    if rpm > 0 {
        decimal(rpm as nat) + " RPM"@
    } else {
        "0 RPM"@
    }
}

/// The text of a fan speed.
pub fn format_rpm(rpm: i64) -> (r: String)
    ensures
        r@ == rpm_text_spec(rpm),
{
    if rpm > 0 {
        let mut s = String::new();
        push_decimal(&mut s, rpm as u64);
        s.concat(" RPM")
    } else {
        "0 RPM".to_owned()
    }
}

pub open spec fn support_state_text(s: SupportState) -> Seq<char> {
    match s {
        SupportState::Available => "available"@,
        SupportState::Partial => "partial"@,
        SupportState::Unavailable => "unavailable"@,
    }
}

fn support_state_lower(s: SupportState) -> (r: String)
    ensures
        r@ == support_state_text(s),
{
    match s {
        SupportState::Available => "available".to_owned(),
        SupportState::Partial => "partial".to_owned(),
        SupportState::Unavailable => "unavailable".to_owned(),
    }
}

// ---------------------------------------------------------------------------
// Structure rows
// ---------------------------------------------------------------------------

/// A fan's status in the runtime state; a fan without one is unmanaged.
pub open spec fn status_of(statuses: Seq<(Seq<char>, FanRuntimeStatusView)>, id: Seq<char>) -> FanRuntimeStatusView {
    match lookup(statuses, id) {
        Some(s) => s,
        None => FanRuntimeStatusView::Unmanaged,
    }
}

/// Whether a status is managed with a high-temperature alert.
pub open spec fn is_hot(status: FanRuntimeStatusView) -> bool {
    match status {
        FanRuntimeStatusView::Managed { control, .. } => control.alert_high_temp,
        _ => false,
    }
}

/// The structure row of fan `f` with status `status`.
pub open spec fn row_spec(f: FanChannelView, status: FanRuntimeStatusView) -> OverviewStructureRowView {
    let hot = is_hot(status);
    OverviewStructureRowView {
        fan_id: f.id,
        display_name: display_name_spec(f),
        friendly_name: f.friendly_name,
        hardware_label: f.label,
        support_state: support_state_text(f.support_state),
        control_mode: match status {
            FanRuntimeStatusView::Managed { control_mode, .. } => Some(
                match control_mode {
                    crate::inventory::ControlMode::Pwm => "pwm"@,
                    crate::inventory::ControlMode::Voltage => "voltage"@,
                },
            ),
            _ => None,
        },
        has_tach: f.rpm_feedback,
        support_reason: f.support_reason,
        ordering_bucket: bucket_name(status, hot),
        state_text: state_text_spec(status),
        state_icon_name: state_icon_spec(status),
        state_color: state_color_spec(status, hot),
        show_support_reason: (status is Unmanaged || status is Degraded) && f.support_reason is Some,
    }
}

/// The rows of `fans` appended to `acc`.
pub open spec fn fan_rows(
    acc: Seq<OverviewStructureRowView>,
    fans: Seq<FanChannelView>,
    statuses: Seq<(Seq<char>, FanRuntimeStatusView)>,
) -> Seq<OverviewStructureRowView> {
    acc + fans.map_values(|f: FanChannelView| row_spec(f, status_of(statuses, f.id)))
}

/// The rows of every fan of every device, in inventory order.
pub open spec fn inventory_rows(
    devices: Seq<HwmonDeviceView>,
    statuses: Seq<(Seq<char>, FanRuntimeStatusView)>,
) -> Seq<OverviewStructureRowView>
    decreases devices.len(),
{
    if devices.len() == 0 {
        Seq::empty()
    } else {
        fan_rows(inventory_rows(devices.drop_last(), statuses), devices.last().fans, statuses)
    }
}

/// Whether row `a` goes strictly before row `b`: a lower bucket rank, or
/// the same rank and a smaller display name.
pub open spec fn row_before(a: OverviewStructureRowView, b: OverviewStructureRowView) -> bool {
    let ka = bucket_rank(a.ordering_bucket);
    let kb = bucket_rank(b.ordering_bucket);
    ka < kb || (ka == kb && seq_lt(a.display_name, b.display_name))
}

/// Where row `x` goes in the ordered rows `s`: before the first row that it
/// goes strictly before, so that equal rows keep their order.
pub open spec fn insert_pos(s: Seq<OverviewStructureRowView>, x: OverviewStructureRowView) -> nat
    decreases s.len(),
{
    if s.len() == 0 {
        0
    } else if row_before(x, s[0]) {
        0
    } else {
        1 + insert_pos(s.drop_first(), x)
    }
}

/// The rows in display order: a stable sort by bucket rank, then display name.
pub open spec fn ordered_rows(s: Seq<OverviewStructureRowView>) -> Seq<OverviewStructureRowView>
    decreases s.len(),
{
    if s.len() == 0 {
        Seq::empty()
    } else {
        let prev = ordered_rows(s.drop_last());
        let p = insert_pos(prev, s.last()) as int;
        prev.take(p) + seq![s.last()] + prev.skip(p)
    }
}

proof fn lemma_insert_pos(s: Seq<OverviewStructureRowView>, x: OverviewStructureRowView, p: int)
    requires
        0 <= p <= s.len(),
        forall|j: int| 0 <= j < p ==> !row_before(x, #[trigger] s[j]),
        p == s.len() || row_before(x, s[p]),
    ensures
        insert_pos(s, x) == p,
    decreases p,
{
    if p > 0 {
        assert(!row_before(x, s[0]));
        assert forall|j: int| 0 <= j < p - 1 implies !row_before(x, #[trigger] s.drop_first()[j]) by {
            assert(s.drop_first()[j] == s[j + 1]);
        }
        if p < s.len() {
            assert(s.drop_first()[p - 1] == s[p]);
        }
        lemma_insert_pos(s.drop_first(), x, p - 1);
    }
}

proof fn lemma_row_before_order(a: OverviewStructureRowView, b: OverviewStructureRowView, c: OverviewStructureRowView)
    ensures
        !row_before(a, a),
        row_before(a, b) && row_before(b, c) ==> row_before(a, c),
{
    lemma_seq_lt_irreflexive(a.display_name);
    if row_before(a, b) && row_before(b, c) && bucket_rank(a.ordering_bucket) == bucket_rank(c.ordering_bucket) {
        lemma_seq_lt_transitive(a.display_name, b.display_name, c.display_name);
    }
}

proof fn lemma_insert_pos_facts(s: Seq<OverviewStructureRowView>, x: OverviewStructureRowView)
    ensures
        insert_pos(s, x) <= s.len(),
        forall|j: int| 0 <= j < insert_pos(s, x) ==> !row_before(x, #[trigger] s[j]),
        insert_pos(s, x) < s.len() ==> row_before(x, s[insert_pos(s, x) as int]),
    decreases s.len(),
{
    if s.len() > 0 && !row_before(x, s[0]) {
        lemma_insert_pos_facts(s.drop_first(), x);
        assert forall|j: int| 0 <= j < insert_pos(s, x) implies !row_before(x, #[trigger] s[j]) by {
            if j > 0 {
                assert(s[j] == s.drop_first()[j - 1]);
            }
        }
        if insert_pos(s, x) < s.len() {
            assert(s[insert_pos(s, x) as int] == s.drop_first()[insert_pos(s, x) - 1]);
        }
    }
}

/// Whether no row goes strictly before a row that precedes it.
pub open spec fn rows_in_order(s: Seq<OverviewStructureRowView>) -> bool {
    forall|i: int, j: int| 0 <= i < j < s.len() ==> !row_before(#[trigger] s[j], #[trigger] s[i])
}

/// Overview ordering law: the structure rows hold exactly the inventory
/// rows, each once, and no row goes strictly before (by bucket, then
/// display name) a row shown above it.
pub proof fn law_overview_rows_ordered(s: Seq<OverviewStructureRowView>)
    ensures
        ordered_rows(s).to_multiset() == s.to_multiset(),
        rows_in_order(ordered_rows(s)),
    decreases s.len(),
{
    broadcast use vstd::seq_lib::group_to_multiset_ensures;

    if s.len() == 0 {
        assert(ordered_rows(s) =~= s);
    } else {
        let prev = ordered_rows(s.drop_last());
        law_overview_rows_ordered(s.drop_last());
        let x = s.last();
        let p = insert_pos(prev, x) as int;
        lemma_insert_pos_facts(prev, x);
        let o = ordered_rows(s);
        assert(o == prev.take(p) + seq![x] + prev.skip(p));
        vstd::seq_lib::lemma_multiset_commutative(prev.take(p) + seq![x], prev.skip(p));
        vstd::seq_lib::lemma_multiset_commutative(prev.take(p), seq![x]);
        vstd::seq_lib::lemma_multiset_commutative(prev.take(p), prev.skip(p));
        assert(prev.take(p) + prev.skip(p) =~= prev);
        assert(s.drop_last().push(x) =~= s);
        assert(seq![x].to_multiset() =~= Seq::<OverviewStructureRowView>::empty().push(x).to_multiset()) by {
            assert(seq![x] =~= Seq::<OverviewStructureRowView>::empty().push(x));
        }
        assert forall|i: int, j: int| 0 <= i < j < o.len() implies !row_before(#[trigger] o[j], #[trigger] o[i]) by {
            let pi = if i < p { i } else { i - 1 };
            let pj = if j < p { j } else { j - 1 };
            if i != p && j != p {
                assert(o[i] == prev[pi] && o[j] == prev[pj]);
            } else if j == p {
                assert(o[i] == prev[i] && o[j] == x);
            } else {
                assert(o[i] == x && o[j] == prev[pj]);
                assert(p < prev.len());
                lemma_row_before_order(prev[pj], x, prev[p]);
                lemma_row_before_order(prev[p], prev[p], prev[p]);
                if pj > p {
                    assert(!row_before(prev[pj], prev[p]));
                }
            }
        }
    }
}

fn row_goes_before(a: &OverviewStructureRow, b: &OverviewStructureRow) -> (r: bool)
    ensures
        r == row_before(a@, b@),
{
    let ka = bucket_sort_key(a.ordering_bucket.as_str());
    let kb = bucket_sort_key(b.ordering_bucket.as_str());
    ka < kb || (ka == kb && str_lt(a.display_name.as_str(), b.display_name.as_str()))
}

fn structure_row(fan: &FanChannel, status: &FanRuntimeStatus) -> (r: OverviewStructureRow)
    ensures
        r@ == row_spec(fan@, status@),
{
    let high_temp = match status {
        FanRuntimeStatus::Managed { control, .. } => control.alert_high_temp,
        _ => false,
    };
    let control_mode = match status {
        FanRuntimeStatus::Managed { control_mode, .. } => Some(
            match control_mode {
                crate::inventory::ControlMode::Pwm => "pwm".to_owned(),
                crate::inventory::ControlMode::Voltage => "voltage".to_owned(),
            },
        ),
        _ => None,
    };
    let show_support_reason = match status {
        FanRuntimeStatus::Unmanaged | FanRuntimeStatus::Degraded { .. } => fan.support_reason.is_some(),
        _ => false,
    };
    OverviewStructureRow {
        fan_id: fan.id.clone(),
        display_name: fan_display_name(fan),
        friendly_name: crate::text::copy_opt_string(&fan.friendly_name),
        hardware_label: crate::text::copy_opt_string(&fan.label),
        support_state: support_state_lower(fan.support_state),
        control_mode,
        has_tach: fan.rpm_feedback,
        support_reason: crate::text::copy_opt_string(&fan.support_reason),
        ordering_bucket: ordering_bucket(status, high_temp).to_owned(),
        state_text: state_text(status),
        state_icon_name: state_icon_name(status).to_owned(),
        state_color: state_color(status, high_temp).to_owned(),
        show_support_reason,
    }
}

/// Inserts `row` into the ordered rows after every row that it does not go
/// strictly before.
fn insert_ordered(rows: &mut Vec<OverviewStructureRow>, row: OverviewStructureRow)
    ensures
        final(rows).deep_view() == ({
            let p = insert_pos(old(rows).deep_view(), row@) as int;
            old(rows).deep_view().take(p) + seq![row@] + old(rows).deep_view().skip(p)
        }),
{
    let ghost s = rows.deep_view();
    let mut p: usize = 0;
    while p < rows.len() && !row_goes_before(&row, &rows[p])
        invariant
            s == rows.deep_view(),
            p <= rows@.len(),
            forall|j: int| 0 <= j < p ==> !row_before(row@, #[trigger] s[j]),
        decreases rows.len() - p,
    {
        p = p + 1;
    }
    proof {
        lemma_insert_pos(s, row@, p as int);
    }
    let ghost rv = row@;
    rows.insert(p, row);
    assert(rows.deep_view() =~= s.take(p as int) + seq![rv] + s.skip(p as int));
}

impl OverviewStructureSnapshot {
    /// One row per inventory fan with its runtime status (unmanaged when it
    /// has none), ordered by bucket, then display name, ties in inventory
    /// order. The configuration is not consulted.
    pub fn build(snapshot: &InventorySnapshot, runtime: &RuntimeState, _config: &AppConfig) -> (r: Self)
        ensures
            r.rows.deep_view() == ordered_rows(inventory_rows(snapshot@, runtime@.fan_statuses)),
    {
        let ghost statuses = runtime@.fan_statuses;
        let ghost devices = snapshot@;
        let unmanaged = FanRuntimeStatus::Unmanaged;
        let mut rows: Vec<OverviewStructureRow> = Vec::new();
        let ghost mut all: Seq<OverviewStructureRowView> = Seq::empty();
        let mut d: usize = 0;
        while d < snapshot.devices.len()
            invariant
                devices == snapshot@,
                statuses == runtime@.fan_statuses,
                d <= devices.len(),
                all == inventory_rows(devices.take(d as int), statuses),
                rows.deep_view() == ordered_rows(all),
                unmanaged@ == FanRuntimeStatusView::Unmanaged,
            decreases snapshot.devices.len() - d,
        {
            let device = &snapshot.devices[d];
            assert(devices.take(d + 1).drop_last() =~= devices.take(d as int));
            let ghost base = all;
            let mut f: usize = 0;
            while f < device.fans.len()
                invariant
                    devices == snapshot@,
                    statuses == runtime@.fan_statuses,
                    d < devices.len(),
                    device@ == devices[d as int],
                    f <= device.fans@.len(),
                    base == inventory_rows(devices.take(d as int), statuses),
                    all == fan_rows(base, device@.fans.take(f as int), statuses),
                    rows.deep_view() == ordered_rows(all),
                    unmanaged@ == FanRuntimeStatusView::Unmanaged,
                decreases device.fans.len() - f,
            {
                let fan = &device.fans[f];
                let status = match runtime.fan_statuses.get(fan.id.as_str()) {
                    Some(s) => s,
                    None => &unmanaged,
                };
                assert(status@ == status_of(statuses, fan@.id));
                let row = structure_row(fan, status);
                let ghost rv = row@;
                insert_ordered(&mut rows, row);
                proof {
                    let next = fan_rows(base, device@.fans.take(f + 1), statuses);
                    assert(device@.fans.take(f + 1) =~= device@.fans.take(f as int).push(device@.fans[f as int]));
                    assert(next =~= all.push(rv));
                    assert(next.drop_last() =~= all);
                    all = next;
                }
                f = f + 1;
            }
            assert(device@.fans.take(f as int) =~= device@.fans);
            assert(devices.take(d + 1).last() == devices[d as int]);
            assert(all == inventory_rows(devices.take(d + 1), statuses));
            d = d + 1;
        }
        assert(devices.take(d as int) =~= devices);
        OverviewStructureSnapshot { rows }
    }
}

// ---------------------------------------------------------------------------
// Live readings
// ---------------------------------------------------------------------------

/// Bit pattern of the `f64` 100.0.
pub const FULL_OUTPUT_PERCENT_BITS: u64 = 0x4059_0000_0000_0000;

/// What the overview shows of a fan's live readings, but for the texts of
/// the temperature and output percentage and the fill ratio, which are
/// formatted from floating-point values. `output_percent` is the bit
/// pattern of an `f64`.
#[derive(Debug)]
pub struct OverviewTelemetryFacts {
    pub fan_id: String,
    pub temperature_millidegrees: i64,
    pub rpm: i64,
    pub rpm_text: String,
    pub output_percent: u64,
    pub high_temp_alert: bool,
    pub show_rpm: bool,
    pub show_output: bool,
    pub visual_state: String,
}

pub struct OverviewTelemetryFactsView {
    pub fan_id: Seq<char>,
    pub temperature_millidegrees: i64,
    pub rpm: i64,
    pub rpm_text: Seq<char>,
    pub output_percent: u64,
    pub high_temp_alert: bool,
    pub show_rpm: bool,
    pub show_output: bool,
    pub visual_state: Seq<char>,
}

impl View for OverviewTelemetryFacts {
    type V = OverviewTelemetryFactsView;

    open spec fn view(&self) -> OverviewTelemetryFactsView {
        OverviewTelemetryFactsView {
            fan_id: self.fan_id@,
            temperature_millidegrees: self.temperature_millidegrees,
            rpm: self.rpm,
            rpm_text: self.rpm_text@,
            output_percent: self.output_percent,
            high_temp_alert: self.high_temp_alert,
            show_rpm: self.show_rpm,
            show_output: self.show_output,
            visual_state: self.visual_state@,
        }
    }
}

/// The live readings of fan `f` with status `status`: a managed fan shows
/// its aggregated temperature and output (0 when unknown) and runs hot on
/// its alert; degraded and fallback fans show full output; an unmanaged fan
/// shows nothing. The speed shows for a fan with tach feedback that is not
/// unmanaged.
pub open spec fn telemetry_spec(f: FanChannelView, status: FanRuntimeStatusView) -> OverviewTelemetryFactsView {
    let rpm = match f.current_rpm {
        Some(v) => v as i64,
        None => 0i64,
    };
    let show_output = !(status is Unmanaged);
    let show_rpm = f.rpm_feedback && show_output;
    let (temp, output, hot, visual) = match status {
        FanRuntimeStatusView::Managed { control, .. } => (
            match control.aggregated_temp_millidegrees {
                Some(t) => t,
                None => 0i64,
            },
            match control.logical_output_percent {
                Some(p) => p,
                None => 0u64,
            },
            control.alert_high_temp,
            if control.alert_high_temp { "managed_hot"@ } else { "managed"@ },
        ),
        FanRuntimeStatusView::Degraded { .. } => (0i64, FULL_OUTPUT_PERCENT_BITS, false, "degraded"@),
        FanRuntimeStatusView::Fallback => (0i64, FULL_OUTPUT_PERCENT_BITS, false, "fallback"@),
        FanRuntimeStatusView::Unmanaged => (0i64, 0u64, false, "unmanaged"@),
    };
    OverviewTelemetryFactsView {
        fan_id: f.id,
        temperature_millidegrees: temp,
        rpm,
        rpm_text: if show_rpm { rpm_text_spec(rpm) } else { "No RPM feedback"@ },
        output_percent: output,
        high_temp_alert: hot,
        show_rpm,
        show_output,
        visual_state: visual,
    }
}

/// The live readings of one inventory fan under the runtime state (a fan
/// without a status is unmanaged).
pub fn telemetry_facts(fan: &FanChannel, runtime: &RuntimeState) -> (r: OverviewTelemetryFacts)
    ensures
        r@ == telemetry_spec(fan@, status_of(runtime@.fan_statuses, fan@.id)),
{
    let unmanaged = FanRuntimeStatus::Unmanaged;
    let status = match runtime.fan_statuses.get(fan.id.as_str()) {
        Some(s) => s,
        None => &unmanaged,
    };
    let rpm: i64 = match fan.current_rpm {
        Some(v) => v as i64,
        None => 0,
    };
    let show_output = match status {
        FanRuntimeStatus::Unmanaged => false,
        _ => true,
    };
    let show_rpm = fan.rpm_feedback && show_output;
    let (temp, output, hot, visual): (i64, u64, bool, String) = match status {
        FanRuntimeStatus::Managed { control, .. } => (
            match control.aggregated_temp_millidegrees {
                Some(t) => t,
                None => 0,
            },
            match control.logical_output_percent {
                Some(p) => p,
                None => 0,
            },
            control.alert_high_temp,
            if control.alert_high_temp {
                "managed_hot".to_owned()
            } else {
                "managed".to_owned()
            },
        ),
        FanRuntimeStatus::Degraded { .. } => (0, FULL_OUTPUT_PERCENT_BITS, false, "degraded".to_owned()),
        FanRuntimeStatus::Fallback => (0, FULL_OUTPUT_PERCENT_BITS, false, "fallback".to_owned()),
        FanRuntimeStatus::Unmanaged => (0, 0, false, "unmanaged".to_owned()),
    };
    let rpm_text = if show_rpm {
        format_rpm(rpm)
    } else {
        "No RPM feedback".to_owned()
    };
    OverviewTelemetryFacts {
        fan_id: fan.id.clone(),
        temperature_millidegrees: temp,
        rpm,
        rpm_text,
        output_percent: output,
        high_temp_alert: hot,
        show_rpm,
        show_output,
        visual_state: visual,
    }
}

} // verus!
