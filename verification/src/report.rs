//! The reports the command-line client prints, each as a list of lines:
//! the result of validating or applying the draft, the draft and applied
//! configurations, the degraded fans, the lifecycle events and the details
//! under a fan of the runtime state. Fans of a configuration or of the
//! degraded state are listed in lexicographic order of their ids.

use vstd::prelude::*;

use crate::config::{
    AppliedConfig, AppliedConfigView, AppliedFanEntry, AppliedFanEntryView, DraftConfig, DraftFanEntry, DraftFanEntryView,
};
use crate::control::AggregationFn;
use crate::lifecycle::runtime::{FanRuntimeStatus, FanRuntimeStatusView};
use crate::lifecycle::state::{
    DegradedReason, DegradedReasonView, DegradedState, LifecycleEvent, LifecycleEventLog, LifecycleEventView,
};
use crate::presentation::{
    control_mode_snake, control_mode_word, degraded_reason_summary, reason_summary_spec, support_state_snake,
    support_state_word,
};
use crate::strmap::{has_key, keys_of, value_at_key};
use crate::text::{decimal, join, join_strings, push_decimal, push_signed_decimal, signed_decimal, sorted_strings, str_eq};
use crate::validation::{validation_error_text, ValidationError, ValidationErrorView, ValidationResult};

verus! {

/// The client's wording of why a fan was rejected; for the kinds it has no
/// short wording for, the validation error's own message.
pub open spec fn rejection_detail(e: ValidationErrorView) -> Seq<char> {
    match e {
        ValidationErrorView::FanNotFound { .. } => "fan not found in current hardware inventory"@,
        ValidationErrorView::FanNotEnrollable { support_state, .. } =>
            "fan is not enrollable (support state: "@ + support_state_snake(support_state) + ")"@,
        ValidationErrorView::UnsupportedControlMode { .. } => "requested control mode not supported by this fan"@,
        ValidationErrorView::MissingControlMode { .. } => "no control mode selected for managed fan"@,
        ValidationErrorView::TempSourceNotFound { .. } => "referenced temperature source not found"@,
        _ => validation_error_text(e),
    }
}

/// The line for one rejected fan.
pub open spec fn rejection_line(fan_id: Seq<char>, e: ValidationErrorView) -> Seq<char> {
    "  ✗ "@ + fan_id + ": "@ + rejection_detail(e)
}

/// The line for one enrollable fan.
pub open spec fn enrollable_line(fan_id: Seq<char>) -> Seq<char> {
    "  ✓ "@ + fan_id
}

/// The report's title line for `context` (`validate` or `apply`), if any.
pub open spec fn report_header(context: Seq<char>) -> Seq<Seq<char>> {
    if context == "validate"@ {
        seq!["=== DRAFT VALIDATION RESULTS ==="@]
    } else if context == "apply"@ {
        seq!["=== APPLY RESULTS ==="@]
    } else {
        seq![]
    }
}

/// The enrollable section: a heading and one line per fan, or nothing.
pub open spec fn enrollable_section(ids: Seq<Seq<char>>, context: Seq<char>) -> Seq<Seq<char>> {
    if ids.len() == 0 {
        seq![]
    } else {
        seq![
            if context == "apply"@ {
                "Promoted to APPLIED configuration (now live):"@
            } else {
                "Enrollable (would be promoted on apply):"@
            },
        ] + ids.map_values(|id: Seq<char>| enrollable_line(id))
    }
}

/// The rejected section: a heading and one line per fan, or nothing.
pub open spec fn rejected_section(
    rejected: Seq<(Seq<char>, ValidationErrorView)>,
    context: Seq<char>,
) -> Seq<Seq<char>> {
    if rejected.len() == 0 {
        seq![]
    } else {
        seq![
            if context == "apply"@ {
                "Rejected (NOT promoted, still in draft):"@
            } else {
                "Rejected (would block promotion on apply):"@
            },
        ] + rejected.map_values(|r: (Seq<char>, ValidationErrorView)| rejection_line(r.0, r.1))
    }
}

/// The closing hint: after an apply, whether changes went live or nothing
/// was promoted; after a validation with rejections, how to go on.
pub open spec fn report_footer(enrollable: nat, rejected: nat, context: Seq<char>) -> Seq<Seq<char>> {
    if context == "apply"@ && enrollable > 0 {
        seq![""@, "Changes are now LIVE. Use 'state' to see current fan statuses."@]
    } else if context == "apply"@ && enrollable == 0 && rejected > 0 {
        seq![""@, "No fans were promoted. Fix the issues above and re-try, or use 'degraded' to inspect."@]
    } else if context != "apply"@ && rejected > 0 {
        seq![""@, "Use 'apply' to promote the enrollable fans. Rejected fans will remain in draft."@]
    } else {
        seq![]
    }
}

/// The whole report on `result` for `context`.
pub open spec fn validation_report(
    result: (Seq<Seq<char>>, Seq<(Seq<char>, ValidationErrorView)>),
    context: Seq<char>,
) -> Seq<Seq<char>> {
    if result.0.len() == 0 && result.1.len() == 0 {
        seq!["Draft is empty — nothing to "@ + context + "."@]
    } else {
        report_header(context) + enrollable_section(result.0, context) + rejected_section(result.1, context)
            + report_footer(result.0.len(), result.1.len(), context)
    }
}

fn rejection_detail_text(e: &ValidationError) -> (r: String)
    ensures
        r@ == rejection_detail(e@),
{
    match e {
        ValidationError::FanNotFound { .. } => "fan not found in current hardware inventory".to_owned(),
        ValidationError::FanNotEnrollable { support_state, .. } =>
            "fan is not enrollable (support state: ".to_owned().concat(support_state_word(*support_state)).concat(")"),
        ValidationError::UnsupportedControlMode { .. } => "requested control mode not supported by this fan".to_owned(),
        ValidationError::MissingControlMode { .. } => "no control mode selected for managed fan".to_owned(),
        ValidationError::TempSourceNotFound { .. } => "referenced temperature source not found".to_owned(),
        _ => e.message(),
    }
}

/// Appends one line.
fn push_line(lines: &mut Vec<String>, line: String)
    ensures
        final(lines).deep_view() == old(lines).deep_view().push(line@),
{
    let ghost before = lines.deep_view();
    let ghost lv = line@;
    lines.push(line);
    assert(lines.deep_view() =~= before.push(lv));
}

/// The lines the client prints for a validation (`context` is `validate`)
/// or an apply (`context` is `apply`) result: a note when the draft was
/// empty; otherwise a title, the enrollable fans, the rejected fans with the
/// reason, and a closing hint.
pub fn validation_report_lines(result: &ValidationResult, context: &str) -> (r: Vec<String>)
    ensures
        r.deep_view() == validation_report(result@, context@),
{
    let mut lines: Vec<String> = Vec::new();
    if result.enrollable.len() == 0 && result.rejected.len() == 0 {
        push_line(&mut lines, "Draft is empty — nothing to ".to_owned().concat(context).concat("."));
        assert(lines.deep_view() =~= validation_report(result@, context@));
        return lines;
    }
    let is_apply = str_eq(context, "apply");
    if str_eq(context, "validate") {
        push_line(&mut lines, "=== DRAFT VALIDATION RESULTS ===".to_owned());
    } else if is_apply {
        push_line(&mut lines, "=== APPLY RESULTS ===".to_owned());
    }
    assert(lines.deep_view() =~= report_header(context@));
    let ghost head = lines.deep_view();

    let ghost ids = result.enrollable.deep_view();
    if result.enrollable.len() > 0 {
        if is_apply {
            push_line(&mut lines, "Promoted to APPLIED configuration (now live):".to_owned());
        } else {
            push_line(&mut lines, "Enrollable (would be promoted on apply):".to_owned());
        }
        let ghost titled = lines.deep_view();
        let mut i: usize = 0;
        while i < result.enrollable.len()
            invariant
                ids == result.enrollable.deep_view(),
                i <= ids.len(),
                lines.deep_view() == titled + ids.take(i as int).map_values(|id: Seq<char>| enrollable_line(id)),
            decreases result.enrollable.len() - i,
        {
            push_line(&mut lines, "  ✓ ".to_owned().concat(result.enrollable[i].as_str()));
            assert(ids.take(i + 1).map_values(|id: Seq<char>| enrollable_line(id)) =~= ids.take(
                i as int,
            ).map_values(|id: Seq<char>| enrollable_line(id)).push(enrollable_line(ids[i as int])));
            i = i + 1;
        }
        assert(ids.take(i as int) =~= ids);
    }
    assert(lines.deep_view() =~= head + enrollable_section(ids, context@));
    let ghost mid = lines.deep_view();

    let ghost rej = result.rejected.deep_view();
    if result.rejected.len() > 0 {
        if is_apply {
            push_line(&mut lines, "Rejected (NOT promoted, still in draft):".to_owned());
        } else {
            push_line(&mut lines, "Rejected (would block promotion on apply):".to_owned());
        }
        let ghost titled = lines.deep_view();
        let mut j: usize = 0;
        while j < result.rejected.len()
            invariant
                rej == result.rejected.deep_view(),
                j <= rej.len(),
                lines.deep_view() == titled + rej.take(j as int).map_values(
                    |r: (Seq<char>, ValidationErrorView)| rejection_line(r.0, r.1),
                ),
            decreases result.rejected.len() - j,
        {
            let (fan_id, error) = &result.rejected[j];
            push_line(
                &mut lines,
                "  ✗ ".to_owned().concat(fan_id.as_str()).concat(": ").concat(rejection_detail_text(error).as_str()),
            );
            assert(rej.take(j + 1).map_values(|r: (Seq<char>, ValidationErrorView)| rejection_line(r.0, r.1))
                =~= rej.take(j as int).map_values(|r: (Seq<char>, ValidationErrorView)| rejection_line(r.0, r.1)).push(
                rejection_line(rej[j as int].0, rej[j as int].1),
            ));
            j = j + 1;
        }
        assert(rej.take(j as int) =~= rej);
    }
    assert(lines.deep_view() =~= mid + rejected_section(rej, context@));
    let ghost body = lines.deep_view();
    proof {
        reveal_strlit("");
    }
    assert(""@ =~= Seq::<char>::empty());

    if is_apply && result.enrollable.len() > 0 {
        push_line(&mut lines, String::new());
        push_line(&mut lines, "Changes are now LIVE. Use 'state' to see current fan statuses.".to_owned());
    } else if is_apply && result.enrollable.len() == 0 && result.rejected.len() > 0 {
        push_line(&mut lines, String::new());
        push_line(&mut lines, "No fans were promoted. Fix the issues above and re-try, or use 'degraded' to inspect.".to_owned());
    } else if !is_apply && result.rejected.len() > 0 {
        push_line(&mut lines, String::new());
        push_line(&mut lines, "Use 'apply' to promote the enrollable fans. Rejected fans will remain in draft.".to_owned());
    }
    assert(lines.deep_view() =~= body + report_footer(ids.len(), rej.len(), context@));
    lines
}

/// ` | temp_sources=[a, b]`, or nothing when the joined list is empty.
pub open spec fn temp_sources_suffix(sources: Seq<Seq<char>>) -> Seq<char> {
    if join(sources, ", "@).len() == 0 {
        Seq::empty()
    } else {
        " | temp_sources=["@ + join(sources, ", "@) + "]"@
    }
}

/// One fan of the draft: whether it is to be managed, its mode and sensors.
pub open spec fn draft_fan_line(fan_id: Seq<char>, e: DraftFanEntryView) -> Seq<char> {
    "  "@ + fan_id + " ["@ + (if e.managed {
        "MANAGED"@
    } else {
        "UNMANAGED"@
    }) + "] "@ + match e.control_mode {
        Some(m) => "mode="@ + control_mode_snake(m),
        None => "no mode set"@,
    } + temp_sources_suffix(e.temp_sources)
}

/// The draft report: a note when the draft is empty, else a title, one line
/// per fan and a reminder that nothing is live yet.
pub open spec fn draft_report(draft: Seq<(Seq<char>, DraftFanEntryView)>) -> Seq<Seq<char>> {
    if draft.len() == 0 {
        seq!["Draft configuration is empty."@, "Use 'enroll' to stage fan enrollment changes, then 'apply' to make them live."@]
    } else {
        seq!["=== DRAFT CONFIGURATION (staged, NOT yet applied) ==="@]
            + sorted_strings(keys_of(draft)).map_values(|k: Seq<char>| draft_fan_line(k, value_at_key(draft, k)))
            + seq![""@, "Changes above are STAGED. Run 'apply' to promote to the live configuration."@]
    }
}

/// One managed fan of the applied configuration.
pub open spec fn applied_fan_line(fan_id: Seq<char>, e: AppliedFanEntryView) -> Seq<char> {
    "  "@ + fan_id + " [MANAGED, mode="@ + control_mode_snake(e.control_mode) + "]"@ + temp_sources_suffix(
        e.temp_sources,
    )
}

/// The applied report: a note when nothing was ever applied or no fan is
/// managed, else a title with the apply time and one line per fan.
pub open spec fn applied_report(applied: Option<AppliedConfigView>) -> Seq<Seq<char>> {
    match applied {
        None => seq![
            "No applied configuration — no fans are currently managed."@,
            "Use 'enroll' to stage changes, then 'apply' to make them live."@,
        ],
        Some(c) => if c.fans.len() == 0 {
            seq!["=== APPLIED CONFIGURATION (live) ==="@, "  No fans are currently managed."@]
        } else {
            seq![
                "=== APPLIED CONFIGURATION (live, applied at "@ + match c.applied_at {
                    Some(t) => t,
                    None => "unknown"@,
                } + ") ==="@,
            ] + sorted_strings(keys_of(c.fans)).map_values(
                |k: Seq<char>| applied_fan_line(k, value_at_key(c.fans, k)),
            )
        },
    }
}

/// One degraded fan with its reasons joined by `; `.
pub open spec fn degraded_fan_line(fan_id: Seq<char>, reasons: Seq<DegradedReasonView>) -> Seq<char> {
    "  ⚠ "@ + fan_id + ": "@ + join(reasons.map_values(|r: DegradedReasonView| reason_summary_spec(r)), "; "@)
}

/// The degraded report: a note when every fan is healthy, else a title and
/// one line per degraded fan.
pub open spec fn degraded_report(degraded: Seq<(Seq<char>, Seq<DegradedReasonView>)>) -> Seq<Seq<char>> {
    if degraded.len() == 0 {
        seq!["No degraded fans — all enrolled fans are healthy."@]
    } else {
        seq!["=== DEGRADED FANS ==="@] + sorted_strings(keys_of(degraded)).map_values(
            |k: Seq<char>| degraded_fan_line(k, value_at_key(degraded, k)),
        )
    }
}

/// One lifecycle event: time, reason and, when there is one, the detail.
pub open spec fn event_line(e: LifecycleEventView) -> Seq<char> {
    "  ["@ + e.timestamp + "] "@ + reason_summary_spec(e.reason) + match e.detail {
        Some(d) => if d.len() == 0 {
            Seq::empty()
        } else {
            " — "@ + d
        },
        None => Seq::empty(),
    }
}

/// The event report: a note when the log is empty, else a title and one line
/// per event, oldest first.
pub open spec fn events_report(events: Seq<LifecycleEventView>) -> Seq<Seq<char>> {
    if events.len() == 0 {
        seq!["No lifecycle events recorded."@]
    } else {
        seq!["=== LIFECYCLE EVENTS (most recent last) ==="@] + events.map_values(|e: LifecycleEventView| event_line(e))
    }
}

fn temp_sources_suffix_text(sources: &Vec<String>) -> (r: String)
    ensures
        r@ == temp_sources_suffix(sources.deep_view()),
{
    let temps = join_strings(sources, ", ");
    if temps.as_str().unicode_len() == 0 {
        let r = String::new();
        assert(r@ =~= Seq::<char>::empty());
        r
    } else {
        " | temp_sources=[".to_owned().concat(temps.as_str()).concat("]")
    }
}

fn draft_fan_line_text(fan_id: &str, e: &DraftFanEntry) -> (r: String)
    ensures
        r@ == draft_fan_line(fan_id@, e@),
{
    let status = if e.managed {
        "MANAGED"
    } else {
        "UNMANAGED"
    };
    let line = "  ".to_owned().concat(fan_id).concat(" [").concat(status).concat("] ");
    let line = match e.control_mode {
        Some(m) => line.concat("mode=").concat(control_mode_word(m)),
        None => line.concat("no mode set"),
    };
    line.concat(temp_sources_suffix_text(&e.temp_sources).as_str())
}

/// The lines the client prints for the draft configuration.
pub fn draft_config_lines(draft: &DraftConfig) -> (r: Vec<String>)
    ensures
        r.deep_view() == draft_report(draft@),
{
    let mut lines: Vec<String> = Vec::new();
    if draft.fans.len() == 0 {
        push_line(&mut lines, "Draft configuration is empty.".to_owned());
        push_line(&mut lines, "Use 'enroll' to stage fan enrollment changes, then 'apply' to make them live.".to_owned());
        assert(lines.deep_view() =~= draft_report(draft@));
        return lines;
    }
    push_line(&mut lines, "=== DRAFT CONFIGURATION (staged, NOT yet applied) ===".to_owned());
    let ghost d = draft@;
    let ghost head = lines.deep_view();
    let keys = draft.fans.sorted_keys();
    let ghost kv = keys.deep_view();
    let mut i: usize = 0;
    while i < keys.len()
        invariant
            d == draft@,
            kv == keys.deep_view(),
            kv == sorted_strings(keys_of(d)),
            forall|j: int| 0 <= j < kv.len() ==> has_key(d, #[trigger] kv[j]),
            i <= kv.len(),
            lines.deep_view() == head + kv.take(i as int).map_values(
                |k: Seq<char>| draft_fan_line(k, value_at_key(d, k)),
            ),
        decreases keys.len() - i,
    {
        assert(has_key(d, kv[i as int]));
        match draft.fans.get(keys[i].as_str()) {
            Some(e) => {
                push_line(&mut lines, draft_fan_line_text(keys[i].as_str(), e));
            },
            None => {},
        }
        assert(kv.take(i + 1).map_values(|k: Seq<char>| draft_fan_line(k, value_at_key(d, k))) =~= kv.take(
            i as int,
        ).map_values(|k: Seq<char>| draft_fan_line(k, value_at_key(d, k))).push(
            draft_fan_line(kv[i as int], value_at_key(d, kv[i as int])),
        ));
        i = i + 1;
    }
    assert(kv.take(i as int) =~= kv);
    proof {
        reveal_strlit("");
    }
    assert(""@ =~= Seq::<char>::empty());
    push_line(&mut lines, String::new());
    push_line(&mut lines, "Changes above are STAGED. Run 'apply' to promote to the live configuration.".to_owned());
    assert(lines.deep_view() =~= draft_report(draft@));
    lines
}

fn applied_fan_line_text(fan_id: &str, e: &AppliedFanEntry) -> (r: String)
    ensures
        r@ == applied_fan_line(fan_id@, e@),
{
    "  ".to_owned().concat(fan_id).concat(" [MANAGED, mode=").concat(control_mode_word(e.control_mode)).concat(
        "]",
    ).concat(temp_sources_suffix_text(&e.temp_sources).as_str())
}

/// The lines the client prints for the applied configuration (`None` when
/// nothing was ever applied).
pub fn applied_config_lines(applied: Option<&AppliedConfig>) -> (r: Vec<String>)
    ensures
        r.deep_view() == applied_report(
            match applied {
                Some(c) => Some(c@),
                None => None,
            },
        ),
{
    let mut lines: Vec<String> = Vec::new();
    let c = match applied {
        None => {
            push_line(&mut lines, "No applied configuration — no fans are currently managed.".to_owned());
            push_line(&mut lines, "Use 'enroll' to stage changes, then 'apply' to make them live.".to_owned());
            assert(lines.deep_view() =~= applied_report(None));
            return lines;
        },
        Some(c) => c,
    };
    if c.fans.len() == 0 {
        push_line(&mut lines, "=== APPLIED CONFIGURATION (live) ===".to_owned());
        push_line(&mut lines, "  No fans are currently managed.".to_owned());
        assert(lines.deep_view() =~= applied_report(Some(c@)));
        return lines;
    }
    let at = match &c.applied_at {
        Some(t) => t.as_str(),
        None => "unknown",
    };
    push_line(&mut lines, "=== APPLIED CONFIGURATION (live, applied at ".to_owned().concat(at).concat(") ==="));
    let ghost d = c@.fans;
    let ghost head = lines.deep_view();
    let keys = c.fans.sorted_keys();
    let ghost kv = keys.deep_view();
    let mut i: usize = 0;
    while i < keys.len()
        invariant
            d == c@.fans,
            kv == keys.deep_view(),
            kv == sorted_strings(keys_of(d)),
            forall|j: int| 0 <= j < kv.len() ==> has_key(d, #[trigger] kv[j]),
            i <= kv.len(),
            lines.deep_view() == head + kv.take(i as int).map_values(
                |k: Seq<char>| applied_fan_line(k, value_at_key(d, k)),
            ),
        decreases keys.len() - i,
    {
        assert(has_key(d, kv[i as int]));
        match c.fans.get(keys[i].as_str()) {
            Some(e) => {
                push_line(&mut lines, applied_fan_line_text(keys[i].as_str(), e));
            },
            None => {},
        }
        assert(kv.take(i + 1).map_values(|k: Seq<char>| applied_fan_line(k, value_at_key(d, k))) =~= kv.take(
            i as int,
        ).map_values(|k: Seq<char>| applied_fan_line(k, value_at_key(d, k))).push(
            applied_fan_line(kv[i as int], value_at_key(d, kv[i as int])),
        ));
        i = i + 1;
    }
    assert(kv.take(i as int) =~= kv);
    assert(lines.deep_view() =~= applied_report(Some(c@)));
    lines
}

fn reason_summaries(reasons: &Vec<DegradedReason>) -> (r: Vec<String>)
    ensures
        r.deep_view() == reasons.deep_view().map_values(|x: DegradedReasonView| reason_summary_spec(x)),
{
    let ghost rv = reasons.deep_view();
    let mut r: Vec<String> = Vec::new();
    let mut i: usize = 0;
    while i < reasons.len()
        invariant
            rv == reasons.deep_view(),
            i <= rv.len(),
            r.deep_view() == rv.take(i as int).map_values(|x: DegradedReasonView| reason_summary_spec(x)),
        decreases reasons.len() - i,
    {
        push_line(&mut r, degraded_reason_summary(&reasons[i]));
        assert(rv.take(i + 1).map_values(|x: DegradedReasonView| reason_summary_spec(x)) =~= rv.take(
            i as int,
        ).map_values(|x: DegradedReasonView| reason_summary_spec(x)).push(reason_summary_spec(rv[i as int])));
        i = i + 1;
    }
    assert(rv.take(i as int) =~= rv);
    r
}

/// The lines the client prints for the degraded fans.
pub fn degraded_summary_lines(degraded: &DegradedState) -> (r: Vec<String>)
    ensures
        r.deep_view() == degraded_report(degraded@),
{
    let mut lines: Vec<String> = Vec::new();
    if degraded.entries.len() == 0 {
        push_line(&mut lines, "No degraded fans — all enrolled fans are healthy.".to_owned());
        assert(lines.deep_view() =~= degraded_report(degraded@));
        return lines;
    }
    push_line(&mut lines, "=== DEGRADED FANS ===".to_owned());
    let ghost d = degraded@;
    let ghost head = lines.deep_view();
    let keys = degraded.entries.sorted_keys();
    let ghost kv = keys.deep_view();
    let mut i: usize = 0;
    while i < keys.len()
        invariant
            d == degraded@,
            kv == keys.deep_view(),
            kv == sorted_strings(keys_of(d)),
            forall|j: int| 0 <= j < kv.len() ==> has_key(d, #[trigger] kv[j]),
            i <= kv.len(),
            lines.deep_view() == head + kv.take(i as int).map_values(
                |k: Seq<char>| degraded_fan_line(k, value_at_key(d, k)),
            ),
        decreases keys.len() - i,
    {
        assert(has_key(d, kv[i as int]));
        match degraded.entries.get(keys[i].as_str()) {
            Some(reasons) => {
                let summaries = reason_summaries(reasons);
                let joined = join_strings(&summaries, "; ");
                push_line(&mut lines, "  ⚠ ".to_owned().concat(keys[i].as_str()).concat(": ").concat(joined.as_str()));
            },
            None => {},
        }
        assert(kv.take(i + 1).map_values(|k: Seq<char>| degraded_fan_line(k, value_at_key(d, k))) =~= kv.take(
            i as int,
        ).map_values(|k: Seq<char>| degraded_fan_line(k, value_at_key(d, k))).push(
            degraded_fan_line(kv[i as int], value_at_key(d, kv[i as int])),
        ));
        i = i + 1;
    }
    assert(kv.take(i as int) =~= kv);
    assert(lines.deep_view() =~= degraded_report(degraded@));
    lines
}

fn event_line_text(e: &LifecycleEvent) -> (r: String)
    ensures
        r@ == event_line(e@),
{
    let line = "  [".to_owned().concat(e.timestamp.as_str()).concat("] ").concat(
        degraded_reason_summary(&e.reason).as_str(),
    );
    match &e.detail {
        Some(d) => if d.as_str().unicode_len() == 0 {
            proof {
                assert(line@ + Seq::<char>::empty() =~= line@);
            }
            line
        } else {
            line.concat(" — ").concat(d.as_str())
        },
        None => {
            proof {
                assert(line@ + Seq::<char>::empty() =~= line@);
            }
            line
        },
    }
}

/// The lines the client prints for the lifecycle event log.
pub fn lifecycle_event_lines(log: &LifecycleEventLog) -> (r: Vec<String>)
    ensures
        r.deep_view() == events_report(log@),
{
    let events = log.events();
    let ghost ev = log@;
    let mut lines: Vec<String> = Vec::new();
    if events.len() == 0 {
        push_line(&mut lines, "No lifecycle events recorded.".to_owned());
        assert(lines.deep_view() =~= events_report(ev));
        return lines;
    }
    push_line(&mut lines, "=== LIFECYCLE EVENTS (most recent last) ===".to_owned());
    let ghost head = lines.deep_view();
    let mut i: usize = 0;
    while i < events.len()
        invariant
            ev == events.deep_view(),
            i <= ev.len(),
            lines.deep_view() == head + ev.take(i as int).map_values(|e: LifecycleEventView| event_line(e)),
        decreases events.len() - i,
    {
        push_line(&mut lines, event_line_text(&events[i]));
        assert(ev.take(i + 1).map_values(|e: LifecycleEventView| event_line(e)) =~= ev.take(i as int).map_values(
            |e: LifecycleEventView| event_line(e),
        ).push(event_line(ev[i as int])));
        i = i + 1;
    }
    assert(ev.take(i as int) =~= ev);
    assert(lines.deep_view() =~= events_report(ev));
    lines
}

/// The snake-case name of an aggregation, as the service reports it.
pub open spec fn aggregation_name(a: AggregationFn) -> Seq<char> {
    match a {
        AggregationFn::Average => "average"@,
        AggregationFn::Max => "max"@,
        AggregationFn::Min => "min"@,
        AggregationFn::Median => "median"@,
    }
}

fn aggregation_word(a: AggregationFn) -> (r: &'static str)
    ensures
        r@ == aggregation_name(a),
{
    match a {
        AggregationFn::Average => "average",
        AggregationFn::Max => "max",
        AggregationFn::Min => "min",
        AggregationFn::Median => "median",
    }
}

/// The control lines of a managed fan: its sensors (`none` when the joined
/// list is empty), aggregation and high-temperature alert.
pub open spec fn control_detail(status: FanRuntimeStatusView) -> Seq<Seq<char>> {
    match status {
        FanRuntimeStatusView::Managed { control, .. } => seq![
            "      sensors: "@ + if join(control.sensor_ids, ", "@).len() == 0 {
                "none"@
            } else {
                join(control.sensor_ids, ", "@)
            },
            "      aggregation: "@ + aggregation_name(control.aggregation),
            "      high-temp alert: "@ + if control.alert_high_temp {
                "yes"@
            } else {
                "no"@
            },
        ],
        _ => seq![],
    }
}

/// The profile lines of a fan with an applied entry: its gains (given as
/// text), cadence and deadband.
pub open spec fn profile_detail(
    profile: Option<AppliedFanEntryView>,
    kp: Seq<char>,
    ki: Seq<char>,
    kd: Seq<char>,
) -> Seq<Seq<char>> {
    match profile {
        Some(p) => seq![
            "      gains: kp="@ + kp + " ki="@ + ki + " kd="@ + kd,
            "      cadence: sample="@ + decimal(p.cadence.sample_interval_ms as nat) + " ms, control="@ + decimal(
                p.cadence.control_interval_ms as nat,
            ) + " ms, write="@ + decimal(p.cadence.write_interval_ms as nat) + " ms"@,
            "      deadband: "@ + signed_decimal(p.deadband_millidegrees as int) + " millidegrees"@,
        ],
        None => seq![],
    }
}

/// One line per reason of a degraded fan.
pub open spec fn reason_detail(status: FanRuntimeStatusView) -> Seq<Seq<char>> {
    match status {
        FanRuntimeStatusView::Degraded { reasons } => reasons.map_values(
            |r: DegradedReasonView| "      degraded: "@ + reason_summary_spec(r),
        ),
        _ => seq![],
    }
}

/// The detail lines under one fan of the runtime-state report.
pub open spec fn runtime_detail(
    status: FanRuntimeStatusView,
    profile: Option<AppliedFanEntryView>,
    kp: Seq<char>,
    ki: Seq<char>,
    kd: Seq<char>,
) -> Seq<Seq<char>> {
    control_detail(status) + profile_detail(profile, kp, ki, kd) + reason_detail(status)
}

/// The detail lines the client prints under a fan of the runtime state: for
/// a managed fan its sensors, aggregation and alert; for a fan with an
/// applied entry its gains (`kp`, `ki` and `kd` as the client formats them),
/// cadence and deadband; for a degraded fan one line per reason.
pub fn runtime_detail_lines(
    status: &FanRuntimeStatus,
    profile: Option<&AppliedFanEntry>,
    kp: &str,
    ki: &str,
    kd: &str,
) -> (r: Vec<String>)
    ensures
        r.deep_view() == runtime_detail(
            status@,
            match profile {
                Some(p) => Some(p@),
                None => None,
            },
            kp@,
            ki@,
            kd@,
        ),
{
    let mut lines: Vec<String> = Vec::new();
    if let FanRuntimeStatus::Managed { control, .. } = status {
        let sensors = join_strings(&control.sensor_ids, ", ");
        let sensors = if sensors.as_str().unicode_len() == 0 {
            "none".to_owned()
        } else {
            sensors
        };
        push_line(&mut lines, "      sensors: ".to_owned().concat(sensors.as_str()));
        push_line(&mut lines, "      aggregation: ".to_owned().concat(aggregation_word(control.aggregation)));
        let alert = if control.alert_high_temp {
            "yes"
        } else {
            "no"
        };
        push_line(&mut lines, "      high-temp alert: ".to_owned().concat(alert));
    }
    assert(lines.deep_view() =~= control_detail(status@));
    let ghost after_control = lines.deep_view();
    if let Some(p) = profile {
        push_line(&mut lines, "      gains: kp=".to_owned().concat(kp).concat(" ki=").concat(ki).concat(" kd=").concat(kd));
        let mut cadence = "      cadence: sample=".to_owned();
        push_decimal(&mut cadence, p.cadence.sample_interval_ms);
        cadence.append(" ms, control=");
        push_decimal(&mut cadence, p.cadence.control_interval_ms);
        cadence.append(" ms, write=");
        push_decimal(&mut cadence, p.cadence.write_interval_ms);
        push_line(&mut lines, cadence.concat(" ms"));
        let mut deadband = "      deadband: ".to_owned();
        push_signed_decimal(&mut deadband, p.deadband_millidegrees);
        push_line(&mut lines, deadband.concat(" millidegrees"));
    }
    let ghost pv = match profile {
        Some(p) => Some(p@),
        None => None,
    };
    assert(lines.deep_view() =~= after_control + profile_detail(pv, kp@, ki@, kd@));
    let ghost head = lines.deep_view();
    if let FanRuntimeStatus::Degraded { reasons } = status {
        let ghost rv = reasons.deep_view();
        let mut i: usize = 0;
        while i < reasons.len()
            invariant
                rv == reasons.deep_view(),
                i <= rv.len(),
                lines.deep_view() == head + rv.take(i as int).map_values(
                    |r: DegradedReasonView| "      degraded: "@ + reason_summary_spec(r),
                ),
            decreases reasons.len() - i,
        {
            push_line(&mut lines, "      degraded: ".to_owned().concat(degraded_reason_summary(&reasons[i]).as_str()));
            assert(rv.take(i + 1).map_values(|r: DegradedReasonView| "      degraded: "@ + reason_summary_spec(r))
                =~= rv.take(i as int).map_values(|r: DegradedReasonView| "      degraded: "@ + reason_summary_spec(r)).push(
                "      degraded: "@ + reason_summary_spec(rv[i as int]),
            ));
            i = i + 1;
        }
        assert(rv.take(i as int) =~= rv);
    }
    assert(lines.deep_view() =~= head + reason_detail(status@));
    lines
}

} // verus!
