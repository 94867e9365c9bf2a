//! The copy of the owned fans' PWM nodes that a panic handler reads.
//!
//! When the process panics, the handler cannot rely on the service's own
//! locks; it reads this plain list instead and drives each listed PWM node
//! to safe maximum. The list is refreshed from the owned-fan set whenever
//! ownership changes.

use vstd::prelude::*;

use crate::inventory::ControlMode;
use crate::lifecycle::owned::OwnedFanSet;
use crate::strmap::{group_strmap, keys_distinct, keys_of, lookup};

verus! {

broadcast use group_strmap;

/// The `(fan id, PWM node path)` pairs of the owned fans, in claim order.
pub open spec fn owned_pwm_paths(owned: Seq<(Seq<char>, (ControlMode, Seq<char>))>) -> Seq<(Seq<char>, Seq<char>)> {
    owned.map_values(|e: (Seq<char>, (ControlMode, Seq<char>))| (e.0, e.1.1))
}

/// The owned fans' PWM node paths as the panic handler sees them.
#[derive(Debug)]
pub struct PanicFallbackMirror {
    pub owned_pwm_paths: Vec<(String, String)>,
}

impl View for PanicFallbackMirror {
    type V = Seq<(Seq<char>, Seq<char>)>;

    open spec fn view(&self) -> Seq<(Seq<char>, Seq<char>)> {
        self.owned_pwm_paths.deep_view()
    }
}

impl Default for PanicFallbackMirror {
    fn default() -> (r: Self)
        ensures
            r@.len() == 0,
    {
        PanicFallbackMirror { owned_pwm_paths: Vec::new() }
    }
}

/// Replaces the mirror's list with the PWM node of every fan `owned` holds,
/// in claim order.
pub fn sync_panic_fallback_mirror_from_owned(mirror: &mut PanicFallbackMirror, owned: &OwnedFanSet)
    ensures
        final(mirror)@ == owned_pwm_paths(owned@),
{
    let ids = owned.owned_fan_ids();
    let ghost ov = owned@;
    assert(ids.deep_view().len() == ids@.len());
    let mut paths: Vec<(String, String)> = Vec::new();
    let mut i: usize = 0;
    while i < ids.len()
        invariant
            ov == owned@,
            ids.deep_view() == keys_of(ov),
            keys_distinct(ov),
            ids@.len() == ov.len(),
            i <= ov.len(),
            paths.deep_view() == owned_pwm_paths(ov.take(i as int)),
        decreases ids.len() - i,
    {
        assert(ids.deep_view()[i as int] == ov[i as int].0);
        assert(lookup(ov, ov[i as int].0) == Some(ov[i as int].1));
        let ghost before = paths.deep_view();
        match owned.sysfs_path(ids[i].as_str()) {
            Some(path) => {
                paths.push((ids[i].clone(), path.to_string()));
            },
            None => {},
        }
        assert(paths.deep_view() =~= owned_pwm_paths(ov.take(i + 1))) by {
            assert(ov.take(i + 1) =~= ov.take(i as int).push(ov[i as int]));
            assert(owned_pwm_paths(ov.take(i as int).push(ov[i as int])) =~= before.push(
                (ov[i as int].0, ov[i as int].1.1),
            ));
        }
        i = i + 1;
    }
    assert(ov.take(i as int) =~= ov);
    mirror.owned_pwm_paths = paths;
}

} // verus!
