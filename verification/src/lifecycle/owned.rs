//! The fans the daemon has taken over from firmware control.
//!
//! Every owned fan must be driven to safe maximum on shutdown or failure,
//! so the set records each fan's control mode and PWM node path.

use vstd::prelude::*;

use crate::inventory::ControlMode;
use crate::strmap::{
    group_strmap, has_key, insert_entry, keys_distinct, keys_of, law_insert_then_lookup, law_remove_then_lookup, lookup,
    remove_entry, StrMap,
};

verus! {

broadcast use group_strmap;

/// Owned fans in the order they were claimed, each with its control mode and
/// PWM node path.
#[derive(Debug)]
pub struct OwnedFanSet {
    fans: StrMap<(ControlMode, String)>,
}

impl View for OwnedFanSet {
    type V = Seq<(Seq<char>, (ControlMode, Seq<char>))>;

    closed spec fn view(&self) -> Seq<(Seq<char>, (ControlMode, Seq<char>))> {
        self.fans@
    }
}

impl Default for OwnedFanSet {
    fn default() -> (r: Self)
        ensures
            r@.len() == 0,
    {
        OwnedFanSet::new()
    }
}

impl OwnedFanSet {
    /// Whether fan `id` is owned.
    pub open spec fn spec_owns(self, id: Seq<char>) -> bool {
        has_key(self@, id)
    }

    /// No fan owned.
    pub fn new() -> (r: Self)
        ensures
            r@.len() == 0,
    {
        OwnedFanSet { fans: StrMap::new() }
    }

    /// Takes ownership of fan `fan_id`, recording its mode and PWM node.
    pub fn claim_fan(&mut self, fan_id: &str, control_mode: ControlMode, sysfs_path: &str)
        ensures
            final(self)@ == insert_entry(old(self)@, fan_id@, (control_mode, sysfs_path@)),
    {
        self.fans.insert(fan_id.to_owned(), (control_mode, sysfs_path.to_owned()));
    }

    /// Gives up ownership of fan `fan_id`.
    pub fn release_fan(&mut self, fan_id: &str)
        ensures
            final(self)@ == remove_entry(old(self)@, fan_id@),
    {
        self.fans.remove(fan_id);
    }

    /// Gives up ownership of every fan.
    pub fn release_all(&mut self)
        ensures
            final(self)@.len() == 0,
    {
        self.fans.clear();
    }

    /// Whether fan `fan_id` is owned.
    pub fn owns(&self, fan_id: &str) -> (r: bool)
        ensures
            r == self.spec_owns(fan_id@),
    {
        self.fans.contains_key(fan_id)
    }

    /// The owned fans' ids, in claim order.
    pub fn owned_fan_ids(&self) -> (r: Vec<String>)
        ensures
            r.deep_view() == keys_of(self@),
            crate::strmap::keys_distinct(self@),
    {
        let entries = self.fans.entries();
        let mut r: Vec<String> = Vec::new();
        let mut i: usize = 0;
        while i < entries.len()
            invariant
                entries.deep_view() == self@,
                i <= self@.len(),
                r.deep_view() == keys_of(self@.take(i as int)),
            decreases entries.len() - i,
        {
            let ghost before = r.deep_view();
            let c = entries[i].0.clone();
            r.push(c);
            assert(r.deep_view() =~= before.push(c@));
            assert(keys_of(self@.take(i + 1)) =~= keys_of(self@.take(i as int)).push(self@[i as int].0));
            i = i + 1;
        }
        assert(self@.take(i as int) =~= self@);
        r
    }

    /// The control mode of owned fan `fan_id`.
    pub fn control_mode(&self, fan_id: &str) -> (r: Option<ControlMode>)
        ensures
            r == match lookup(self@, fan_id@) {
                Some(v) => Some(v.0),
                None => None::<ControlMode>,
            },
    {
        match self.fans.get(fan_id) {
            Some(v) => Some(v.0),
            None => None,
        }
    }

    /// The PWM node path of owned fan `fan_id`.
    pub fn sysfs_path(&self, fan_id: &str) -> (r: Option<&str>)
        ensures
            r.deep_view() == match lookup(self@, fan_id@) {
                Some(v) => Some(v.1),
                None => None::<Seq<char>>,
            },
    {
        match self.fans.get(fan_id) {
            Some(v) => Some(v.1.as_str()),
            None => None,
        }
    }

    /// Number of owned fans.
    pub fn len(&self) -> (r: usize)
        ensures
            r == self@.len(),
    {
        self.fans.len()
    }

    /// Whether no fan is owned.
    pub fn is_empty(&self) -> (r: bool)
        ensures
            r == (self@.len() == 0),
    {
        self.fans.is_empty()
    }
}

/// Ownership law: claiming a fan makes the set own it with the given mode
/// and PWM node; releasing it afterwards makes the set not own it; neither
/// changes whether any other fan is owned or how it is recorded.
pub proof fn law_claim_then_release(
    owned: Seq<(Seq<char>, (ControlMode, Seq<char>))>,
    fan_id: Seq<char>,
    mode: ControlMode,
    path: Seq<char>,
    other: Seq<char>,
)
    requires
        keys_distinct(owned),
        other != fan_id,
    ensures
        lookup(insert_entry(owned, fan_id, (mode, path)), fan_id) == Some((mode, path)),
        !has_key(remove_entry(insert_entry(owned, fan_id, (mode, path)), fan_id), fan_id),
        lookup(insert_entry(owned, fan_id, (mode, path)), other) == lookup(owned, other),
        lookup(remove_entry(insert_entry(owned, fan_id, (mode, path)), fan_id), other) == lookup(owned, other),
        lookup(remove_entry(owned, fan_id), other) == lookup(owned, other),
{
    law_insert_then_lookup(owned, fan_id, (mode, path));
    law_remove_then_lookup(insert_entry(owned, fan_id, (mode, path)), fan_id);
    law_remove_then_lookup(owned, fan_id);
}

} // verus!
