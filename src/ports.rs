//! The list of managed port slots: at most one entry is looked up per slot,
//! the first one.
use vstd::prelude::*;
use crate::model::{ManagedPort, copy_text};

verus! {

/// The index of the first entry, from `from` on, that holds `slot`.
pub open spec fn first_slot(s: Seq<ManagedPort>, slot: u8, from: int) -> Option<int>
    decreases s.len() - from,
{
    if from < 0 || from >= s.len() {
        None
    } else if s[from].slot == slot {
        Some(from)
    } else {
        first_slot(s, slot, from + 1)
    }
}

fn slot_position(ports: &Vec<ManagedPort>, slot: u8) -> (r: Option<usize>)
    ensures
        match r {
            Some(i) => first_slot(ports@, slot, 0) == Some(i as int),
            None => first_slot(ports@, slot, 0) is None,
        },
{
    let mut i: usize = 0;
    while i < ports.len()
        invariant
            i <= ports@.len(),
            first_slot(ports@, slot, 0) == first_slot(ports@, slot, i as int),
        decreases ports@.len() - i,
    {
        if ports[i].slot == slot {
            return Some(i);
        }
        i = i + 1;
    }
    None
}

proof fn lemma_first_slot_bounds(s: Seq<ManagedPort>, slot: u8, from: int)
    requires
        0 <= from,
    ensures
        first_slot(s, slot, from) matches Some(i) ==> from <= i < s.len() && s[i].slot == slot,
    decreases s.len() - from,
{
    if from < s.len() && s[from].slot != slot {
        lemma_first_slot_bounds(s, slot, from + 1);
    }
}

/// Records a port opened in a slot: the slot's first entry, if any, leaves
/// the list, and the new entry goes to the end.
pub fn put_managed_port(ports: &mut Vec<ManagedPort>, entry: ManagedPort)
    ensures
        final(ports)@ == (match first_slot(old(ports)@, entry.slot, 0) {
            Some(i) => old(ports)@.remove(i),
            None => old(ports)@,
        }).push(entry),
{
    match slot_position(ports, entry.slot) {
        Some(i) => {
            proof {
                lemma_first_slot_bounds(ports@, entry.slot, 0);
            }
            ports.remove(i);
        },
        None => {},
    }
    ports.push(entry);
}

/// Marks a slot's first entry active or not, and returns the entry as it
/// now is; `None`, changing nothing, when no entry holds the slot.
pub fn set_managed_port_active(ports: &mut Vec<ManagedPort>, slot: u8, active: bool) -> (r: Option<
    ManagedPort,
>)
    ensures
        match first_slot(old(ports)@, slot, 0) {
            Some(i) => {
                let e = (ManagedPort { active, ..old(ports)@[i] });
                &&& r == Some(e)
                &&& final(ports)@ == old(ports)@.update(i, e)
            },
            None => r is None && final(ports)@ == old(ports)@,
        },
{
    match slot_position(ports, slot) {
        Some(i) => {
            proof {
                lemma_first_slot_bounds(ports@, slot, 0);
            }
            let e = ManagedPort {
                slot: ports[i].slot,
                port: ports[i].port,
                protocol: copy_text(&ports[i].protocol),
                name: copy_text(&ports[i].name),
                active,
            };
            let copy = ManagedPort {
                slot: e.slot,
                port: e.port,
                protocol: copy_text(&e.protocol),
                name: copy_text(&e.name),
                active: e.active,
            };
            ports.set(i, e);
            Some(copy)
        },
        None => None,
    }
}

/// Takes a slot's first entry out of the list; `None`, changing nothing,
/// when no entry holds the slot.
pub fn close_managed_port(ports: &mut Vec<ManagedPort>, slot: u8) -> (r: Option<ManagedPort>)
    ensures
        match first_slot(old(ports)@, slot, 0) {
            Some(i) => r == Some(old(ports)@[i]) && final(ports)@ == old(ports)@.remove(i),
            None => r is None && final(ports)@ == old(ports)@,
        },
{
    match slot_position(ports, slot) {
        Some(i) => {
            proof {
                lemma_first_slot_bounds(ports@, slot, 0);
            }
            Some(ports.remove(i))
        },
        None => None,
    }
}

/// The protocols a mapping covers: "BOTH" stands for TCP and UDP.
pub fn protocols_for(protocol: &str) -> (r: Vec<String>)
    ensures
        protocol@ == "BOTH"@ ==> r@.len() == 2 && r@[0]@ == "TCP"@ && r@[1]@ == "UDP"@,
        protocol@ != "BOTH"@ ==> r@.len() == 1 && r@[0]@ == protocol@,
{
    let p = String::from_str(protocol);
    if p == String::from_str("BOTH") {
        let mut v: Vec<String> = Vec::new();
        v.push(String::from_str("TCP"));
        v.push(String::from_str("UDP"));
        v
    } else {
        let mut v: Vec<String> = Vec::new();
        v.push(p);
        v
    }
}

} // verus!
