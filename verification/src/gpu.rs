//! GPU slots: splitting a GPU's memory into fixed-size units of 8, 4 or 2 GiB.
use vstd::prelude::*;

verus! {

/// Smallest slot, in GiB.
pub const MIN_VRAM_GB: u32 = 2;

/// A GPU slot with a dedicated amount of VRAM.
#[derive(Debug, Clone)]
pub struct GpuSlot {
    /// Identifier of the slot within the node.
    pub slot_id: u32,
    /// Dedicated VRAM in GiB: 8, 4 or 2.
    pub vram_gb: u32,
    /// GPU model name.
    pub model: String,
    /// Whether the slot is free.
    pub available: bool,
}

/// Number of 8 GiB slots carved from `total` GiB.
pub open spec fn eights(total: nat) -> nat {
    total / 8
}

/// Number of 4 GiB slots carved from `total` GiB (zero or one).
pub open spec fn fours(total: nat) -> nat {
    if total % 8 >= 4 { 1 } else { 0 }
}

/// Number of 2 GiB slots carved from `total` GiB (zero or one).
pub open spec fn twos(total: nat) -> nat {
    if total % 4 >= 2 { 1 } else { 0 }
}

/// Number of slots carved from `total` GiB.
pub open spec fn slot_count(total: nat) -> nat {
    eights(total) + fours(total) + twos(total)
}

/// Size in GiB of slot `i` when `total` GiB are split: 8 GiB slots first, then 4, then 2.
pub open spec fn slot_size(total: nat, i: int) -> nat {
    if i < eights(total) {
        8
    } else if i < eights(total) + fours(total) {
        4
    } else {
        2
    }
}

/// Total VRAM handed out by the slots carved from `total` GiB.
pub open spec fn allocated(total: nat) -> nat {
    8 * eights(total) + 4 * fours(total) + 2 * twos(total)
}

/// `slot` is the free slot number `i` of the split of `total` GiB of a GPU of the given `model`.
pub open spec fn is_slot_of(slot: GpuSlot, i: int, total: nat, model: Seq<char>) -> bool {
    &&& slot.slot_id == i
    &&& slot.vram_gb == slot_size(total, i)
    &&& slot.model@ == model
    &&& slot.available
}

/// `slots` is the split of `total` GiB of a GPU of the given `model`.
pub open spec fn is_split_of(slots: Seq<GpuSlot>, total: nat, model: Seq<char>) -> bool {
    &&& slots.len() == slot_count(total)
    &&& forall|i: int| 0 <= i < slots.len() ==> is_slot_of(#[trigger] slots[i], i, total, model)
}

/// The remainder facts that relate the three slot sizes.
proof fn lemma_split_facts(total: nat)
    ensures
        total == 8 * eights(total) + total % 8,
        total % 8 < 8,
        (total % 8) % 4 == total % 4,
        (total % 8 >= 4) ==> total % 8 - 4 == total % 4,
        (total % 8 < 4) ==> total % 8 == total % 4,
{
    vstd::arithmetic::div_mod::lemma_fundamental_div_mod(total as int, 8);
    vstd::arithmetic::div_mod::lemma_mod_mod(total as int, 4, 2);
    vstd::arithmetic::div_mod::lemma_mod_bound(total as int, 8);
}

/// How many slots the greedy choice (8 GiB while at least 8 remain, else 4 while at least 4
/// remain, else 2) takes to cover a requirement of `whole` GiB plus, when `fractional`,
/// a further fraction of a GiB.
pub open spec fn greedy_count(whole: nat, fractional: bool) -> nat
    decreases whole,
{
    if whole == 0 && !fractional {
        0
    } else if whole >= 8 {
        1 + greedy_count((whole - 8) as nat, fractional)
    } else if whole >= 4 {
        1 + greedy_count((whole - 4) as nat, fractional)
    } else if whole >= 2 {
        1 + greedy_count((whole - 2) as nat, fractional)
    } else {
        1
    }
}

/// Total GiB of the slots that the greedy choice takes for the same requirement.
pub open spec fn greedy_cover(whole: nat, fractional: bool) -> nat
    decreases whole,
{
    if whole == 0 && !fractional {
        0
    } else if whole >= 8 {
        8 + greedy_cover((whole - 8) as nat, fractional)
    } else if whole >= 4 {
        4 + greedy_cover((whole - 4) as nat, fractional)
    } else {
        2 + if whole >= 2 { greedy_cover((whole - 2) as nat, fractional) } else { 0 }
    }
}

fn new_slot(slot_id: u32, vram_gb: u32, model: &str) -> (s: GpuSlot)
    ensures
        s.slot_id == slot_id,
        s.vram_gb == vram_gb,
        s.model@ == model@,
        s.available,
{
    GpuSlot { slot_id, vram_gb, model: model.to_owned(), available: true }
}

impl GpuSlot {
    /// Splits `total_vram_gb` whole GiB into slots, 8 GiB ones first, then at most one
    /// of 4 GiB and at most one of 2 GiB; less than 2 GiB may be left over.
    pub fn create_slots(total_vram_gb: u64, model: &str) -> (slots: Vec<GpuSlot>)
        requires
            slot_count(total_vram_gb as nat) <= u32::MAX,
        ensures
            is_split_of(slots@, total_vram_gb as nat, model@),
    {
        let ghost total = total_vram_gb as nat;
        let ghost e = eights(total);
        let ghost f = fours(total);
        let ghost n = slot_count(total);
        proof { lemma_split_facts(total); }
        let mut slots: Vec<GpuSlot> = Vec::new();
        let mut remaining: u64 = total_vram_gb;
        let mut slot_id: u32 = 0;
        while remaining >= 8
            invariant
                n <= u32::MAX,
                e == eights(total),
                f == fours(total),
                n == slot_count(total),
                total == 8 * e + total % 8,
                remaining as nat == total - 8 * slot_id,
                slot_id <= e,
                slots@.len() == slot_id,
                forall|i: int|
                    0 <= i < slots@.len() ==> is_slot_of(#[trigger] slots@[i], i, total, model@),
            decreases remaining,
        {
            slots.push(new_slot(slot_id, 8, model));
            remaining = remaining - 8;
            slot_id = slot_id + 1;
        }
        assert(slot_id == e);
        assert(remaining == total % 8);
        while remaining >= 4
            invariant
                n <= u32::MAX,
                e == eights(total),
                f == fours(total),
                n == slot_count(total),
                (total % 8 >= 4) == (f == 1),
                remaining < 8,
                remaining as nat + 4 * (slot_id - e) == total % 8,
                e <= slot_id <= e + f,
                slots@.len() == slot_id,
                forall|i: int|
                    0 <= i < slots@.len() ==> is_slot_of(#[trigger] slots@[i], i, total, model@),
            decreases remaining,
        {
            slots.push(new_slot(slot_id, 4, model));
            remaining = remaining - 4;
            slot_id = slot_id + 1;
        }
        assert(slot_id == e + f);
        assert(remaining < 4);
        while remaining >= 2
            invariant
                n <= u32::MAX,
                n == slot_count(total),
                e == eights(total),
                f == fours(total),
                (remaining >= 2) == (twos(total) == 1) || slot_id == n,
                remaining < 4,
                e + f <= slot_id <= n,
                slot_id == n ==> remaining < 2,
                slot_id < n ==> slot_id == e + f && remaining >= 2,
                slots@.len() == slot_id,
                forall|i: int|
                    0 <= i < slots@.len() ==> is_slot_of(#[trigger] slots@[i], i, total, model@),
            decreases remaining,
        {
            slots.push(new_slot(slot_id, 2, model));
            remaining = remaining - 2;
            slot_id = slot_id + 1;
        }
        assert(slot_id == n);
        assert(slots@.len() == slot_count(total));
        slots
    }

    /// Number of slots needed for a requirement of `whole_gb` GiB plus, when `fractional`,
    /// a further fraction of a GiB (the caller splits a real amount into these two parts).
    pub fn slots_needed(whole_gb: u64, fractional: bool) -> (needed: u32)
        requires
            greedy_count(whole_gb as nat, fractional) <= u32::MAX,
        ensures
            needed == greedy_count(whole_gb as nat, fractional),
    {
        let ghost g = greedy_count(whole_gb as nat, fractional);
        let mut needed: u32 = 0;
        let mut remaining: u64 = whole_gb;
        loop
            invariant_except_break
                g <= u32::MAX,
                needed + greedy_count(remaining as nat, fractional) == g,
            ensures
                needed == g,
            decreases remaining,
        {
            if remaining == 0 && !fractional {
                break;
            }
            if remaining >= 8 {
                remaining = remaining - 8;
            } else if remaining >= 4 {
                remaining = remaining - 4;
            } else if remaining >= 2 {
                remaining = remaining - 2;
            } else {
                needed = needed + 1;
                break;
            }
            needed = needed + 1;
        }
        needed
    }
}

/// Law: splitting leaves less than one smallest slot unused: the slots hold at most the
/// GPU's memory and less than 2 GiB below it.
pub proof fn law_split_wastes_less_than_min_slot(total: nat)
    ensures
        allocated(total) <= total < allocated(total) + MIN_VRAM_GB,
{
    lemma_split_facts(total);
}

/// Law: the slots counted for a requirement hold at least the required memory.
pub proof fn law_needed_slots_cover_requirement(whole: nat, fractional: bool)
    ensures
        greedy_cover(whole, fractional) >= whole,
        fractional ==> greedy_cover(whole, fractional) > whole,
    decreases whole,
{
    if whole >= 2 {
        law_needed_slots_cover_requirement((whole - 2) as nat, fractional);
    }
    if whole >= 4 {
        law_needed_slots_cover_requirement((whole - 4) as nat, fractional);
    }
    if whole >= 8 {
        law_needed_slots_cover_requirement((whole - 8) as nat, fractional);
    }
}

/// Law: for an even whole number of GiB, the slots needed for it are exactly as many as
/// the slots carved from a GPU with that much memory.
pub proof fn law_even_need_matches_split(total: nat)
    requires
        total % 2 == 0,
    ensures
        greedy_count(total, false) == slot_count(total),
    decreases total,
{
    if total >= 8 {
        let t = (total - 8) as nat;
        vstd::arithmetic::div_mod::lemma_fundamental_div_mod(total as int, 8);
        vstd::arithmetic::div_mod::lemma_fundamental_div_mod(t as int, 8);
        vstd::arithmetic::div_mod::lemma_mod_bound(total as int, 8);
        vstd::arithmetic::div_mod::lemma_mod_bound(t as int, 8);
        assert(t / 8 == total / 8 - 1 && t % 8 == total % 8) by {
            vstd::arithmetic::div_mod::lemma_div_plus_one(t as int, 8);
            vstd::arithmetic::div_mod::lemma_mod_add_multiples_vanish(t as int, 8);
        }
        assert(t % 4 == total % 4) by {
            vstd::arithmetic::div_mod::lemma_mod_mod(t as int, 4, 2);
            vstd::arithmetic::div_mod::lemma_mod_mod(total as int, 4, 2);
        }
        law_even_need_matches_split(t);
    } else {
        reveal_with_fuel(greedy_count, 4);
        assert(total == 0 || total == 2 || total == 4 || total == 6);
    }
}

/// Law: the slots counted for a requirement of `whole` GiB (plus a fraction of a GiB when
/// `fractional`) are `whole / 8` slots of 8 GiB, one slot of 4 GiB when at least 4 GiB remain
/// after them, and then 2 GiB slots for the rest, rounded up; together they hold at least
/// the requirement (more, when there is a fraction) and waste less than one 2 GiB slot.
pub proof fn law_needed_slots_closed_form(whole: nat, fractional: bool)
    ensures
        ({
            let e = whole / 8;
            let q: nat = if whole % 8 >= 4 { 1 } else { 0 };
            let t: nat = ((2 * (whole % 4) + (if fractional { 1nat } else { 0nat }) + 3) / 4) as nat;
            &&& greedy_count(whole, fractional) == e + q + t
            &&& greedy_cover(whole, fractional) == 8 * e + 4 * q + 2 * t
            &&& 8 * e + 4 * q + 2 * t >= whole
            &&& fractional ==> 8 * e + 4 * q + 2 * t > whole
            &&& fractional ==> 8 * e + 4 * q + 2 * t <= whole + 2
            &&& !fractional ==> 8 * e + 4 * q + 2 * t <= whole + 1
            &&& t <= 2
        }),
    decreases whole,
{
    if whole >= 8 {
        let w = (whole - 8) as nat;
        law_needed_slots_closed_form(w, fractional);
        assert(w / 8 == whole / 8 - 1 && w % 8 == whole % 8 && w % 4 == whole % 4) by {
            vstd::arithmetic::div_mod::lemma_fundamental_div_mod(whole as int, 8);
            vstd::arithmetic::div_mod::lemma_fundamental_div_mod(w as int, 8);
            vstd::arithmetic::div_mod::lemma_div_plus_one(w as int, 8);
            vstd::arithmetic::div_mod::lemma_mod_add_multiples_vanish(w as int, 8);
            vstd::arithmetic::div_mod::lemma_mod_add_multiples_vanish(w as int, 4);
            vstd::arithmetic::div_mod::lemma_mod_add_multiples_vanish((w + 4) as int, 4);
        }
    } else {
        reveal_with_fuel(greedy_count, 5);
        reveal_with_fuel(greedy_cover, 5);
        assert(whole / 8 == 0);
        assert(whole % 8 == whole);
        if whole >= 4 {
            assert(whole % 4 == whole - 4);
        } else {
            assert(whole % 4 == whole);
        }
    }
}

} // verus!
