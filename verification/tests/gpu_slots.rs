use flovenet::gpu::GpuSlot;

#[test]
fn test_create_slots_24gb() {
    let slots = GpuSlot::create_slots(24, "RTX 4090");
    // 24 = 8+8+8 → three 8 GiB slots
    assert_eq!(slots.len(), 3);
    for slot in &slots {
        assert_eq!(slot.vram_gb, 8);
        assert!(slot.available);
    }
}

#[test]
fn test_create_slots_14gb() {
    let slots = GpuSlot::create_slots(14, "RTX 3080");
    // 14 = 8+4+2 → one of each
    assert_eq!(slots.len(), 3);
    assert_eq!(slots[0].vram_gb, 8);
    assert_eq!(slots[1].vram_gb, 4);
    assert_eq!(slots[2].vram_gb, 2);
}

#[test]
fn test_create_slots_3gb() {
    let slots = GpuSlot::create_slots(3, "GTX 1060");
    // 3 → one 2 GiB slot (1 GiB unused)
    assert_eq!(slots.len(), 1);
    assert_eq!(slots[0].vram_gb, 2);
}

#[test]
fn test_slots_needed() {
    assert_eq!(GpuSlot::slots_needed(1, false), 1); // 1 × 2 GiB
    assert_eq!(GpuSlot::slots_needed(2, false), 1); // 1 × 2 GiB
    assert_eq!(GpuSlot::slots_needed(6, false), 2); // 1 × 4 + 1 × 2
    assert_eq!(GpuSlot::slots_needed(8, false), 1); // 1 × 8
    assert_eq!(GpuSlot::slots_needed(16, false), 2); // 2 × 8
}

#[test]
fn slots_keep_ids_and_model() {
    let slots = GpuSlot::create_slots(30, "A100");
    let sizes: Vec<u32> = slots.iter().map(|s| s.vram_gb).collect();
    assert_eq!(sizes, vec![8, 8, 8, 4, 2]);
    for (i, s) in slots.iter().enumerate() {
        assert_eq!(s.slot_id as usize, i);
        assert_eq!(s.model, "A100");
    }
}

#[test]
fn small_gpus_get_no_slot() {
    assert!(GpuSlot::create_slots(0, "none").is_empty());
    assert!(GpuSlot::create_slots(1, "tiny").is_empty());
}

#[test]
fn fractional_requirements_round_up() {
    // 7.5 GiB: 4 + 2 + 2
    assert_eq!(GpuSlot::slots_needed(7, true), 3);
    // 0.5 GiB: one 2 GiB slot
    assert_eq!(GpuSlot::slots_needed(0, true), 1);
    // nothing needed
    assert_eq!(GpuSlot::slots_needed(0, false), 0);
    // 8.1 GiB: 8 + 2
    assert_eq!(GpuSlot::slots_needed(8, true), 2);
}

#[test]
fn even_requirement_matches_split() {
    for gb in (0..64u64).step_by(2) {
        assert_eq!(GpuSlot::slots_needed(gb, false) as usize, GpuSlot::create_slots(gb, "x").len());
    }
}

#[test]
fn split_wastes_under_two_gib() {
    for gb in 0..64u64 {
        let total: u64 = GpuSlot::create_slots(gb, "x").iter().map(|s| s.vram_gb as u64).sum();
        assert!(total <= gb && gb < total + 2);
    }
}
