use flovenet::resources::NodeRole;
use flovenet::scheduler::{decide, first_shortfall, GpuFit, MatchResult, Shortfall, ShortfallFigures};

// A node offering compute with 4 free slots, 16 GB of free RAM and 200 GB of free disk.
const AVAILABLE_SLOTS: u32 = 4;
const RAM_AVAILABLE_GB: f64 = 16.0;
const DISK_AVAILABLE_GB: f64 = 200.0;

fn can_accept(cpu_cores: u32, ram_gb: f64, disk_gb: f64, role: NodeRole) -> MatchResult {
    let figures = ShortfallFigures {
        ram_have: format!("{:.1}", RAM_AVAILABLE_GB),
        ram_need: format!("{:.1}", ram_gb),
        disk_have: format!("{:.1}", DISK_AVAILABLE_GB),
        disk_need: format!("{:.1}", disk_gb),
        gpu_need: String::new(),
    };
    decide(
        AVAILABLE_SLOTS,
        cpu_cores,
        !(RAM_AVAILABLE_GB < ram_gb),
        !(DISK_AVAILABLE_GB < disk_gb),
        GpuFit::NotRequired,
        &vec![NodeRole::Compute],
        role,
        &figures,
    )
}

#[test]
fn test_accepts_valid_job() {
    match can_accept(2, 4.0, 10.0, NodeRole::Compute) {
        MatchResult::Accepted { slots_used, .. } => assert_eq!(slots_used, 2),
        MatchResult::Rejected { reason } => panic!("should accept: {reason}"),
    }
}

#[test]
fn test_rejects_insufficient_ram() {
    match can_accept(1, 999.0, 1.0, NodeRole::Compute) {
        MatchResult::Accepted { .. } => panic!("should reject"),
        MatchResult::Rejected { reason } => {
            assert!(reason.contains("RAM"));
        }
    }
}

#[test]
fn test_rejects_wrong_role() {
    match can_accept(1, 1.0, 1.0, NodeRole::Storage) {
        MatchResult::Accepted { .. } => panic!("should reject"),
        MatchResult::Rejected { reason } => {
            assert!(reason.contains("role"));
        }
    }
}

#[test]
fn refusal_messages() {
    match can_accept(5, 1.0, 1.0, NodeRole::Compute) {
        MatchResult::Rejected { reason } => assert_eq!(reason, "insufficient slots: have 4, need 5"),
        other => panic!("unexpected {other:?}"),
    }
    match can_accept(1, 999.0, 1.0, NodeRole::Compute) {
        MatchResult::Rejected { reason } => assert_eq!(reason, "insufficient RAM: have 16.0GB, need 999.0GB"),
        other => panic!("unexpected {other:?}"),
    }
    match can_accept(1, 1.0, 500.0, NodeRole::Compute) {
        MatchResult::Rejected { reason } => assert_eq!(reason, "insufficient disk: have 200.0GB, need 500.0GB"),
        other => panic!("unexpected {other:?}"),
    }
    match can_accept(1, 1.0, 1.0, NodeRole::Storage) {
        MatchResult::Rejected { reason } => assert_eq!(reason, "role Storage not supported, available: [Compute]"),
        other => panic!("unexpected {other:?}"),
    }
    match can_accept(1, 1.0, 1.0, NodeRole::Compute) {
        MatchResult::Accepted { reason, .. } => assert_eq!(reason, "resource check passed"),
        other => panic!("unexpected {other:?}"),
    }
}

#[test]
fn checks_run_in_order() {
    let roles = vec![NodeRole::Ai, NodeRole::Social];
    assert_eq!(
        first_shortfall(1, 2, false, false, GpuFit::Insufficient, &roles, NodeRole::Compute),
        Some(Shortfall::Slots { have: 1, need: 2 })
    );
    assert_eq!(first_shortfall(2, 2, false, false, GpuFit::Insufficient, &roles, NodeRole::Compute), Some(Shortfall::Ram));
    assert_eq!(first_shortfall(2, 2, true, false, GpuFit::Insufficient, &roles, NodeRole::Compute), Some(Shortfall::Disk));
    assert_eq!(first_shortfall(2, 2, true, true, GpuFit::Insufficient, &roles, NodeRole::Compute), Some(Shortfall::Gpu));
    assert_eq!(first_shortfall(2, 2, true, true, GpuFit::Enough, &roles, NodeRole::Compute), Some(Shortfall::Role));
    assert_eq!(first_shortfall(2, 2, true, true, GpuFit::Enough, &roles, NodeRole::Ai), None);
    let figures = ShortfallFigures {
        ram_have: String::new(),
        ram_need: String::new(),
        disk_have: String::new(),
        disk_need: String::new(),
        gpu_need: "12.0".into(),
    };
    match decide(2, 2, true, true, GpuFit::Insufficient, &roles, NodeRole::Ai, &figures) {
        MatchResult::Rejected { reason } => assert_eq!(reason, "insufficient GPU VRAM: need 12.0GB"),
        other => panic!("unexpected {other:?}"),
    }
    match decide(2, 2, true, true, GpuFit::Enough, &roles, NodeRole::Compute, &figures) {
        MatchResult::Rejected { reason } => assert_eq!(reason, "role Compute not supported, available: [Ai, Social]"),
        other => panic!("unexpected {other:?}"),
    }
    match decide(2, 2, true, true, GpuFit::Enough, &vec![], NodeRole::Compute, &figures) {
        MatchResult::Rejected { reason } => assert_eq!(reason, "role Compute not supported, available: []"),
        other => panic!("unexpected {other:?}"),
    }
}
