//! Local scheduling: whether a node can take a job, checked in a fixed order, and the
//! answers given for it.
use vstd::prelude::*;
use crate::resources::{NodeRole, role_debug};
use crate::text::{decimal, push_decimal};

verus! {

/// Where a job should run.
#[derive(Debug, Clone)]
pub struct PlacementDecision {
    pub target_peer: String,
    pub slot_count: u32,
    pub estimated_duration_secs: u64,
}

/// The answer to a job offer.
#[derive(Debug)]
pub enum MatchResult {
    Accepted { slots_used: u32, reason: String },
    Rejected { reason: String },
}

/// How a node's GPU compares with a job's GPU need.
#[derive(Debug, Clone, Copy, PartialEq, Eq, Structural)]
pub enum GpuFit {
    /// The job needs no GPU.
    NotRequired,
    /// The node has a GPU with at least the memory the job needs.
    Enough,
    /// The node has no GPU, or one with less memory than the job needs.
    Insufficient,
}

/// The first unmet need of a job, in the order in which needs are checked.
#[derive(Debug, Clone, Copy, PartialEq, Eq, Structural)]
pub enum Shortfall {
    Slots { have: u32, need: u32 },
    Ram,
    Disk,
    Gpu,
    Role,
}

/// The first unmet need, checking in turn the free slots against the cores asked for, then
/// memory, disk and GPU (whose comparisons the caller made), then the role.
pub open spec fn spec_first_shortfall(
    available_slots: u32,
    cpu_cores: u32,
    ram_ok: bool,
    disk_ok: bool,
    gpu: GpuFit,
    roles: Seq<NodeRole>,
    role: NodeRole,
) -> Option<Shortfall> {
    if available_slots < cpu_cores {
        Some(Shortfall::Slots { have: available_slots, need: cpu_cores })
    } else if !ram_ok {
        Some(Shortfall::Ram)
    } else if !disk_ok {
        Some(Shortfall::Disk)
    } else if gpu == GpuFit::Insufficient {
        Some(Shortfall::Gpu)
    } else if !roles.contains(role) {
        Some(Shortfall::Role)
    } else {
        None
    }
}

/// Whether `roles` contains `role`.
pub fn has_role(roles: &Vec<NodeRole>, role: NodeRole) -> (b: bool)
    ensures
        b == roles@.contains(role),
{
    for i in 0..roles.len()
        invariant
            forall|j: int| 0 <= j < i ==> roles@[j] != role,
    {
        if roles[i] == role {
            assert(roles@[i as int] == role);
            return true;
        }
    }
    false
}

/// The first unmet need of a job on a node, if any.
pub fn first_shortfall(
    available_slots: u32,
    cpu_cores: u32,
    ram_ok: bool,
    disk_ok: bool,
    gpu: GpuFit,
    roles: &Vec<NodeRole>,
    role: NodeRole,
) -> (r: Option<Shortfall>)
    ensures
        r == spec_first_shortfall(available_slots, cpu_cores, ram_ok, disk_ok, gpu, roles@, role),
{
    if available_slots < cpu_cores {
        Some(Shortfall::Slots { have: available_slots, need: cpu_cores })
    } else if !ram_ok {
        Some(Shortfall::Ram)
    } else if !disk_ok {
        Some(Shortfall::Disk)
    } else if gpu == GpuFit::Insufficient {
        Some(Shortfall::Gpu)
    } else if !has_role(roles, role) {
        Some(Shortfall::Role)
    } else {
        None
    }
}

/// The answer for a job that fits: it uses as many slots as it asks cores.
pub fn accepted(cpu_cores: u32) -> (m: MatchResult)
    ensures
        m matches MatchResult::Accepted { slots_used, reason } && slots_used == cpu_cores && reason@
            == "resource check passed"@,
{
    MatchResult::Accepted { slots_used: cpu_cores, reason: "resource check passed".to_owned() }
}

/// The reason given when there are too few free slots.
pub fn slots_reason(have: u32, need: u32) -> (s: String)
    ensures
        s@ == "insufficient slots: have "@ + decimal(have as nat) + ", need "@ + decimal(need as nat),
{
    let mut s = "insufficient slots: have ".to_owned();
    push_decimal(&mut s, have as u64);
    s.append(", need ");
    push_decimal(&mut s, need as u64);
    s
}

/// The debug text of a list of roles: `[A, B, ...]`.
pub open spec fn roles_debug(roles: Seq<NodeRole>) -> Seq<char> {
    "["@ + roles_debug_items(roles) + "]"@
}

/// The debug texts of `roles`, separated by `, `.
pub open spec fn roles_debug_items(roles: Seq<NodeRole>) -> Seq<char>
    decreases roles.len(),
{
    if roles.len() == 0 {
        Seq::empty()
    } else if roles.len() == 1 {
        role_debug(roles[0])
    } else {
        roles_debug_items(roles.drop_last()) + ", "@ + role_debug(roles.last())
    }
}

/// The reason given when the node does not offer the role.
pub fn role_reason(role: NodeRole, roles: &Vec<NodeRole>) -> (s: String)
    ensures
        s@ == "role "@ + role_debug(role) + " not supported, available: "@ + roles_debug(roles@),
{
    let mut s = "role ".to_owned();
    s.append(role.debug_str());
    s.append(" not supported, available: [");
    let ghost prefix = s@;
    for i in 0..roles.len()
        invariant
            s@ == prefix + roles_debug_items(roles@.take(i as int)),
    {
        assert(roles@.take(i + 1).drop_last() =~= roles@.take(i as int));
        if i > 0 {
            s.append(", ");
        }
        s.append(roles[i].debug_str());
        proof {
            if i == 0 {
                assert(roles@.take(1) =~= seq![roles@[0]]);
            }
        }
        assert(s@ =~= prefix + roles_debug_items(roles@.take(i + 1)));
    }
    assert(roles@.take(roles@.len() as int) =~= roles@);
    s.append("]");
    assert(s@ =~= "role "@ + role_debug(role) + " not supported, available: "@ + roles_debug(roles@)) by {
        reveal_strlit(" not supported, available: [");
        reveal_strlit(" not supported, available: ");
        reveal_strlit("[");
    }
    s
}

/// The figures quoted in refusal messages, each already rendered with one decimal.
#[derive(Debug)]
pub struct ShortfallFigures {
    pub ram_have: String,
    pub ram_need: String,
    pub disk_have: String,
    pub disk_need: String,
    pub gpu_need: String,
}

/// The reason given for a refusal.
pub open spec fn refusal_reason(s: Shortfall, role: NodeRole, roles: Seq<NodeRole>, f: ShortfallFigures) -> Seq<char> {
    match s {
        Shortfall::Slots { have, need } => "insufficient slots: have "@ + decimal(have as nat) + ", need "@
            + decimal(need as nat),
        Shortfall::Ram => "insufficient RAM: have "@ + f.ram_have@ + "GB, need "@ + f.ram_need@ + "GB"@,
        Shortfall::Disk => "insufficient disk: have "@ + f.disk_have@ + "GB, need "@ + f.disk_need@ + "GB"@,
        Shortfall::Gpu => "insufficient GPU VRAM: need "@ + f.gpu_need@ + "GB"@,
        Shortfall::Role => "role "@ + role_debug(role) + " not supported, available: "@ + roles_debug(roles),
    }
}

fn quoted_amounts(prefix: &str, have: &str, need: &str) -> (s: String)
    ensures
        s@ == prefix@ + have@ + "GB, need "@ + need@ + "GB"@,
{
    let mut s = prefix.to_owned();
    s.append(have);
    s.append("GB, need ");
    s.append(need);
    s.append("GB");
    s
}

/// Decides whether a node takes a job: the job is refused for the first unmet need, with a
/// message quoting the figures, and otherwise accepted on as many slots as it asks cores.
pub fn decide(
    available_slots: u32,
    cpu_cores: u32,
    ram_ok: bool,
    disk_ok: bool,
    gpu: GpuFit,
    roles: &Vec<NodeRole>,
    role: NodeRole,
    figures: &ShortfallFigures,
) -> (m: MatchResult)
    ensures
        match spec_first_shortfall(available_slots, cpu_cores, ram_ok, disk_ok, gpu, roles@, role) {
            None => m matches MatchResult::Accepted { slots_used, reason } && slots_used == cpu_cores && reason@
                == "resource check passed"@,
            Some(s) => m matches MatchResult::Rejected { reason } && reason@ == refusal_reason(
                s,
                role,
                roles@,
                *figures,
            ),
        },
{
    match first_shortfall(available_slots, cpu_cores, ram_ok, disk_ok, gpu, roles, role) {
        None => accepted(cpu_cores),
        Some(Shortfall::Slots { have, need }) => MatchResult::Rejected { reason: slots_reason(have, need) },
        Some(Shortfall::Ram) => MatchResult::Rejected {
            reason: quoted_amounts("insufficient RAM: have ", figures.ram_have.as_str(), figures.ram_need.as_str()),
        },
        Some(Shortfall::Disk) => MatchResult::Rejected {
            reason: quoted_amounts("insufficient disk: have ", figures.disk_have.as_str(), figures.disk_need.as_str()),
        },
        Some(Shortfall::Gpu) => {
            let mut r = "insufficient GPU VRAM: need ".to_owned();
            r.append(figures.gpu_need.as_str());
            r.append("GB");
            MatchResult::Rejected { reason: r }
        },
        Some(Shortfall::Role) => MatchResult::Rejected { reason: role_reason(role, roles) },
    }
}

/// Law: needs are checked in the order slots, memory, disk, GPU, role, and a job is refused
/// for its role exactly when the role is none of the node's roles: a job is accepted when
/// the node has as many free slots as it asks cores, enough memory, disk and GPU, and one
/// of its roles is the role asked for.
pub proof fn law_first_unmet_need(
    available_slots: u32,
    cpu_cores: u32,
    ram_ok: bool,
    disk_ok: bool,
    gpu: GpuFit,
    roles: Seq<NodeRole>,
    role: NodeRole,
)
    ensures
        ({
            let r = spec_first_shortfall(available_slots, cpu_cores, ram_ok, disk_ok, gpu, roles, role);
            let has = exists|i: int| 0 <= i < roles.len() && roles[i] == role;
            &&& available_slots < cpu_cores ==> r == Some(Shortfall::Slots { have: available_slots, need: cpu_cores })
            &&& available_slots >= cpu_cores && !ram_ok ==> r == Some(Shortfall::Ram)
            &&& available_slots >= cpu_cores && ram_ok && !disk_ok ==> r == Some(Shortfall::Disk)
            &&& available_slots >= cpu_cores && ram_ok && disk_ok && gpu == GpuFit::Insufficient ==> r == Some(
                Shortfall::Gpu,
            )
            &&& available_slots >= cpu_cores && ram_ok && disk_ok && gpu != GpuFit::Insufficient ==> (r == (if has {
                None
            } else {
                Some(Shortfall::Role)
            }))
        }),
{
    let has = exists|i: int| 0 <= i < roles.len() && roles[i] == role;
    if has {
        let i = choose|i: int| 0 <= i < roles.len() && roles[i] == role;
        assert(roles.contains(role));
    }
}

} // verus!
