//! Job descriptions and the memory-fit policy used to label model routes.
use vstd::prelude::*;

verus! {

/// The kind of workload a scheduled job runs.
#[derive(Debug, Clone, Copy, PartialEq, Eq, Structural)]
pub enum JobKind {
    Chat,
    Image,
    Transcription,
    TextToSpeech,
    Download,
    Index,
}

/// A request to schedule one workload with its resource estimate.
#[derive(Debug, Clone)]
pub struct JobRequest {
    pub id: String,
    pub kind: JobKind,
    pub estimated_ram_bytes: u64,
    pub estimated_vram_bytes: u64,
    pub compatible_device_ids: Vec<String>,
}

/// The lifecycle of a scheduled job.
#[derive(Debug, Clone, Copy, PartialEq, Eq, Structural)]
pub enum JobState {
    Queued,
    Preparing,
    Running,
    Cancelling,
    Completed,
    Failed,
    Cancelled,
}

/// How comfortably an estimate fits in the usable memory.
#[derive(Debug, Clone, Copy, PartialEq, Eq, Structural)]
pub enum FitLabel {
    Excellent,
    Good,
    Tight,
    NotRecommended,
}

/// Memory that a workload is estimated to need.
#[derive(Debug, Clone, Copy)]
pub struct ResourceEstimate {
    pub required_ram_bytes: u64,
    pub required_vram_bytes: u64,
}

/// Memory that the policy keeps free for the rest of the system.
pub struct ResourcePolicy {
    pub ram_reserve_bytes: u64,
    pub vram_reserve_bytes: u64,
}

/// Memory left after the reserve is taken out (never below zero).
pub open spec fn usable(available: u64, reserve: u64) -> int {
    if available >= reserve { available - reserve } else { 0 }
}

/// `usable / required >= percent / 100`, where a zero requirement always has headroom.
pub open spec fn has_headroom(usable: int, required: int, percent: int) -> bool {
    required == 0 || usable * 100 >= required * percent
}

/// The label that a policy gives an estimate against the available memory.
pub open spec fn classify_spec(
    ram_reserve: u64,
    vram_reserve: u64,
    required_ram: u64,
    required_vram: u64,
    available_ram: u64,
    available_vram: u64,
) -> FitLabel {
    let ram = usable(available_ram, ram_reserve);
    let vram = usable(available_vram, vram_reserve);
    if required_ram > ram || required_vram > vram {
        FitLabel::NotRecommended
    } else if has_headroom(ram, required_ram as int, 130) && has_headroom(vram, required_vram as int, 130) {
        FitLabel::Excellent
    } else if has_headroom(ram, required_ram as int, 115) && has_headroom(vram, required_vram as int, 115) {
        FitLabel::Good
    } else {
        FitLabel::Tight
    }
}

/// The order of the labels, from worst to best.
pub open spec fn label_rank(label: FitLabel) -> int {
    match label {
        FitLabel::NotRecommended => 0,
        FitLabel::Tight => 1,
        FitLabel::Good => 2,
        FitLabel::Excellent => 3,
    }
}

/// Memory left after a reserve, never below zero.
pub open spec fn after_reserve(available: u64, reserve: u64) -> int {
    if available >= reserve { available - reserve } else { 0 }
}

/// The label rests on the smaller of the two headrooms: an estimate fits only when both RAM
/// and VRAM left after the reserves cover it; it is Excellent only when both cover at least
/// 130% of it and Good or better only when both cover at least 115% (a zero requirement is
/// always covered); and when both reach a level, the label reaches it.
pub proof fn law_label_follows_the_smaller_headroom(
    ram_reserve: u64,
    vram_reserve: u64,
    required_ram: u64,
    required_vram: u64,
    available_ram: u64,
    available_vram: u64,
)
    ensures
        ({
            let label = classify_spec(ram_reserve, vram_reserve, required_ram, required_vram, available_ram, available_vram);
            let ram = after_reserve(available_ram, ram_reserve);
            let vram = after_reserve(available_vram, vram_reserve);
            let ram_at = |percent: int| required_ram == 0 || ram * 100 >= required_ram * percent;
            let vram_at = |percent: int| required_vram == 0 || vram * 100 >= required_vram * percent;
            &&& (label != FitLabel::NotRecommended <==> (required_ram <= ram && required_vram <= vram))
            &&& (label == FitLabel::Excellent <==> (required_ram <= ram && required_vram <= vram && ram_at(130) && vram_at(130)))
            &&& (label_rank(label) >= 2 <==> (required_ram <= ram && required_vram <= vram && ram_at(115) && vram_at(115)))
        }),
{
}

/// RAM and VRAM count alike: exchanging the two (reserves, requirements and availability)
/// gives the same label.
pub proof fn law_label_is_symmetric_in_ram_and_vram(
    ram_reserve: u64,
    vram_reserve: u64,
    required_ram: u64,
    required_vram: u64,
    available_ram: u64,
    available_vram: u64,
)
    ensures
        classify_spec(ram_reserve, vram_reserve, required_ram, required_vram, available_ram, available_vram)
            == classify_spec(vram_reserve, ram_reserve, required_vram, required_ram, available_vram, available_ram),
{
}

/// More available memory of either kind never gives a worse label.
pub proof fn law_more_memory_never_lowers_the_label(
    ram_reserve: u64,
    vram_reserve: u64,
    required_ram: u64,
    required_vram: u64,
    available_ram: u64,
    available_vram: u64,
    more_ram: u64,
    more_vram: u64,
)
    requires
        available_ram <= more_ram,
        available_vram <= more_vram,
    ensures
        label_rank(classify_spec(ram_reserve, vram_reserve, required_ram, required_vram, available_ram, available_vram))
            <= label_rank(classify_spec(ram_reserve, vram_reserve, required_ram, required_vram, more_ram, more_vram)),
{
}

fn ratio_at_least(usable: u64, required: u64, percent: u64) -> (result: bool)
    requires
        percent <= 1000,
    ensures
        result == has_headroom(usable as int, required as int, percent as int),
{
    if required == 0 {
        true
    } else {
        let r = required as u128;
        let p = percent as u128;
        assert(r * p <= 0xffff_ffff_ffff_ffffu128 * 1000) by (nonlinear_arith)
            requires r <= 0xffff_ffff_ffff_ffffu128, p <= 1000;
        (usable as u128) * 100 >= r * p
    }
}

impl ResourcePolicy {
    /// Labels an estimate by the smaller of its RAM and VRAM headroom ratios after reserves.
    pub fn classify(&self, estimate: ResourceEstimate, available_ram: u64, available_vram: u64) -> (label: FitLabel)
        ensures
            label == classify_spec(
                self.ram_reserve_bytes,
                self.vram_reserve_bytes,
                estimate.required_ram_bytes,
                estimate.required_vram_bytes,
                available_ram,
                available_vram,
            ),
    {
        let usable_ram = available_ram.saturating_sub(self.ram_reserve_bytes);
        let usable_vram = available_vram.saturating_sub(self.vram_reserve_bytes);
        if estimate.required_ram_bytes > usable_ram || estimate.required_vram_bytes > usable_vram {
            return FitLabel::NotRecommended;
        }
        if ratio_at_least(usable_ram, estimate.required_ram_bytes, 130)
            && ratio_at_least(usable_vram, estimate.required_vram_bytes, 130) {
            FitLabel::Excellent
        } else if ratio_at_least(usable_ram, estimate.required_ram_bytes, 115)
            && ratio_at_least(usable_vram, estimate.required_vram_bytes, 115) {
            FitLabel::Good
        } else {
            FitLabel::Tight
        }
    }
}

} // verus!
