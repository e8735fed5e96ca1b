use neuraloc_core::scheduler::{FitLabel, ResourceEstimate, ResourcePolicy};

#[test]
fn respects_memory_reserve() {
    let policy = ResourcePolicy { ram_reserve_bytes: 2, vram_reserve_bytes: 2 };
    let estimate = ResourceEstimate { required_ram_bytes: 9, required_vram_bytes: 9 };
    assert_eq!(policy.classify(estimate, 10, 10), FitLabel::NotRecommended);
}

#[test]
fn classifies_by_the_smaller_headroom() {
    let policy = ResourcePolicy { ram_reserve_bytes: 0, vram_reserve_bytes: 0 };
    let needs = |ram, vram| ResourceEstimate { required_ram_bytes: ram, required_vram_bytes: vram };
    assert_eq!(policy.classify(needs(100, 0), 130, 0), FitLabel::Excellent);
    assert_eq!(policy.classify(needs(100, 0), 129, 0), FitLabel::Good);
    assert_eq!(policy.classify(needs(100, 0), 115, 0), FitLabel::Good);
    assert_eq!(policy.classify(needs(100, 0), 114, 0), FitLabel::Tight);
    assert_eq!(policy.classify(needs(100, 0), 100, 0), FitLabel::Tight);
    assert_eq!(policy.classify(needs(100, 100), 200, 99), FitLabel::NotRecommended);
}
