use statusline::coordinator::{sampling_plan, Step};
use statusline::request::{MetricKind, MetricRequest};

fn wait_count(plan: &[Step]) -> usize {
    plan.iter().filter(|s| matches!(s, Step::Wait)).count()
}

#[test]
fn no_selection_yields_no_kinds() {
    let req = MetricRequest::new(false, false, false, false, false, false);
    assert_eq!(req.kinds(), vec![]);
}

#[test]
fn all_selected_yields_canonical_order() {
    let req = MetricRequest::new(true, true, true, true, true, true);
    assert_eq!(
        req.kinds(),
        vec![
            MetricKind::PerCpuPercent,
            MetricKind::AvgCpuPercent,
            MetricKind::VirtualMemory,
            MetricKind::SwapMemory,
            MetricKind::DiskIo,
            MetricKind::NetIo,
        ]
    );
}

#[test]
fn order_is_canonical_not_flag_order() {
    // The same selection however the flags were given on the command line:
    // net and swap selected, net "first" — the report order may not change.
    let req = MetricRequest::new(false, false, false, true, false, true);
    assert_eq!(req.kinds(), vec![MetricKind::SwapMemory, MetricKind::NetIo]);
}

#[test]
fn selection_is_boolean_no_duplicates() {
    let req = MetricRequest::new(true, false, true, false, false, false);
    let kinds = req.kinds();
    assert_eq!(kinds.len(), 2);
    assert_eq!(kinds, vec![MetricKind::PerCpuPercent, MetricKind::VirtualMemory]);
}

#[test]
fn plan_has_one_wait_for_both_rate_kinds() {
    let req = MetricRequest::new(false, false, false, false, true, true);
    let plan = sampling_plan(&req);
    assert_eq!(wait_count(&plan), 1);
    assert_eq!(
        plan,
        vec![
            Step::FirstDiskSnapshot,
            Step::FirstNetSnapshot,
            Step::Wait,
            Step::SecondDiskSnapshot,
            Step::SecondNetSnapshot,
        ]
    );
}

#[test]
fn plan_has_one_wait_for_a_single_rate_kind() {
    let req = MetricRequest::new(false, false, false, false, true, false);
    let plan = sampling_plan(&req);
    assert_eq!(wait_count(&plan), 1);
    assert_eq!(
        plan,
        vec![Step::FirstDiskSnapshot, Step::Wait, Step::SecondDiskSnapshot]
    );
}

#[test]
fn plan_has_no_wait_without_rate_kinds() {
    let req = MetricRequest::new(true, true, true, true, false, false);
    let plan = sampling_plan(&req);
    assert_eq!(wait_count(&plan), 0);
    assert_eq!(
        plan,
        vec![Step::ReadPerCpu, Step::ReadAvgCpu, Step::ReadMemory, Step::ReadSwap]
    );
}

#[test]
fn full_plan_keeps_first_reads_before_the_wait() {
    let req = MetricRequest::new(true, true, true, true, true, true);
    let plan = sampling_plan(&req);
    assert_eq!(wait_count(&plan), 1);
    let wait_at = plan.iter().position(|s| matches!(s, Step::Wait)).unwrap();
    let first_disk = plan.iter().position(|s| matches!(s, Step::FirstDiskSnapshot)).unwrap();
    let first_net = plan.iter().position(|s| matches!(s, Step::FirstNetSnapshot)).unwrap();
    let second_disk = plan.iter().position(|s| matches!(s, Step::SecondDiskSnapshot)).unwrap();
    let second_net = plan.iter().position(|s| matches!(s, Step::SecondNetSnapshot)).unwrap();
    assert!(first_disk < wait_at && first_net < wait_at);
    assert!(wait_at < second_disk && wait_at < second_net);
}
