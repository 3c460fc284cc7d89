use three_rs::occlusion::{occluded_objects, plan_query_set, query_objects, settled, MapState, QuerySetPlan};

#[test]
fn one_query_per_run_of_a_tested_object() {
    let draws = [
        (None, false),
        (Some(1), false),
        (Some(2), true),
        (Some(2), true),
        (Some(3), false),
        (Some(2), true),
    ];
    assert_eq!(query_objects(&draws), vec![2, 2]);
}

#[test]
fn no_tested_object_no_query() {
    let draws = [(Some(1), false), (Some(2), false)];
    assert!(query_objects(&draws).is_empty());
}

#[test]
fn a_renderer_draw_never_opens_a_query() {
    let draws = [(None, true), (Some(4), true), (None, true), (Some(4), true)];
    assert_eq!(query_objects(&draws), vec![4, 4]);
}

fn results(counts: &[u64]) -> Vec<u8> {
    counts.iter().flat_map(|c| c.to_ne_bytes()).collect()
}

#[test]
fn the_objects_that_counted_no_samples_are_occluded() {
    let bytes = results(&[0, 12, 0, 1]);
    assert_eq!(occluded_objects(&[7, 8, 9, 10], &bytes), vec![7, 9]);
    // A count whose only non-zero byte is the last is still a count.
    let mut bytes = results(&[0, 0]);
    bytes[15] = 1;
    assert_eq!(occluded_objects(&[1, 2], &bytes), vec![1]);
}

#[test]
fn objects_without_a_result_have_no_answer() {
    let bytes = results(&[0]);
    assert_eq!(occluded_objects(&[3, 4, 5], &bytes), vec![3]);
    assert!(occluded_objects(&[3], &[]).is_empty());
}

#[test]
fn a_query_set_is_dropped_reused_or_made_to_size() {
    assert_eq!(plan_query_set(Some(8), 0), QuerySetPlan::Drop);
    assert_eq!(plan_query_set(None, 0), QuerySetPlan::Drop);
    assert_eq!(plan_query_set(Some(8), 8), QuerySetPlan::Reuse);
    assert_eq!(plan_query_set(Some(8), 3), QuerySetPlan::Reuse);
    assert_eq!(plan_query_set(Some(2), 3), QuerySetPlan::Create(3));
    assert_eq!(plan_query_set(None, 5), QuerySetPlan::Create(5));
}

#[test]
fn read_backs_retire_in_order_up_to_the_first_waiting() {
    let (mapped, failed, waiting) = (MapState::Mapped, MapState::Failed, MapState::Waiting);
    assert_eq!(settled(&[mapped, failed, waiting, mapped]), 2);
    assert_eq!(settled(&[waiting, mapped]), 0);
    assert_eq!(settled(&[mapped, mapped]), 2);
    assert_eq!(settled(&[]), 0);
}
