use syntheticmind_dax::float_bits::{abs_positive, is_zero};
use syntheticmind_dax::orchestrator::SemanticScheduler;
use syntheticmind_dax::sm_tile::{
    ClusterUnit, GroupUnit, Region, RegionTable, SkimUnit,
};

fn ids(v: &[Region]) -> Vec<usize> {
    v.iter().map(|r| r.id).collect()
}

#[test]
fn region_changes_wait_for_commit() {
    let mut t = RegionTable::new();
    t.add_region(0);
    t.add_region(1);
    assert!(t.fetch_master().is_empty());
    t.apply_deltas();
    assert_eq!(ids(&t.fetch_master()), vec![0, 1]);
}

#[test]
fn fetch_reports_new_regions_once() {
    let mut t = RegionTable::new();
    t.add_region(0);
    t.add_region(1);
    t.apply_deltas();
    assert_eq!(ids(&t.fetch_regions()), vec![0, 1]);
    assert!(t.fetch_regions().is_empty());
    t.add_region(2);
    t.apply_deltas();
    assert_eq!(ids(&t.fetch_regions()), vec![2]);
}

#[test]
fn remove_takes_every_copy_of_an_id() {
    let mut t = RegionTable::new();
    t.add_region(5);
    t.add_region(7);
    t.add_region(5);
    t.apply_deltas();
    t.remove_region(5);
    t.apply_deltas();
    assert_eq!(ids(&t.fetch_master()), vec![7]);
}

#[test]
fn deltas_apply_in_recorded_order() {
    let mut t = RegionTable::new();
    t.add_region(3);
    t.remove_region(3);
    t.add_region(3);
    t.apply_deltas();
    assert_eq!(ids(&t.fetch_master()), vec![3]);
    let mut u = RegionTable::new();
    u.remove_region(3);
    u.add_region(3);
    u.remove_region(3);
    u.apply_deltas();
    assert!(u.fetch_master().is_empty());
}

#[test]
fn fetch_skips_ids_already_seen() {
    let mut t = RegionTable::new();
    t.add_region(4);
    t.apply_deltas();
    let _ = t.fetch_regions();
    t.add_region(4);
    t.add_region(9);
    t.apply_deltas();
    assert_eq!(ids(&t.fetch_regions()), vec![9]);
}

#[test]
fn semantic_scheduler_leaves_the_table_alone() {
    let mut t = RegionTable::new();
    t.add_region(1);
    t.apply_deltas();
    SemanticScheduler::new().apply_to_regions(&mut t);
    assert_eq!(ids(&t.fetch_regions()), vec![1]);
    assert_eq!(ids(&t.fetch_master()), vec![1]);
}

#[test]
fn groups_pair_consecutive_regions() {
    let regions: Vec<Region> = (0..5).map(|id| Region { id: id * 10 }).collect();
    let groups = GroupUnit::new().form_groups(&regions);
    let got: Vec<Vec<usize>> = groups.iter().map(|g| g.region_indices.clone()).collect();
    assert_eq!(got, vec![vec![0, 1], vec![2, 3], vec![4]]);
    assert!(GroupUnit::new().form_groups(&[]).is_empty());
    let even = GroupUnit::new().form_groups(&regions[..4]);
    assert_eq!(even.len(), 2);
}

#[test]
fn one_cluster_holds_all_groups() {
    let regions: Vec<Region> = (0..3).map(|id| Region { id }).collect();
    let groups = GroupUnit::new().form_groups(&regions);
    let clusters = ClusterUnit::new().assign_clusters(groups);
    assert_eq!(clusters.len(), 1);
    assert_eq!(clusters[0].groups.len(), 2);
}

#[test]
fn skim_keeps_every_region() {
    let regions = vec![Region { id: 3 }, Region { id: 1 }];
    assert_eq!(ids(&SkimUnit::new().skim(&regions)), vec![3, 1]);
}

#[test]
fn float_bits_predicates_match_f32() {
    for v in [0.0f32, -0.0, 1.0, -2.5, f32::INFINITY, f32::NEG_INFINITY, f32::NAN, 1e-45, -1e-45, f32::MAX] {
        assert_eq!(is_zero(v.to_bits()), v == 0.0, "is_zero {}", v);
        assert_eq!(abs_positive(v.to_bits()), v.abs() > 0.0, "abs_positive {}", v);
    }
    assert!(!abs_positive((-f32::NAN).to_bits()));
}
