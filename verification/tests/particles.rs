use wgpu_renderer::data_table::{DataTable, DynVec, VecKind};
use wgpu_renderer::instance::InstanceGroup;
use wgpu_renderer::layout::{AttributeSpec, VertexFormat};
use wgpu_renderer::particle::{remove_dead, remove_rows};

fn particles(values: Vec<u32>) -> (InstanceGroup<u32>, DataTable<u32>) {
    let attr = AttributeSpec { name: "tint".to_string(), format: VertexFormat::Float32x4, count: 1 };
    let n = values.len();
    let mut g = InstanceGroup::new(n, 8).with_attribute(attr, values.clone());
    let _ = g.get_updated(&vec![vec![0u8; 16]; n]);
    let ages: Vec<u32> = values.iter().map(|v| v * 10).collect();
    let mut props: DataTable<u32> = DataTable::new(8);
    props.add_property("age", move |_| DynVec::Plain(ages));
    (g, props)
}

fn tints(g: &InstanceGroup<u32>) -> Vec<u32> {
    (0..g.count()).map(|i| *g.get_instance(i).unwrap().get_attribute("tint").unwrap().get()).collect()
}

fn ages(t: &DataTable<u32>) -> Vec<u32> {
    match t.get_property("age", VecKind::Plain) {
        Some(DynVec::Plain(v)) => v.clone(),
        _ => panic!("expected a plain column"),
    }
}

#[test]
fn dead_particles_are_removed_in_walking_order() {
    let (mut g, mut props) = particles(vec![1, 2, 3, 4, 5]);
    let remaining = remove_dead(&mut g, &mut props, vec![true, false, true, false, true]);
    assert_eq!(remaining, 2);
    assert_eq!(g.count(), 2);
    // row 0 dies, 5 moves in and dies, 4 moves in and lives; row 1 lives; row 2 dies last
    assert_eq!(tints(&g), vec![4, 2]);
    assert_eq!(ages(&props), vec![40, 20]);
    assert!(g.get_instance(0).unwrap().get_attribute("tint").unwrap().is_dirty());
    assert!(!g.get_instance(1).unwrap().get_attribute("tint").unwrap().is_dirty());
}

#[test]
fn nothing_dead_changes_nothing() {
    let (mut g, mut props) = particles(vec![7, 8]);
    assert_eq!(remove_dead(&mut g, &mut props, vec![false, false]), 2);
    assert_eq!(tints(&g), vec![7, 8]);
    assert_eq!(ages(&props), vec![70, 80]);
    let (mut g, mut props) = particles(vec![7, 8]);
    assert_eq!(remove_dead(&mut g, &mut props, vec![true, true]), 0);
    assert_eq!(g.count(), 0);
    assert!(ages(&props).is_empty());
}

#[test]
fn listed_rows_are_removed_last_first() {
    let (mut g, mut props) = particles(vec![1, 2, 3, 4, 5]);
    let remaining = remove_rows(&mut g, &mut props, &vec![0, 1]);
    assert_eq!(remaining, 3);
    // row 1 takes 5, then row 0 takes 4
    assert_eq!(tints(&g), vec![4, 5, 3]);
    assert_eq!(ages(&props), vec![40, 50, 30]);
    let (mut g, mut props) = particles(vec![1, 2, 3]);
    assert_eq!(remove_rows(&mut g, &mut props, &vec![]), 3);
    assert_eq!(tints(&g), vec![1, 2, 3]);
}
