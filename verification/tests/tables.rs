use wgpu_renderer::data_table::{DataTable, DynVec, VecKind};
use wgpu_renderer::data_view::{DataView, DirtyVec};
use wgpu_renderer::instance::{InstanceGroup, InstanceMut, InstanceTemplate};
use wgpu_renderer::layout::{AttributeSpec, VertexFormat};

fn plain(values: Vec<u32>) -> DynVec<u32> {
    DynVec::Plain(values)
}

fn dirty(values: Vec<u32>) -> DynVec<u32> {
    DynVec::Dirty(DirtyVec::from_vec(values))
}

#[test]
fn data_view_tracks_changes() {
    let mut v = DataView::new(3u32);
    assert!(v.is_dirty());
    v.mark_clean();
    assert!(!v.is_dirty());
    v.set(5);
    assert!(v.is_dirty());
    assert_eq!(*v.get(), 5);
}

#[test]
fn dirty_vec_swap_remove_marks_moved_element() {
    let mut d = DirtyVec::from_vec(vec![1u32, 2, 3]);
    d.mark_clean(0);
    d.mark_clean(1);
    d.mark_clean(2);
    d.swap_remove(0);
    assert_eq!(d.len(), 2);
    assert_eq!(*d.value_ref(0), 3);
    assert!(d.is_dirty(0));
    assert!(!d.is_dirty(1));
    // out of range is ignored
    d.swap_remove(10);
    assert_eq!(d.len(), 2);
}

#[test]
fn push_to_appends_then_reads_back() {
    let mut t: DataTable<u32> = DataTable::new(2);
    t.add_property("hp", |_| plain(Vec::new()));
    assert_eq!(t.push_to("hp", VecKind::Plain, 10), Ok(()));
    match t.get_property("hp", VecKind::Plain) {
        Some(DynVec::Plain(v)) => assert_eq!(v, &vec![10u32]),
        _ => panic!("expected a plain column"),
    }
}

#[test]
fn push_to_reports_full_table() {
    let mut t: DataTable<u32> = DataTable::new(1);
    t.add_property("hp", |_| plain(Vec::new()));
    assert_eq!(t.push_to("hp", VecKind::Plain, 1), Ok(()));
    assert_eq!(
        t.push_to("hp", VecKind::Plain, 2),
        Err("Table is at max capacity, cannot insert data into stream 'hp'".to_string())
    );
    assert_eq!(t.property_len("hp"), Some(1));
}

#[test]
fn push_to_reports_missing_stream() {
    let mut t: DataTable<u32> = DataTable::new(4);
    t.add_property("hp", |_| plain(Vec::new()));
    assert_eq!(
        t.push_to("mp", VecKind::Plain, 1),
        Err("Expected stream with key 'mp', but none was found.".to_string())
    );
    // a column of another kind counts as missing
    assert_eq!(
        t.push_to("hp", VecKind::Dirty, 1),
        Err("Expected stream with key 'hp', but none was found.".to_string())
    );
}

#[test]
fn add_property_keeps_existing_column() {
    let mut t: DataTable<u32> = DataTable::new(4);
    t.add_property("a", |_| plain(vec![1]));
    t.add_property("a", |_| plain(vec![7, 8]));
    assert_eq!(t.property_len("a"), Some(1));
    assert_eq!(t.keys(), vec!["a".to_string()]);
}

#[test]
fn swap_remove_keeps_rows_aligned() {
    let mut t: DataTable<u32> = DataTable::new(4)
        .with_property("x", |_| plain(vec![1, 2, 3]))
        .with_property("y", |_| dirty(vec![10, 20, 30]));
    t.swap_remove(0);
    match t.get_property("x", VecKind::Plain) {
        Some(DynVec::Plain(v)) => assert_eq!(v, &vec![3u32, 2]),
        _ => panic!("expected x"),
    }
    match t.get_property("y", VecKind::Dirty) {
        Some(DynVec::Dirty(d)) => {
            assert_eq!(*d.value_ref(0), 30);
            assert_eq!(*d.value_ref(1), 20);
        },
        _ => panic!("expected y"),
    }
}

#[test]
fn reset_and_clear() {
    let mut t: DataTable<u32> = DataTable::new(4).with_property("x", |_| plain(vec![1, 2]));
    t.reset_properties();
    assert_eq!(t.property_len("x"), Some(0));
    t.clear();
    assert_eq!(t.num_properties(), 0);
    assert_eq!(t.capacity(), 4);
}

#[test]
fn proxy_borrows_end_with_their_reference() {
    let mut t: DataTable<u32> = DataTable::new(4)
        .with_property("x", |_| plain(vec![1, 2]))
        .with_property("y", |_| plain(vec![3, 4]));
    {
        let mut proxy = t.borrow_mut();
        if let Some(DynVec::Plain(x)) = proxy.get_property_mut("x", VecKind::Plain) {
            x[0] = 10;
        }
        // the first borrow ended with its reference, so the column is free again
        assert!(proxy.get_property_mut("x", VecKind::Plain).is_some());
        // a lookup of the wrong kind finds nothing and leaves the column free
        assert!(proxy.get_property_mut("x", VecKind::Dirty).is_none());
        assert!(proxy.get_property_mut("x", VecKind::Plain).is_some());
        // two different columns at once, but never the same one twice
        assert!(proxy.get_properties_mut("x", VecKind::Plain, "x", VecKind::Plain).is_none());
        assert!(proxy.get_properties_mut("x", VecKind::Plain, "z", VecKind::Plain).is_none());
        if let Some((DynVec::Plain(x), DynVec::Plain(y))) = proxy.get_properties_mut("x", VecKind::Plain, "y", VecKind::Plain) {
            std::mem::swap(&mut x[1], &mut y[1]);
        }
    }
    assert!(matches!(t.get_property("x", VecKind::Plain), Some(DynVec::Plain(v)) if *v == vec![10, 4]));
    assert!(matches!(t.get_property("y", VecKind::Plain), Some(DynVec::Plain(v)) if *v == vec![3, 2]));
}

fn rows(n: usize) -> Vec<Vec<u8>> {
    (0..n).map(|i| vec![i as u8; 16]).collect()
}

fn group() -> InstanceGroup<u32> {
    let attr = AttributeSpec { name: "tint".to_string(), format: VertexFormat::Float32x4, count: 1 };
    InstanceGroup::new(3, 8).with_attribute(attr, vec![1, 2, 3])
}

#[test]
fn updates_cover_dirty_runs_once() {
    let mut g = group();
    let updates = g.get_updated(&rows(3));
    assert_eq!(updates.len(), 1);
    assert_eq!(updates[0].offset, 0);
    assert_eq!(updates[0].data.len(), 48);
    assert_eq!(&updates[0].data[16..32], &[1u8; 16]);
    // nothing changed since: no updates
    assert!(g.get_updated(&rows(3)).is_empty());
}

#[test]
fn updates_split_at_clean_instances() {
    let mut g = group();
    let _ = g.get_updated(&rows(3));
    {
        let mut first = InstanceMut::new(g.get_instances_mut(), 0);
        assert!(first.set_attribute("tint", 9));
    }
    {
        let mut last = InstanceMut::new(g.get_instances_mut(), 2);
        assert!(last.set_attribute("tint", 9));
    }
    let updates = g.get_updated(&rows(3));
    assert_eq!(updates.len(), 2);
    assert_eq!(updates[0].offset, 0);
    assert_eq!(updates[0].data, vec![0u8; 16]);
    assert_eq!(updates[1].offset, 32);
    assert_eq!(updates[1].data, vec![2u8; 16]);
}

#[test]
fn instances_are_added_from_templates() {
    let mut g = group();
    let template = InstanceTemplate::new().with_attribute("tint", 7u32);
    g.add_instance(template);
    assert_eq!(g.count(), 4);
    let inst = g.get_instance(3).unwrap();
    assert_eq!(*inst.get_attribute("tint").unwrap().get(), 7);
    g.remove_instance(0);
    assert_eq!(g.count(), 3);
    assert_eq!(*g.get_instance(0).unwrap().get_attribute("tint").unwrap().get(), 7);
    g.clear_instances();
    assert_eq!(g.count(), 0);
}

#[test]
fn template_defaults() {
    let t = InstanceTemplate::<u32>::new().with_attribute("a", 5);
    assert_eq!(t.attributes(), vec!["a".to_string()]);
}

#[test]
fn mutable_instances_write_through() {
    let mut g = group();
    let _ = g.get_updated(&rows(3));
    {
        let mut inst = g.get_instance_mut(1).unwrap();
        let tint = inst.get_attribute_mut("tint").unwrap();
        assert_eq!(*tint.get(), 2);
        assert!(!tint.is_dirty());
        tint.set(20);
        assert!(inst.get_attribute_mut("missing").is_none());
        assert!(inst.get_transform_mut().is_none());
    }
    assert!(g.get_instance_mut(3).is_none());
    assert_eq!(*g.get_instance(1).unwrap().get_attribute("tint").unwrap().get(), 20);
    let updates = g.get_updated(&rows(3));
    assert_eq!(updates.len(), 1);
    assert_eq!(updates[0].offset, 16);
    {
        let column = g.get_attribute_mut("tint").unwrap();
        column.set(0, 10);
    }
    assert!(g.get_attribute_mut("missing").is_none());
    assert_eq!(*g.get_instance(0).unwrap().get_attribute("tint").unwrap().get(), 10);
}

#[test]
fn transforms_are_attributes_too() {
    let mut template = InstanceTemplate::<u32>::new().with_transform(4);
    assert_eq!(template.attributes(), vec!["transform".to_string()]);
    template.set_transform(6);
    let attr = AttributeSpec { name: "transform".to_string(), format: VertexFormat::Float32x4, count: 4 };
    let mut g = InstanceGroup::new(1, 4).with_attribute(attr, vec![1u32]);
    g.add_instance(template);
    let mut inst = g.get_instance_mut(1).unwrap();
    assert_eq!(*inst.transform_mut().get(), 6);
    inst.transform_mut().set(8);
    assert_eq!(*inst.get_transform_mut().unwrap().get(), 8);
    assert_eq!(*g.get_instance(1).unwrap().transform().get(), 8);
}

#[test]
fn templates_copy_every_attribute() {
    let template = InstanceTemplate::<u32>::new().with_attribute("a", 5).with_attribute("b", 6);
    let copy = template.duplicate();
    assert_eq!(copy.attributes(), vec!["a".to_string(), "b".to_string()]);
    let mut g = group();
    g.add_instance(copy.duplicate());
    g.add_instance(template);
    assert_eq!(g.count(), 5);
    assert_eq!(*g.get_instance(3).unwrap().get_attribute("tint").unwrap().get(), 0);
}
