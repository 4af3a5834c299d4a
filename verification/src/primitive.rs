use vstd::prelude::*;
use crate::geometry::Geometry;
use crate::ids::IdCounter;
use crate::instance::{Instance, InstanceGroup, InstanceMut, InstanceTemplate};
use crate::layout::{attr_bytes, total_locations, TransformAttribute};
use crate::material::{binding_key, material_updates, Material, MaterialComponent, UniformBuilder};
use crate::packing::ResourceUpdate;
use crate::render_pipeline::RenderPipelineBuilder;
use crate::resources::{same_type, GeometryID, ResourceBinding, ResourceID, ResourceScope, ResourceType};
use crate::text::{concat2, decimal, owned, u32_to_string};

verus! {

/// `Vec::capacity`: how many elements the vector has room for, at least its length.
#[verifier::external_body]
fn vec_capacity<T>(v: &Vec<T>) -> (c: usize)
    ensures
        c >= v@.len(),
{
    v.capacity()
}

/// How a primitive is drawn: the path of its shader and its pipeline.
pub struct RenderInfo {
    pub shader_path: String,
    pub pipeline: RenderPipelineBuilder,
}

/// A resource key namespaced to a primitive: the geometry label, `_`, the
/// primitive's id, `::`, and the key.
pub open spec fn primitive_key(geometry_label: Seq<char>, id: u32, key: Seq<char>) -> Seq<char> {
    geometry_label + "_"@ + decimal(id as nat) + "::"@ + key
}

/// Instances of renderable geometry with a material.
pub struct Primitive<T, C> {
    id: u32,
    pub label: String,
    pub geometry: Geometry<T>,
    pub instances: InstanceGroup<T>,
    pub material: Material<C>,
    pub render_info: RenderInfo,
}

impl<T, C: MaterialComponent> Primitive<T, C> {
    /// The id of the primitive.
    pub closed spec fn spec_id(&self) -> u32 {
        self.id
    }

    /// The geometry.
    pub closed spec fn geo(&self) -> Geometry<T> {
        self.geometry
    }

    /// The instances.
    pub closed spec fn insts(&self) -> InstanceGroup<T> {
        self.instances
    }

    /// The material.
    pub closed spec fn mat(&self) -> Material<C> {
        self.material
    }

    /// How the primitive is drawn.
    pub closed spec fn info(&self) -> RenderInfo {
        self.render_info
    }

    /// The label.
    pub closed spec fn spec_label(&self) -> Seq<char> {
        self.label@
    }

    /// The instance group and the geometry are well formed.
    pub open spec fn wf(&self) -> bool {
        self.insts().wf() && self.geo().wf()
    }

    /// A key namespaced to this primitive.
    pub open spec fn namespaced(&self, key: Seq<char>) -> Seq<char> {
        primitive_key(self.geo().data().label@, self.spec_id(), key)
    }

    /// A primitive over a custom instance group, taking its id from `ids`.
    pub fn from_group(ids: &mut IdCounter, label: &str, geometry: Geometry<T>, material: Material<C>, instances: InstanceGroup<T>, render_info: RenderInfo) -> (p: Self)
        ensures
            p.spec_id() == old(ids)@,
            final(ids)@ == (if old(ids)@ == u32::MAX { 0 } else { (old(ids)@ + 1) as u32 }),
            p.spec_label() == label@,
            p.geo() == geometry,
            p.insts() == instances,
            p.mat() == material,
            p.info() == render_info,
    {
        let id = ids.next_id();
        Primitive { id, label: owned(label), geometry, material, instances, render_info }
    }

    /// A primitive with a single instance, holding `transform`.
    pub fn new(ids: &mut IdCounter, label: &str, geometry: Geometry<T>, material: Material<C>, transform: T, render_info: RenderInfo) -> (p: Self)
        ensures
            p.spec_id() == old(ids)@,
            p.spec_label() == label@,
            p.insts().wf(),
            p.insts().spec_label() == label@,
            p.insts().spec_count() == 1,
            p.insts().table().spec_capacity() == 1,
            p.insts().layout().attribute_seq().len() == 1,
            p.insts().table().key_seq().len() == 1,
            p.insts().table().column_seq()[0].values() == seq![transform],
    {
        let attr = TransformAttribute.spec();
        let mut data: Vec<T> = Vec::new();
        data.push(transform);
        proof {
            assert(attr_bytes(attr) == 64);
        }
        let instances = InstanceGroup::new(1, 1).with_label(label).with_attribute(attr, data);
        proof {
            assert(instances.table().key_seq() =~= seq![attr.name@]);
        }
        Primitive::from_group(ids, label, geometry, material, instances, render_info)
    }

    /// A primitive with one instance per transform.
    pub fn new_instanced(ids: &mut IdCounter, label: &str, geometry: Geometry<T>, material: Material<C>, transforms: Vec<T>, render_info: RenderInfo) -> (p: Self)
        ensures
            p.spec_id() == old(ids)@,
            p.spec_label() == label@,
            p.insts().wf(),
            p.insts().spec_label() == label@,
            p.insts().spec_count() == transforms@.len(),
            p.insts().table().spec_capacity() >= transforms@.len(),
            p.insts().layout().attribute_seq().len() == 1,
            p.insts().table().key_seq().len() == 1,
            p.insts().table().column_seq()[0].values() == transforms@,
    {
        let attr = TransformAttribute.spec();
        let count = transforms.len();
        let capacity = vec_capacity(&transforms);
        proof {
            assert(attr_bytes(attr) == 64);
        }
        let instances = InstanceGroup::new(count, capacity).with_label(label).with_attribute(attr, transforms);
        proof {
            assert(instances.table().key_seq() =~= seq![attr.name@]);
        }
        Primitive::from_group(ids, label, geometry, material, instances, render_info)
    }

    /// An empty template of this primitive's instances: one empty attribute
    /// of the same kind per attribute of the instances.
    pub fn get_template(&self) -> (t: InstanceTemplate<T>)
        requires
            self.insts().wf(),
        ensures
            t.wf(),
            t.data.key_seq() == self.insts().table().key_seq(),
            forall|j: int| 0 <= j < t.data.key_seq().len() ==> {
                let k = #[trigger] t.data.key_seq()[j];
                &&& t.data.column(k).kind() == self.insts().table().column_seq()[j].kind()
                &&& t.data.column(k).spec_len() == 0
            },
    {
        let table = self.instances.get_instances();
        let ghost ks = table.key_seq();
        let mut template: InstanceTemplate<T> = InstanceTemplate::new();
        let n = table.num_properties();
        let mut i: usize = 0;
        proof {
            assert(template.data.key_seq() =~= ks.take(0));
        }
        while i < n
            invariant
                table.wf(),
                ks == table.key_seq(),
                n == ks.len(),
                i <= n,
                template.wf(),
                template.data.key_seq() == ks.take(i as int),
                forall|j: int| 0 <= j < i ==> {
                    let k = #[trigger] ks[j];
                    &&& template.data.column(k).kind() == table.column_seq()[j].kind()
                    &&& template.data.column(k).spec_len() == 0
                },
            decreases n - i,
        {
            let key = table.key_at(i);
            let column = table.column_at(i).clone_empty();
            let ghost before = template.data;
            proof {
                assert(!before.has_key(key@)) by {
                    if before.has_key(key@) {
                        let j = before.key_index(key@);
                        assert(ks[j] == ks[i as int]);
                    }
                }
            }
            template.set_attribute_vec(key.as_str(), column);
            proof {
                assert(template.data.key_seq() =~= ks.take(i + 1));
                assert forall|j: int| 0 <= j < i + 1 implies {
                    let k = #[trigger] ks[j];
                    &&& template.data.column(k).kind() == table.column_seq()[j].kind()
                    &&& template.data.column(k).spec_len() == 0
                } by {
                    if j < i {
                        assert(ks[j] != key@);
                        assert(before.has_key(ks[j])) by {
                            assert(before.key_seq()[j] == ks[j]);
                        }
                    }
                }
            }
            i = i + 1;
        }
        proof {
            assert(ks.take(n as int) =~= ks);
            assert forall|j: int| 0 <= j < template.data.key_seq().len() implies {
                let k = #[trigger] template.data.key_seq()[j];
                &&& template.data.column(k).kind() == self.instances.table().column_seq()[j].kind()
                &&& template.data.column(k).spec_len() == 0
            } by {
                assert(template.data.key_seq()[j] == ks[j]);
            }
        }
        template
    }

    /// The first instance, if there is one.
    pub fn get_first(&self) -> (r: Option<Instance<'_, T>>)
        ensures
            self.insts().spec_count() == 0 ==> r is None,
            self.insts().spec_count() > 0 ==> (r matches Some(i) && i.index == 0 && *i.data == self.insts().table()),
    {
        self.instances.get_instance(0)
    }

    /// The first instance; there must be one.
    pub fn first(&self) -> (r: Instance<'_, T>)
        requires
            self.insts().spec_count() > 0,
        ensures
            r.index == 0,
            *r.data == self.insts().table(),
    {
        match self.instances.get_instance(0) {
            Some(i) => i,
            None => {
                proof {
                    assert(false);
                }
                Instance::new(self.instances.get_instances(), 0)
            },
        }
    }

    /// The first instance, mutably, if there is one.
    pub fn get_first_mut(&mut self) -> (r: Option<InstanceMut<'_, T>>)
        ensures
            old(self).insts().spec_count() == 0 ==> r is None && *final(self) == *old(self),
            old(self).insts().spec_count() > 0 ==> (r matches Some(i) && i.index == 0
                && *i.data == old(self).insts().table()),
    {
        if self.instances.count() == 0 {
            return None;
        }
        Some(InstanceMut::new(self.instances.get_instances_mut(), 0))
    }

    /// The first instance, mutably; there must be one.
    pub fn first_mut(&mut self) -> (r: InstanceMut<'_, T>)
        requires
            old(self).insts().spec_count() > 0,
        ensures
            r.index == 0,
            *r.data == old(self).insts().table(),
    {
        InstanceMut::new(self.instances.get_instances_mut(), 0)
    }

    /// Namespace a resource key to this primitive.
    fn primitive_namespace(&self, resource_key: &String) -> (r: String)
        ensures
            r@ == self.namespaced(resource_key@),
    {
        let label = self.geometry.get_label();
        let id = u32_to_string(self.id);
        let head = concat2(label.as_str(), "_");
        let head = concat2(head.as_str(), id.as_str());
        let head = concat2(head.as_str(), "::");
        let r = concat2(head.as_str(), resource_key.as_str());
        proof {
            assert(r@ =~= self.namespaced(resource_key@));
        }
        r
    }

    /// The id of this primitive's instance buffer.
    pub fn instance_id(&self) -> (id: ResourceID)
        requires
            self.insts().wf(),
            self.insts().layout().base_location() + total_locations(self.insts().layout().attribute_seq()) <= u32::MAX,
        ensures
            id.key@ == self.namespaced(self.insts().spec_label()),
            id.scope == ResourceScope::Primitive,
            id.r_type matches ResourceType::Instance(b) && b.label@ == self.insts().spec_label()
                && b.step_mode == self.insts().layout().spec_step_mode()
                && b.curr_offset == self.insts().layout().spec_stride(),
    {
        let label = self.instances.get_label();
        ResourceID {
            key: self.primitive_namespace(&label),
            scope: ResourceScope::Primitive,
            r_type: ResourceType::Instance(self.instances.get_layout_builder()),
        }
    }

    /// The ids of this primitive's geometry buffers.
    pub fn geometry_id(&self) -> (ids: GeometryID)
        requires
            self.geo().wf(),
            self.geo().layout().base_location() + total_locations(self.geo().layout().attribute_seq()) <= u32::MAX,
        ensures
            ids.vertex_id.key@ == crate::geometry::vertices_key(self.geo().data().label@),
            ids.index_id.key@ == crate::geometry::indices_key(self.geo().data().label@),
            ids.indices == self.geo().data().indices@.len() as u32,
    {
        self.geometry.get_ids()
    }

    /// The id of this primitive's material bind group.
    pub fn material_id(&self) -> (id: ResourceID)
        ensures
            id.key@ == self.namespaced(self.geo().data().label@),
            id.scope == ResourceScope::Primitive,
            id.r_type == ResourceType::BindGroup,
    {
        let label = self.geometry.get_label();
        ResourceID { key: self.primitive_namespace(&label), scope: ResourceScope::Primitive, r_type: ResourceType::BindGroup }
    }

    /// The uniforms of this primitive's material; those scoped to the
    /// primitive are namespaced to it.
    pub fn get_uniforms(&self) -> (r: Vec<(ResourceBinding, UniformBuilder)>)
        requires
            self.mat().comps().len() <= u32::MAX,
        ensures
            r@.len() == self.mat().comps().len(),
            forall|i: int| 0 <= i < r@.len() ==> {
                let c = self.mat().comps()[i];
                let k = binding_key(self.mat().key(), c.id_key(), c.id_scope());
                &&& (#[trigger] r@[i]).0.slot == i
                &&& r@[i].0.id.scope == c.id_scope()
                &&& r@[i].0.id.key@ == (if c.id_scope() == ResourceScope::Primitive { self.namespaced(k) } else { k })
                &&& same_type(r@[i].0.id.r_type, c.id_type())
                &&& c.builds(r@[i].1)
            },
    {
        let uniforms = self.material.get_uniforms();
        let ghost us = uniforms@;
        let mut out: Vec<(ResourceBinding, UniformBuilder)> = Vec::new();
        let mut rest = uniforms;
        let n = rest.len();
        let mut i: usize = 0;
        while i < n
            invariant
                n == us.len(),
                i <= n,
                rest@ == us.subrange(i as int, n as int),
                out@.len() == i,
                forall|j: int| 0 <= j < i ==> {
                    &&& (#[trigger] out@[j]).0.slot == us[j].0.slot
                    &&& out@[j].0.id.scope == us[j].0.id.scope
                    &&& out@[j].0.id.key@ == (if us[j].0.id.scope == ResourceScope::Primitive {
                        self.namespaced(us[j].0.id.key@)
                    } else {
                        us[j].0.id.key@
                    })
                    &&& out@[j].0.id.r_type == us[j].0.id.r_type
                    &&& out@[j].1 == us[j].1
                },
            decreases n - i,
        {
            let (binding, builder) = rest.remove(0);
            proof {
                assert(us.subrange(i as int, n as int)[0] == us[i as int]);
            }
            let key = match binding.id.scope {
                ResourceScope::Primitive => self.primitive_namespace(&binding.id.key),
                _ => binding.id.key,
            };
            let id = ResourceID { key, scope: binding.id.scope, r_type: binding.id.r_type };
            out.push((ResourceBinding { id, slot: binding.slot }, builder));
            i = i + 1;
            proof {
                assert(rest@ =~= us.subrange(i as int, n as int));
            }
        }
        out
    }

    /// The changed uniform data of this primitive's material; the updates
    /// scoped to the primitive are namespaced to it.
    pub fn uniform_updates(&mut self) -> (updated: Vec<(ResourceID, ResourceUpdate)>)
        ensures
            final(self).spec_id() == old(self).spec_id(),
            final(self).spec_label() == old(self).spec_label(),
            final(self).geo() == old(self).geo(),
            final(self).insts() == old(self).insts(),
            final(self).info() == old(self).info(),
            final(self).mat().spec_id() == old(self).mat().spec_id(),
            final(self).mat().spec_label() == old(self).mat().spec_label(),
            final(self).mat().comps().len() == old(self).mat().comps().len(),
            forall|i: int| 0 <= i < old(self).mat().comps().len() ==> {
                &&& #[trigger] final(self).mat().comps()[i].id_key() == old(self).mat().comps()[i].id_key()
                &&& final(self).mat().comps()[i].id_scope() == old(self).mat().comps()[i].id_scope()
                &&& final(self).mat().comps()[i].vis_type() == old(self).mat().comps()[i].vis_type()
                &&& final(self).mat().comps()[i].pending_update() is None
            },
            updated@.len() == material_updates(old(self).mat().key(), old(self).mat().comps()).len(),
            forall|j: int| 0 <= j < updated@.len() ==> {
                let e = material_updates(old(self).mat().key(), old(self).mat().comps())[j];
                &&& (#[trigger] updated@[j]).0.scope == e.1
                &&& updated@[j].0.key@ == (if e.1 == ResourceScope::Primitive { old(self).namespaced(e.0) } else { e.0 })
                &&& updated@[j].1.data@ == e.2
                &&& updated@[j].1.offset == 0
                &&& same_type(updated@[j].0.r_type, e.3)
            },
    {
        let updates = self.material.get_updated();
        let ghost us = updates@;
        let ghost m1 = self.material;
        let mut out: Vec<(ResourceID, ResourceUpdate)> = Vec::new();
        let mut rest = updates;
        let n = rest.len();
        let mut i: usize = 0;
        while i < n
            invariant
                n == us.len(),
                i <= n,
                rest@ == us.subrange(i as int, n as int),
                out@.len() == i,
                self.geometry == old(self).geometry,
                self.id == old(self).id,
                self.label == old(self).label,
                self.instances == old(self).instances,
                self.render_info == old(self).render_info,
                self.material == m1,
                forall|j: int| 0 <= j < i ==> {
                    &&& (#[trigger] out@[j]).0.scope == us[j].0.scope
                    &&& out@[j].0.key@ == (if us[j].0.scope == ResourceScope::Primitive {
                        old(self).namespaced(us[j].0.key@)
                    } else {
                        us[j].0.key@
                    })
                    &&& out@[j].1 == us[j].1
                    &&& out@[j].0.r_type == us[j].0.r_type
                },
            decreases n - i,
        {
            let (id, update) = rest.remove(0);
            proof {
                assert(us.subrange(i as int, n as int)[0] == us[i as int]);
            }
            let key = match id.scope {
                ResourceScope::Primitive => self.primitive_namespace(&id.key),
                _ => id.key,
            };
            out.push((ResourceID { key, scope: id.scope, r_type: id.r_type }, update));
            i = i + 1;
            proof {
                assert(rest@ =~= us.subrange(i as int, n as int));
            }
        }
        out
    }
}

} // verus!
