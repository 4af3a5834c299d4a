use vstd::prelude::*;
use std::sync::Arc;
use crate::bind_group::BindGroupResource;
use crate::handler::{touched, ResourceHandler, ResourceStatus};
use crate::resources::{ResourceID, ResourceType};

verus! {

/// Group binding number for global uniforms.
pub const GLOBAL_UNIFORMS: u32 = 0;
/// Group binding number for material uniforms.
pub const MATERIAL_UNIFORMS: u32 = 1;
/// Vertex slot number for vertex buffers.
pub const VERTEX_BUFFER: u32 = 0;
/// Vertex slot number for instance buffers.
pub const INSTANCE_BUFFER: u32 = 1;

/// The store of a rendering context that holds resources of some type.
#[derive(PartialEq, Eq, Structural, Clone, Copy, Debug)]
pub enum ResourceStore {
    Buffers,
    Textures,
    Samplers,
    Fonts,
    BindGroups,
}

/// Textures, samplers, fonts and bind groups have stores of their own; every
/// kind of buffer lives in the buffer store.
pub open spec fn store_of(t: ResourceType) -> ResourceStore {
    match t {
        ResourceType::Texture => ResourceStore::Textures,
        ResourceType::Sampler => ResourceStore::Samplers,
        ResourceType::Font => ResourceStore::Fonts,
        ResourceType::BindGroup => ResourceStore::BindGroups,
        _ => ResourceStore::Buffers,
    }
}

/// The store that holds resources of type `t`.
pub fn store_of_type(t: &ResourceType) -> (s: ResourceStore)
    ensures
        s == store_of(*t),
{
    match t {
        ResourceType::Texture => ResourceStore::Textures,
        ResourceType::Sampler => ResourceStore::Samplers,
        ResourceType::Font => ResourceStore::Fonts,
        ResourceType::BindGroup => ResourceStore::BindGroups,
        ResourceType::Uniform | ResourceType::Index | ResourceType::Storage
        | ResourceType::Vertex(_) | ResourceType::Instance(_) => ResourceStore::Buffers,
    }
}

/// What the stores hold, ready, under the id of one binding of a bind group:
/// a buffer, a texture view, the atlas view of a font, a sampler.
pub struct BindingLookup {
    pub slot: u32,
    pub buffer: Option<Arc<wgpu::Buffer>>,
    pub texture: Option<Arc<wgpu::TextureView>>,
    pub font_atlas: Option<Arc<wgpu::TextureView>>,
    pub sampler: Option<Arc<wgpu::Sampler>>,
}

/// The resources a lookup found, each bound to the binding's slot, in the
/// order buffer, texture, font atlas, sampler.
pub open spec fn found(l: BindingLookup) -> Seq<(u32, BindGroupResource)> {
    let b = match l.buffer {
        Some(x) => seq![(l.slot, BindGroupResource::Buffer(x))],
        None => Seq::empty(),
    };
    let t = match l.texture {
        Some(x) => seq![(l.slot, BindGroupResource::Texture(x))],
        None => Seq::empty(),
    };
    let f = match l.font_atlas {
        Some(x) => seq![(l.slot, BindGroupResource::Texture(x))],
        None => Seq::empty(),
    };
    let s = match l.sampler {
        Some(x) => seq![(l.slot, BindGroupResource::Sampler(x))],
        None => Seq::empty(),
    };
    b + t + f + s
}

/// The resources that the lookups found, lookup by lookup.
pub open spec fn all_found(ls: Seq<BindingLookup>) -> Seq<(u32, BindGroupResource)>
    decreases ls.len(),
{
    if ls.len() == 0 {
        Seq::empty()
    } else {
        all_found(ls.drop_last()) + found(ls.last())
    }
}

/// How many resources a lookup found: one for each of its buffer, texture,
/// font atlas and sampler that is present.
pub open spec fn resources_in(l: BindingLookup) -> nat {
    (if l.buffer is Some { 1nat } else { 0nat }) + (if l.texture is Some { 1nat } else { 0nat })
        + (if l.font_atlas is Some { 1nat } else { 0nat }) + (if l.sampler is Some { 1nat } else { 0nat })
}

/// Every resource a lookup finds is bound at the lookup's slot, each as the
/// kind of resource it is (a font atlas as a texture).
pub open spec fn binds_each(ls: Seq<BindingLookup>, pairs: Seq<(u32, BindGroupResource)>) -> bool {
    forall|i: int| 0 <= i < ls.len() ==> {
        &&& (#[trigger] ls[i]).buffer is Some ==> pairs.contains((ls[i].slot, BindGroupResource::Buffer(ls[i].buffer->0)))
        &&& ls[i].texture is Some ==> pairs.contains((ls[i].slot, BindGroupResource::Texture(ls[i].texture->0)))
        &&& ls[i].font_atlas is Some ==> pairs.contains((ls[i].slot, BindGroupResource::Texture(ls[i].font_atlas->0)))
        &&& ls[i].sampler is Some ==> pairs.contains((ls[i].slot, BindGroupResource::Sampler(ls[i].sampler->0)))
    }
}

/// Every lookup found exactly one resource.
pub open spec fn one_each(ls: Seq<BindingLookup>) -> bool {
    forall|i: int| 0 <= i < ls.len() ==> resources_in(#[trigger] ls[i]) == 1
}

/// What one lookup contributes: as many resources as it found, each at its slot.
proof fn lemma_found_one(l: BindingLookup)
    ensures
        found(l).len() == resources_in(l),
        l.buffer is Some ==> found(l).contains((l.slot, BindGroupResource::Buffer(l.buffer->0))),
        l.texture is Some ==> found(l).contains((l.slot, BindGroupResource::Texture(l.texture->0))),
        l.font_atlas is Some ==> found(l).contains((l.slot, BindGroupResource::Texture(l.font_atlas->0))),
        l.sampler is Some ==> found(l).contains((l.slot, BindGroupResource::Sampler(l.sampler->0))),
{
    let b: Seq<(u32, BindGroupResource)> = match l.buffer {
        Some(x) => seq![(l.slot, BindGroupResource::Buffer(x))],
        None => Seq::empty(),
    };
    let t: Seq<(u32, BindGroupResource)> = match l.texture {
        Some(x) => seq![(l.slot, BindGroupResource::Texture(x))],
        None => Seq::empty(),
    };
    let f: Seq<(u32, BindGroupResource)> = match l.font_atlas {
        Some(x) => seq![(l.slot, BindGroupResource::Texture(x))],
        None => Seq::empty(),
    };
    let s: Seq<(u32, BindGroupResource)> = match l.sampler {
        Some(x) => seq![(l.slot, BindGroupResource::Sampler(x))],
        None => Seq::empty(),
    };
    let all = b + t + f + s;
    assert(found(l) == all);
    if l.buffer is Some {
        assert(all[0] == b[0]);
    }
    if l.texture is Some {
        assert(all[b.len() as int] == t[0]);
    }
    if l.font_atlas is Some {
        assert(all[(b.len() + t.len()) as int] == f[0]);
    }
    if l.sampler is Some {
        assert(all[(b.len() + t.len() + f.len()) as int] == s[0]);
    }
}

/// Collecting the resources of a bind group's bindings: every resource a
/// lookup finds is collected, bound at the lookup's slot as the kind of
/// resource it is (a font's atlas as a texture); and when every lookup finds
/// exactly one resource, as many resources are collected as there are
/// bindings, so the bind group is made.
pub proof fn law_bind_group_collects(ls: Seq<BindingLookup>)
    ensures
        binds_each(ls, all_found(ls)),
        one_each(ls) ==> all_found(ls).len() == ls.len(),
    decreases ls.len(),
{
    if ls.len() > 0 {
        let prev = ls.drop_last();
        let l = ls.last();
        law_bind_group_collects(prev);
        lemma_found_one(l);
        let a = all_found(prev);
        let f = found(l);
        assert(all_found(ls) == a + f);
        assert forall|i: int| 0 <= i < ls.len() implies {
            &&& (#[trigger] ls[i]).buffer is Some ==> all_found(ls).contains((ls[i].slot, BindGroupResource::Buffer(ls[i].buffer->0)))
            &&& ls[i].texture is Some ==> all_found(ls).contains((ls[i].slot, BindGroupResource::Texture(ls[i].texture->0)))
            &&& ls[i].font_atlas is Some ==> all_found(ls).contains((ls[i].slot, BindGroupResource::Texture(ls[i].font_atlas->0)))
            &&& ls[i].sampler is Some ==> all_found(ls).contains((ls[i].slot, BindGroupResource::Sampler(ls[i].sampler->0)))
        } by {
            if i < ls.len() - 1 {
                assert(ls[i] == prev[i]);
                let li = prev[i];
                if li.buffer is Some {
                    let k = choose|k: int| 0 <= k < a.len() && a[k] == (li.slot, BindGroupResource::Buffer(li.buffer->0));
                    assert((a + f)[k] == a[k]);
                }
                if li.texture is Some {
                    let k = choose|k: int| 0 <= k < a.len() && a[k] == (li.slot, BindGroupResource::Texture(li.texture->0));
                    assert((a + f)[k] == a[k]);
                }
                if li.font_atlas is Some {
                    let k = choose|k: int| 0 <= k < a.len() && a[k] == (li.slot, BindGroupResource::Texture(li.font_atlas->0));
                    assert((a + f)[k] == a[k]);
                }
                if li.sampler is Some {
                    let k = choose|k: int| 0 <= k < a.len() && a[k] == (li.slot, BindGroupResource::Sampler(li.sampler->0));
                    assert((a + f)[k] == a[k]);
                }
            } else {
                assert(ls[i] == l);
                if l.buffer is Some {
                    let k = choose|k: int| 0 <= k < f.len() && f[k] == (l.slot, BindGroupResource::Buffer(l.buffer->0));
                    assert((a + f)[a.len() + k] == f[k]);
                }
                if l.texture is Some {
                    let k = choose|k: int| 0 <= k < f.len() && f[k] == (l.slot, BindGroupResource::Texture(l.texture->0));
                    assert((a + f)[a.len() + k] == f[k]);
                }
                if l.font_atlas is Some {
                    let k = choose|k: int| 0 <= k < f.len() && f[k] == (l.slot, BindGroupResource::Texture(l.font_atlas->0));
                    assert((a + f)[a.len() + k] == f[k]);
                }
                if l.sampler is Some {
                    let k = choose|k: int| 0 <= k < f.len() && f[k] == (l.slot, BindGroupResource::Sampler(l.sampler->0));
                    assert((a + f)[a.len() + k] == f[k]);
                }
            }
        }
        if one_each(ls) {
            assert forall|i: int| 0 <= i < prev.len() implies resources_in(#[trigger] prev[i]) == 1 by {
                assert(prev[i] == ls[i]);
            }
            assert(resources_in(ls[ls.len() - 1]) == 1);
        }
    }
}

/// Push `r` bound to `slot` when present.
fn push_found(pairs: &mut Vec<(u32, BindGroupResource)>, slot: u32, r: Option<BindGroupResource>)
    ensures
        final(pairs)@ == old(pairs)@ + (match r {
            Some(x) => seq![(slot, x)],
            None => Seq::empty(),
        }),
{
    match r {
        Some(x) => {
            pairs.push((slot, x));
        },
        None => {},
    }
}

/// The resources of a bind group, from what the stores hold under the ids of
/// its bindings: every resource found, bound to its binding's slot, in order.
/// The group can be made only when as many resources were found as there
/// are bindings; otherwise there is nothing to make yet.
pub fn bind_group_resources(lookups: Vec<BindingLookup>) -> (r: Option<Vec<(u32, BindGroupResource)>>)
    ensures
        all_found(lookups@).len() == lookups@.len() ==> (r matches Some(v) && v@ == all_found(lookups@)),
        all_found(lookups@).len() != lookups@.len() ==> r is None,
        one_each(lookups@) ==> r is Some,
        r matches Some(v) ==> binds_each(lookups@, v@),
{
    proof {
        law_bind_group_collects(lookups@);
    }
    let ghost all = lookups@;
    let n = lookups.len();
    let mut pairs: Vec<(u32, BindGroupResource)> = Vec::new();
    for l in it: lookups.into_iter()
        invariant
            it.seq() == all,
            n == all.len(),
            pairs@ == all_found(all.take(it.index() as int)),
    {
        let ghost before = pairs@;
        let ghost lk = l;
        let slot = l.slot;
        push_found(&mut pairs, slot, match l.buffer { Some(x) => Some(BindGroupResource::Buffer(x)), None => None });
        push_found(&mut pairs, slot, match l.texture { Some(x) => Some(BindGroupResource::Texture(x)), None => None });
        push_found(&mut pairs, slot, match l.font_atlas { Some(x) => Some(BindGroupResource::Texture(x)), None => None });
        push_found(&mut pairs, slot, match l.sampler { Some(x) => Some(BindGroupResource::Sampler(x)), None => None });
        proof {
            let i = it.index() as int;
            assert(all.take(i + 1).drop_last() =~= all.take(i));
            assert(all.take(i + 1).last() == lk);
            assert(pairs@ =~= before + found(lk));
        }
    }
    proof {
        assert(all.take(all.len() as int) =~= all);
    }
    if pairs.len() == n {
        Some(pairs)
    } else {
        None
    }
}

/// Whether an update of `len` bytes at byte `offset` fits in a buffer of
/// `size` bytes.
pub fn update_fits(offset: u64, len: usize, size: u64) -> (b: bool)
    ensures
        b == (offset + len <= size),
{
    if offset > size {
        false
    } else {
        (len as u64) <= size - offset
    }
}

/// `m` with each ready resource under one of `keys` marked as accessed at
/// `now`, key after key.
pub open spec fn touched_all<R>(m: Map<Seq<char>, ResourceStatus<R>>, keys: Seq<Seq<char>>, now: u64) -> Map<Seq<char>, ResourceStatus<R>>
    decreases keys.len(),
{
    if keys.len() == 0 {
        m
    } else {
        touched(touched_all(m, keys.drop_last(), now), keys.last(), now)
    }
}

/// The keys of the ids.
pub open spec fn id_keys(ids: Seq<ResourceID>) -> Seq<Seq<char>> {
    ids.map_values(|id: ResourceID| id.key@)
}

/// Before a bind group is used, mark the resources it depends on as accessed
/// at `now` in the texture, buffer and sampler stores, so that none of them
/// is released while the group uses it.
pub fn prepare_bind_group<B, T, S>(
    buffers: &mut ResourceHandler<B>,
    textures: &mut ResourceHandler<T>,
    samplers: &mut ResourceHandler<S>,
    dependencies: &Vec<ResourceID>,
    now: u64,
)
    requires
        old(buffers).wf(),
        old(textures).wf(),
        old(samplers).wf(),
    ensures
        final(buffers).wf(),
        final(textures).wf(),
        final(samplers).wf(),
        final(buffers)@ == touched_all(old(buffers)@, id_keys(dependencies@), now),
        final(textures)@ == touched_all(old(textures)@, id_keys(dependencies@), now),
        final(samplers)@ == touched_all(old(samplers)@, id_keys(dependencies@), now),
        final(buffers).spec_thread_timeout() == old(buffers).spec_thread_timeout(),
        final(buffers).spec_failed_timeout() == old(buffers).spec_failed_timeout(),
        final(textures).spec_thread_timeout() == old(textures).spec_thread_timeout(),
        final(textures).spec_failed_timeout() == old(textures).spec_failed_timeout(),
        final(samplers).spec_thread_timeout() == old(samplers).spec_thread_timeout(),
        final(samplers).spec_failed_timeout() == old(samplers).spec_failed_timeout(),
{
    let ghost keys = id_keys(dependencies@);
    let n = dependencies.len();
    let mut i: usize = 0;
    while i < n
        invariant
            n == dependencies@.len(),
            keys == id_keys(dependencies@),
            i <= n,
            buffers.wf(),
            textures.wf(),
            samplers.wf(),
            buffers@ == touched_all(old(buffers)@, keys.take(i as int), now),
            textures@ == touched_all(old(textures)@, keys.take(i as int), now),
            samplers@ == touched_all(old(samplers)@, keys.take(i as int), now),
            buffers.spec_thread_timeout() == old(buffers).spec_thread_timeout(),
            buffers.spec_failed_timeout() == old(buffers).spec_failed_timeout(),
            textures.spec_thread_timeout() == old(textures).spec_thread_timeout(),
            textures.spec_failed_timeout() == old(textures).spec_failed_timeout(),
            samplers.spec_thread_timeout() == old(samplers).spec_thread_timeout(),
            samplers.spec_failed_timeout() == old(samplers).spec_failed_timeout(),
        decreases n - i,
    {
        let key = dependencies[i].key.as_str();
        proof {
            assert(keys.take(i + 1).drop_last() =~= keys.take(i as int));
            assert(keys.take(i + 1).last() == key@);
        }
        textures.mark_accessed(key, now);
        buffers.mark_accessed(key, now);
        samplers.mark_accessed(key, now);
        i = i + 1;
    }
    proof {
        assert(keys.take(n as int) =~= keys);
    }
}

/// What a rendering context does next about a pipeline.
#[derive(PartialEq, Eq, Structural, Clone, Copy, Debug)]
pub enum PipelineStep {
    /// Nothing yet: the pipeline is made or requested already, its shader
    /// spec is not ready, or some of the layouts it needs are not.
    Wait,
    /// Request the shader module, which the pipeline needs first.
    RequestModule,
    /// Make the pipeline: everything it needs is ready.
    Create,
}

/// Every flag is set.
pub open spec fn all_set(flags: Seq<bool>) -> bool {
    forall|i: int| 0 <= i < flags.len() ==> #[trigger] flags[i]
}

/// Decide what to do about a pipeline: nothing when the context knows it
/// already or the shader spec is not ready; request the shader module when
/// it is missing; make the pipeline once the module, every bind group layout
/// and every vertex layout of the spec are ready.
pub fn pipeline_step(
    known: bool,
    spec_ready: bool,
    module_ready: bool,
    bg_layouts_ready: &Vec<bool>,
    vertex_layouts_ready: &Vec<bool>,
) -> (s: PipelineStep)
    ensures
        s == (if known || !spec_ready {
            PipelineStep::Wait
        } else if !module_ready {
            PipelineStep::RequestModule
        } else if all_set(bg_layouts_ready@) && all_set(vertex_layouts_ready@) {
            PipelineStep::Create
        } else {
            PipelineStep::Wait
        }),
{
    if known || !spec_ready {
        return PipelineStep::Wait;
    }
    if !module_ready {
        return PipelineStep::RequestModule;
    }
    if all_true(bg_layouts_ready) && all_true(vertex_layouts_ready) {
        PipelineStep::Create
    } else {
        PipelineStep::Wait
    }
}

/// Whether every flag is set.
fn all_true(flags: &Vec<bool>) -> (b: bool)
    ensures
        b == all_set(flags@),
{
    let n = flags.len();
    let mut i: usize = 0;
    while i < n
        invariant
            n == flags@.len(),
            i <= n,
            forall|j: int| 0 <= j < i ==> #[trigger] flags@[j],
        decreases n - i,
    {
        if !flags[i] {
            return false;
        }
        i = i + 1;
    }
    true
}

} // verus!
