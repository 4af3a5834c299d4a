use vstd::prelude::*;
use std::sync::Arc;
use crate::attr::{POSITION, UV_COORDS};
use crate::data_table::{DataTable, DynVec, VecKind};
use crate::data_view::DirtyVec;
use crate::geometry::GeometryData;
use crate::mesh::arc_clone;
use crate::text::owned;

verus! {

/// The indices of a square: two triangles over its four corners.
pub open spec fn square_indices() -> Seq<u32> {
    seq![0u32, 1, 2, 2, 3, 0]
}

/// Whether `c` is a dirty-tracked column holding `vals`, all marked dirty.
pub open spec fn fresh_dirty_column<T>(c: DynVec<T>, vals: Seq<T>) -> bool {
    &&& c.kind() == VecKind::Dirty
    &&& c.values() == vals
    &&& forall|i: int| 0 <= i < vals.len() ==> #[trigger] c.flags()[i]
}

/// Whether `g` has the shape of a square labelled `label`: four vertices, each
/// with a position and texture coordinates (two dirty-tracked columns of four
/// rows), and two triangles over them.
pub open spec fn is_square_shape<T>(g: GeometryData<T>, label: Seq<char>) -> bool {
    &&& g.label@ == label
    &&& g.indices@ == square_indices()
    &&& g.vertex_count == 4
    &&& g.vertices.wf()
    &&& g.vertices.spec_capacity() == 4
    &&& g.vertices.key_seq() == seq![POSITION@, UV_COORDS@]
    &&& g.vertices.column_seq()[0].kind() == VecKind::Dirty
    &&& g.vertices.column_seq()[1].kind() == VecKind::Dirty
    &&& g.vertices.column_seq()[0].spec_len() == 4
    &&& g.vertices.column_seq()[1].spec_len() == 4
}

/// Whether `g` is the square geometry labelled `label` with the given corner
/// positions and texture coordinates.
pub open spec fn is_square<T>(g: GeometryData<T>, label: Seq<char>, positions: Seq<T>, uvs: Seq<T>) -> bool {
    &&& is_square_shape(g, label)
    &&& fresh_dirty_column(g.vertices.column_seq()[0], positions)
    &&& fresh_dirty_column(g.vertices.column_seq()[1], uvs)
}

/// A dirty-tracked column holding `vals`, all marked dirty.
fn dirty_column<T>(vals: Vec<T>) -> (c: DynVec<T>)
    ensures
        fresh_dirty_column(c, vals@),
{
    let ghost src = vals@;
    let d = DirtyVec::from_vec(vals);
    let c = DynVec::Dirty(d);
    assert(c.values() =~= src);
    assert forall|i: int| 0 <= i < src.len() implies #[trigger] c.flags()[i] by {
        assert(d@[i].value() == src[i]);
        assert(d.flags()[i] == d@[i].dirty());
    }
    c
}

/// The square geometry labelled `label`: four vertices, with the given corner
/// positions and texture coordinates (counter-clockwise from the top right
/// corner), and two triangles.
pub fn gen_square<T>(label: &str, positions: Vec<T>, uvs: Vec<T>) -> (g: GeometryData<T>)
    requires
        positions@.len() == 4,
        uvs@.len() == 4,
    ensures
        is_square(g, label@, positions@, uvs@),
{
    let ghost p = positions@;
    let ghost u = uvs@;
    proof {
        reveal_strlit("position");
        reveal_strlit("uvs");
        assert(POSITION@.len() != UV_COORDS@.len());
    }
    let empty: DataTable<T> = DataTable::new(4);
    let with_positions = empty.with_property(POSITION, move |_capacity: usize| -> (c: DynVec<T>)
        ensures
            fresh_dirty_column(c, p),
    {
        dirty_column(positions)
    });
    assert(with_positions.column_seq().len() == 1);
    let vertices = with_positions.with_property(UV_COORDS, move |_capacity: usize| -> (c: DynVec<T>)
        ensures
            fresh_dirty_column(c, u),
    {
        dirty_column(uvs)
    });
    proof {
        assert(!with_positions.has_key(UV_COORDS@)) by {
            assert(with_positions.key_seq() =~= seq![POSITION@]);
        }
        assert(vertices.column_seq()[0] == with_positions.column_seq()[0]);
        assert(vertices.key_seq() =~= seq![POSITION@, UV_COORDS@]);
    }
    let indices: Vec<u32> = vec![0u32, 1, 2, 2, 3, 0];
    assert(indices@ =~= square_indices());
    GeometryData { label: owned(label), vertices, indices, vertex_count: 4 }
}

/// Creates and stores 2D shapes.
pub struct Shape2D<T> {
    square: Option<Arc<GeometryData<T>>>,
}

impl<T> Shape2D<T> {
    /// A stored square has the shape of a square.
    #[verifier::type_invariant]
    spec fn square_stored_whole(&self) -> bool {
        self.square matches Some(s) ==> is_square_shape(*s, "square"@)
    }

    /// The stored square, if one was created.
    pub closed spec fn stored_square(&self) -> Option<GeometryData<T>> {
        match self.square {
            Some(s) => Some(*s),
            None => None,
        }
    }

    /// A factory that has created no shapes yet.
    pub fn new() -> (s: Self)
        ensures
            s.stored_square() is None,
    {
        Shape2D { square: None }
    }

    /// Get the square geometry, creating it (labelled `square`) from the given
    /// corner positions and texture coordinates the first time; later calls
    /// share the square created then.
    pub fn square(&mut self, positions: Vec<T>, uvs: Vec<T>) -> (g: Arc<GeometryData<T>>)
        requires
            positions@.len() == 4,
            uvs@.len() == 4,
        ensures
            is_square_shape(*g, "square"@),
            match old(self).stored_square() {
                Some(s) => *g == s && final(self).stored_square() == old(self).stored_square(),
                None => is_square(*g, "square"@, positions@, uvs@) && final(self).stored_square() == Some(*g),
            },
    {
        proof {
            use_type_invariant(&*self);
        }
        match &self.square {
            Some(s) => arc_clone(s),
            None => {
                let square = Arc::new(gen_square("square", positions, uvs));
                let shared = arc_clone(&square);
                self.square = Some(square);
                shared
            },
        }
    }
}

} // verus!
