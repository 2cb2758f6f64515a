//! A light-mesh part: its vertex positions, uvs and normals (stored, named and
//! computed), its triangles, and the edits the mesh editor makes to them.
//! Coordinates are carried as the bit patterns of their `f32` components; the
//! geometry itself is computed outside this library.
use vstd::prelude::*;
use indexmap::IndexMap;
use crate::easing::Easing;
use crate::mesh::{
    clone_opt_string, triangles_view, IdView, NormalId, Triangle, TriangleView, Triangles, UvId, Vertex,
    VertexId, VertexView,
};
use crate::named_maps::{
    compute_normal_contains, compute_normal_entries, compute_normal_entry, compute_normal_len,
    compute_normal_set_value, compute_vertex_contains, compute_vertex_entries, compute_vertex_entry,
    compute_vertex_len, compute_vertex_set_value, has_name, value_named, vec2_contains, vec2_entries,
    vec2_entry, vec2_get, vec2_len, vec3_contains, vec3_entries, vec3_entry, vec3_len,
};

verus! {

/// Bit patterns of the components of a 3-vector.
#[derive(Copy, Clone, Debug, PartialEq, Eq, Structural)]
pub struct Vec3Bits {
    pub x: u32,
    pub y: u32,
    pub z: u32,
}

/// Bit patterns of the components of a 2-vector.
#[derive(Copy, Clone, Debug, PartialEq, Eq, Structural)]
pub struct Vec2Bits {
    pub x: u32,
    pub y: u32,
}

/// A vertex placed between two others: eased by `delta` along the segment, or
/// pinned at a distance on one or more axes. Numbers are `f32` bit patterns.
#[derive(Debug)]
pub struct ComputeVertex {
    pub points: [VertexId; 2],
    pub function: Easing,
    pub delta: Option<u32>,
    pub x: Option<u32>,
    pub y: Option<u32>,
    pub z: Option<u32>,
}

/// A normal computed from three vertices.
#[derive(Debug)]
pub struct ComputeNormal {
    pub points: [VertexId; 3],
}

impl Clone for ComputeVertex {
    fn clone(&self) -> (r: Self)
        ensures
            r == *self,
    {
        let r = ComputeVertex {
            points: [self.points[0].clone(), self.points[1].clone()],
            function: self.function,
            delta: self.delta,
            x: self.x,
            y: self.y,
            z: self.z,
        };
        assert(r.points =~= self.points);
        r
    }
}

impl Clone for ComputeNormal {
    fn clone(&self) -> (r: Self)
        ensures
            r == *self,
    {
        let r = ComputeNormal { points: [self.points[0].clone(), self.points[1].clone(), self.points[2].clone()] };
        assert(r.points =~= self.points);
        r
    }
}

#[derive(Debug)]
pub struct Vertices {
    pub indexed: Vec<Vec3Bits>,
    pub named: IndexMap<String, Vec3Bits>,
    pub compute: IndexMap<String, ComputeVertex>,
}

#[derive(Debug)]
pub struct UVs {
    pub indexed: Vec<Vec2Bits>,
    pub named: IndexMap<String, Vec2Bits>,
}

#[derive(Debug)]
pub struct Normals {
    pub indexed: Vec<Vec3Bits>,
    pub named: IndexMap<String, Vec3Bits>,
    pub compute: IndexMap<String, ComputeNormal>,
}

#[derive(Debug)]
pub struct Part {
    pub vertices: Vertices,
    pub uvs: UVs,
    pub normals: Normals,
    pub triangles: Triangles,
}

/// A rename of one name to another.
#[derive(Debug)]
pub struct DataSwap<T> {
    pub from: T,
    pub to: T,
}

pub open spec fn id_views(ids: Seq<VertexId>) -> Seq<IdView> {
    ids.map_values(|v: VertexId| v@)
}

/// All three corners of the triangle use a vertex of `ids`.
pub open spec fn all_corners_in(t: TriangleView, ids: Seq<IdView>) -> bool {
    ids.contains(t.a.vertex) && ids.contains(t.b.vertex) && ids.contains(t.c.vertex)
}

/// The triangles of `ts` that do not have all three corners in `ids`, in order.
pub open spec fn without_all_in(ts: Seq<Triangle>, ids: Seq<IdView>) -> Seq<Triangle>
    decreases ts.len(),
{
    if ts.len() == 0 {
        Seq::empty()
    } else {
        let r = without_all_in(ts.drop_last(), ids);
        if all_corners_in(ts.last()@, ids) {
            r
        } else {
            r.push(ts.last())
        }
    }
}

/// `f` is `t` with its first and last corners exchanged, which reverses its winding.
pub open spec fn is_flip_of(f: Triangle, t: Triangle) -> bool {
    f.vertices@ == seq![t.vertices@[2], t.vertices@[1], t.vertices@[0]] && f.material == t.material
}

/// `f` is `t` with every triangle whose corners all lie in `ids` flipped,
/// and every other triangle kept.
pub open spec fn flipped_within(f: Seq<Triangle>, t: Seq<Triangle>, ids: Seq<IdView>) -> bool {
    &&& f.len() == t.len()
    &&& forall|i: int| 0 <= i < t.len() ==> if all_corners_in((#[trigger] t[i])@, ids) {
        is_flip_of(f[i], t[i])
    } else {
        f[i] == t[i]
    }
}

/// Whether `id` is among `ids`, by value.
pub fn contains_id(ids: &[VertexId], id: &VertexId) -> (r: bool)
    ensures
        r == id_views(ids@).contains(id@),
{
    let n = ids.len();
    let mut i: usize = 0;
    while i < n
        invariant
            n == ids@.len(),
            i <= n,
            forall|j: int| 0 <= j < i ==> ids@[j]@ != id@,
        decreases n - i,
    {
        if ids[i] == *id {
            assert(id_views(ids@)[i as int] == id@);
            return true;
        }
        i = i + 1;
    }
    proof {
        if id_views(ids@).contains(id@) {
            let j = choose|j: int| 0 <= j < id_views(ids@).len() && id_views(ids@)[j] == id@;
            assert(ids@[j]@ == id@);
        }
    }
    false
}

fn triangle_all_in(t: &Triangle, ids: &[VertexId]) -> (r: bool)
    ensures
        r == all_corners_in(t@, id_views(ids@)),
{
    contains_id(ids, &t.vertices[0].vertex) && contains_id(ids, &t.vertices[1].vertex)
        && contains_id(ids, &t.vertices[2].vertex)
}

/// Shifted stored index, as [`Part::cascade_ids`] moves it: when `negative`,
/// indices above `threshold` move by `delta`; otherwise indices up to
/// `threshold` do.
pub open spec fn shifted(negative: bool, threshold: usize, id: usize, delta: i64) -> usize {
    if negative {
        if id > threshold {
            ((id as i64) + delta) as usize
        } else {
            id
        }
    } else if id <= threshold {
        (id + delta) as usize
    } else {
        id
    }
}

/// The shift of `id` stays within the integer types it is computed in.
pub open spec fn shift_fits(negative: bool, threshold: usize, id: usize, delta: i64) -> bool {
    if negative {
        id > threshold ==> i64::MIN <= (id as i64) + delta <= i64::MAX
    } else {
        id <= threshold ==> id + delta <= usize::MAX
    }
}

pub open spec fn shifted_ref(negative: bool, threshold: usize, r: IdView, delta: i64) -> IdView {
    match r {
        IdView::Index(i) => IdView::Index(shifted(negative, threshold, i, delta)),
        IdView::Named(n) => IdView::Named(n),
    }
}

pub open spec fn ref_fits(negative: bool, threshold: usize, r: IdView, delta: i64) -> bool {
    match r {
        IdView::Index(i) => shift_fits(negative, threshold, i, delta),
        IdView::Named(_) => true,
    }
}

pub open spec fn shifted_corner(neg: bool, th: usize, v: VertexView, d: (i64, i64, i64)) -> VertexView {
    VertexView {
        vertex: shifted_ref(neg, th, v.vertex, d.0),
        uv: shifted_ref(neg, th, v.uv, d.1),
        normal: shifted_ref(neg, th, v.normal, d.2),
    }
}

pub open spec fn corner_fits(neg: bool, th: usize, v: VertexView, d: (i64, i64, i64)) -> bool {
    ref_fits(neg, th, v.vertex, d.0) && ref_fits(neg, th, v.uv, d.1) && ref_fits(neg, th, v.normal, d.2)
}

pub open spec fn shifted_triangle(neg: bool, th: usize, t: TriangleView, d: (i64, i64, i64)) -> TriangleView {
    TriangleView {
        a: shifted_corner(neg, th, t.a, d),
        b: shifted_corner(neg, th, t.b, d),
        c: shifted_corner(neg, th, t.c, d),
        material: t.material,
    }
}

pub open spec fn triangle_fits(neg: bool, th: usize, t: TriangleView, d: (i64, i64, i64)) -> bool {
    corner_fits(neg, th, t.a, d) && corner_fits(neg, th, t.b, d) && corner_fits(neg, th, t.c, d)
}

pub open spec fn points_fit(neg: bool, th: usize, ps: Seq<VertexId>, delta: i64) -> bool {
    forall|k: int| 0 <= k < ps.len() ==> ref_fits(neg, th, #[trigger] ps[k]@, delta)
}

/// `new_points` are `points` with every index shifted.
pub open spec fn points_shifted(neg: bool, th: usize, new_points: Seq<VertexId>, points: Seq<VertexId>, delta: i64) -> bool {
    new_points.len() == points.len() && forall|k: int| 0 <= k < points.len()
        ==> (#[trigger] new_points[k])@ == shifted_ref(neg, th, points[k]@, delta)
}

/// Whether the deltas ask to shift indices down.
pub open spec fn is_negative(d: (i64, i64, i64)) -> bool {
    d.0 < 0 || d.1 < 0 || d.2 < 0
}

fn shift_index(negative: bool, threshold: usize, id: usize, delta: i64) -> (r: usize)
    requires
        shift_fits(negative, threshold, id, delta),
        !negative ==> delta >= 0,
    ensures
        r == shifted(negative, threshold, id, delta),
{
    if negative {
        if id > threshold {
            ((id as i64) + delta) as usize
        } else {
            id
        }
    } else if id <= threshold {
        id + delta as usize
    } else {
        id
    }
}

fn shift_vertex_id(negative: bool, threshold: usize, id: &VertexId, delta: i64) -> (r: VertexId)
    requires
        ref_fits(negative, threshold, id@, delta),
        !negative ==> delta >= 0,
    ensures
        r@ == shifted_ref(negative, threshold, id@, delta),
{
    match id {
        VertexId::Index(i) => VertexId::Index(shift_index(negative, threshold, *i, delta)),
        VertexId::Named(n) => VertexId::Named(n.clone()),
    }
}

fn shift_uv_id(negative: bool, threshold: usize, id: &UvId, delta: i64) -> (r: UvId)
    requires
        ref_fits(negative, threshold, id@, delta),
        !negative ==> delta >= 0,
    ensures
        r@ == shifted_ref(negative, threshold, id@, delta),
{
    match id {
        UvId::Index(i) => UvId::Index(shift_index(negative, threshold, *i, delta)),
        UvId::Named(n) => UvId::Named(n.clone()),
    }
}

fn shift_normal_id(negative: bool, threshold: usize, id: &NormalId, delta: i64) -> (r: NormalId)
    requires
        ref_fits(negative, threshold, id@, delta),
        !negative ==> delta >= 0,
    ensures
        r@ == shifted_ref(negative, threshold, id@, delta),
{
    match id {
        NormalId::Index(i) => NormalId::Index(shift_index(negative, threshold, *i, delta)),
        NormalId::Named(n) => NormalId::Named(n.clone()),
    }
}

fn shift_corner(negative: bool, threshold: usize, v: &Vertex, d: (i64, i64, i64)) -> (r: Vertex)
    requires
        corner_fits(negative, threshold, v@, d),
        !negative ==> d.0 >= 0 && d.1 >= 0 && d.2 >= 0,
    ensures
        r@ == shifted_corner(negative, threshold, v@, d),
{
    Vertex {
        vertex: shift_vertex_id(negative, threshold, &v.vertex, d.0),
        uv: shift_uv_id(negative, threshold, &v.uv, d.1),
        normal: shift_normal_id(negative, threshold, &v.normal, d.2),
    }
}

/// What holds of every index the part stores when `cascade_ids` shifts them.
pub open spec fn cascade_fits(p: Part, threshold: usize, d: (i64, i64, i64)) -> bool {
    let neg = is_negative(d);
    &&& forall|i: int| 0 <= i < p.triangles@.len() ==> triangle_fits(neg, threshold, #[trigger] p.triangles@[i], d)
    &&& forall|j: int| 0 <= j < compute_vertex_entries(p.vertices.compute).len()
        ==> points_fit(neg, threshold, (#[trigger] compute_vertex_entries(p.vertices.compute)[j]).1.points@, d.0)
    &&& forall|j: int| 0 <= j < compute_normal_entries(p.normals.compute).len()
        ==> points_fit(neg, threshold, (#[trigger] compute_normal_entries(p.normals.compute)[j]).1.points@, d.0)
}

impl Part {
    /// Whether the part has the vertex: a stored index in range, or a named or
    /// computed vertex of that name.
    pub fn contains_vertex(&self, id: &VertexId) -> (r: bool)
        ensures
            r == match id@ {
                IdView::Index(i) => i < self.vertices.indexed@.len(),
                IdView::Named(n) => has_name(vec3_entries(self.vertices.named), n)
                    || has_name(compute_vertex_entries(self.vertices.compute), n),
            },
    {
        match id {
            VertexId::Index(i) => *i < self.vertices.indexed.len(),
            VertexId::Named(n) => vec3_contains(&self.vertices.named, n)
                || compute_vertex_contains(&self.vertices.compute, n),
        }
    }

    /// Whether the part has the uv: a stored index in range or a named uv.
    pub fn contains_uv(&self, id: &UvId) -> (r: bool)
        ensures
            r == match id@ {
                IdView::Index(i) => i < self.uvs.indexed@.len(),
                IdView::Named(n) => has_name(vec2_entries(self.uvs.named), n),
            },
    {
        match id {
            UvId::Index(i) => *i < self.uvs.indexed.len(),
            UvId::Named(n) => vec2_contains(&self.uvs.named, n),
        }
    }

    /// Whether the part has the normal: a stored index in range, or a named or
    /// computed normal of that name.
    pub fn contains_normal(&self, id: &NormalId) -> (r: bool)
        ensures
            r == match id@ {
                IdView::Index(i) => i < self.normals.indexed@.len(),
                IdView::Named(n) => has_name(vec3_entries(self.normals.named), n)
                    || has_name(compute_normal_entries(self.normals.compute), n),
            },
    {
        match id {
            NormalId::Index(i) => *i < self.normals.indexed.len(),
            NormalId::Named(n) => vec3_contains(&self.normals.named, n)
                || compute_normal_contains(&self.normals.compute, n),
        }
    }

    /// Renames the material `swap.from` to `swap.to` on every triangle.
    pub fn rename_data(&mut self, swap: &DataSwap<String>)
        ensures
            final(self).vertices == old(self).vertices,
            final(self).uvs == old(self).uvs,
            final(self).normals == old(self).normals,
            final(self).triangles.0@.len() == old(self).triangles.0@.len(),
            forall|i: int| 0 <= i < old(self).triangles.0@.len() ==> {
                let t = #[trigger] old(self).triangles.0@[i];
                let u = final(self).triangles.0@[i];
                &&& u.vertices == t.vertices
                &&& u.material == (match t.material {
                    Some(m) => if m@ == swap.from@ { Some(swap.to) } else { Some(m) },
                    None => None,
                })
            },
    {
        let mut old_tris: Vec<Triangle> = Vec::new();
        std::mem::swap(&mut old_tris, &mut self.triangles.0);
        let n = old_tris.len();
        let mut tris: Vec<Triangle> = Vec::new();
        for i in 0..n
            invariant
                n == old_tris@.len(),
                old_tris@ == old(self).triangles.0@,
                tris@.len() == i,
                self.vertices == old(self).vertices,
                self.uvs == old(self).uvs,
                self.normals == old(self).normals,
                forall|j: int| 0 <= j < i ==> {
                    let t = #[trigger] old_tris@[j];
                    let u = tris@[j];
                    &&& u.vertices == t.vertices
                    &&& u.material == (match t.material {
                        Some(m) => if m@ == swap.from@ { Some(swap.to) } else { Some(m) },
                        None => None,
                    })
                },
        {
            let mut t = old_tris[i].clone();
            let renamed = match &t.material {
                Some(m) => *m == swap.from,
                None => false,
            };
            if renamed {
                t.material = Some(swap.to.clone());
            }
            tris.push(t);
        }
        self.triangles.0 = tris;
    }

    /// Shifts stored indices after stored data was inserted or removed at
    /// `threshold`. When any delta is negative, indices above `threshold` move
    /// by their delta; otherwise indices up to `threshold` do. Vertex indices
    /// move by `deltas.0` (in triangles and in computed vertices and normals),
    /// uv indices by `deltas.1`, normal indices by `deltas.2`.
    pub fn cascade_ids(&mut self, threshold: usize, deltas: (i64, i64, i64))
        requires
            cascade_fits(*old(self), threshold, deltas),
        ensures
            final(self).vertices.indexed == old(self).vertices.indexed,
            final(self).vertices.named == old(self).vertices.named,
            final(self).uvs == old(self).uvs,
            final(self).normals.indexed == old(self).normals.indexed,
            final(self).normals.named == old(self).normals.named,
            final(self).triangles@.len() == old(self).triangles@.len(),
            forall|i: int| 0 <= i < old(self).triangles@.len() ==> #[trigger] final(self).triangles@[i]
                == shifted_triangle(is_negative(deltas), threshold, old(self).triangles@[i], deltas),
            ({
                let o = compute_vertex_entries(old(self).vertices.compute);
                let f = compute_vertex_entries(final(self).vertices.compute);
                &&& f.len() == o.len()
                &&& forall|j: int| 0 <= j < o.len() ==> {
                    let (k, v) = #[trigger] o[j];
                    &&& f[j].0 == k
                    &&& points_shifted(is_negative(deltas), threshold, f[j].1.points@, v.points@, deltas.0)
                    &&& f[j].1.function == v.function
                    &&& f[j].1.delta == v.delta
                    &&& f[j].1.x == v.x
                    &&& f[j].1.y == v.y
                    &&& f[j].1.z == v.z
                }
            }),
            ({
                let o = compute_normal_entries(old(self).normals.compute);
                let f = compute_normal_entries(final(self).normals.compute);
                &&& f.len() == o.len()
                &&& forall|j: int| 0 <= j < o.len() ==> {
                    let (k, v) = #[trigger] o[j];
                    &&& f[j].0 == k
                    &&& points_shifted(is_negative(deltas), threshold, f[j].1.points@, v.points@, deltas.0)
                }
            }),
    {
        let negative = deltas.0 < 0 || deltas.1 < 0 || deltas.2 < 0;
        let ghost neg = is_negative(deltas);
        let mut old_tris: Vec<Triangle> = Vec::new();
        std::mem::swap(&mut old_tris, &mut self.triangles.0);
        let n = old_tris.len();
        let mut tris: Vec<Triangle> = Vec::new();
        for i in 0..n
            invariant
                n == old_tris@.len(),
                old_tris@ == old(self).triangles.0@,
                negative == neg,
                neg == is_negative(deltas),
                cascade_fits(*old(self), threshold, deltas),
                self.vertices == old(self).vertices,
                self.uvs == old(self).uvs,
                self.normals == old(self).normals,
                tris@.len() == i,
                forall|j: int| 0 <= j < i ==> (#[trigger] tris@[j])@
                    == shifted_triangle(neg, threshold, old_tris@[j]@, deltas),
        {
            let t = &old_tris[i];
            assert(old(self).triangles@[i as int] == t@);
            let u = Triangle {
                vertices: [
                    shift_corner(negative, threshold, &t.vertices[0], deltas),
                    shift_corner(negative, threshold, &t.vertices[1], deltas),
                    shift_corner(negative, threshold, &t.vertices[2], deltas),
                ],
                material: clone_opt_string(&t.material),
            };
            tris.push(u);
        }
        self.triangles.0 = tris;
        let ghost cv0 = compute_vertex_entries(self.vertices.compute);
        let cn = compute_vertex_len(&self.vertices.compute);
        for j in 0..cn
            invariant
                cn == cv0.len(),
                cv0 == compute_vertex_entries(old(self).vertices.compute),
                negative == is_negative(deltas),
                cascade_fits(*old(self), threshold, deltas),
                self.vertices.indexed == old(self).vertices.indexed,
                self.vertices.named == old(self).vertices.named,
                self.normals == old(self).normals,
                self.uvs == old(self).uvs,
                self.triangles@.len() == old(self).triangles@.len(),
                forall|q: int| 0 <= q < old(self).triangles@.len() ==> #[trigger] self.triangles@[q]
                    == shifted_triangle(negative, threshold, old(self).triangles@[q], deltas),
                compute_vertex_entries(self.vertices.compute).len() == cn,
                forall|q: int| j <= q < cn ==> #[trigger] compute_vertex_entries(self.vertices.compute)[q] == cv0[q],
                forall|q: int| 0 <= q < j ==> {
                    let (k, v) = #[trigger] cv0[q];
                    let f = compute_vertex_entries(self.vertices.compute);
                    &&& f[q].0 == k
                    &&& points_shifted(negative, threshold, f[q].1.points@, v.points@, deltas.0)
                    &&& f[q].1.function == v.function
                    &&& f[q].1.delta == v.delta
                    &&& f[q].1.x == v.x
                    &&& f[q].1.y == v.y
                    &&& f[q].1.z == v.z
                },
        {
            match compute_vertex_entry(&self.vertices.compute, j) {
                Some((_, v)) => {
                    proof {
                        assert(points_fit(negative, threshold, cv0[j as int].1.points@, deltas.0));
                        assert(ref_fits(negative, threshold, v.points@[0]@, deltas.0));
                        assert(ref_fits(negative, threshold, v.points@[1]@, deltas.0));
                    }
                    let nv = ComputeVertex {
                        points: [
                            shift_vertex_id(negative, threshold, &v.points[0], deltas.0),
                            shift_vertex_id(negative, threshold, &v.points[1], deltas.0),
                        ],
                        function: v.function,
                        delta: v.delta,
                        x: v.x,
                        y: v.y,
                        z: v.z,
                    };
                    compute_vertex_set_value(&mut self.vertices.compute, j, nv);
                },
                None => {},
            }
        }
        let ghost cm0 = compute_normal_entries(self.normals.compute);
        let mn = compute_normal_len(&self.normals.compute);
        for j in 0..mn
            invariant
                mn == cm0.len(),
                cm0 == compute_normal_entries(old(self).normals.compute),
                negative == is_negative(deltas),
                cascade_fits(*old(self), threshold, deltas),
                self.normals.indexed == old(self).normals.indexed,
                self.normals.named == old(self).normals.named,
                self.vertices.indexed == old(self).vertices.indexed,
                self.vertices.named == old(self).vertices.named,
                ({
                    let o = compute_vertex_entries(old(self).vertices.compute);
                    let f = compute_vertex_entries(self.vertices.compute);
                    &&& f.len() == o.len()
                    &&& forall|q: int| 0 <= q < o.len() ==> {
                        let (k, v) = #[trigger] o[q];
                        &&& f[q].0 == k
                        &&& points_shifted(negative, threshold, f[q].1.points@, v.points@, deltas.0)
                        &&& f[q].1.function == v.function
                        &&& f[q].1.delta == v.delta
                        &&& f[q].1.x == v.x
                        &&& f[q].1.y == v.y
                        &&& f[q].1.z == v.z
                    }
                }),
                self.uvs == old(self).uvs,
                self.triangles@.len() == old(self).triangles@.len(),
                forall|q: int| 0 <= q < old(self).triangles@.len() ==> #[trigger] self.triangles@[q]
                    == shifted_triangle(negative, threshold, old(self).triangles@[q], deltas),
                compute_normal_entries(self.normals.compute).len() == mn,
                forall|q: int| j <= q < mn ==> #[trigger] compute_normal_entries(self.normals.compute)[q] == cm0[q],
                forall|q: int| 0 <= q < j ==> {
                    let (k, v) = #[trigger] cm0[q];
                    let f = compute_normal_entries(self.normals.compute);
                    &&& f[q].0 == k
                    &&& points_shifted(negative, threshold, f[q].1.points@, v.points@, deltas.0)
                },
        {
            match compute_normal_entry(&self.normals.compute, j) {
                Some((_, v)) => {
                    proof {
                        assert(points_fit(negative, threshold, cm0[j as int].1.points@, deltas.0));
                        assert(ref_fits(negative, threshold, v.points@[0]@, deltas.0));
                        assert(ref_fits(negative, threshold, v.points@[1]@, deltas.0));
                        assert(ref_fits(negative, threshold, v.points@[2]@, deltas.0));
                    }
                    let nv = ComputeNormal {
                        points: [
                            shift_vertex_id(negative, threshold, &v.points[0], deltas.0),
                            shift_vertex_id(negative, threshold, &v.points[1], deltas.0),
                            shift_vertex_id(negative, threshold, &v.points[2], deltas.0),
                        ],
                    };
                    compute_normal_set_value(&mut self.normals.compute, j, nv);
                },
                None => {},
            }
        }
    }
}

/// Some triangle of `ts` has all three corners in `ids` and `v` as a corner.
pub open spec fn in_closed_triangle(ts: Seq<TriangleView>, ids: Seq<IdView>, v: IdView) -> bool {
    exists|i: int| 0 <= i < ts.len() && all_corners_in(#[trigger] ts[i], ids)
        && (ts[i].a.vertex == v || ts[i].b.vertex == v || ts[i].c.vertex == v)
}

/// Some triangle of `ts` has all three corners in `ids`.
pub open spec fn makes_triangles(ts: Seq<TriangleView>, ids: Seq<IdView>) -> bool {
    exists|i: int| 0 <= i < ts.len() && all_corners_in(#[trigger] ts[i], ids)
}

/// The corner a new triangle gets for `v`: uv and normal index 0.
pub open spec fn plain_corner(v: IdView) -> VertexView {
    VertexView { vertex: v, uv: IdView::Index(0), normal: IdView::Index(0) }
}

/// The triangle strip over `vs`: triangle `i` joins `vs[i]`, `vs[i + 1]` and
/// `vs[i + 2]`, with the first and last exchanged where `swap_ends[i]` holds.
pub open spec fn strip(vs: Seq<IdView>, swap_ends: Seq<bool>) -> Seq<TriangleView> {
    Seq::new(
        (vs.len() - 2) as nat,
        |i: int|
            TriangleView {
                a: plain_corner(if swap_ends[i] { vs[i + 2] } else { vs[i] }),
                b: plain_corner(vs[i + 1]),
                c: plain_corner(if swap_ends[i] { vs[i] } else { vs[i + 2] }),
                material: None,
            },
    )
}

fn plain_vertex(v: &VertexId) -> (r: Vertex)
    ensures
        r@ == plain_corner(v@),
{
    Vertex { vertex: v.clone(), uv: UvId::Index(0), normal: NormalId::Index(0) }
}

impl Part {
    /// Deletes every triangle whose three corners all use vertices of `vertices`.
    pub fn delete_triangles_with_all_vertices(&mut self, vertices: &[VertexId])
        ensures
            final(self).vertices == old(self).vertices,
            final(self).uvs == old(self).uvs,
            final(self).normals == old(self).normals,
            final(self).triangles.0@ == without_all_in(old(self).triangles.0@, id_views(vertices@)),
    {
        let mut old_tris: Vec<Triangle> = Vec::new();
        std::mem::swap(&mut old_tris, &mut self.triangles.0);
        let n = old_tris.len();
        let mut tris: Vec<Triangle> = Vec::new();
        for i in 0..n
            invariant
                n == old_tris@.len(),
                old_tris@ == old(self).triangles.0@,
                self.vertices == old(self).vertices,
                self.uvs == old(self).uvs,
                self.normals == old(self).normals,
                tris@ == without_all_in(old_tris@.take(i as int), id_views(vertices@)),
        {
            proof {
                assert(old_tris@.take(i + 1).drop_last() =~= old_tris@.take(i as int));
                assert(old_tris@.take(i + 1).last() == old_tris@[i as int]);
            }
            if !triangle_all_in(&old_tris[i], vertices) {
                tris.push(old_tris[i].clone());
            }
        }
        assert(old_tris@.take(n as int) =~= old_tris@);
        self.triangles.0 = tris;
    }

    /// Reverses the winding of every triangle whose three corners all use
    /// vertices of `vertices`, by exchanging its first and last corners.
    pub fn flip_triangles(&mut self, vertices: &[VertexId])
        ensures
            final(self).vertices == old(self).vertices,
            final(self).uvs == old(self).uvs,
            final(self).normals == old(self).normals,
            flipped_within(final(self).triangles.0@, old(self).triangles.0@, id_views(vertices@)),
            final(self).triangles@.len() == old(self).triangles@.len(),
            forall|i: int| 0 <= i < old(self).triangles@.len() ==> {
                let t = old(self).triangles@[i];
                let f = #[trigger] final(self).triangles@[i];
                if all_corners_in(t, id_views(vertices@)) {
                    f.a == t.c && f.b == t.b && f.c == t.a && f.material == t.material
                } else {
                    f == t
                }
            },
    {
        let mut old_tris: Vec<Triangle> = Vec::new();
        std::mem::swap(&mut old_tris, &mut self.triangles.0);
        let n = old_tris.len();
        let mut tris: Vec<Triangle> = Vec::new();
        for i in 0..n
            invariant
                n == old_tris@.len(),
                old_tris@ == old(self).triangles.0@,
                self.vertices == old(self).vertices,
                self.uvs == old(self).uvs,
                self.normals == old(self).normals,
                tris@.len() == i,
                forall|j: int| 0 <= j < i ==> {
                    let t = #[trigger] old_tris@[j];
                    if all_corners_in(t@, id_views(vertices@)) {
                        is_flip_of(tris@[j], t)
                    } else {
                        tris@[j] == t
                    }
                },
        {
            let t = &old_tris[i];
            if triangle_all_in(t, vertices) {
                let f = Triangle {
                    vertices: [t.vertices[2].clone(), t.vertices[1].clone(), t.vertices[0].clone()],
                    material: clone_opt_string(&t.material),
                };
                assert(f.vertices@ =~= seq![t.vertices@[2], t.vertices@[1], t.vertices@[0]]);
                tris.push(f);
            } else {
                tris.push(t.clone());
            }
        }
        self.triangles.0 = tris;
    }

    /// The vertices of `ids` that are corners of triangles lying wholly within
    /// `ids`, each once.
    pub fn filter_triangle_vertices(&self, ids: &[VertexId]) -> (r: Vec<VertexId>)
        ensures
            id_views(r@).no_duplicates(),
            forall|v: IdView| #[trigger] id_views(r@).contains(v) <==> (id_views(ids@).contains(v)
                && in_closed_triangle(self.triangles@, id_views(ids@), v)),
    {
        let ghost ts = self.triangles@;
        let ghost idv = id_views(ids@);
        let mut r: Vec<VertexId> = Vec::new();
        let n = ids.len();
        for i in 0..n
            invariant
                n == ids@.len(),
                ts == self.triangles@,
                idv == id_views(ids@),
                id_views(r@).no_duplicates(),
                forall|v: IdView| #[trigger] id_views(r@).contains(v) <==> (id_views(ids@.take(i as int)).contains(v)
                    && in_closed_triangle(ts, idv, v)),
        {
            let id = &ids[i];
            let ghost before = id_views(r@);
            proof {
                assert(ids@.take(i + 1) =~= ids@.take(i as int).push(*id));
                assert(id_views(ids@.take(i + 1)) =~= id_views(ids@.take(i as int)).push(id@));
            }
            let closes = self.closes_triangle_at(ids, id);
            let present = contains_id(r.as_slice(), id);
            let ghost prev = id_views(ids@.take(i as int));
            if closes && !present {
                r.push(id.clone());
                proof {
                    assert(id_views(r@) =~= before.push(id@));
                    assert forall|v: IdView| #[trigger] id_views(r@).contains(v) <==> (id_views(ids@.take(i + 1)).contains(v)
                        && in_closed_triangle(ts, idv, v)) by {
                        lemma_push_contains(before, id@, v);
                        lemma_push_contains(prev, id@, v);
                    }
                    assert forall|a: int, b: int| 0 <= a < b < id_views(r@).len() implies id_views(r@)[a] != id_views(r@)[b] by {
                        if b == before.len() {
                            assert(before[a] == id_views(r@)[a]);
                        } else {
                            assert(before[a] == id_views(r@)[a] && before[b] == id_views(r@)[b]);
                        }
                    }
                }
            } else {
                proof {
                    assert forall|v: IdView| #[trigger] id_views(r@).contains(v) <==> (id_views(ids@.take(i + 1)).contains(v)
                        && in_closed_triangle(ts, idv, v)) by {
                        lemma_push_contains(prev, id@, v);
                    }
                }
            }
        }
        proof {
            assert(ids@.take(n as int) =~= ids@);
        }
        r
    }

    /// Whether `v` is a corner of a triangle whose three corners all use
    /// vertices of `ids`.
    fn closes_triangle_at(&self, ids: &[VertexId], v: &VertexId) -> (r: bool)
        ensures
            r == in_closed_triangle(self.triangles@, id_views(ids@), v@),
    {
        let n = self.triangles.0.len();
        for i in 0..n
            invariant
                n == self.triangles@.len(),
                forall|j: int| 0 <= j < i ==> !(all_corners_in(#[trigger] self.triangles@[j], id_views(ids@))
                    && (self.triangles@[j].a.vertex == v@ || self.triangles@[j].b.vertex == v@
                        || self.triangles@[j].c.vertex == v@)),
        {
            let t = &self.triangles.0[i];
            assert(self.triangles@[i as int] == t@);
            if triangle_all_in(t, ids) && (t.vertices[0].vertex == *v || t.vertices[1].vertex == *v
                || t.vertices[2].vertex == *v) {
                return true;
            }
        }
        false
    }

    /// Joins or splits faces: when the vertices make up any triangles (some
    /// triangle has all three corners among `vertices`), those triangles are
    /// deleted and nothing is added; otherwise the strip over `vertices` is
    /// added, triangle `i` joining vertices `i`, `i + 1` and `i + 2`, with the
    /// first and last exchanged where `swap_ends[i]` holds (the caller sets it
    /// where the triangle would face away from the viewer). Fewer than three
    /// vertices change nothing.
    pub fn toggle_triangles(&mut self, vertices: &[VertexId], swap_ends: &[bool])
        requires
            vertices@.len() >= 3 ==> swap_ends@.len() == vertices@.len() - 2,
        ensures
            final(self).vertices == old(self).vertices,
            final(self).uvs == old(self).uvs,
            final(self).normals == old(self).normals,
            vertices@.len() < 3 ==> final(self).triangles.0@ == old(self).triangles.0@,
            vertices@.len() >= 3 && makes_triangles(old(self).triangles@, id_views(vertices@))
                ==> final(self).triangles.0@ == without_all_in(old(self).triangles.0@, id_views(vertices@)),
            vertices@.len() >= 3 && !makes_triangles(old(self).triangles@, id_views(vertices@))
                ==> final(self).triangles@ == old(self).triangles@ + strip(id_views(vertices@), swap_ends@),
            vertices@.len() >= 3 && !makes_triangles(old(self).triangles@, id_views(vertices@)) ==> {
                let n = old(self).triangles@.len();
                &&& final(self).triangles@.len() == n + vertices@.len() - 2
                &&& forall|i: int| 0 <= i < vertices@.len() - 2 ==> {
                    let t = #[trigger] final(self).triangles@[n + i];
                    &&& t.b.vertex == vertices@[i + 1]@
                    &&& t.a.vertex == (if swap_ends@[i] { vertices@[i + 2]@ } else { vertices@[i]@ })
                    &&& t.c.vertex == (if swap_ends@[i] { vertices@[i]@ } else { vertices@[i + 2]@ })
                    &&& t.a.uv == IdView::Index(0) && t.b.uv == IdView::Index(0) && t.c.uv == IdView::Index(0)
                    &&& t.a.normal == IdView::Index(0) && t.b.normal == IdView::Index(0) && t.c.normal == IdView::Index(0)
                    &&& t.material is None
                }
            },
    {
        let n = vertices.len();
        if n < 3 {
            return;
        }
        let within = self.filter_triangles(vertices);
        proof {
            let ts = self.triangles.0@;
            let ivs = id_views(vertices@);
            if within@.len() > 0 {
                assert(all_corners_in(ts[within@[0] as int]@, ivs));
                assert(self.triangles@[within@[0] as int] == ts[within@[0] as int]@);
            }
            if makes_triangles(self.triangles@, ivs) {
                let q = choose|q: int| 0 <= q < self.triangles@.len() && all_corners_in(#[trigger] self.triangles@[q], ivs);
                assert(self.triangles@[q] == ts[q]@);
                let pick = |q: int| all_corners_in(self.triangles.0@[q]@, id_views(vertices@));
                assert(pick(q));
                assert(within@.contains(q as usize));
            }
        }
        if within.len() > 0 {
            self.delete_triangles_with_all_vertices(vertices);
        } else {
            let ghost before = self.triangles@;
            let mut i: usize = 0;
            while i < n - 2
                invariant
                    n == vertices@.len(),
                    n >= 3,
                    swap_ends@.len() == n - 2,
                    i <= n - 2,
                    self.vertices == old(self).vertices,
                    self.uvs == old(self).uvs,
                    self.normals == old(self).normals,
                    self.triangles@ == before + strip(id_views(vertices@), swap_ends@).take(i as int),
                decreases n - 2 - i,
            {
                let (a, c) = if swap_ends[i] { (&vertices[i + 2], &vertices[i]) } else { (&vertices[i], &vertices[i + 2]) };
                let tri = Triangle {
                    vertices: [plain_vertex(a), plain_vertex(&vertices[i + 1]), plain_vertex(c)],
                    material: None,
                };
                let ghost prev = self.triangles@;
                self.triangles.0.push(tri);
                proof {
                    let st = strip(id_views(vertices@), swap_ends@);
                    assert(tri@ == st[i as int]);
                    assert(self.triangles@ =~= prev.push(tri@));
                    assert(st.take(i + 1) =~= st.take(i as int).push(st[i as int]));
                    assert(self.triangles@ =~= before + st.take(i + 1));
                }
                i = i + 1;
            }
            proof {
                assert(strip(id_views(vertices@), swap_ends@).take(n - 2) =~= strip(id_views(vertices@), swap_ends@));
            }
        }
    }
}

proof fn lemma_push_contains<A>(s: Seq<A>, x: A, v: A)
    ensures
        s.push(x).contains(v) <==> (s.contains(v) || v == x),
{
    if s.push(x).contains(v) && v != x {
        let j = choose|j: int| 0 <= j < s.push(x).len() && #[trigger] s.push(x)[j] == v;
        assert(s[j] == v);
    }
    if s.contains(v) {
        let j = choose|j: int| 0 <= j < s.len() && #[trigger] s[j] == v;
        assert(s.push(x)[j] == v);
    }
    if v == x {
        assert(s.push(x)[s.len() as int] == v);
    }
}

/// References to the stored entries `0..n`.
pub open spec fn index_ids(n: nat) -> Seq<IdView> {
    Seq::new(n, |i: int| IdView::Index(i as usize))
}

/// References to the entries of a named map, in order.
pub open spec fn name_ids<V>(es: Seq<(String, V)>) -> Seq<IdView> {
    es.map_values(|e: (String, V)| IdView::Named(e.0@))
}

pub open spec fn uv_views(ids: Seq<UvId>) -> Seq<IdView> {
    ids.map_values(|v: UvId| v@)
}

pub open spec fn normal_views(ids: Seq<NormalId>) -> Seq<IdView> {
    ids.map_values(|v: NormalId| v@)
}

proof fn lemma_id_views_push(s: Seq<VertexId>, x: VertexId)
    ensures
        id_views(s.push(x)) == id_views(s).push(x@),
{
    assert(id_views(s.push(x)) =~= id_views(s).push(x@));
}

proof fn lemma_uv_views_push(s: Seq<UvId>, x: UvId)
    ensures
        uv_views(s.push(x)) == uv_views(s).push(x@),
{
    assert(uv_views(s.push(x)) =~= uv_views(s).push(x@));
}

proof fn lemma_normal_views_push(s: Seq<NormalId>, x: NormalId)
    ensures
        normal_views(s.push(x)) == normal_views(s).push(x@),
{
    assert(normal_views(s.push(x)) =~= normal_views(s).push(x@));
}

fn push_index_ids(out: &mut Vec<VertexId>, n: usize)
    ensures
        id_views(final(out)@) == id_views(old(out)@) + index_ids(n as nat),
{
    let ghost start = id_views(out@);
    for i in 0..n
        invariant
            id_views(out@) == start + index_ids(i as nat),
    {
        let ghost prev = out@;
        out.push(VertexId::Index(i));
        proof {
            lemma_id_views_push(prev, VertexId::Index(i));
        }
        assert(id_views(out@) =~= start + index_ids((i + 1) as nat));
    }
}

impl Part {
    /// Every reference to a vertex of the part: the stored ones by index, then
    /// the named ones, then the computed ones, each in order.
    pub fn get_valid_vertex_ids(&self) -> (r: Vec<VertexId>)
        ensures
            id_views(r@) == index_ids(self.vertices.indexed@.len()) + name_ids(vec3_entries(self.vertices.named))
                + name_ids(compute_vertex_entries(self.vertices.compute)),
    {
        let mut out: Vec<VertexId> = Vec::new();
        push_index_ids(&mut out, self.vertices.indexed.len());
        let ghost a = id_views(out@);
        let ghost es = vec3_entries(self.vertices.named);
        let n = vec3_len(&self.vertices.named);
        for j in 0..n
            invariant
                n == es.len(),
                es == vec3_entries(self.vertices.named),
                id_views(out@) == a + name_ids(es.take(j as int)),
        {
            match vec3_entry(&self.vertices.named, j) {
                Some((k, _)) => {
                    let ghost prev = out@;
                    out.push(VertexId::Named(k));
                    proof {
                        lemma_id_views_push(prev, out@.last());
                        assert(prev.push(out@.last()) =~= out@);
                    }
                    assert(name_ids(es.take(j + 1)) =~= name_ids(es.take(j as int)).push(IdView::Named(es[j as int].0@)));
                    assert(id_views(out@) =~= a + name_ids(es.take(j + 1)));
                },
                None => {},
            }
        }
        assert(es.take(n as int) =~= es);
        let ghost b = id_views(out@);
        let ghost cs = compute_vertex_entries(self.vertices.compute);
        let m = compute_vertex_len(&self.vertices.compute);
        for j in 0..m
            invariant
                m == cs.len(),
                cs == compute_vertex_entries(self.vertices.compute),
                id_views(out@) == b + name_ids(cs.take(j as int)),
        {
            match compute_vertex_entry(&self.vertices.compute, j) {
                Some((k, _)) => {
                    let ghost prev = out@;
                    out.push(VertexId::Named(k));
                    proof {
                        lemma_id_views_push(prev, out@.last());
                        assert(prev.push(out@.last()) =~= out@);
                    }
                    assert(name_ids(cs.take(j + 1)) =~= name_ids(cs.take(j as int)).push(IdView::Named(cs[j as int].0@)));
                    assert(id_views(out@) =~= b + name_ids(cs.take(j + 1)));
                },
                None => {},
            }
        }
        assert(cs.take(m as int) =~= cs);
        out
    }

    /// Every reference to a uv of the part: the stored ones by index, then the
    /// named ones, each in order.
    pub fn get_valid_uv_ids(&self) -> (r: Vec<UvId>)
        ensures
            uv_views(r@) == index_ids(self.uvs.indexed@.len()) + name_ids(vec2_entries(self.uvs.named)),
    {
        let mut out: Vec<UvId> = Vec::new();
        for i in 0..self.uvs.indexed.len()
            invariant
                uv_views(out@) == index_ids(i as nat),
        {
            let ghost prev = out@;
            out.push(UvId::Index(i));
            proof {
                lemma_uv_views_push(prev, UvId::Index(i));
            }
            assert(uv_views(out@) =~= index_ids((i + 1) as nat));
        }
        let ghost a = uv_views(out@);
        let ghost es = vec2_entries(self.uvs.named);
        let n = vec2_len(&self.uvs.named);
        for j in 0..n
            invariant
                n == es.len(),
                es == vec2_entries(self.uvs.named),
                uv_views(out@) == a + name_ids(es.take(j as int)),
        {
            match vec2_entry(&self.uvs.named, j) {
                Some((k, _)) => {
                    let ghost prev = out@;
                    out.push(UvId::Named(k));
                    proof {
                        lemma_uv_views_push(prev, out@.last());
                        assert(prev.push(out@.last()) =~= out@);
                    }
                    assert(name_ids(es.take(j + 1)) =~= name_ids(es.take(j as int)).push(IdView::Named(es[j as int].0@)));
                    assert(uv_views(out@) =~= a + name_ids(es.take(j + 1)));
                },
                None => {},
            }
        }
        assert(es.take(n as int) =~= es);
        out
    }

    /// Every reference to a normal of the part: the stored ones by index, then
    /// the named ones, then the computed ones, each in order.
    pub fn get_valid_normal_ids(&self) -> (r: Vec<NormalId>)
        ensures
            normal_views(r@) == index_ids(self.normals.indexed@.len()) + name_ids(vec3_entries(self.normals.named))
                + name_ids(compute_normal_entries(self.normals.compute)),
    {
        let mut out: Vec<NormalId> = Vec::new();
        for i in 0..self.normals.indexed.len()
            invariant
                normal_views(out@) == index_ids(i as nat),
        {
            let ghost prev = out@;
            out.push(NormalId::Index(i));
            proof {
                lemma_normal_views_push(prev, NormalId::Index(i));
            }
            assert(normal_views(out@) =~= index_ids((i + 1) as nat));
        }
        let ghost a = normal_views(out@);
        let ghost es = vec3_entries(self.normals.named);
        let n = vec3_len(&self.normals.named);
        for j in 0..n
            invariant
                n == es.len(),
                es == vec3_entries(self.normals.named),
                normal_views(out@) == a + name_ids(es.take(j as int)),
        {
            match vec3_entry(&self.normals.named, j) {
                Some((k, _)) => {
                    let ghost prev = out@;
                    out.push(NormalId::Named(k));
                    proof {
                        lemma_normal_views_push(prev, out@.last());
                        assert(prev.push(out@.last()) =~= out@);
                    }
                    assert(name_ids(es.take(j + 1)) =~= name_ids(es.take(j as int)).push(IdView::Named(es[j as int].0@)));
                    assert(normal_views(out@) =~= a + name_ids(es.take(j + 1)));
                },
                None => {},
            }
        }
        assert(es.take(n as int) =~= es);
        let ghost b = normal_views(out@);
        let ghost cs = compute_normal_entries(self.normals.compute);
        let m = compute_normal_len(&self.normals.compute);
        for j in 0..m
            invariant
                m == cs.len(),
                cs == compute_normal_entries(self.normals.compute),
                normal_views(out@) == b + name_ids(cs.take(j as int)),
        {
            match compute_normal_entry(&self.normals.compute, j) {
                Some((k, _)) => {
                    let ghost prev = out@;
                    out.push(NormalId::Named(k));
                    proof {
                        lemma_normal_views_push(prev, out@.last());
                        assert(prev.push(out@.last()) =~= out@);
                    }
                    assert(name_ids(cs.take(j + 1)) =~= name_ids(cs.take(j as int)).push(IdView::Named(cs[j as int].0@)));
                    assert(normal_views(out@) =~= b + name_ids(cs.take(j + 1)));
                },
                None => {},
            }
        }
        assert(cs.take(m as int) =~= cs);
        out
    }

    /// The texture coordinate a reference names: the stored one at its index
    /// or the named one, and zero (both bit patterns 0) when there is none.
    pub fn resolve_uv(&self, id: &UvId) -> (r: Vec2Bits)
        ensures
            r == match *id {
                UvId::Index(i) => if i < self.uvs.indexed@.len() {
                    self.uvs.indexed@[i as int]
                } else {
                    Vec2Bits { x: 0, y: 0 }
                },
                UvId::Named(n) => match value_named(vec2_entries(self.uvs.named), n@) {
                    Some(v) => v,
                    None => Vec2Bits { x: 0, y: 0 },
                },
            },
    {
        match id {
            UvId::Index(i) => {
                if *i < self.uvs.indexed.len() {
                    self.uvs.indexed[*i]
                } else {
                    Vec2Bits { x: 0, y: 0 }
                }
            },
            UvId::Named(n) => match vec2_get(&self.uvs.named, n) {
                Some(v) => v,
                None => Vec2Bits { x: 0, y: 0 },
            },
        }
    }
}

impl Vertices {
    /// The stored and named positions with their references, stored ones by
    /// index first, each in order. (Computed positions are worked out in
    /// floating point, outside this library.)
    pub fn get_vec(&self) -> (r: Vec<(VertexId, Vec3Bits)>)
        ensures
            r@.len() == self.indexed@.len() + vec3_entries(self.named).len(),
            forall|i: int| 0 <= i < self.indexed@.len() ==> (#[trigger] r@[i]).0@ == IdView::Index(i as usize)
                && r@[i].1 == self.indexed@[i],
            forall|j: int| 0 <= j < vec3_entries(self.named).len() ==> {
                let e = #[trigger] vec3_entries(self.named)[j];
                let q = r@[self.indexed@.len() + j];
                q.0@ == IdView::Named(e.0@) && q.1 == e.1
            },
    {
        let mut out: Vec<(VertexId, Vec3Bits)> = Vec::new();
        let n = self.indexed.len();
        for i in 0..n
            invariant
                n == self.indexed@.len(),
                out@.len() == i,
                forall|q: int| 0 <= q < i ==> (#[trigger] out@[q]).0@ == IdView::Index(q as usize)
                    && out@[q].1 == self.indexed@[q],
        {
            out.push((VertexId::Index(i), self.indexed[i]));
        }
        let ghost es = vec3_entries(self.named);
        let m = vec3_len(&self.named);
        for j in 0..m
            invariant
                n == self.indexed@.len(),
                m == es.len(),
                es == vec3_entries(self.named),
                out@.len() == n + j,
                forall|q: int| 0 <= q < n ==> (#[trigger] out@[q]).0@ == IdView::Index(q as usize)
                    && out@[q].1 == self.indexed@[q],
                forall|q: int| 0 <= q < j ==> {
                    let e = #[trigger] es[q];
                    let p = out@[n + q];
                    p.0@ == IdView::Named(e.0@) && p.1 == e.1
                },
        {
            match vec3_entry(&self.named, j) {
                Some((k, v)) => {
                    out.push((VertexId::Named(k), v));
                },
                None => {},
            }
        }
        out
    }
}

/// The positions `0..n` at which `pick` holds, in increasing order, are
/// exactly the elements of `r`.
pub open spec fn picks_exactly(r: Seq<usize>, n: int, pick: spec_fn(int) -> bool) -> bool {
    &&& forall|k: int| 0 <= k < r.len() ==> #[trigger] r[k] < n && pick(r[k] as int)
    &&& forall|k: int, l: int| 0 <= k < l < r.len() ==> #[trigger] r[k] < #[trigger] r[l]
    &&& forall|q: int| 0 <= q < n && #[trigger] pick(q) ==> r.contains(q as usize)
}

impl Part {
    /// The stored and named (not computed) positions that `ids` refer to: the
    /// indices of the stored ones and the places of the named ones in their
    /// map, each in increasing order. The caller edits the positions there.
    pub fn filter_non_compute_vertices(&self, ids: &[VertexId]) -> (r: (Vec<usize>, Vec<usize>))
        ensures
            picks_exactly(r.0@, self.vertices.indexed@.len() as int,
                |q: int| id_views(ids@).contains(IdView::Index(q as usize))),
            picks_exactly(r.1@, vec3_entries(self.vertices.named).len() as int,
                |q: int| id_views(ids@).contains(IdView::Named(vec3_entries(self.vertices.named)[q].0@))),
    {
        let ghost ivs = id_views(ids@);
        let mut stored: Vec<usize> = Vec::new();
        let n = self.vertices.indexed.len();
        for i in 0..n
            invariant
                n == self.vertices.indexed@.len(),
                ivs == id_views(ids@),
                forall|k: int| 0 <= k < stored@.len() ==> #[trigger] stored@[k] < i && ivs.contains(IdView::Index(stored@[k])),
                forall|k: int, l: int| 0 <= k < l < stored@.len() ==> #[trigger] stored@[k] < #[trigger] stored@[l],
                forall|q: int| 0 <= q < i && #[trigger] ivs.contains(IdView::Index(q as usize)) ==> stored@.contains(q as usize),
        {
            let probe = VertexId::Index(i);
            if contains_id(ids, &probe) {
                let ghost prev = stored@;
                stored.push(i);
                proof {
                    assert forall|q: int| 0 <= q < i + 1 && #[trigger] ivs.contains(IdView::Index(q as usize))
                        implies stored@.contains(q as usize) by {
                        if q < i {
                            let w = choose|w: int| 0 <= w < prev.len() && prev[w] == q as usize;
                            assert(stored@[w] == q as usize);
                        } else {
                            assert(stored@[prev.len() as int] == i);
                        }
                    }
                }
            } else {
                proof {
                    assert forall|q: int| 0 <= q < i + 1 && #[trigger] ivs.contains(IdView::Index(q as usize))
                        implies stored@.contains(q as usize) by {
                        if q == i {
                            assert(probe@ == IdView::Index(q as usize));
                        }
                    }
                }
            }
        }
        let ghost es = vec3_entries(self.vertices.named);
        let mut named: Vec<usize> = Vec::new();
        let m = vec3_len(&self.vertices.named);
        for j in 0..m
            invariant
                m == es.len(),
                es == vec3_entries(self.vertices.named),
                ivs == id_views(ids@),
                forall|k: int| 0 <= k < named@.len() ==> #[trigger] named@[k] < j && ivs.contains(IdView::Named(es[named@[k] as int].0@)),
                forall|k: int, l: int| 0 <= k < l < named@.len() ==> #[trigger] named@[k] < #[trigger] named@[l],
                forall|q: int| 0 <= q < j && #[trigger] ivs.contains(IdView::Named(es[q].0@)) ==> named@.contains(q as usize),
        {
            match vec3_entry(&self.vertices.named, j) {
                Some((k, _)) => {
                    let probe = VertexId::Named(k);
                    if contains_id(ids, &probe) {
                        let ghost prev = named@;
                        named.push(j);
                        proof {
                            assert forall|q: int| 0 <= q < j + 1 && #[trigger] ivs.contains(IdView::Named(es[q].0@))
                                implies named@.contains(q as usize) by {
                                if q < j {
                                    let w = choose|w: int| 0 <= w < prev.len() && prev[w] == q as usize;
                                    assert(named@[w] == q as usize);
                                } else {
                                    assert(named@[prev.len() as int] == j);
                                }
                            }
                        }
                    } else {
                        proof {
                            assert forall|q: int| 0 <= q < j + 1 && #[trigger] ivs.contains(IdView::Named(es[q].0@))
                                implies named@.contains(q as usize) by {
                                if q == j {
                                    assert(probe@ == IdView::Named(es[q].0@));
                                }
                            }
                        }
                    }
                },
                None => {},
            }
        }
        (stored, named)
    }

    /// The positions, in increasing order, of the triangles whose three
    /// corners all use vertices of `ids`; the caller edits the triangles there.
    pub fn filter_triangles(&self, ids: &[VertexId]) -> (r: Vec<usize>)
        ensures
            picks_exactly(r@, self.triangles.0@.len() as int,
                |q: int| all_corners_in(self.triangles.0@[q]@, id_views(ids@))),
    {
        let ghost ts = self.triangles.0@;
        let ghost ivs = id_views(ids@);
        let mut out: Vec<usize> = Vec::new();
        let n = self.triangles.0.len();
        for i in 0..n
            invariant
                n == ts.len(),
                ts == self.triangles.0@,
                ivs == id_views(ids@),
                forall|k: int| 0 <= k < out@.len() ==> #[trigger] out@[k] < i && all_corners_in(ts[out@[k] as int]@, ivs),
                forall|k: int, l: int| 0 <= k < l < out@.len() ==> #[trigger] out@[k] < #[trigger] out@[l],
                forall|q: int| 0 <= q < i && #[trigger] all_corners_in(ts[q]@, ivs) ==> out@.contains(q as usize),
        {
            if triangle_all_in(&self.triangles.0[i], ids) {
                let ghost prev = out@;
                out.push(i);
                proof {
                    assert forall|q: int| 0 <= q < i + 1 && #[trigger] all_corners_in(ts[q]@, ivs)
                        implies out@.contains(q as usize) by {
                        if q < i {
                            let w = choose|w: int| 0 <= w < prev.len() && prev[w] == q as usize;
                            assert(out@[w] == q as usize);
                        } else {
                            assert(out@[prev.len() as int] == i);
                        }
                    }
                }
            }
        }
        out
    }
}

/// Flipping the triangles within the same vertices twice gives back the
/// triangles it started from.
pub proof fn lemma_flip_twice(t0: Seq<Triangle>, t1: Seq<Triangle>, t2: Seq<Triangle>, ids: Seq<IdView>)
    requires
        flipped_within(t1, t0, ids),
        flipped_within(t2, t1, ids),
    ensures
        triangles_view(t2) == triangles_view(t0),
{
    assert forall|i: int| 0 <= i < t0.len() implies (#[trigger] t2[i])@ == t0[i]@ by {
        if all_corners_in(t0[i]@, ids) {
            assert(t1[i].vertices@ == seq![t0[i].vertices@[2], t0[i].vertices@[1], t0[i].vertices@[0]]);
            assert(all_corners_in(t1[i]@, ids));
            assert(t2[i].vertices@ == seq![t1[i].vertices@[2], t1[i].vertices@[1], t1[i].vertices@[0]]);
        } else {
            assert(t1[i] == t0[i]);
        }
    }
    assert(triangles_view(t2) =~= triangles_view(t0));
}

/// Once the triangles with all corners in `ids` are deleted, no remaining
/// triangle has all its corners in `ids`, and every triangle that remains was
/// there before.
pub proof fn lemma_deleted_triangles_gone(ts: Seq<Triangle>, ids: Seq<IdView>)
    ensures
        forall|i: int| 0 <= i < without_all_in(ts, ids).len()
            ==> !all_corners_in((#[trigger] without_all_in(ts, ids)[i])@, ids),
        forall|i: int| 0 <= i < without_all_in(ts, ids).len()
            ==> ts.contains(#[trigger] without_all_in(ts, ids)[i]),
    decreases ts.len(),
{
    if ts.len() > 0 {
        let r = without_all_in(ts.drop_last(), ids);
        lemma_deleted_triangles_gone(ts.drop_last(), ids);
        assert forall|i: int| 0 <= i < without_all_in(ts, ids).len()
            implies ts.contains(#[trigger] without_all_in(ts, ids)[i]) by {
            if i < r.len() {
                let j = choose|j: int| 0 <= j < ts.drop_last().len() && ts.drop_last()[j] == r[i];
                assert(ts[j] == r[i]);
            } else {
                assert(ts[ts.len() - 1] == ts.last());
            }
        }
    }
}

/// Deleting the triangles with all corners in `ids` a second time changes nothing.
pub proof fn lemma_delete_idempotent(ts: Seq<Triangle>, ids: Seq<IdView>)
    ensures
        without_all_in(without_all_in(ts, ids), ids) == without_all_in(ts, ids),
{
    lemma_deleted_triangles_gone(ts, ids);
    lemma_without_none_in(without_all_in(ts, ids), ids);
}

proof fn lemma_without_none_in(ts: Seq<Triangle>, ids: Seq<IdView>)
    requires
        forall|i: int| 0 <= i < ts.len() ==> !all_corners_in((#[trigger] ts[i])@, ids),
    ensures
        without_all_in(ts, ids) == ts,
    decreases ts.len(),
{
    if ts.len() > 0 {
        lemma_without_none_in(ts.drop_last(), ids);
        assert(!all_corners_in(ts[ts.len() - 1]@, ids));
        assert(ts.drop_last().push(ts.last()) =~= ts);
    }
}

/// The triangles of `ts` that do not have all three corners in `ids`, in order.
pub open spec fn views_without_all_in(ts: Seq<TriangleView>, ids: Seq<IdView>) -> Seq<TriangleView>
    decreases ts.len(),
{
    if ts.len() == 0 {
        Seq::empty()
    } else {
        let r = views_without_all_in(ts.drop_last(), ids);
        if all_corners_in(ts.last(), ids) {
            r
        } else {
            r.push(ts.last())
        }
    }
}

proof fn lemma_view_of_without(s: Seq<Triangle>, ids: Seq<IdView>)
    ensures
        triangles_view(without_all_in(s, ids)) == views_without_all_in(triangles_view(s), ids),
    decreases s.len(),
{
    if s.len() > 0 {
        lemma_view_of_without(s.drop_last(), ids);
        assert(triangles_view(s).drop_last() =~= triangles_view(s.drop_last()));
        assert(triangles_view(s).last() == s.last()@);
        let r = without_all_in(s.drop_last(), ids);
        assert(triangles_view(r.push(s.last())) =~= triangles_view(r).push(s.last()@));
    }
}

proof fn lemma_views_without_append(a: Seq<TriangleView>, b: Seq<TriangleView>, ids: Seq<IdView>)
    ensures
        views_without_all_in(a + b, ids) == views_without_all_in(a, ids) + views_without_all_in(b, ids),
    decreases b.len(),
{
    if b.len() == 0 {
        assert(a + b =~= a);
        assert(views_without_all_in(a, ids) + Seq::<TriangleView>::empty() =~= views_without_all_in(a, ids));
    } else {
        lemma_views_without_append(a, b.drop_last(), ids);
        assert((a + b).drop_last() =~= a + b.drop_last());
        assert((a + b).last() == b.last());
        let ra = views_without_all_in(a, ids);
        let rb = views_without_all_in(b.drop_last(), ids);
        assert((ra + rb).push(b.last()) =~= ra + rb.push(b.last()));
    }
}

proof fn lemma_views_without_all(a: Seq<TriangleView>, ids: Seq<IdView>)
    ensures
        (forall|i: int| 0 <= i < a.len() ==> !all_corners_in(#[trigger] a[i], ids)) ==> views_without_all_in(a, ids) == a,
        (forall|i: int| 0 <= i < a.len() ==> all_corners_in(#[trigger] a[i], ids)) ==> views_without_all_in(a, ids).len() == 0,
    decreases a.len(),
{
    if a.len() > 0 {
        lemma_views_without_all(a.drop_last(), ids);
        if forall|i: int| 0 <= i < a.len() ==> !all_corners_in(#[trigger] a[i], ids) {
            assert(!all_corners_in(a[a.len() - 1], ids));
            assert(forall|i: int| 0 <= i < a.drop_last().len() ==> !all_corners_in(#[trigger] a.drop_last()[i], ids)
                ) by {
                assert forall|i: int| 0 <= i < a.drop_last().len() implies !all_corners_in(#[trigger] a.drop_last()[i], ids) by {
                    assert(a.drop_last()[i] == a[i]);
                }
            }
            assert(a.drop_last().push(a.last()) =~= a);
        }
        if forall|i: int| 0 <= i < a.len() ==> all_corners_in(#[trigger] a[i], ids) {
            assert(all_corners_in(a[a.len() - 1], ids));
            assert forall|i: int| 0 <= i < a.drop_last().len() implies all_corners_in(#[trigger] a.drop_last()[i], ids) by {
                assert(a.drop_last()[i] == a[i]);
            }
        }
    }
}

proof fn lemma_strip_all_within(vs: Seq<IdView>, swap_ends: Seq<bool>)
    requires
        vs.len() >= 3,
        swap_ends.len() == vs.len() - 2,
    ensures
        forall|i: int| 0 <= i < strip(vs, swap_ends).len() ==> all_corners_in(#[trigger] strip(vs, swap_ends)[i], vs),
{
    assert forall|i: int| 0 <= i < strip(vs, swap_ends).len() implies all_corners_in(#[trigger] strip(vs, swap_ends)[i], vs) by {
        assert(vs.contains(vs[i]));
        assert(vs.contains(vs[i + 1]));
        assert(vs.contains(vs[i + 2]));
    }
}

/// A toggle undoes itself: when the vertices make up no triangle, the strip
/// it adds makes up triangles, so the same toggle done again deletes, and it
/// deletes exactly the strip, giving back the triangles from before.
pub proof fn lemma_toggle_twice_restores(t0: Seq<Triangle>, t1: Seq<Triangle>, vs: Seq<IdView>, swap_ends: Seq<bool>)
    requires
        vs.len() >= 3,
        swap_ends.len() == vs.len() - 2,
        !makes_triangles(triangles_view(t0), vs),
        triangles_view(t1) == triangles_view(t0) + strip(vs, swap_ends),
    ensures
        makes_triangles(triangles_view(t1), vs),
        triangles_view(without_all_in(t1, vs)) == triangles_view(t0),
{
    let v0 = triangles_view(t0);
    let st = strip(vs, swap_ends);
    lemma_strip_all_within(vs, swap_ends);
    assert(triangles_view(t1)[v0.len() as int] == st[0]);
    assert(all_corners_in(st[0], vs));
    assert forall|i: int| 0 <= i < v0.len() implies !all_corners_in(#[trigger] v0[i], vs) by {
        if all_corners_in(v0[i], vs) {
            assert(makes_triangles(v0, vs));
        }
    }
    lemma_view_of_without(t1, vs);
    lemma_views_without_append(v0, st, vs);
    lemma_views_without_all(v0, vs);
    lemma_views_without_all(st, vs);
    assert(views_without_all_in(st, vs) =~= Seq::<TriangleView>::empty());
    assert(v0 + Seq::<TriangleView>::empty() =~= v0);
}

} // verus!
