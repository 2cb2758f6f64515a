//! Light-mesh topology: references to vertices, uvs and normals, triangles, and
//! the compact stored form of a triangle list, in which runs of triangles share
//! a default uv and normal set by a state entry.
use vstd::prelude::*;

verus! {

/// A reference to mesh data, by position or by name.
pub enum IdView {
    Index(usize),
    Named(Seq<char>),
}

/// Reference to a vertex position.
#[derive(Debug)]
pub enum VertexId {
    Index(usize),
    Named(String),
}

/// Reference to a texture coordinate.
#[derive(Debug)]
pub enum UvId {
    Index(usize),
    Named(String),
}

/// Reference to a normal.
#[derive(Debug)]
pub enum NormalId {
    Index(usize),
    Named(String),
}

impl View for VertexId {
    type V = IdView;

    open spec fn view(&self) -> IdView {
        match self {
            VertexId::Index(i) => IdView::Index(*i),
            VertexId::Named(s) => IdView::Named(s@),
        }
    }
}

impl View for UvId {
    type V = IdView;

    open spec fn view(&self) -> IdView {
        match self {
            UvId::Index(i) => IdView::Index(*i),
            UvId::Named(s) => IdView::Named(s@),
        }
    }
}

impl View for NormalId {
    type V = IdView;

    open spec fn view(&self) -> IdView {
        match self {
            NormalId::Index(i) => IdView::Index(*i),
            NormalId::Named(s) => IdView::Named(s@),
        }
    }
}

impl Clone for VertexId {
    fn clone(&self) -> (r: Self)
        ensures
            r == *self,
    {
        match self {
            VertexId::Index(i) => VertexId::Index(*i),
            VertexId::Named(s) => VertexId::Named(s.clone()),
        }
    }
}

impl Clone for UvId {
    fn clone(&self) -> (r: Self)
        ensures
            r == *self,
    {
        match self {
            UvId::Index(i) => UvId::Index(*i),
            UvId::Named(s) => UvId::Named(s.clone()),
        }
    }
}

impl Clone for NormalId {
    fn clone(&self) -> (r: Self)
        ensures
            r == *self,
    {
        match self {
            NormalId::Index(i) => NormalId::Index(*i),
            NormalId::Named(s) => NormalId::Named(s.clone()),
        }
    }
}

impl PartialEq for VertexId {
    fn eq(&self, other: &Self) -> (r: bool) {
        match (self, other) {
            (VertexId::Index(a), VertexId::Index(b)) => *a == *b,
            (VertexId::Named(a), VertexId::Named(b)) => *a == *b,
            _ => false,
        }
    }
}

impl vstd::std_specs::cmp::PartialEqSpecImpl for VertexId {
    open spec fn obeys_eq_spec() -> bool {
        true
    }

    open spec fn eq_spec(&self, other: &VertexId) -> bool {
        self@ == other@
    }
}

impl PartialEq for UvId {
    fn eq(&self, other: &Self) -> (r: bool) {
        match (self, other) {
            (UvId::Index(a), UvId::Index(b)) => *a == *b,
            (UvId::Named(a), UvId::Named(b)) => *a == *b,
            _ => false,
        }
    }
}

impl vstd::std_specs::cmp::PartialEqSpecImpl for UvId {
    open spec fn obeys_eq_spec() -> bool {
        true
    }

    open spec fn eq_spec(&self, other: &UvId) -> bool {
        self@ == other@
    }
}

impl PartialEq for NormalId {
    fn eq(&self, other: &Self) -> (r: bool) {
        match (self, other) {
            (NormalId::Index(a), NormalId::Index(b)) => *a == *b,
            (NormalId::Named(a), NormalId::Named(b)) => *a == *b,
            _ => false,
        }
    }
}

impl vstd::std_specs::cmp::PartialEqSpecImpl for NormalId {
    open spec fn obeys_eq_spec() -> bool {
        true
    }

    open spec fn eq_spec(&self, other: &NormalId) -> bool {
        self@ == other@
    }
}

/// One corner of a triangle: which position, uv and normal it uses.
pub struct VertexView {
    pub vertex: IdView,
    pub uv: IdView,
    pub normal: IdView,
}

/// A triangle's corners and material name.
pub struct TriangleView {
    pub a: VertexView,
    pub b: VertexView,
    pub c: VertexView,
    pub material: Option<Seq<char>>,
}

#[derive(Debug)]
pub struct Vertex {
    pub vertex: VertexId,
    pub uv: UvId,
    pub normal: NormalId,
}

impl View for Vertex {
    type V = VertexView;

    open spec fn view(&self) -> VertexView {
        VertexView { vertex: self.vertex@, uv: self.uv@, normal: self.normal@ }
    }
}

impl Clone for Vertex {
    fn clone(&self) -> (r: Self)
        ensures
            r == *self,
    {
        Vertex { vertex: self.vertex.clone(), uv: self.uv.clone(), normal: self.normal.clone() }
    }
}

pub open spec fn opt_string_view(s: Option<String>) -> Option<Seq<char>> {
    match s {
        Some(x) => Some(x@),
        None => None,
    }
}

pub fn clone_opt_string(s: &Option<String>) -> (r: Option<String>)
    ensures
        r == *s,
{
    match s {
        Some(x) => Some(x.clone()),
        None => None,
    }
}

#[derive(Debug)]
pub struct Triangle {
    pub vertices: [Vertex; 3],
    pub material: Option<String>,
}

impl View for Triangle {
    type V = TriangleView;

    open spec fn view(&self) -> TriangleView {
        TriangleView {
            a: self.vertices@[0]@,
            b: self.vertices@[1]@,
            c: self.vertices@[2]@,
            material: opt_string_view(self.material),
        }
    }
}

impl Clone for Triangle {
    fn clone(&self) -> (r: Self)
        ensures
            r == *self,
    {
        let a = self.vertices[0].clone();
        let b = self.vertices[1].clone();
        let c = self.vertices[2].clone();
        let r = Triangle { vertices: [a, b, c], material: clone_opt_string(&self.material) };
        assert(r.vertices =~= self.vertices);
        r
    }
}

/// A triangle list.
#[derive(Debug)]
pub struct Triangles(pub Vec<Triangle>);

pub open spec fn triangles_view(ts: Seq<Triangle>) -> Seq<TriangleView> {
    ts.map_values(|t: Triangle| t@)
}

impl View for Triangles {
    type V = Seq<TriangleView>;

    open spec fn view(&self) -> Seq<TriangleView> {
        triangles_view(self.0@)
    }
}

/// A stored corner: the vertex alone takes the running uv and normal, `WithUv`
/// overrides the uv, `Full` overrides both.
#[derive(Debug)]
pub enum VertRefData {
    Bare(VertexId),
    WithUv(VertexId, UvId),
    Full(VertexId, UvId, NormalId),
}

impl Clone for VertRefData {
    fn clone(&self) -> (r: Self)
        ensures
            r == *self,
    {
        match self {
            VertRefData::Bare(v) => VertRefData::Bare(v.clone()),
            VertRefData::WithUv(v, u) => VertRefData::WithUv(v.clone(), u.clone()),
            VertRefData::Full(v, u, n) => VertRefData::Full(v.clone(), u.clone(), n.clone()),
        }
    }
}

pub enum RefView {
    Bare(IdView),
    WithUv(IdView, IdView),
    Full(IdView, IdView, IdView),
}

impl View for VertRefData {
    type V = RefView;

    open spec fn view(&self) -> RefView {
        match self {
            VertRefData::Bare(v) => RefView::Bare(v@),
            VertRefData::WithUv(v, u) => RefView::WithUv(v@, u@),
            VertRefData::Full(v, u, n) => RefView::Full(v@, u@, n@),
        }
    }
}

/// The corner a stored reference stands for under the running uv and normal.
pub open spec fn resolve_ref(r: RefView, defaults: (IdView, IdView)) -> VertexView {
    match r {
        RefView::Bare(v) => VertexView { vertex: v, uv: defaults.0, normal: defaults.1 },
        RefView::WithUv(v, u) => VertexView { vertex: v, uv: u, normal: defaults.1 },
        RefView::Full(v, u, n) => VertexView { vertex: v, uv: u, normal: n },
    }
}

impl VertRefData {
    /// Splits the reference into its vertex and its optional uv and normal.
    pub fn take_all(self) -> (parts: (VertexId, Option<UvId>, Option<NormalId>))
        ensures
            match self {
                VertRefData::Bare(v) => parts == (v, Option::<UvId>::None, Option::<NormalId>::None),
                VertRefData::WithUv(v, u) => parts == (v, Some(u), Option::<NormalId>::None),
                VertRefData::Full(v, u, n) => parts == (v, Some(u), Some(n)),
            },
    {
        match self {
            VertRefData::Bare(v) => (v, None, None),
            VertRefData::WithUv(v, u) => (v, Some(u), None),
            VertRefData::Full(v, u, n) => (v, Some(u), Some(n)),
        }
    }

    /// The corner this reference stands for, taking the missing uv and normal
    /// from `defaults`.
    pub fn resolve(self, defaults: &(UvId, NormalId)) -> (v: Vertex)
        ensures
            v@ == resolve_ref(self@, (defaults.0@, defaults.1@)),
    {
        let (v, u, n) = self.take_all();
        Vertex {
            vertex: v,
            uv: match u {
                Some(u) => u,
                None => defaults.0.clone(),
            },
            normal: match n {
                Some(n) => n,
                None => defaults.1.clone(),
            },
        }
    }
}

/// A stored triangle.
#[derive(Debug)]
pub struct TriangleData {
    pub verts: [VertRefData; 3],
    pub mat: Option<String>,
}

pub struct TriangleDataView {
    pub a: RefView,
    pub b: RefView,
    pub c: RefView,
    pub mat: Option<Seq<char>>,
}

impl View for TriangleData {
    type V = TriangleDataView;

    open spec fn view(&self) -> TriangleDataView {
        TriangleDataView {
            a: self.verts@[0]@,
            b: self.verts@[1]@,
            c: self.verts@[2]@,
            mat: opt_string_view(self.mat),
        }
    }
}

/// Sets the running uv and/or normal for the triangles that follow.
#[derive(Debug)]
pub struct StateSet {
    pub uv: Option<UvId>,
    pub normal: Option<NormalId>,
}

/// One entry of a stored triangle list.
#[derive(Debug)]
pub enum TriangleEntry {
    StateSet(StateSet),
    Triangle(TriangleData),
}

pub enum EntryView {
    StateSet(Option<IdView>, Option<IdView>),
    Triangle(TriangleDataView),
}

pub open spec fn opt_uv_view(u: Option<UvId>) -> Option<IdView> {
    match u {
        Some(x) => Some(x@),
        None => None,
    }
}

pub open spec fn opt_normal_view(n: Option<NormalId>) -> Option<IdView> {
    match n {
        Some(x) => Some(x@),
        None => None,
    }
}

impl View for TriangleEntry {
    type V = EntryView;

    open spec fn view(&self) -> EntryView {
        match self {
            TriangleEntry::StateSet(s) => EntryView::StateSet(opt_uv_view(s.uv), opt_normal_view(s.normal)),
            TriangleEntry::Triangle(t) => EntryView::Triangle(t@),
        }
    }
}

pub open spec fn entries_view(es: Seq<TriangleEntry>) -> Seq<EntryView> {
    es.map_values(|e: TriangleEntry| e@)
}

/// The running uv and normal a stored list starts with.
pub open spec fn initial_defaults() -> (IdView, IdView) {
    (IdView::Index(0), IdView::Index(0))
}

pub open spec fn resolve_data(t: TriangleDataView, d: (IdView, IdView)) -> TriangleView {
    TriangleView {
        a: resolve_ref(t.a, d),
        b: resolve_ref(t.b, d),
        c: resolve_ref(t.c, d),
        material: t.mat,
    }
}

pub open spec fn apply_state(d: (IdView, IdView), uv: Option<IdView>, normal: Option<IdView>) -> (IdView, IdView) {
    (
        match uv {
            Some(u) => u,
            None => d.0,
        },
        match normal {
            Some(n) => n,
            None => d.1,
        },
    )
}

/// The triangles a stored list stands for, read front to back from the running
/// defaults `d`.
pub open spec fn decode(es: Seq<EntryView>, d: (IdView, IdView)) -> Seq<TriangleView>
    decreases es.len(),
{
    if es.len() == 0 {
        Seq::empty()
    } else {
        match es[0] {
            EntryView::StateSet(uv, normal) => decode(es.drop_first(), apply_state(d, uv, normal)),
            EntryView::Triangle(t) => seq![resolve_data(t, d)] + decode(es.drop_first(), d),
        }
    }
}

/// The running defaults once the stored list has been read from `d`.
pub open spec fn defaults_after(es: Seq<EntryView>, d: (IdView, IdView)) -> (IdView, IdView)
    decreases es.len(),
{
    if es.len() == 0 {
        d
    } else {
        match es[0] {
            EntryView::StateSet(uv, normal) => defaults_after(es.drop_first(), apply_state(d, uv, normal)),
            EntryView::Triangle(_) => defaults_after(es.drop_first(), d),
        }
    }
}

proof fn lemma_decode_append(a: Seq<EntryView>, b: Seq<EntryView>, d: (IdView, IdView))
    ensures
        decode(a + b, d) == decode(a, d) + decode(b, defaults_after(a, d)),
        defaults_after(a + b, d) == defaults_after(b, defaults_after(a, d)),
    decreases a.len(),
{
    if a.len() == 0 {
        assert(a + b =~= b);
        assert(decode(a, d) =~= Seq::<TriangleView>::empty());
        assert(Seq::<TriangleView>::empty() + decode(b, d) =~= decode(b, d));
    } else {
        assert((a + b).drop_first() =~= a.drop_first() + b);
        assert((a + b)[0] == a[0]);
        match a[0] {
            EntryView::StateSet(uv, normal) => {
                lemma_decode_append(a.drop_first(), b, apply_state(d, uv, normal));
            },
            EntryView::Triangle(t) => {
                lemma_decode_append(a.drop_first(), b, d);
                assert(seq![resolve_data(t, d)] + (decode(a.drop_first(), d) + decode(b, defaults_after(a, d)))
                    =~= (seq![resolve_data(t, d)] + decode(a.drop_first(), d)) + decode(b, defaults_after(a, d)));
            },
        }
    }
}

impl Triangles {
    /// Reads a stored triangle list: state entries change the running uv and
    /// normal, which start as index 0, and each stored triangle becomes a
    /// triangle with its missing uvs and normals taken from them.
    pub fn from_entries(entries: Vec<TriangleEntry>) -> (tris: Triangles)
        ensures
            tris@ == decode(entries_view(entries@), initial_defaults()),
    {
        let mut defaults = (UvId::Index(0), NormalId::Index(0));
        let mut tris: Vec<Triangle> = Vec::new();
        let mut entries = entries;
        let ghost all = entries_view(entries@);
        let n = entries.len();
        let mut k: usize = 0;
        proof {
            assert(all.skip(0) =~= all);
            assert(triangles_view(tris@) =~= Seq::<TriangleView>::empty());
            assert(Seq::<TriangleView>::empty() + decode(all, initial_defaults()) =~= decode(all, initial_defaults()));
        }
        while k < n
            invariant
                n == all.len(),
                k <= n,
                entries_view(entries@) == all.skip(k as int),
                triangles_view(tris@) + decode(all.skip(k as int), (defaults.0@, defaults.1@))
                    == decode(all, initial_defaults()),
            decreases n - k,
        {
            let ghost rest = all.skip(k as int);
            let ghost d = (defaults.0@, defaults.1@);
            let ghost old_entries = entries@;
            let entry = entries.remove(0);
            proof {
                assert(entries@ =~= old_entries.drop_first());
                assert forall|j: int| 0 <= j < entries@.len() implies entries_view(entries@)[j] == all.skip(k + 1)[j] by {
                    assert(entries@[j] == old_entries[j + 1]);
                    assert(entries_view(old_entries)[j + 1] == all.skip(k as int)[j + 1]);
                }
                assert(entries_view(entries@) =~= all.skip(k + 1));
                assert(rest[0] == entry@);
                assert(rest.drop_first() =~= all.skip(k + 1));
            }
            match entry {
                TriangleEntry::StateSet(StateSet { uv, normal }) => {
                    let ghost uvv = opt_uv_view(uv);
                    let ghost nv = opt_normal_view(normal);
                    if let Some(uv) = uv {
                        defaults.0 = uv;
                    }
                    if let Some(normal) = normal {
                        defaults.1 = normal;
                    }
                    assert((defaults.0@, defaults.1@) == apply_state(d, uvv, nv));
                },
                TriangleEntry::Triangle(TriangleData { verts, mat }) => {
                    let ghost tv = TriangleData { verts, mat }@;
                    let tri = Triangle {
                        vertices: [
                            verts[0].clone().resolve(&defaults),
                            verts[1].clone().resolve(&defaults),
                            verts[2].clone().resolve(&defaults),
                        ],
                        material: mat,
                    };
                    let ghost before = triangles_view(tris@);
                    tris.push(tri);
                    proof {
                        assert(tri@ == resolve_data(tv, d));
                        assert(triangles_view(tris@) =~= before.push(tri@));
                        assert(before.push(tri@) + decode(all.skip(k + 1), d)
                            =~= before + (seq![tri@] + decode(all.skip(k + 1), d)));
                    }
                },
            }
            k = k + 1;
        }
        proof {
            assert(all.skip(n as int) =~= Seq::<EntryView>::empty());
            assert(triangles_view(tris@) + Seq::<TriangleView>::empty() =~= triangles_view(tris@));
        }
        Triangles(tris)
    }
}

/// The running (uv, normal) a triangle is grouped under when stored: the uv of
/// its second and third corners when they agree, else that of its first corner;
/// likewise for the normal.
pub open spec fn key_of(t: TriangleView) -> (IdView, IdView) {
    (
        if t.b.uv == t.c.uv { t.b.uv } else { t.a.uv },
        if t.b.normal == t.c.normal { t.b.normal } else { t.a.normal },
    )
}

/// The distinct keys of the triangles, in order of first occurrence.
pub open spec fn keys_order(ts: Seq<TriangleView>) -> Seq<(IdView, IdView)>
    decreases ts.len(),
{
    if ts.len() == 0 {
        Seq::empty()
    } else {
        let ks = keys_order(ts.drop_last());
        let k = key_of(ts.last());
        if ks.contains(k) {
            ks
        } else {
            ks.push(k)
        }
    }
}

/// The triangles with key `k`, in their order.
pub open spec fn with_key(ts: Seq<TriangleView>, k: (IdView, IdView)) -> Seq<TriangleView>
    decreases ts.len(),
{
    if ts.len() == 0 {
        Seq::empty()
    } else {
        let r = with_key(ts.drop_last(), k);
        if key_of(ts.last()) == k {
            r.push(ts.last())
        } else {
            r
        }
    }
}

/// The triangles grouped by key: the groups in order of first occurrence, each
/// group in the triangles' order.
pub open spec fn flatten_groups(ks: Seq<(IdView, IdView)>, ts: Seq<TriangleView>) -> Seq<TriangleView>
    decreases ks.len(),
{
    if ks.len() == 0 {
        Seq::empty()
    } else {
        with_key(ts, ks[0]) + flatten_groups(ks.drop_first(), ts)
    }
}

pub open spec fn grouped(ts: Seq<TriangleView>) -> Seq<TriangleView> {
    flatten_groups(keys_order(ts), ts)
}

/// The shortest stored reference for a corner under running defaults `k`.
pub open spec fn compact_ref(v: VertexView, k: (IdView, IdView)) -> RefView {
    if v.uv == k.0 {
        if v.normal == k.1 {
            RefView::Bare(v.vertex)
        } else {
            RefView::Full(v.vertex, v.uv, v.normal)
        }
    } else if v.normal == k.1 {
        RefView::WithUv(v.vertex, v.uv)
    } else {
        RefView::Full(v.vertex, v.uv, v.normal)
    }
}

pub open spec fn compact(t: TriangleView, k: (IdView, IdView)) -> TriangleDataView {
    TriangleDataView { a: compact_ref(t.a, k), b: compact_ref(t.b, k), c: compact_ref(t.c, k), mat: t.material }
}

pub open spec fn compact_all(ws: Seq<TriangleView>, k: (IdView, IdView)) -> Seq<TriangleDataView> {
    ws.map_values(|t: TriangleView| compact(t, k))
}

pub open spec fn as_entries(ds: Seq<TriangleDataView>) -> Seq<EntryView> {
    ds.map_values(|d: TriangleDataView| EntryView::Triangle(d))
}

/// A state entry field: omitted when the running value already matches.
pub open spec fn delta(prev: IdView, x: IdView) -> Option<IdView> {
    if x == prev {
        None
    } else {
        Some(x)
    }
}

/// The stored form of the groups `ks`, each introduced by a state entry that
/// changes the running defaults from `prev` to the group's key.
pub open spec fn pack(ks: Seq<(IdView, IdView)>, ts: Seq<TriangleView>, prev: (IdView, IdView)) -> Seq<EntryView>
    decreases ks.len(),
{
    if ks.len() == 0 {
        Seq::empty()
    } else {
        let k = ks[0];
        seq![EntryView::StateSet(delta(prev.0, k.0), delta(prev.1, k.1))]
            + as_entries(compact_all(with_key(ts, k), k))
            + pack(ks.drop_first(), ts, k)
    }
}

/// The stored form of a triangle list.
pub open spec fn encode(ts: Seq<TriangleView>) -> Seq<EntryView> {
    pack(keys_order(ts), ts, initial_defaults())
}

pub open spec fn data_views(ds: Seq<TriangleData>) -> Seq<TriangleDataView> {
    ds.map_values(|d: TriangleData| d@)
}

proof fn lemma_keys_order_distinct(ts: Seq<TriangleView>)
    ensures
        keys_order(ts).no_duplicates(),
    decreases ts.len(),
{
    if ts.len() > 0 {
        lemma_keys_order_distinct(ts.drop_last());
    }
}

proof fn lemma_keys_order_step(ts: Seq<TriangleView>, t: TriangleView)
    ensures
        keys_order(ts.push(t)) == (if keys_order(ts).contains(key_of(t)) { keys_order(ts) } else { keys_order(ts).push(key_of(t)) }),
        forall|k: (IdView, IdView)| #[trigger] with_key(ts.push(t), k) == (if key_of(t) == k { with_key(ts, k).push(t) } else { with_key(ts, k) }),
{
    assert(ts.push(t).drop_last() =~= ts);
}

/// A triangle's corners come back unchanged from their compact references.
proof fn lemma_resolve_compact(t: TriangleView, k: (IdView, IdView))
    ensures
        resolve_data(compact(t, k), k) == t,
{
}

proof fn lemma_decode_section(ws: Seq<TriangleView>, k: (IdView, IdView))
    ensures
        decode(as_entries(compact_all(ws, k)), k) == ws,
        defaults_after(as_entries(compact_all(ws, k)), k) == k,
    decreases ws.len(),
{
    let es = as_entries(compact_all(ws, k));
    if ws.len() > 0 {
        lemma_decode_section(ws.drop_first(), k);
        assert(es.drop_first() =~= as_entries(compact_all(ws.drop_first(), k)));
        lemma_resolve_compact(ws[0], k);
        assert(seq![ws[0]] + ws.drop_first() =~= ws);
    } else {
        assert(es =~= Seq::<EntryView>::empty());
        assert(decode(es, k) =~= ws);
    }
}

/// Reading the stored groups from the defaults they were written against gives
/// back the grouped triangles.
proof fn lemma_decode_pack(ks: Seq<(IdView, IdView)>, ts: Seq<TriangleView>, prev: (IdView, IdView))
    ensures
        decode(pack(ks, ts, prev), prev) == flatten_groups(ks, ts),
    decreases ks.len(),
{
    if ks.len() == 0 {
        assert(decode(pack(ks, ts, prev), prev) =~= flatten_groups(ks, ts));
    } else {
        let k = ks[0];
        let head = seq![EntryView::StateSet(delta(prev.0, k.0), delta(prev.1, k.1))];
        let sec = as_entries(compact_all(with_key(ts, k), k));
        let rest = pack(ks.drop_first(), ts, k);
        assert(pack(ks, ts, prev) == head + sec + rest);
        assert(head + sec + rest =~= head + (sec + rest));
        lemma_decode_append(head, sec + rest, prev);
        assert(head.drop_first() =~= Seq::<EntryView>::empty());
        assert(head[0] == EntryView::StateSet(delta(prev.0, k.0), delta(prev.1, k.1)));
        assert(head.len() == 1);
        assert(decode(head.drop_first(), k) == Seq::<TriangleView>::empty());
        assert(defaults_after(head.drop_first(), k) == k);
        assert(apply_state(prev, delta(prev.0, k.0), delta(prev.1, k.1)) == k);
        assert(defaults_after(head, prev) == k);
        assert(decode(head, prev) =~= Seq::<TriangleView>::empty());
        lemma_decode_append(sec, rest, k);
        lemma_decode_section(with_key(ts, k), k);
        lemma_decode_pack(ks.drop_first(), ts, k);
        assert(Seq::<TriangleView>::empty() + (with_key(ts, k) + flatten_groups(ks.drop_first(), ts))
            =~= with_key(ts, k) + flatten_groups(ks.drop_first(), ts));
    }
}

/// Storing a triangle list and reading it back gives the same triangles, grouped
/// by their running uv and normal in order of first occurrence, each group in
/// the order it had in the list.
pub proof fn lemma_encode_decode_roundtrip(ts: Seq<TriangleView>)
    ensures
        decode(encode(ts), initial_defaults()) == grouped(ts),
{
    lemma_decode_pack(keys_order(ts), ts, initial_defaults());
}

proof fn lemma_flatten_push_key(ks: Seq<(IdView, IdView)>, k: (IdView, IdView), ts: Seq<TriangleView>)
    ensures
        flatten_groups(ks.push(k), ts) == flatten_groups(ks, ts) + with_key(ts, k),
    decreases ks.len(),
{
    if ks.len() == 0 {
        assert(ks.push(k).drop_first() =~= Seq::<(IdView, IdView)>::empty());
        assert(ks.push(k)[0] == k);
        assert(flatten_groups(ks.push(k).drop_first(), ts) == Seq::<TriangleView>::empty());
        assert(flatten_groups(ks.push(k), ts) =~= with_key(ts, k) + Seq::<TriangleView>::empty());
        assert(flatten_groups(ks, ts) + with_key(ts, k) =~= with_key(ts, k));
    } else {
        assert(ks.push(k).drop_first() =~= ks.drop_first().push(k));
        lemma_flatten_push_key(ks.drop_first(), k, ts);
        assert(ks.push(k)[0] == ks[0]);
        assert(with_key(ts, ks[0]) + (flatten_groups(ks.drop_first(), ts) + with_key(ts, k))
            =~= (with_key(ts, ks[0]) + flatten_groups(ks.drop_first(), ts)) + with_key(ts, k));
    }
}

proof fn lemma_flatten_push_triangle(ks: Seq<(IdView, IdView)>, ts: Seq<TriangleView>, t: TriangleView)
    requires
        ks.no_duplicates(),
    ensures
        flatten_groups(ks, ts.push(t)).to_multiset() == (if ks.contains(key_of(t)) {
            flatten_groups(ks, ts).to_multiset().insert(t)
        } else {
            flatten_groups(ks, ts).to_multiset()
        }),
    decreases ks.len(),
{
    broadcast use vstd::multiset::group_multiset_axioms;
    broadcast use vstd::seq_lib::lemma_multiset_commutative;
    broadcast use vstd::seq_lib::to_multiset_build;

    if ks.len() == 0 {
    } else {
        let k0 = ks[0];
        let rest = ks.drop_first();
        assert(rest.no_duplicates());
        lemma_flatten_push_triangle(rest, ts, t);
        lemma_keys_order_step(ts, t);
        assert(ks.contains(key_of(t)) <==> (k0 == key_of(t) || rest.contains(key_of(t)))) by {
            if rest.contains(key_of(t)) {
                let q = choose|q: int| 0 <= q < rest.len() && rest[q] == key_of(t);
                assert(ks[q + 1] == key_of(t));
            }
            if ks.contains(key_of(t)) && k0 != key_of(t) {
                let q = choose|q: int| 0 <= q < ks.len() && ks[q] == key_of(t);
                assert(rest[q - 1] == key_of(t));
            }
        }
        if k0 == key_of(t) {
            assert(!rest.contains(key_of(t))) by {
                if rest.contains(key_of(t)) {
                    let q = choose|q: int| 0 <= q < rest.len() && rest[q] == key_of(t);
                    assert(ks[q + 1] == ks[0]);
                }
            }
        }
        assert(flatten_groups(ks, ts.push(t)) == with_key(ts.push(t), k0) + flatten_groups(rest, ts.push(t)));
        assert(flatten_groups(ks, ts) == with_key(ts, k0) + flatten_groups(rest, ts));
        assert(flatten_groups(ks, ts.push(t)).to_multiset() =~= (if ks.contains(key_of(t)) {
            flatten_groups(ks, ts).to_multiset().insert(t)
        } else {
            flatten_groups(ks, ts).to_multiset()
        }));
    }
}

/// Grouping loses and duplicates no triangle: the grouped list holds exactly
/// the triangles of the list it was made from, each as often.
pub proof fn lemma_grouped_is_permutation(ts: Seq<TriangleView>)
    ensures
        grouped(ts).to_multiset() == ts.to_multiset(),
        grouped(ts).len() == ts.len(),
    decreases ts.len(),
{
    broadcast use vstd::multiset::group_multiset_axioms;
    broadcast use vstd::seq_lib::lemma_multiset_commutative;
    broadcast use vstd::seq_lib::to_multiset_build;
    broadcast use vstd::seq_lib::to_multiset_len;

    if ts.len() == 0 {
        assert(grouped(ts) =~= Seq::<TriangleView>::empty());
        assert(ts =~= Seq::<TriangleView>::empty());
        lemma_empty_to_multiset();
    } else {
        let pre = ts.drop_last();
        let t = ts.last();
        assert(pre.push(t) =~= ts);
        lemma_grouped_is_permutation(pre);
        lemma_keys_order_step(pre, t);
        lemma_keys_order_distinct(pre);
        let ks = keys_order(pre);
        lemma_flatten_push_triangle(ks, pre, t);
        if ks.contains(key_of(t)) {
        } else {
            lemma_flatten_push_key(ks, key_of(t), ts);
            lemma_with_key_absent(pre, key_of(t));
            assert(with_key(ts, key_of(t)) =~= seq![t]);
            assert(seq![t].to_multiset() =~= vstd::multiset::Multiset::<TriangleView>::empty().insert(t)) by {
                assert(seq![t] =~= Seq::<TriangleView>::empty().push(t));
                lemma_empty_to_multiset();
            }
        }
        assert(grouped(ts).to_multiset() =~= ts.to_multiset());
    }
    assert(grouped(ts).len() == grouped(ts).to_multiset().len());
    assert(ts.len() == ts.to_multiset().len());
}

proof fn lemma_with_key_append(a: Seq<TriangleView>, b: Seq<TriangleView>, k: (IdView, IdView))
    ensures
        with_key(a + b, k) == with_key(a, k) + with_key(b, k),
    decreases b.len(),
{
    if b.len() == 0 {
        assert(a + b =~= a);
        assert(with_key(a, k) + Seq::<TriangleView>::empty() =~= with_key(a, k));
    } else {
        lemma_with_key_append(a, b.drop_last(), k);
        assert((a + b).drop_last() =~= a + b.drop_last());
        assert((a + b).last() == b.last());
        let wa = with_key(a, k);
        let wb = with_key(b.drop_last(), k);
        assert((wa + wb).push(b.last()) =~= wa + wb.push(b.last()));
    }
}

proof fn lemma_with_key_twice(ts: Seq<TriangleView>, j: (IdView, IdView), k: (IdView, IdView))
    ensures
        with_key(with_key(ts, j), k) == if j == k { with_key(ts, k) } else { Seq::<TriangleView>::empty() },
    decreases ts.len(),
{
    if ts.len() > 0 {
        lemma_with_key_twice(ts.drop_last(), j, k);
        let r = with_key(ts.drop_last(), j);
        if key_of(ts.last()) == j {
            assert(r.push(ts.last()).drop_last() =~= r);
        }
    }
}

proof fn lemma_with_key_flatten(ks: Seq<(IdView, IdView)>, ts: Seq<TriangleView>, k: (IdView, IdView))
    requires
        ks.no_duplicates(),
    ensures
        with_key(flatten_groups(ks, ts), k) == if ks.contains(k) { with_key(ts, k) } else { Seq::<TriangleView>::empty() },
    decreases ks.len(),
{
    if ks.len() == 0 {
        assert(with_key(Seq::<TriangleView>::empty(), k) =~= Seq::<TriangleView>::empty());
    } else {
        let rest = ks.drop_first();
        assert(rest.no_duplicates()) by {
            assert forall|a: int, b: int| 0 <= a < rest.len() && 0 <= b < rest.len() && a != b implies rest[a] != rest[b] by {
                assert(rest[a] == ks[a + 1] && rest[b] == ks[b + 1]);
            }
        }
        lemma_with_key_flatten(rest, ts, k);
        lemma_with_key_append(with_key(ts, ks[0]), flatten_groups(rest, ts), k);
        lemma_with_key_twice(ts, ks[0], k);
        if ks[0] == k {
            assert(!rest.contains(k)) by {
                if rest.contains(k) {
                    let q = choose|q: int| 0 <= q < rest.len() && rest[q] == k;
                    assert(ks[q + 1] == ks[0]);
                }
            }
            assert(with_key(ts, k) + Seq::<TriangleView>::empty() =~= with_key(ts, k));
        } else {
            assert(rest.contains(k) <==> ks.contains(k)) by {
                if ks.contains(k) {
                    let q = choose|q: int| 0 <= q < ks.len() && ks[q] == k;
                    assert(rest[q - 1] == k);
                }
                if rest.contains(k) {
                    let q = choose|q: int| 0 <= q < rest.len() && rest[q] == k;
                    assert(ks[q + 1] == k);
                }
            }
            assert(Seq::<TriangleView>::empty() + with_key(flatten_groups(rest, ts), k) =~= with_key(flatten_groups(rest, ts), k));
        }
    }
}

/// Grouping keeps the order within each group: the triangles of any uv and
/// normal key come out of the grouped list in the order they had in the list.
pub proof fn lemma_grouped_keeps_group_order(ts: Seq<TriangleView>, k: (IdView, IdView))
    ensures
        with_key(grouped(ts), k) == with_key(ts, k),
{
    lemma_keys_order_distinct(ts);
    lemma_with_key_flatten(keys_order(ts), ts, k);
    if !keys_order(ts).contains(k) {
        lemma_with_key_absent(ts, k);
    }
}

proof fn lemma_empty_to_multiset()
    ensures
        Seq::<TriangleView>::empty().to_multiset() == vstd::multiset::Multiset::<TriangleView>::empty(),
{
    broadcast use vstd::seq_lib::to_multiset_len;
    broadcast use vstd::multiset::lemma_multiset_empty_len;

    assert(Seq::<TriangleView>::empty().to_multiset().len() == 0);
}

/// The stored reference for a corner under running uv `uc` and normal `nc`.
fn compact_vertex(v: &Vertex, uc: &UvId, nc: &NormalId) -> (r: VertRefData)
    ensures
        r@ == compact_ref(v@, (uc@, nc@)),
{
    if v.uv == *uc {
        if v.normal == *nc {
            VertRefData::Bare(v.vertex.clone())
        } else {
            VertRefData::Full(v.vertex.clone(), v.uv.clone(), v.normal.clone())
        }
    } else if v.normal == *nc {
        VertRefData::WithUv(v.vertex.clone(), v.uv.clone())
    } else {
        VertRefData::Full(v.vertex.clone(), v.uv.clone(), v.normal.clone())
    }
}

/// Position of the group with key (`uc`, `nc`), if there is one.
fn find_group(keys: &Vec<(UvId, NormalId)>, uc: &UvId, nc: &NormalId) -> (r: Option<usize>)
    ensures
        match r {
            Some(j) => j < keys@.len() && (keys@[j as int].0@, keys@[j as int].1@) == (uc@, nc@),
            None => forall|j: int| 0 <= j < keys@.len() ==> (#[trigger] keys@[j].0@, keys@[j].1@) != (uc@, nc@),
        },
{
    let n = keys.len();
    let mut j: usize = 0;
    while j < n
        invariant
            n == keys@.len(),
            j <= n,
            forall|i: int| 0 <= i < j ==> (#[trigger] keys@[i].0@, keys@[i].1@) != (uc@, nc@),
        decreases n - j,
    {
        if keys[j].0 == *uc && keys[j].1 == *nc {
            return Some(j);
        }
        j = j + 1;
    }
    None
}

pub open spec fn key_views(keys: Seq<(UvId, NormalId)>) -> Seq<(IdView, IdView)> {
    keys.map_values(|k: (UvId, NormalId)| (k.0@, k.1@))
}

impl Triangles {
    /// Writes the triangle list in stored form: triangles are grouped under the
    /// running uv and normal they share most (see [`key_of`]), each group opens
    /// with a state entry naming only what changes, and each corner is stored
    /// with the shortest reference that reads back to it.
    pub fn into_entries(self) -> (entries: Vec<TriangleEntry>)
        ensures
            entries_view(entries@) == encode(self@),
    {
        let ts = self.0;
        let ghost all = triangles_view(ts@);
        let mut keys: Vec<(UvId, NormalId)> = Vec::new();
        let mut groups: Vec<Vec<TriangleData>> = Vec::new();
        let n = ts.len();
        for i in 0..n
            invariant
                n == ts@.len(),
                all == triangles_view(ts@),
                keys@.len() == groups@.len(),
                key_views(keys@) == keys_order(all.take(i as int)),
                forall|j: int| 0 <= j < groups@.len() ==>
                    data_views(#[trigger] groups@[j]@) == compact_all(with_key(all.take(i as int), key_views(keys@)[j]), key_views(keys@)[j]),
        {
            let ghost pre = all.take(i as int);
            let t = &ts[i];
            let ghost tv = t@;
            proof {
                assert(all.take(i + 1) =~= pre.push(tv));
                lemma_keys_order_step(pre, tv);
                lemma_keys_order_distinct(pre);
            }
            let uc = if t.vertices[1].uv == t.vertices[2].uv { t.vertices[1].uv.clone() } else { t.vertices[0].uv.clone() };
            let nc = if t.vertices[1].normal == t.vertices[2].normal { t.vertices[1].normal.clone() } else { t.vertices[0].normal.clone() };
            assert((uc@, nc@) == key_of(tv));
            let data = TriangleData {
                verts: [
                    compact_vertex(&t.vertices[0], &uc, &nc),
                    compact_vertex(&t.vertices[1], &uc, &nc),
                    compact_vertex(&t.vertices[2], &uc, &nc),
                ],
                mat: clone_opt_string(&t.material),
            };
            assert(data@ == compact(tv, key_of(tv)));
            let ghost old_keys = key_views(keys@);
            let ghost old_groups = groups@;
            match find_group(&keys, &uc, &nc) {
                Some(j) => {
                    let mut list = groups.remove(j);
                    let ghost old_list = list@;
                    list.push(data);
                    groups.insert(j, list);
                    proof {
                        assert(old_keys[j as int] == key_of(tv));
                        assert(old_keys.contains(key_of(tv)));
                        assert forall|q: int| 0 <= q < groups@.len() implies
                            data_views(#[trigger] groups@[q]@) == compact_all(with_key(all.take(i + 1), key_views(keys@)[q]), key_views(keys@)[q]) by {
                            if q == j as int {
                                assert(groups@[q]@ == old_list.push(data));
                                assert(data_views(old_list.push(data)) =~= data_views(old_list).push(data@));
                                assert(compact_all(with_key(pre, key_of(tv)).push(tv), key_of(tv))
                                    =~= compact_all(with_key(pre, key_of(tv)), key_of(tv)).push(compact(tv, key_of(tv))));
                            } else {
                                assert(groups@[q] == old_groups[q]);
                                assert(old_keys[q] != old_keys[j as int]);
                            }
                        }
                    }
                },
                None => {
                    keys.push((uc, nc));
                    let mut list: Vec<TriangleData> = Vec::new();
                    list.push(data);
                    groups.push(list);
                    proof {
                        assert(!old_keys.contains(key_of(tv))) by {
                            if old_keys.contains(key_of(tv)) {
                                let q = choose|q: int| 0 <= q < old_keys.len() && old_keys[q] == key_of(tv);
                                assert((keys@[q].0@, keys@[q].1@) == old_keys[q]);
                            }
                        }
                        assert(key_views(keys@) =~= old_keys.push(key_of(tv)));
                        assert forall|q: int| 0 <= q < groups@.len() implies
                            data_views(#[trigger] groups@[q]@) == compact_all(with_key(all.take(i + 1), key_views(keys@)[q]), key_views(keys@)[q]) by {
                            if q < old_groups.len() {
                                assert(groups@[q] == old_groups[q]);
                                assert(old_keys[q] != key_of(tv));
                            } else {
                                assert(with_key(pre, key_of(tv)) =~= Seq::<TriangleView>::empty()) by {
                                    lemma_with_key_absent(pre, key_of(tv));
                                }
                                assert(data_views(groups@[q]@) =~= seq![data@]);
                                assert(compact_all(Seq::<TriangleView>::empty().push(tv), key_of(tv)) =~= seq![compact(tv, key_of(tv))]);
                            }
                        }
                    }
                },
            }
        }
        let ghost ks = keys_order(all);
        proof {
            assert(all.take(n as int) =~= all);
        }
        let mut entries: Vec<TriangleEntry> = Vec::new();
        let mut current = (UvId::Index(0), NormalId::Index(0));
        let g = keys.len();
        let mut j: usize = 0;
        proof {
            assert(ks.skip(0) =~= ks);
            assert(entries_view(entries@) + pack(ks, all, initial_defaults()) =~= pack(ks, all, initial_defaults()));
        }
        while j < g
            invariant
                g == keys@.len(),
                g == groups@.len(),
                j <= g,
                ks == key_views(keys@),
                ks.len() == g,
                forall|q: int| 0 <= q < groups@.len() ==>
                    data_views(#[trigger] groups@[q]@) == compact_all(with_key(all, ks[q]), ks[q]),
                (current.0@, current.1@) == (if j == 0 { initial_defaults() } else { ks[j - 1] }),
                entries_view(entries@) + pack(ks.skip(j as int), all, (current.0@, current.1@)) == encode(all),
            decreases g - j,
        {
            let ghost k = ks[j as int];
            let ghost prev = (current.0@, current.1@);
            let ghost before = entries_view(entries@);
            let uv = if keys[j].0 == current.0 {
                None
            } else {
                current.0 = keys[j].0.clone();
                Some(keys[j].0.clone())
            };
            let normal = if keys[j].1 == current.1 {
                None
            } else {
                current.1 = keys[j].1.clone();
                Some(keys[j].1.clone())
            };
            entries.push(TriangleEntry::StateSet(StateSet { uv, normal }));
            let ghost mid = entries_view(entries@);
            proof {
                assert(mid =~= before.push(EntryView::StateSet(delta(prev.0, k.0), delta(prev.1, k.1))));
            }
            let m = groups[j].len();
            for q in 0..m
                invariant
                    m == groups@[j as int]@.len(),
                    j < g,
                    g == groups@.len(),
                    entries_view(entries@) == mid + as_entries(data_views(groups@[j as int]@.take(q as int))),
            {
                let d = groups[j][q].clone_data();
                let ghost e0 = entries_view(entries@);
                entries.push(TriangleEntry::Triangle(d));
                proof {
                    assert(groups@[j as int]@.take(q + 1) =~= groups@[j as int]@.take(q as int).push(groups@[j as int]@[q as int]));
                    assert(as_entries(data_views(groups@[j as int]@.take(q + 1)))
                        =~= as_entries(data_views(groups@[j as int]@.take(q as int))).push(EntryView::Triangle(d@)));
                    assert(entries_view(entries@) =~= e0.push(EntryView::Triangle(d@)));
                }
            }
            proof {
                assert(groups@[j as int]@.take(m as int) =~= groups@[j as int]@);
                let sec = as_entries(compact_all(with_key(all, k), k));
                assert(as_entries(data_views(groups@[j as int]@)) == sec);
                assert(ks.skip(j as int).drop_first() =~= ks.skip(j + 1));
                assert(ks.skip(j as int)[0] == k);
                assert(pack(ks.skip(j as int), all, prev)
                    == seq![EntryView::StateSet(delta(prev.0, k.0), delta(prev.1, k.1))] + sec + pack(ks.skip(j + 1), all, k));
                assert(entries_view(entries@) + pack(ks.skip(j + 1), all, k)
                    =~= before + (seq![EntryView::StateSet(delta(prev.0, k.0), delta(prev.1, k.1))] + sec + pack(ks.skip(j + 1), all, k)));
            }
            j = j + 1;
        }
        proof {
            assert(ks.skip(g as int) =~= Seq::<(IdView, IdView)>::empty());
            assert(entries_view(entries@) + Seq::<EntryView>::empty() =~= entries_view(entries@));
        }
        entries
    }
}

proof fn lemma_with_key_absent(ts: Seq<TriangleView>, k: (IdView, IdView))
    requires
        !keys_order(ts).contains(k),
    ensures
        with_key(ts, k) == Seq::<TriangleView>::empty(),
    decreases ts.len(),
{
    if ts.len() > 0 {
        let ks = keys_order(ts.drop_last());
        if ks.contains(k) {
            let q = choose|q: int| 0 <= q < ks.len() && ks[q] == k;
            if !ks.contains(key_of(ts.last())) {
                assert(ks.push(key_of(ts.last()))[q] == k);
            }
        }
        if key_of(ts.last()) == k {
            if ks.contains(key_of(ts.last())) {
            } else {
                assert(ks.push(k)[ks.len() as int] == k);
            }
        }
        lemma_with_key_absent(ts.drop_last(), k);
    }
}

impl TriangleData {
    pub fn clone_data(&self) -> (r: TriangleData)
        ensures
            r == *self,
    {
        let r = TriangleData {
            verts: [self.verts[0].clone(), self.verts[1].clone(), self.verts[2].clone()],
            mat: clone_opt_string(&self.mat),
        };
        assert(r.verts =~= self.verts);
        r
    }
}

/// A stored corner is as short as the running uv and normal allow: bare when
/// both match, with its uv alone when only the normal matches, in full
/// otherwise; and it reads back as the corner it stores.
pub proof fn lemma_compact_ref_shortest(v: VertexView, k: (IdView, IdView))
    ensures
        compact_ref(v, k) is Bare <==> v.uv == k.0 && v.normal == k.1,
        compact_ref(v, k) is WithUv <==> v.uv != k.0 && v.normal == k.1,
        compact_ref(v, k) is Full <==> v.normal != k.1,
        resolve_ref(compact_ref(v, k), k) == v,
{
}

} // verus!
