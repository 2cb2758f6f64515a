//! Merging duplicate mesh data: for every stored, named or computed entry whose
//! value repeats an earlier one, triangles are pointed at the earlier one.
use vstd::prelude::*;
use indexmap::IndexMap;
use crate::easing::Easing;
use crate::mesh::{clone_opt_string, opt_string_view, IdView, NormalId, Triangle, TriangleView, UvId, Vertex, VertexId, VertexView};
use crate::named_maps::{
    compute_normal_entries, compute_normal_entry, compute_normal_len, compute_vertex_entries,
    compute_vertex_entry, compute_vertex_len, vec2_entries, vec2_entry, vec2_len, vec3_entries,
    vec3_entry, vec3_len,
};
use crate::part::{ComputeNormal, ComputeVertex, Part, Vec2Bits, Vec3Bits};

verus! {

/// A value that duplicate detection compares by its view.
pub trait DedupeKey: View + Sized {
    /// Whether the two values count as the same.
    fn same_as(&self, other: &Self) -> (r: bool)
        ensures
            r == (self@ == other@);

    /// A second value with the same view.
    fn duplicate(&self) -> (r: Self)
        ensures
            r@ == self@;
}

pub open spec fn dedupe_views<K: View>(ks: Seq<K>) -> Seq<K::V> {
    ks.map_values(|k: K| k@)
}

/// The distinct values of `ks`, in order of first occurrence.
pub open spec fn distinct_prefix<A>(ks: Seq<A>) -> Seq<A>
    decreases ks.len(),
{
    if ks.len() == 0 {
        Seq::empty()
    } else {
        let d = distinct_prefix(ks.drop_last());
        if d.contains(ks.last()) {
            d
        } else {
            d.push(ks.last())
        }
    }
}

/// Position of the first `x` in `s` (`s.len()` when absent).
pub open spec fn first_index<A>(s: Seq<A>, x: A) -> int
    decreases s.len(),
{
    if s.len() == 0 {
        0
    } else if s[0] == x {
        0
    } else {
        1 + first_index(s.drop_first(), x)
    }
}

/// Where stored entry `i` is redirected: when its value occurred before, the
/// position of that value among the distinct values in first-occurrence order.
pub open spec fn index_target<A>(ks: Seq<A>, i: int) -> Option<usize> {
    let d = distinct_prefix(ks.take(i));
    if d.contains(ks[i]) {
        Some(first_index(d, ks[i]) as usize)
    } else {
        None
    }
}

/// For each named entry whose value occurred before, in order: its name and
/// the name of the first entry with that value.
pub open spec fn named_pairs<A>(names: Seq<Seq<char>>, ks: Seq<A>) -> Seq<(Seq<char>, Seq<char>)>
    decreases ks.len(),
{
    if ks.len() == 0 {
        Seq::empty()
    } else {
        let j = ks.len() - 1;
        let r = named_pairs(names.take(j), ks.take(j));
        if ks.take(j).contains(ks[j]) {
            r.push((names[j], names[first_index(ks, ks[j])]))
        } else {
            r
        }
    }
}

/// A redirected position: the target when there is one, else the position itself.
pub open spec fn lookup_index(tab: Seq<Option<usize>>, i: usize) -> usize {
    if i < tab.len() {
        match tab[i as int] {
            Some(t) => t,
            None => i,
        }
    } else {
        i
    }
}

/// The target of the last pair for name `n`, if any.
pub open spec fn lookup_name(pairs: Seq<(Seq<char>, Seq<char>)>, n: Seq<char>) -> Option<Seq<char>>
    decreases pairs.len(),
{
    if pairs.len() == 0 {
        None
    } else if pairs.last().0 == n {
        Some(pairs.last().1)
    } else {
        lookup_name(pairs.drop_last(), n)
    }
}

/// The redirections of one merge of duplicate data.
#[derive(Debug)]
pub struct DedupeMaps {
    pub vi: Vec<Option<usize>>,
    pub vn: Vec<(String, String)>,
    pub vc: Vec<(String, String)>,
    pub ui: Vec<Option<usize>>,
    pub un: Vec<(String, String)>,
    pub ni: Vec<Option<usize>>,
    pub nn: Vec<(String, String)>,
    pub nc: Vec<(String, String)>,
}

pub open spec fn pair_views(ps: Seq<(String, String)>) -> Seq<(Seq<char>, Seq<char>)> {
    ps.map_values(|p: (String, String)| (p.0@, p.1@))
}

pub struct DedupeMapsView {
    pub vi: Seq<Option<usize>>,
    pub vn: Seq<(Seq<char>, Seq<char>)>,
    pub vc: Seq<(Seq<char>, Seq<char>)>,
    pub ui: Seq<Option<usize>>,
    pub un: Seq<(Seq<char>, Seq<char>)>,
    pub ni: Seq<Option<usize>>,
    pub nn: Seq<(Seq<char>, Seq<char>)>,
    pub nc: Seq<(Seq<char>, Seq<char>)>,
}

impl View for DedupeMaps {
    type V = DedupeMapsView;

    open spec fn view(&self) -> DedupeMapsView {
        DedupeMapsView {
            vi: self.vi@,
            vn: pair_views(self.vn@),
            vc: pair_views(self.vc@),
            ui: self.ui@,
            un: pair_views(self.un@),
            ni: self.ni@,
            nn: pair_views(self.nn@),
            nc: pair_views(self.nc@),
        }
    }
}

pub open spec fn remap_named(first: Seq<(Seq<char>, Seq<char>)>, second: Seq<(Seq<char>, Seq<char>)>, n: Seq<char>) -> Seq<char> {
    match lookup_name(first, n) {
        Some(m) => m,
        None => match lookup_name(second, n) {
            Some(m) => m,
            None => n,
        },
    }
}

pub open spec fn remap_ref(tab: Seq<Option<usize>>, first: Seq<(Seq<char>, Seq<char>)>, second: Seq<(Seq<char>, Seq<char>)>, r: IdView) -> IdView {
    match r {
        IdView::Index(i) => IdView::Index(lookup_index(tab, i)),
        IdView::Named(n) => IdView::Named(remap_named(first, second, n)),
    }
}

pub open spec fn remap_corner(m: DedupeMapsView, v: VertexView) -> VertexView {
    VertexView {
        vertex: remap_ref(m.vi, m.vn, m.vc, v.vertex),
        uv: remap_ref(m.ui, m.un, Seq::empty(), v.uv),
        normal: remap_ref(m.ni, m.nn, m.nc, v.normal),
    }
}

pub open spec fn remap_triangle(m: DedupeMapsView, t: TriangleView) -> TriangleView {
    TriangleView {
        a: remap_corner(m, t.a),
        b: remap_corner(m, t.b),
        c: remap_corner(m, t.c),
        material: t.material,
    }
}

pub proof fn lemma_first_index_bound<A>(s: Seq<A>, x: A)
    ensures
        s.contains(x) ==> 0 <= first_index(s, x) < s.len() && s[first_index(s, x)] == x
            && forall|q: int| 0 <= q < first_index(s, x) ==> s[q] != x,
    decreases s.len(),
{
    if s.len() > 0 && s[0] != x {
        lemma_first_index_bound(s.drop_first(), x);
        if s.contains(x) {
            let j = choose|j: int| 0 <= j < s.len() && #[trigger] s[j] == x;
            assert(s.drop_first()[j - 1] == x);
            assert forall|q: int| 0 <= q < first_index(s, x) implies s[q] != x by {
                if q > 0 {
                    assert(s[q] == s.drop_first()[q - 1]);
                }
            }
        }
    }
}

pub proof fn lemma_first_index_prefix<A>(s: Seq<A>, x: A, m: int)
    requires
        0 <= m <= s.len(),
        s.take(m).contains(x),
    ensures
        first_index(s, x) == first_index(s.take(m), x),
    decreases s.len(),
{
    if s.len() > 0 && s[0] != x {
        let t = s.take(m);
        let j = choose|j: int| 0 <= j < t.len() && #[trigger] t[j] == x;
        assert(j > 0);
        assert(s.drop_first().take(m - 1) =~= t.drop_first());
        assert(s.drop_first().take(m - 1)[j - 1] == x);
        lemma_first_index_prefix(s.drop_first(), x, m - 1);
    } else if s.len() > 0 {
        assert(s.take(m)[0] == s[0]);
    }
}

/// Finds the first position in `v` whose element equals `x`.
fn find_first<K: DedupeKey>(v: &Vec<K>, x: &K, upto: usize) -> (r: Option<usize>)
    requires
        upto <= v@.len(),
    ensures
        match r {
            Some(q) => q < upto && dedupe_views(v@)[q as int] == x@
                && forall|p: int| 0 <= p < q ==> dedupe_views(v@)[p] != x@,
            None => forall|p: int| 0 <= p < upto ==> dedupe_views(v@)[p] != x@,
        },
{
    let mut q: usize = 0;
    while q < upto
        invariant
            upto <= v@.len(),
            q <= upto,
            forall|p: int| 0 <= p < q ==> dedupe_views(v@)[p] != x@,
        decreases upto - q,
    {
        let same = v[q].same_as(x);
        if same {
            return Some(q);
        }
        q = q + 1;
    }
    None
}

pub proof fn lemma_first_index_of_search<A>(s: Seq<A>, x: A, q: int)
    requires
        0 <= q < s.len(),
        s[q] == x,
        forall|p: int| 0 <= p < q ==> s[p] != x,
    ensures
        first_index(s, x) == q,
    decreases q,
{
    if q > 0 {
        assert forall|p: int| 0 <= p < q - 1 implies s.drop_first()[p] != x by {
            assert(s.drop_first()[p] == s[p + 1]);
        }
        lemma_first_index_of_search(s.drop_first(), x, q - 1);
    }
}

/// Where each stored entry is redirected, as [`index_target`] says.
pub fn index_targets<K: DedupeKey>(keys: &Vec<K>) -> (r: Vec<Option<usize>>)
    ensures
        r@.len() == keys@.len(),
        forall|i: int| 0 <= i < keys@.len() ==> #[trigger] r@[i] == index_target(dedupe_views(keys@), i),
{
    let ghost ks = dedupe_views(keys@);
    let mut distinct: Vec<K> = Vec::new();
    let mut r: Vec<Option<usize>> = Vec::new();
    let n = keys.len();
    for i in 0..n
        invariant
            n == keys@.len(),
            ks == dedupe_views(keys@),
            dedupe_views(distinct@) == distinct_prefix(ks.take(i as int)),
            r@.len() == i,
            forall|j: int| 0 <= j < i ==> #[trigger] r@[j] == index_target(ks, j),
    {
        let k = &keys[i];
        let ghost d = dedupe_views(distinct@);
        proof {
            assert(ks.take(i + 1).drop_last() =~= ks.take(i as int));
            assert(ks.take(i + 1).last() == ks[i as int]);
            assert(ks[i as int] == k@);
        }
        match find_first(&distinct, k, distinct.len()) {
            Some(q) => {
                proof {
                    assert(d.contains(k@)) by {
                        assert(d[q as int] == k@);
                    }
                    lemma_first_index_of_search(d, k@, q as int);
                }
                r.push(Some(q));
            },
            None => {
                proof {
                    assert(!d.contains(k@));
                }
                distinct.push(k.duplicate());
                r.push(None);
                proof {
                    assert(dedupe_views(distinct@) =~= d.push(k@));
                }
            },
        }
    }
    r
}

pub proof fn lemma_distinct_prefix_contains<A>(s: Seq<A>, x: A)
    ensures
        distinct_prefix(s).contains(x) <==> s.contains(x),
    decreases s.len(),
{
    if s.len() > 0 {
        let t = s.drop_last();
        let d = distinct_prefix(t);
        let e = distinct_prefix(s);
        lemma_distinct_prefix_contains(t, x);
        assert(e == d || e == d.push(s.last()));
        if s.contains(x) {
            if x == s.last() {
                if d.contains(x) {
                    let i = choose|i: int| 0 <= i < d.len() && d[i] == x;
                    assert(e[i] == x);
                } else {
                    assert(e[d.len() as int] == x);
                }
            } else {
                let j = choose|j: int| 0 <= j < s.len() && s[j] == x;
                assert(t[j] == x);
                let i = choose|i: int| 0 <= i < d.len() && d[i] == x;
                assert(e[i] == x);
            }
        }
        if e.contains(x) {
            let i = choose|i: int| 0 <= i < e.len() && e[i] == x;
            if i < d.len() {
                assert(d[i] == x);
                let j = choose|j: int| 0 <= j < t.len() && t[j] == x;
                assert(s[j] == x);
            } else {
                assert(s[s.len() - 1] == x);
            }
        }
    }
}

/// The pairs of [`named_pairs`] for named entries with names `names` and values `keys`.
pub fn named_backmap<K: DedupeKey>(names: &Vec<String>, keys: &Vec<K>) -> (r: Vec<(String, String)>)
    requires
        names@.len() == keys@.len(),
    ensures
        pair_views(r@) == named_pairs(string_views(names@), dedupe_views(keys@)),
{
    let ghost ks = dedupe_views(keys@);
    let ghost ns = string_views(names@);
    let mut firsts: Vec<K> = Vec::new();
    let mut first_names: Vec<String> = Vec::new();
    let mut r: Vec<(String, String)> = Vec::new();
    let n = keys.len();
    for j in 0..n
        invariant
            n == keys@.len(),
            names@.len() == n,
            ks == dedupe_views(keys@),
            ns == string_views(names@),
            dedupe_views(firsts@) == distinct_prefix(ks.take(j as int)),
            first_names@.len() == firsts@.len(),
            forall|q: int| 0 <= q < firsts@.len() ==> 0 <= #[trigger] first_index(ks, firsts@[q]@) < j
                && first_names@[q]@ == ns[first_index(ks, firsts@[q]@)],
            pair_views(r@) == named_pairs(ns.take(j as int), ks.take(j as int)),
    {
        let ghost d = dedupe_views(firsts@);
        let k = &keys[j];
        proof {
            assert(ks[j as int] == k@);
            assert(ks.take(j + 1).take(j as int) =~= ks.take(j as int));
            assert(ns.take(j + 1).take(j as int) =~= ns.take(j as int));
            assert(ks.take(j + 1)[j as int] == k@);
            assert(ns.take(j + 1)[j as int] == names@[j as int]@);
            assert(ks.take(j + 1).drop_last() =~= ks.take(j as int));
            lemma_distinct_prefix_contains(ks.take(j as int), k@);
        }
        match find_first(&firsts, k, firsts.len()) {
            Some(q) => {
                proof {
                    assert(d[q as int] == k@);
                    assert(d.contains(k@));
                    assert(ks.take(j as int).contains(k@));
                    assert(firsts@[q as int]@ == k@);
                    lemma_first_index_prefix(ks.take(j + 1), k@, j as int);
                    assert(ks.take(j + 1).take(j as int).contains(k@));
                    lemma_first_index_prefix(ks, k@, j + 1);
                    let p = choose|p: int| 0 <= p < j && ks.take(j as int)[p] == k@;
                    assert(ks.take(j + 1)[p] == k@);
                }
                let pair = (names[j].clone(), first_names[q].clone());
                r.push(pair);
                proof {
                    assert(pair_views(r@) =~= named_pairs(ns.take(j as int), ks.take(j as int)).push(
                        (ns[j as int], ns[first_index(ks, k@)]),
                    ));
                }
            },
            None => {
                proof {
                    assert(!d.contains(k@)) by {
                        if d.contains(k@) {
                            let p = choose|p: int| 0 <= p < d.len() && d[p] == k@;
                            assert(dedupe_views(firsts@)[p] == k@);
                        }
                    }
                    assert(!ks.take(j as int).contains(k@));
                    assert forall|p: int| 0 <= p < j implies ks[p] != k@ by {
                        assert(ks.take(j as int)[p] == ks[p]);
                    }
                    lemma_first_index_of_search(ks, k@, j as int);
                }
                firsts.push(k.duplicate());
                first_names.push(names[j].clone());
                proof {
                    assert(dedupe_views(firsts@) =~= d.push(k@));
                    assert(distinct_prefix(ks.take(j + 1)) == d.push(k@));
                    assert forall|q: int| 0 <= q < firsts@.len() implies 0 <= #[trigger] first_index(ks, firsts@[q]@) < j + 1
                        && first_names@[q]@ == ns[first_index(ks, firsts@[q]@)] by {
                        if q == firsts@.len() - 1 {
                            assert(firsts@[q]@ == k@);
                        }
                    }
                    assert(pair_views(r@) =~= named_pairs(ns.take(j + 1), ks.take(j + 1)));
                }
            },
        }
    }
    proof {
        assert(ks.take(n as int) =~= ks);
        assert(ns.take(n as int) =~= ns);
    }
    r
}

pub open spec fn string_views(ss: Seq<String>) -> Seq<Seq<char>> {
    ss.map_values(|s: String| s@)
}

/// A position as merging compares positions: by the bit patterns `[x, y, y]`.
#[derive(Copy, Clone)]
pub struct HashableVec3(pub Vec3Bits);

/// A texture coordinate as merging compares them: by the bit patterns `[x, y]`.
#[derive(Copy, Clone)]
pub struct HashableVec2(pub Vec2Bits);

pub open spec fn vec3_key(v: Vec3Bits) -> (u32, u32, u32) {
    (v.x, v.y, v.y)
}

pub open spec fn vec2_key(v: Vec2Bits) -> (u32, u32) {
    (v.x, v.y)
}

impl View for HashableVec3 {
    type V = (u32, u32, u32);

    open spec fn view(&self) -> (u32, u32, u32) {
        vec3_key(self.0)
    }
}

impl View for HashableVec2 {
    type V = (u32, u32);

    open spec fn view(&self) -> (u32, u32) {
        vec2_key(self.0)
    }
}

impl DedupeKey for HashableVec3 {
    fn same_as(&self, other: &Self) -> (r: bool) {
        self.0.x == other.0.x && self.0.y == other.0.y
    }

    fn duplicate(&self) -> (r: Self) {
        *self
    }
}

impl DedupeKey for HashableVec2 {
    fn same_as(&self, other: &Self) -> (r: bool) {
        self.0.x == other.0.x && self.0.y == other.0.y
    }

    fn duplicate(&self) -> (r: Self) {
        *self
    }
}

/// What merging compares of a computed vertex: its two points, its easing,
/// and the bit patterns of its numbers.
pub struct ComputeVertexView {
    pub points: (IdView, IdView),
    pub function: Easing,
    pub delta: Option<u32>,
    pub x: Option<u32>,
    pub y: Option<u32>,
    pub z: Option<u32>,
}

impl View for ComputeVertex {
    type V = ComputeVertexView;

    open spec fn view(&self) -> ComputeVertexView {
        ComputeVertexView {
            points: (self.points@[0]@, self.points@[1]@),
            function: self.function,
            delta: self.delta,
            x: self.x,
            y: self.y,
            z: self.z,
        }
    }
}

impl View for ComputeNormal {
    type V = (IdView, IdView, IdView);

    open spec fn view(&self) -> (IdView, IdView, IdView) {
        (self.points@[0]@, self.points@[1]@, self.points@[2]@)
    }
}

fn same_bits(a: Option<u32>, b: Option<u32>) -> (r: bool)
    ensures
        r == (a == b),
{
    match (a, b) {
        (Some(x), Some(y)) => x == y,
        (None, None) => true,
        _ => false,
    }
}

impl DedupeKey for ComputeVertex {
    fn same_as(&self, other: &Self) -> (r: bool) {
        self.points[0] == other.points[0] && self.points[1] == other.points[1]
            && self.function == other.function && same_bits(self.delta, other.delta)
            && same_bits(self.x, other.x) && same_bits(self.y, other.y) && same_bits(self.z, other.z)
    }

    fn duplicate(&self) -> (r: Self) {
        self.clone()
    }
}

impl DedupeKey for ComputeNormal {
    fn same_as(&self, other: &Self) -> (r: bool) {
        self.points[0] == other.points[0] && self.points[1] == other.points[1]
            && self.points[2] == other.points[2]
    }

    fn duplicate(&self) -> (r: Self) {
        self.clone()
    }
}

fn lookup_index_in(tab: &Vec<Option<usize>>, i: usize) -> (r: usize)
    ensures
        r == lookup_index(tab@, i),
{
    if i < tab.len() {
        match tab[i] {
            Some(t) => t,
            None => i,
        }
    } else {
        i
    }
}

fn lookup_name_in(pairs: &Vec<(String, String)>, n: &String) -> (r: Option<String>)
    ensures
        opt_string_view(r) == lookup_name(pair_views(pairs@), n@),
{
    let ghost pv = pair_views(pairs@);
    let mut i = pairs.len();
    proof {
        assert(pv.take(i as int) =~= pv);
    }
    while i > 0
        invariant
            i <= pairs@.len(),
            pv == pair_views(pairs@),
            lookup_name(pv, n@) == lookup_name(pv.take(i as int), n@),
        decreases i,
    {
        i = i - 1;
        proof {
            assert(pv.take(i + 1).drop_last() =~= pv.take(i as int));
            assert(pv.take(i + 1).last() == (pairs@[i as int].0@, pairs@[i as int].1@));
        }
        if pairs[i].0 == *n {
            return Some(pairs[i].1.clone());
        }
    }
    None
}

fn remap_name(first: &Vec<(String, String)>, second: &Vec<(String, String)>, n: &String) -> (r: String)
    ensures
        r@ == remap_named(pair_views(first@), pair_views(second@), n@),
{
    match lookup_name_in(first, n) {
        Some(m) => m,
        None => match lookup_name_in(second, n) {
            Some(m) => m,
            None => n.clone(),
        },
    }
}

fn remap_vertex_id(tab: &Vec<Option<usize>>, first: &Vec<(String, String)>, second: &Vec<(String, String)>, id: &VertexId) -> (r: VertexId)
    ensures
        r@ == remap_ref(tab@, pair_views(first@), pair_views(second@), id@),
{
    match id {
        VertexId::Index(i) => VertexId::Index(lookup_index_in(tab, *i)),
        VertexId::Named(n) => VertexId::Named(remap_name(first, second, n)),
    }
}

fn remap_uv_id(tab: &Vec<Option<usize>>, first: &Vec<(String, String)>, id: &UvId) -> (r: UvId)
    ensures
        r@ == remap_ref(tab@, pair_views(first@), Seq::empty(), id@),
{
    match id {
        UvId::Index(i) => UvId::Index(lookup_index_in(tab, *i)),
        UvId::Named(n) => {
            let none: Vec<(String, String)> = Vec::new();
            proof {
                assert(pair_views(none@) =~= Seq::empty());
            }
            UvId::Named(remap_name(first, &none, n))
        },
    }
}

fn remap_normal_id(tab: &Vec<Option<usize>>, first: &Vec<(String, String)>, second: &Vec<(String, String)>, id: &NormalId) -> (r: NormalId)
    ensures
        r@ == remap_ref(tab@, pair_views(first@), pair_views(second@), id@),
{
    match id {
        NormalId::Index(i) => NormalId::Index(lookup_index_in(tab, *i)),
        NormalId::Named(n) => NormalId::Named(remap_name(first, second, n)),
    }
}

fn remap_vertex(m: &DedupeMaps, v: &Vertex) -> (r: Vertex)
    ensures
        r@ == remap_corner(m@, v@),
{
    Vertex {
        vertex: remap_vertex_id(&m.vi, &m.vn, &m.vc, &v.vertex),
        uv: remap_uv_id(&m.ui, &m.un, &v.uv),
        normal: remap_normal_id(&m.ni, &m.nn, &m.nc, &v.normal),
    }
}

impl Triangle {
    /// Points each corner at the entry its reference is redirected to by `maps`:
    /// stored positions by the index table, names by the first table that has
    /// them. The material is kept.
    pub fn remap(&mut self, maps: &DedupeMaps)
        ensures
            final(self)@ == remap_triangle(maps@, old(self)@),
    {
        let a = remap_vertex(maps, &self.vertices[0]);
        let b = remap_vertex(maps, &self.vertices[1]);
        let c = remap_vertex(maps, &self.vertices[2]);
        self.vertices = [a, b, c];
    }
}

/// Where each stored entry with values `ks` is redirected.
pub open spec fn index_table<A>(ks: Seq<A>) -> Seq<Option<usize>> {
    Seq::new(ks.len(), |i: int| index_target(ks, i))
}

pub open spec fn entry_names<V>(es: Seq<(String, V)>) -> Seq<Seq<char>> {
    es.map_values(|e: (String, V)| e.0@)
}

/// The redirections that merging the duplicate data of `p` makes.
pub open spec fn dedupe_maps_of(p: Part) -> DedupeMapsView {
    let vn = vec3_entries(p.vertices.named);
    let vc = compute_vertex_entries(p.vertices.compute);
    let un = vec2_entries(p.uvs.named);
    let nn = vec3_entries(p.normals.named);
    let nc = compute_normal_entries(p.normals.compute);
    DedupeMapsView {
        vi: index_table(p.vertices.indexed@.map_values(|v: Vec3Bits| vec3_key(v))),
        vn: named_pairs(entry_names(vn), vn.map_values(|e: (String, Vec3Bits)| vec3_key(e.1))),
        vc: named_pairs(entry_names(vc), vc.map_values(|e: (String, ComputeVertex)| e.1@)),
        ui: index_table(p.uvs.indexed@.map_values(|v: Vec2Bits| vec2_key(v))),
        un: named_pairs(entry_names(un), un.map_values(|e: (String, Vec2Bits)| vec2_key(e.1))),
        ni: index_table(p.normals.indexed@.map_values(|v: Vec3Bits| vec3_key(v))),
        nn: named_pairs(entry_names(nn), nn.map_values(|e: (String, Vec3Bits)| vec3_key(e.1))),
        nc: named_pairs(entry_names(nc), nc.map_values(|e: (String, ComputeNormal)| e.1@)),
    }
}

fn stored_vec3_keys(vs: &Vec<Vec3Bits>) -> (r: Vec<HashableVec3>)
    ensures
        dedupe_views(r@) == vs@.map_values(|v: Vec3Bits| vec3_key(v)),
{
    let mut r: Vec<HashableVec3> = Vec::new();
    for i in 0..vs.len()
        invariant
            r@.len() == i,
            forall|j: int| 0 <= j < i ==> (#[trigger] r@[j])@ == vec3_key(vs@[j]),
    {
        r.push(HashableVec3(vs[i]));
    }
    assert(dedupe_views(r@) =~= vs@.map_values(|v: Vec3Bits| vec3_key(v)));
    r
}

fn stored_vec2_keys(vs: &Vec<Vec2Bits>) -> (r: Vec<HashableVec2>)
    ensures
        dedupe_views(r@) == vs@.map_values(|v: Vec2Bits| vec2_key(v)),
{
    let mut r: Vec<HashableVec2> = Vec::new();
    for i in 0..vs.len()
        invariant
            r@.len() == i,
            forall|j: int| 0 <= j < i ==> (#[trigger] r@[j])@ == vec2_key(vs@[j]),
    {
        r.push(HashableVec2(vs[i]));
    }
    assert(dedupe_views(r@) =~= vs@.map_values(|v: Vec2Bits| vec2_key(v)));
    r
}

fn named_vec3_keys(m: &IndexMap<String, Vec3Bits>) -> (r: (Vec<String>, Vec<HashableVec3>))
    ensures
        r.0@.len() == r.1@.len(),
        string_views(r.0@) == entry_names(vec3_entries(*m)),
        dedupe_views(r.1@) == vec3_entries(*m).map_values(|e: (String, Vec3Bits)| vec3_key(e.1)),
{
    let ghost es = vec3_entries(*m);
    let mut names: Vec<String> = Vec::new();
    let mut keys: Vec<HashableVec3> = Vec::new();
    let n = vec3_len(m);
    for i in 0..n
        invariant
            n == es.len(),
            es == vec3_entries(*m),
            names@.len() == i,
            keys@.len() == i,
            forall|j: int| 0 <= j < i ==> (#[trigger] names@[j])@ == es[j].0@,
            forall|j: int| 0 <= j < i ==> (#[trigger] keys@[j])@ == vec3_key(es[j].1),
    {
        match vec3_entry(m, i) {
            Some((k, v)) => {
                names.push(k);
                keys.push(HashableVec3(v));
            },
            None => {},
        }
    }
    assert(string_views(names@) =~= entry_names(es));
    assert(dedupe_views(keys@) =~= es.map_values(|e: (String, Vec3Bits)| vec3_key(e.1)));
    (names, keys)
}

fn named_vec2_keys(m: &IndexMap<String, Vec2Bits>) -> (r: (Vec<String>, Vec<HashableVec2>))
    ensures
        r.0@.len() == r.1@.len(),
        string_views(r.0@) == entry_names(vec2_entries(*m)),
        dedupe_views(r.1@) == vec2_entries(*m).map_values(|e: (String, Vec2Bits)| vec2_key(e.1)),
{
    let ghost es = vec2_entries(*m);
    let mut names: Vec<String> = Vec::new();
    let mut keys: Vec<HashableVec2> = Vec::new();
    let n = vec2_len(m);
    for i in 0..n
        invariant
            n == es.len(),
            es == vec2_entries(*m),
            names@.len() == i,
            keys@.len() == i,
            forall|j: int| 0 <= j < i ==> (#[trigger] names@[j])@ == es[j].0@,
            forall|j: int| 0 <= j < i ==> (#[trigger] keys@[j])@ == vec2_key(es[j].1),
    {
        match vec2_entry(m, i) {
            Some((k, v)) => {
                names.push(k);
                keys.push(HashableVec2(v));
            },
            None => {},
        }
    }
    assert(string_views(names@) =~= entry_names(es));
    assert(dedupe_views(keys@) =~= es.map_values(|e: (String, Vec2Bits)| vec2_key(e.1)));
    (names, keys)
}

fn named_compute_vertices(m: &IndexMap<String, ComputeVertex>) -> (r: (Vec<String>, Vec<ComputeVertex>))
    ensures
        r.0@.len() == r.1@.len(),
        string_views(r.0@) == entry_names(compute_vertex_entries(*m)),
        dedupe_views(r.1@) == compute_vertex_entries(*m).map_values(|e: (String, ComputeVertex)| e.1@),
{
    let ghost es = compute_vertex_entries(*m);
    let mut names: Vec<String> = Vec::new();
    let mut keys: Vec<ComputeVertex> = Vec::new();
    let n = compute_vertex_len(m);
    for i in 0..n
        invariant
            n == es.len(),
            es == compute_vertex_entries(*m),
            names@.len() == i,
            keys@.len() == i,
            forall|j: int| 0 <= j < i ==> (#[trigger] names@[j])@ == es[j].0@,
            forall|j: int| 0 <= j < i ==> (#[trigger] keys@[j])@ == es[j].1@,
    {
        match compute_vertex_entry(m, i) {
            Some((k, v)) => {
                names.push(k);
                keys.push(v);
            },
            None => {},
        }
    }
    assert(string_views(names@) =~= entry_names(es));
    assert(dedupe_views(keys@) =~= es.map_values(|e: (String, ComputeVertex)| e.1@));
    (names, keys)
}

fn named_compute_normals(m: &IndexMap<String, ComputeNormal>) -> (r: (Vec<String>, Vec<ComputeNormal>))
    ensures
        r.0@.len() == r.1@.len(),
        string_views(r.0@) == entry_names(compute_normal_entries(*m)),
        dedupe_views(r.1@) == compute_normal_entries(*m).map_values(|e: (String, ComputeNormal)| e.1@),
{
    let ghost es = compute_normal_entries(*m);
    let mut names: Vec<String> = Vec::new();
    let mut keys: Vec<ComputeNormal> = Vec::new();
    let n = compute_normal_len(m);
    for i in 0..n
        invariant
            n == es.len(),
            es == compute_normal_entries(*m),
            names@.len() == i,
            keys@.len() == i,
            forall|j: int| 0 <= j < i ==> (#[trigger] names@[j])@ == es[j].0@,
            forall|j: int| 0 <= j < i ==> (#[trigger] keys@[j])@ == es[j].1@,
    {
        match compute_normal_entry(m, i) {
            Some((k, v)) => {
                names.push(k);
                keys.push(v);
            },
            None => {},
        }
    }
    assert(string_views(names@) =~= entry_names(es));
    assert(dedupe_views(keys@) =~= es.map_values(|e: (String, ComputeNormal)| e.1@));
    (names, keys)
}

fn index_table_of<K: DedupeKey>(keys: &Vec<K>) -> (r: Vec<Option<usize>>)
    ensures
        r@ == index_table(dedupe_views(keys@)),
{
    let r = index_targets(keys);
    assert(r@ =~= index_table(dedupe_views(keys@)));
    r
}

impl Part {
    /// Collects the redirections that merging duplicate data makes: every
    /// stored, named or computed entry whose value (compared by bit pattern)
    /// repeats an earlier entry of its kind is redirected to the first one.
    pub fn dedupe_maps(&self) -> (m: DedupeMaps)
        ensures
            m@ == dedupe_maps_of(*self),
    {
        let vi = index_table_of(&stored_vec3_keys(&self.vertices.indexed));
        let (vn_names, vn_keys) = named_vec3_keys(&self.vertices.named);
        let vn = named_backmap(&vn_names, &vn_keys);
        let (vc_names, vc_keys) = named_compute_vertices(&self.vertices.compute);
        let vc = named_backmap(&vc_names, &vc_keys);
        let ui = index_table_of(&stored_vec2_keys(&self.uvs.indexed));
        let (un_names, un_keys) = named_vec2_keys(&self.uvs.named);
        let un = named_backmap(&un_names, &un_keys);
        let ni = index_table_of(&stored_vec3_keys(&self.normals.indexed));
        let (nn_names, nn_keys) = named_vec3_keys(&self.normals.named);
        let nn = named_backmap(&nn_names, &nn_keys);
        let (nc_names, nc_keys) = named_compute_normals(&self.normals.compute);
        let nc = named_backmap(&nc_names, &nc_keys);
        DedupeMaps { vi, vn, vc, ui, un, ni, nn, nc }
    }

    /// Merges duplicate data: every triangle corner that refers to a stored,
    /// named or computed entry repeating an earlier one is pointed at the earlier
    /// one, as [`Triangle::remap`] does with [`Part::dedupe_maps`]. The data
    /// itself is left as it is.
    pub fn dedupe_data(&mut self)
        ensures
            final(self).vertices == old(self).vertices,
            final(self).uvs == old(self).uvs,
            final(self).normals == old(self).normals,
            final(self).triangles@.len() == old(self).triangles@.len(),
            forall|i: int| 0 <= i < old(self).triangles@.len() ==> #[trigger] final(self).triangles@[i]
                == remap_triangle(dedupe_maps_of(*old(self)), old(self).triangles@[i]),
    {
        let maps = self.dedupe_maps();
        let mut old_tris: Vec<Triangle> = Vec::new();
        std::mem::swap(&mut old_tris, &mut self.triangles.0);
        let n = old_tris.len();
        let mut tris: Vec<Triangle> = Vec::new();
        for i in 0..n
            invariant
                n == old_tris@.len(),
                old_tris@ == old(self).triangles.0@,
                maps@ == dedupe_maps_of(*old(self)),
                tris@.len() == i,
                forall|j: int| 0 <= j < i ==> (#[trigger] tris@[j])@
                    == remap_triangle(maps@, old_tris@[j]@),
        {
            let mut t = old_tris[i].clone();
            t.remap(&maps);
            tris.push(t);
        }
        self.triangles.0 = tris;
    }
}

/// No value occurs twice among the distinct values of a sequence.
pub proof fn lemma_distinct_prefix_no_duplicates<A>(s: Seq<A>)
    ensures
        distinct_prefix(s).no_duplicates(),
    decreases s.len(),
{
    if s.len() > 0 {
        let d = distinct_prefix(s.drop_last());
        lemma_distinct_prefix_no_duplicates(s.drop_last());
        if !d.contains(s.last()) {
            let e = d.push(s.last());
            assert forall|i: int, j: int| 0 <= i < e.len() && 0 <= j < e.len() && i != j implies e[i] != e[j] by {
                if i < d.len() && j < d.len() {
                    assert(e[i] == d[i] && e[j] == d[j]);
                } else if i < d.len() {
                    assert(e[i] == d[i]);
                    assert(e[j] == s.last());
                } else {
                    assert(e[j] == d[j]);
                    assert(e[i] == s.last());
                }
            }
        }
    }
}

/// An entry is redirected exactly when its value occurred before it, and
/// then to the place that value has among the distinct values before it.
pub proof fn lemma_index_target_points_back<A>(ks: Seq<A>, i: int)
    requires
        0 <= i < ks.len() <= usize::MAX,
    ensures
        index_target(ks, i) is None <==> !ks.take(i).contains(ks[i]),
        index_target(ks, i) matches Some(q) ==> (q as int) < distinct_prefix(ks.take(i)).len()
            && distinct_prefix(ks.take(i))[q as int] == ks[i]
            && distinct_prefix(ks.take(i)).len() <= i,
{
    let d = distinct_prefix(ks.take(i));
    lemma_distinct_prefix_contains(ks.take(i), ks[i]);
    lemma_first_index_bound(d, ks[i]);
    lemma_distinct_prefix_len(ks.take(i));
}

proof fn lemma_distinct_prefix_len<A>(s: Seq<A>)
    ensures
        distinct_prefix(s).len() <= s.len(),
    decreases s.len(),
{
    if s.len() > 0 {
        lemma_distinct_prefix_len(s.drop_last());
    }
}

/// Entry `j` repeats an earlier value.
pub open spec fn repeats<A>(ks: Seq<A>, j: int) -> bool {
    ks.take(j).contains(ks[j])
}

/// The pair is that of a repeated entry `j`: its name and the name of the
/// first entry with its value.
pub open spec fn pair_of_repeat<A>(names: Seq<Seq<char>>, ks: Seq<A>, pair: (Seq<char>, Seq<char>)) -> bool {
    exists|j: int| 0 <= j < ks.len() && #[trigger] repeats(ks, j) && pair == (names[j], names[first_index(ks, ks[j])])
}

/// Every pair names a repeated entry and the first entry with its value.
proof fn lemma_named_pair_origin<A>(names: Seq<Seq<char>>, ks: Seq<A>)
    requires
        names.len() == ks.len(),
    ensures
        forall|p: int| 0 <= p < named_pairs(names, ks).len() ==> pair_of_repeat(names, ks, #[trigger] named_pairs(names, ks)[p]),
    decreases ks.len(),
{
    if ks.len() > 0 {
        let j = ks.len() - 1;
        let nt = names.take(j);
        let kt = ks.take(j);
        let r = named_pairs(nt, kt);
        lemma_named_pair_origin(nt, kt);
        let all = named_pairs(names, ks);
        assert forall|p: int| 0 <= p < all.len() implies pair_of_repeat(names, ks, #[trigger] all[p]) by {
            if p < r.len() {
                assert(all[p] == r[p]);
                assert(pair_of_repeat(nt, kt, r[p]));
                let q = choose|q: int| 0 <= q < kt.len() && #[trigger] repeats(kt, q) && r[p] == (nt[q], nt[
                    first_index(kt, kt[q])
                ]);
                assert(kt.take(q) =~= ks.take(q));
                assert(kt[q] == ks[q]);
                assert(repeats(ks, q));
                let v = ks[q];
                assert(kt.contains(v)) by {
                    assert(kt[q] == v);
                }
                lemma_first_index_prefix(ks, v, j);
                lemma_first_index_bound(kt, v);
                assert(nt[first_index(kt, v)] == names[first_index(ks, v)]);
                assert(nt[q] == names[q]);
            } else {
                assert(repeats(ks, j));
            }
        }
    }
}

/// A name in `pairs` is found only if some pair starts with it.
proof fn lemma_lookup_name_found(pairs: Seq<(Seq<char>, Seq<char>)>, n: Seq<char>)
    ensures
        lookup_name(pairs, n) is Some ==> exists|p: int| 0 <= p < pairs.len() && (#[trigger] pairs[p]).0 == n,
    decreases pairs.len(),
{
    if pairs.len() > 0 && pairs.last().0 != n {
        lemma_lookup_name_found(pairs.drop_last(), n);
        if lookup_name(pairs, n) is Some {
            let p = choose|p: int| 0 <= p < pairs.drop_last().len() && (#[trigger] pairs.drop_last()[p]).0 == n;
            assert(pairs[p] == pairs.drop_last()[p]);
        }
    } else if pairs.len() > 0 {
        assert(pairs[pairs.len() - 1] == pairs.last());
    }
}

/// When no two named entries share a name, the name a duplicate is
/// redirected to is never redirected itself, so merging names a second time
/// changes nothing more.
pub proof fn lemma_named_targets_stay<A>(names: Seq<Seq<char>>, ks: Seq<A>)
    requires
        names.len() == ks.len(),
        names.no_duplicates(),
    ensures
        forall|p: int| 0 <= p < named_pairs(names, ks).len()
            ==> lookup_name(named_pairs(names, ks), (#[trigger] named_pairs(names, ks)[p]).1) is None,
{
    let pairs = named_pairs(names, ks);
    lemma_named_pair_origin(names, ks);
    assert forall|p: int| 0 <= p < pairs.len() implies lookup_name(pairs, (#[trigger] pairs[p]).1) is None by {
        assert(pair_of_repeat(names, ks, pairs[p]));
        let j = choose|j: int| 0 <= j < ks.len() && #[trigger] repeats(ks, j) && pairs[p] == (names[j], names[
            first_index(ks, ks[j])
        ]);
        let v = ks[j];
        assert(ks.contains(v)) by {
            assert(ks[j] == v);
        }
        lemma_first_index_bound(ks, v);
        let f = first_index(ks, v);
        lemma_lookup_name_found(pairs, names[f]);
        if lookup_name(pairs, names[f]) is Some {
            let p2 = choose|p2: int| 0 <= p2 < pairs.len() && (#[trigger] pairs[p2]).0 == names[f];
            assert(pair_of_repeat(names, ks, pairs[p2]));
            let j2 = choose|j2: int| 0 <= j2 < ks.len() && #[trigger] repeats(ks, j2) && pairs[p2] == (names[j2], names[
                first_index(ks, ks[j2])
            ]);
            assert(names[j2] == names[f]);
            assert(j2 == f);
            assert(ks[f] == v);
            let w = choose|w: int| 0 <= w < ks.take(f).len() && ks.take(f)[w] == ks[f];
            assert(ks[w] == v);
            assert(false);
        }
    }
}

/// Every redirection pair names an entry and an earlier entry with the same
/// value, and every entry whose value occurred before has a pair.
proof fn lemma_named_pairs_from<A>(names: Seq<Seq<char>>, ks: Seq<A>)
    requires
        names.len() == ks.len(),
    ensures
        links_earlier_equal(named_pairs(names, ks), names, ks),
        forall|k: int| 0 <= k < ks.len() && ks.take(k).contains(#[trigger] ks[k]) ==> exists|m: int|
            0 <= m < named_pairs(names, ks).len() && named_pairs(names, ks)[m].0 == names[k],
    decreases ks.len(),
{
    if ks.len() > 0 {
        let j = ks.len() - 1;
        let pn = names.take(j);
        let pk = ks.take(j);
        lemma_named_pairs_from(pn, pk);
        let r = named_pairs(pn, pk);
        let all = named_pairs(names, ks);
        if pk.contains(ks[j]) {
            lemma_first_index_bound(ks, ks[j]);
            let w = choose|w: int| 0 <= w < pk.len() && pk[w] == ks[j];
            assert(ks[w] == ks[j]);
            let f = first_index(ks, ks[j]);
            assert(f <= w);
        }
        assert forall|x: int| 0 <= x < all.len() implies exists|j: int, k: int| 0 <= j < k < ks.len()
            && names[k] == (#[trigger] all[x]).0 && names[j] == all[x].1 && ks[j] == ks[k] by {
            let m = x;
            if m < r.len() {
                assert(all[m] == r[m]);
                let (a, b) = choose|a: int, b: int| 0 <= a < b < pk.len() && pn[b] == (#[trigger] r[m]).0 && pn[a] == r[m].1 && pk[a] == pk[b];
                assert(names[b] == pn[b] && names[a] == pn[a] && ks[a] == pk[a] && ks[b] == pk[b]);
            } else {
                let f = first_index(ks, ks[j]);
                assert(all[m] == (names[j], names[f]));
            }
        }
        assert forall|k: int| 0 <= k < ks.len() && ks.take(k).contains(#[trigger] ks[k]) implies exists|m: int|
            0 <= m < all.len() && all[m].0 == names[k] by {
            if k < j {
                assert(pk.take(k) =~= ks.take(k));
                assert(pk[k] == ks[k]);
                let m = choose|m: int| 0 <= m < r.len() && r[m].0 == pn[k];
                assert(all[m] == r[m]);
            } else {
                assert(ks.take(k) =~= pk);
                assert(all[r.len() as int].0 == names[j]);
            }
        }
    }
}

/// A stored-entry table is made from the entries' own values: it has one
/// place per entry, an entry is redirected exactly when an earlier entry has
/// the same value, and then to the place of that value among the distinct
/// values before it.
proof fn lemma_index_table_of_values<A>(ks: Seq<A>)
    requires
        ks.len() <= usize::MAX,
    ensures
        index_table(ks).len() == ks.len(),
        forall|i: int| 0 <= i < ks.len() ==> ((#[trigger] index_table(ks)[i]) is None
            <==> forall|j: int| 0 <= j < i ==> ks[j] != ks[i]),
        forall|i: int| 0 <= i < ks.len() ==> (#[trigger] index_table(ks)[i] matches Some(q)
            ==> q < i && distinct_prefix(ks.take(i))[q as int] == ks[i]),
{
    assert forall|i: int| 0 <= i < ks.len() implies ((#[trigger] index_table(ks)[i]) is None
        <==> forall|j: int| 0 <= j < i ==> ks[j] != ks[i]) && (index_table(ks)[i] matches Some(q)
        ==> q < i && distinct_prefix(ks.take(i))[q as int] == ks[i]) by {
        lemma_index_target_points_back(ks, i);
        if !(forall|j: int| 0 <= j < i ==> ks[j] != ks[i]) {
            let j = choose|j: int| 0 <= j < i && ks[j] == ks[i];
            assert(ks.take(i)[j] == ks[i]);
        }
        if ks.take(i).contains(ks[i]) {
            let j = choose|j: int| 0 <= j < ks.take(i).len() && ks.take(i)[j] == ks[i];
            assert(ks[j] == ks[i]);
        }
    }
}

/// Each pair `(a, b)` names an entry `k` and an earlier entry `j` (by
/// `names`) whose values have the same key (by `keys`).
pub open spec fn links_earlier_equal<K>(pairs: Seq<(Seq<char>, Seq<char>)>, names: Seq<Seq<char>>, keys: Seq<K>) -> bool {
    forall|x: int| 0 <= x < pairs.len() ==> exists|j: int, k: int| 0 <= j < k < keys.len()
        && names[k] == (#[trigger] pairs[x]).0 && names[j] == pairs[x].1 && keys[j] == keys[k]
}

/// The redirections of a part come from the part's own data of each kind:
/// stored vertices, uvs and normals are redirected by their own values, one
/// place per entry, exactly when an earlier entry of the same kind has the
/// same value; and each named or computed redirection links an entry of that
/// kind to an earlier entry of that kind with the same value, every repeated
/// entry getting one.
pub proof fn lemma_dedupe_maps_follow_own_data(p: Part)
    requires
        p.vertices.indexed@.len() <= usize::MAX,
        p.uvs.indexed@.len() <= usize::MAX,
        p.normals.indexed@.len() <= usize::MAX,
    ensures
        ({
            let m = dedupe_maps_of(p);
            let v = p.vertices.indexed@;
            let u = p.uvs.indexed@;
            let n = p.normals.indexed@;
            &&& m.vi.len() == v.len()
            &&& forall|i: int| 0 <= i < v.len() ==> ((#[trigger] m.vi[i]) is None
                <==> forall|j: int| 0 <= j < i ==> vec3_key(v[j]) != vec3_key(v[i]))
            &&& forall|i: int| 0 <= i < v.len() ==> (#[trigger] m.vi[i] matches Some(q) ==> q < i)
            &&& m.ui.len() == u.len()
            &&& forall|i: int| 0 <= i < u.len() ==> ((#[trigger] m.ui[i]) is None
                <==> forall|j: int| 0 <= j < i ==> vec2_key(u[j]) != vec2_key(u[i]))
            &&& forall|i: int| 0 <= i < u.len() ==> (#[trigger] m.ui[i] matches Some(q) ==> q < i)
            &&& m.ni.len() == n.len()
            &&& forall|i: int| 0 <= i < n.len() ==> ((#[trigger] m.ni[i]) is None
                <==> forall|j: int| 0 <= j < i ==> vec3_key(n[j]) != vec3_key(n[i]))
            &&& forall|i: int| 0 <= i < n.len() ==> (#[trigger] m.ni[i] matches Some(q) ==> q < i)
        }),
        links_earlier_equal(dedupe_maps_of(p).vn, entry_names(vec3_entries(p.vertices.named)), vec3_entries(p.vertices.named).map_values(|e: (String, Vec3Bits)| vec3_key(e.1))),
        links_earlier_equal(dedupe_maps_of(p).nn, entry_names(vec3_entries(p.normals.named)), vec3_entries(p.normals.named).map_values(|e: (String, Vec3Bits)| vec3_key(e.1))),
        links_earlier_equal(dedupe_maps_of(p).un, entry_names(vec2_entries(p.uvs.named)), vec2_entries(p.uvs.named).map_values(|e: (String, Vec2Bits)| vec2_key(e.1))),
        links_earlier_equal(dedupe_maps_of(p).vc, entry_names(compute_vertex_entries(p.vertices.compute)), compute_vertex_entries(p.vertices.compute).map_values(|e: (String, ComputeVertex)| e.1@)),
        links_earlier_equal(dedupe_maps_of(p).nc, entry_names(compute_normal_entries(p.normals.compute)), compute_normal_entries(p.normals.compute).map_values(|e: (String, ComputeNormal)| e.1@)),
{
    let m = dedupe_maps_of(p);
    let v = p.vertices.indexed@;
    let u = p.uvs.indexed@;
    let n = p.normals.indexed@;
    let vk = v.map_values(|x: Vec3Bits| vec3_key(x));
    let uk = u.map_values(|x: Vec2Bits| vec2_key(x));
    let nk = n.map_values(|x: Vec3Bits| vec3_key(x));
    lemma_index_table_of_values(vk);
    lemma_index_table_of_values(uk);
    lemma_index_table_of_values(nk);
    assert(m.vi == index_table(vk));
    assert(m.ui == index_table(uk));
    assert(m.ni == index_table(nk));
    assert forall|i: int| 0 <= i < v.len() implies ((#[trigger] m.vi[i]) is None
        <==> forall|j: int| 0 <= j < i ==> vec3_key(v[j]) != vec3_key(v[i])) && (m.vi[i] matches Some(q) ==> q < i) by {
        assert(m.vi[i] == index_table(vk)[i]);
        assert(vk[i] == vec3_key(v[i]));
        if m.vi[i] is None {
            assert forall|j: int| 0 <= j < i implies vec3_key(v[j]) != vec3_key(v[i]) by {
                assert(vk[j] == vec3_key(v[j]));
            }
        } else {
            assert(!(forall|j: int| 0 <= j < i ==> vk[j] != vk[i]));
            let j = choose|j: int| 0 <= j < i && vk[j] == vk[i];
            assert(vk[j] == vec3_key(v[j]));
        }
    }
    assert forall|i: int| 0 <= i < u.len() implies ((#[trigger] m.ui[i]) is None
        <==> forall|j: int| 0 <= j < i ==> vec2_key(u[j]) != vec2_key(u[i])) && (m.ui[i] matches Some(q) ==> q < i) by {
        assert(m.ui[i] == index_table(uk)[i]);
        assert(uk[i] == vec2_key(u[i]));
        if m.ui[i] is None {
            assert forall|j: int| 0 <= j < i implies vec2_key(u[j]) != vec2_key(u[i]) by {
                assert(uk[j] == vec2_key(u[j]));
            }
        } else {
            assert(!(forall|j: int| 0 <= j < i ==> uk[j] != uk[i]));
            let j = choose|j: int| 0 <= j < i && uk[j] == uk[i];
            assert(uk[j] == vec2_key(u[j]));
        }
    }
    assert forall|i: int| 0 <= i < n.len() implies ((#[trigger] m.ni[i]) is None
        <==> forall|j: int| 0 <= j < i ==> vec3_key(n[j]) != vec3_key(n[i])) && (m.ni[i] matches Some(q) ==> q < i) by {
        assert(m.ni[i] == index_table(nk)[i]);
        assert(nk[i] == vec3_key(n[i]));
        if m.ni[i] is None {
            assert forall|j: int| 0 <= j < i implies vec3_key(n[j]) != vec3_key(n[i]) by {
                assert(nk[j] == vec3_key(n[j]));
            }
        } else {
            assert(!(forall|j: int| 0 <= j < i ==> nk[j] != nk[i]));
            let j = choose|j: int| 0 <= j < i && nk[j] == nk[i];
            assert(nk[j] == vec3_key(n[j]));
        }
    }
    lemma_named_pairs_from(entry_names(vec3_entries(p.vertices.named)), vec3_entries(p.vertices.named).map_values(|e: (String, Vec3Bits)| vec3_key(e.1)));
    assert(m.vn == named_pairs(entry_names(vec3_entries(p.vertices.named)), vec3_entries(p.vertices.named).map_values(|e: (String, Vec3Bits)| vec3_key(e.1))));
    lemma_named_pairs_from(entry_names(vec3_entries(p.normals.named)), vec3_entries(p.normals.named).map_values(|e: (String, Vec3Bits)| vec3_key(e.1)));
    assert(m.nn == named_pairs(entry_names(vec3_entries(p.normals.named)), vec3_entries(p.normals.named).map_values(|e: (String, Vec3Bits)| vec3_key(e.1))));
    lemma_named_pairs_from(entry_names(vec2_entries(p.uvs.named)), vec2_entries(p.uvs.named).map_values(|e: (String, Vec2Bits)| vec2_key(e.1)));
    assert(m.un == named_pairs(entry_names(vec2_entries(p.uvs.named)), vec2_entries(p.uvs.named).map_values(|e: (String, Vec2Bits)| vec2_key(e.1))));
    lemma_named_pairs_from(entry_names(compute_vertex_entries(p.vertices.compute)), compute_vertex_entries(p.vertices.compute).map_values(|e: (String, ComputeVertex)| e.1@));
    assert(m.vc == named_pairs(entry_names(compute_vertex_entries(p.vertices.compute)), compute_vertex_entries(p.vertices.compute).map_values(|e: (String, ComputeVertex)| e.1@)));
    lemma_named_pairs_from(entry_names(compute_normal_entries(p.normals.compute)), compute_normal_entries(p.normals.compute).map_values(|e: (String, ComputeNormal)| e.1@));
    assert(m.nc == named_pairs(entry_names(compute_normal_entries(p.normals.compute)), compute_normal_entries(p.normals.compute).map_values(|e: (String, ComputeNormal)| e.1@)));
}

/// Each reference of a corner is redirected by the tables of its own kind
/// only: vertex references by the vertex tables, uv references by the uv
/// tables, normal references by the normal tables. A stored reference moves
/// to the target its table gives, or stays when it has none; a named
/// reference takes the name of the first table (named, then computed) that
/// lists it, or stays.
pub proof fn lemma_remap_uses_own_tables(m1: DedupeMapsView, m2: DedupeMapsView, v: VertexView)
    ensures
        m1.vi == m2.vi && m1.vn == m2.vn && m1.vc == m2.vc ==> remap_corner(m1, v).vertex == remap_corner(m2, v).vertex,
        m1.ui == m2.ui && m1.un == m2.un ==> remap_corner(m1, v).uv == remap_corner(m2, v).uv,
        m1.ni == m2.ni && m1.nn == m2.nn && m1.nc == m2.nc ==> remap_corner(m1, v).normal == remap_corner(m2, v).normal,
        v.normal matches IdView::Index(i) ==> remap_corner(m1, v).normal == IdView::Index(
            if (i as int) < m1.ni.len() && m1.ni[i as int] is Some { m1.ni[i as int]->0 } else { i },
        ),
        v.vertex matches IdView::Index(i) ==> remap_corner(m1, v).vertex == IdView::Index(
            if (i as int) < m1.vi.len() && m1.vi[i as int] is Some { m1.vi[i as int]->0 } else { i },
        ),
        v.uv matches IdView::Index(i) ==> remap_corner(m1, v).uv == IdView::Index(
            if (i as int) < m1.ui.len() && m1.ui[i as int] is Some { m1.ui[i as int]->0 } else { i },
        ),
        remap_corner(m1, v).vertex is Index <==> v.vertex is Index,
        remap_corner(m1, v).uv is Index <==> v.uv is Index,
        remap_corner(m1, v).normal is Index <==> v.normal is Index,
{
}

} // verus!
