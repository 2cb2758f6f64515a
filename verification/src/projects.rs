//! The list of recently opened projects: what kind each is, where it lives,
//! and when it was last changed (seconds since the Unix epoch).
use vstd::prelude::*;
use crate::mesh::clone_opt_string;

verus! {

/// The kinds of project the editor opens.
#[derive(Copy, Clone, Debug, PartialEq, Eq, Structural)]
pub enum ProjectKind {
    EnvironmentMesh,
    SaberMesh,
    NoteMesh,
    Beatmap,
    Lightshow,
}

/// A project of the list, with what its kind shows: a beatmap's cover image.
#[derive(Debug, PartialEq)]
pub enum ProjectType {
    EnvironmentMesh,
    SaberMesh,
    NoteMesh,
    Beatmap { img: Option<String> },
    Lightshow,
}

/// How a recent project is stored.
#[derive(Debug)]
pub struct RawRecentProject {
    pub modified: i64,
    pub path: String,
    pub kind: ProjectKind,
}

/// A recent project.
#[derive(Debug)]
pub struct RecentProject {
    pub modified: i64,
    pub path: String,
    pub kind: ProjectType,
}

/// The stored list.
#[derive(Debug)]
pub struct RawRecentProjects(pub Vec<RawRecentProject>);

/// The list of recent projects, oldest first.
#[derive(Debug)]
pub struct RecentProjects(pub Vec<RecentProject>);

pub open spec fn kind_of(t: ProjectType) -> ProjectKind {
    match t {
        ProjectType::EnvironmentMesh => ProjectKind::EnvironmentMesh,
        ProjectType::SaberMesh => ProjectKind::SaberMesh,
        ProjectType::NoteMesh => ProjectKind::NoteMesh,
        ProjectType::Beatmap { .. } => ProjectKind::Beatmap,
        ProjectType::Lightshow => ProjectKind::Lightshow,
    }
}

/// The project type a stored kind becomes, given the cover image a beatmap
/// project shows (the other kinds show none).
pub open spec fn type_of(kind: ProjectKind, cover: Option<String>) -> ProjectType {
    match kind {
        ProjectKind::EnvironmentMesh => ProjectType::EnvironmentMesh,
        ProjectKind::SaberMesh => ProjectType::SaberMesh,
        ProjectKind::NoteMesh => ProjectType::NoteMesh,
        ProjectKind::Beatmap => ProjectType::Beatmap { img: cover },
        ProjectKind::Lightshow => ProjectType::Lightshow,
    }
}

/// The name a kind is shown by.
pub open spec fn kind_name(k: ProjectKind) -> Seq<char> {
    match k {
        ProjectKind::EnvironmentMesh => "Environment Mesh"@,
        ProjectKind::SaberMesh => "Saber Mesh"@,
        ProjectKind::NoteMesh => "Note Mesh"@,
        ProjectKind::Beatmap => "Beatmap"@,
        ProjectKind::Lightshow => "Lightshow"@,
    }
}

impl ProjectKind {
    /// The name the kind is shown by.
    pub fn to_string(&self) -> (r: String)
        ensures
            r@ == kind_name(*self),
    {
        match self {
            ProjectKind::EnvironmentMesh => "Environment Mesh".to_owned(),
            ProjectKind::SaberMesh => "Saber Mesh".to_owned(),
            ProjectKind::NoteMesh => "Note Mesh".to_owned(),
            ProjectKind::Beatmap => "Beatmap".to_owned(),
            ProjectKind::Lightshow => "Lightshow".to_owned(),
        }
    }
}

impl Clone for ProjectType {
    fn clone(&self) -> (r: Self)
        ensures
            r == *self,
    {
        match self {
            ProjectType::EnvironmentMesh => ProjectType::EnvironmentMesh,
            ProjectType::SaberMesh => ProjectType::SaberMesh,
            ProjectType::NoteMesh => ProjectType::NoteMesh,
            ProjectType::Beatmap { img } => ProjectType::Beatmap {
                img: match img {
                    Some(s) => Some(s.clone()),
                    None => None,
                },
            },
            ProjectType::Lightshow => ProjectType::Lightshow,
        }
    }
}

impl ProjectType {
    /// The kind of the project.
    pub fn kind(&self) -> (k: ProjectKind)
        ensures
            k == kind_of(*self),
    {
        match self {
            ProjectType::EnvironmentMesh => ProjectKind::EnvironmentMesh,
            ProjectType::SaberMesh => ProjectKind::SaberMesh,
            ProjectType::NoteMesh => ProjectKind::NoteMesh,
            ProjectType::Beatmap { .. } => ProjectKind::Beatmap,
            ProjectType::Lightshow => ProjectKind::Lightshow,
        }
    }
}

impl Clone for RecentProject {
    fn clone(&self) -> (r: Self)
        ensures
            r == *self,
    {
        RecentProject { modified: self.modified, path: self.path.clone(), kind: self.kind.clone() }
    }
}

impl RecentProject {
    /// The project a stored entry stands for; `cover` is the cover image named
    /// by the info file in a beatmap project's folder, if one was read.
    pub fn from_raw(value: RawRecentProject, cover: Option<String>) -> (r: RecentProject)
        ensures
            r.modified == value.modified,
            r.path == value.path,
            r.kind == type_of(value.kind, cover),
    {
        let kind = match value.kind {
            ProjectKind::EnvironmentMesh => ProjectType::EnvironmentMesh,
            ProjectKind::SaberMesh => ProjectType::SaberMesh,
            ProjectKind::NoteMesh => ProjectType::NoteMesh,
            ProjectKind::Beatmap => ProjectType::Beatmap { img: cover },
            ProjectKind::Lightshow => ProjectType::Lightshow,
        };
        RecentProject { modified: value.modified, path: value.path, kind }
    }

    /// How the project is stored: its kind without what the kind shows.
    pub fn to_raw(&self) -> (r: RawRecentProject)
        ensures
            r.modified == self.modified,
            r.path == self.path,
            r.kind == kind_of(self.kind),
    {
        RawRecentProject { modified: self.modified, path: self.path.clone(), kind: self.kind.kind() }
    }
}

impl RecentProjects {
    /// The list a stored list stands for; `covers[i]` is the cover image read
    /// for entry `i`.
    pub fn from_raw(value: RawRecentProjects, covers: Vec<Option<String>>) -> (r: RecentProjects)
        requires
            covers@.len() == value.0@.len(),
        ensures
            r.0@.len() == value.0@.len(),
            forall|i: int| 0 <= i < r.0@.len() ==> {
                let p = #[trigger] r.0@[i];
                let q = value.0@[i];
                &&& p.modified == q.modified
                &&& p.path == q.path
                &&& p.kind == type_of(q.kind, covers@[i])
            },
    {
        let mut out: Vec<RecentProject> = Vec::new();
        for i in 0..value.0.len()
            invariant
                covers@.len() == value.0@.len(),
                out@.len() == i,
                forall|j: int| 0 <= j < i ==> {
                    let p = #[trigger] out@[j];
                    &&& p.modified == value.0@[j].modified
                    &&& p.path == value.0@[j].path
                    &&& p.kind == type_of(value.0@[j].kind, covers@[j])
                },
        {
            let q = &value.0[i];
            let raw = RawRecentProject { modified: q.modified, path: q.path.clone(), kind: q.kind };
            out.push(RecentProject::from_raw(raw, clone_opt_string(&covers[i])));
        }
        RecentProjects(out)
    }

    /// The list as stored.
    pub fn to_raw(&self) -> (r: RawRecentProjects)
        ensures
            r.0@.len() == self.0@.len(),
            forall|i: int| 0 <= i < r.0@.len() ==> {
                let p = #[trigger] r.0@[i];
                let q = self.0@[i];
                &&& p.modified == q.modified
                &&& p.path == q.path
                &&& p.kind == kind_of(q.kind)
            },
    {
        let mut out: Vec<RawRecentProject> = Vec::new();
        for i in 0..self.0.len()
            invariant
                out@.len() == i,
                forall|j: int| 0 <= j < i ==> {
                    let p = #[trigger] out@[j];
                    let q = self.0@[j];
                    &&& p.modified == q.modified
                    &&& p.path == q.path
                    &&& p.kind == kind_of(q.kind)
                },
        {
            out.push(self.0[i].to_raw());
        }
        RawRecentProjects(out)
    }
}

/// The entry `p` with its time of change set to `t`.
pub open spec fn with_modified(p: RecentProject, t: i64) -> RecentProject {
    RecentProject { modified: t, path: p.path, kind: p.kind }
}

/// The first position from `i` on whose entry is of kind `kind` and whose path
/// `same` marks as the project's; `ps.len()` when there is none.
pub open spec fn first_match_from(ps: Seq<RecentProject>, same: Seq<bool>, kind: ProjectKind, i: int) -> int
    decreases ps.len() - i,
{
    if i < 0 || i >= ps.len() {
        ps.len() as int
    } else if same[i] && kind_of(ps[i].kind) == kind {
        i
    } else {
        first_match_from(ps, same, kind, i + 1)
    }
}

/// A path string with no separator (`/` or `\`), no dot and no colon: std's
/// `Path::components` reads it as one plain component (or none, when empty),
/// on every platform.
pub open spec fn plain_path(s: Seq<char>) -> bool {
    forall|i: int| 0 <= i < s.len() ==> #[trigger] s[i] != '/' && s[i] != '\\' && s[i] != '.' && s[i] != ':'
}

/// `Path::eq` on the two paths, which std documents as comparing their
/// components. Identical strings name equal paths, and two plain path
/// strings (see [`plain_path`]) name equal paths only when they are equal.
/// Which other strings name equal paths (the same components written
/// differently) depends on the platform and is not stated.
#[verifier::external_body]
fn same_path(a: &String, b: &String) -> (r: bool)
    ensures
        a@ == b@ ==> r,
        plain_path(a@) && plain_path(b@) ==> (r <==> a@ == b@),
{
    std::path::Path::new(a.as_str()) == std::path::Path::new(b.as_str())
}

impl RecentProjects {
    /// Records that the project at `project` of kind `kind` changed at `now`.
    /// `same[i]` says whether entry `i` has the project's path. The first entry
    /// of that kind and path gets the new time; when there is none, a new entry
    /// is added at the end, a beatmap showing the cover image `cover`.
    pub fn mark_modified_matching(&mut self, same: &Vec<bool>, project: String, kind: ProjectKind, cover: Option<String>, now: i64)
        requires
            same@.len() == old(self).0@.len(),
        ensures
            ({
                let i = first_match_from(old(self).0@, same@, kind, 0);
                if i < old(self).0@.len() {
                    final(self).0@ == old(self).0@.update(i, with_modified(old(self).0@[i], now))
                } else {
                    final(self).0@ == old(self).0@.push(
                        (RecentProject { modified: now, path: project, kind: type_of(kind, cover) }),
                    )
                }
            }),
    {
        let ghost ps = self.0@;
        let n = self.0.len();
        let mut i: usize = 0;
        while i < n
            invariant
                n == ps.len(),
                ps == self.0@,
                self.0@ == old(self).0@,
                same@.len() == n,
                i <= n,
                first_match_from(ps, same@, kind, 0) == first_match_from(ps, same@, kind, i as int),
            decreases n - i,
        {
            if same[i] && self.0[i].kind.kind() == kind {
                let p = &self.0[i];
                let updated = RecentProject { modified: now, path: p.path.clone(), kind: p.kind.clone() };
                self.0.set(i, updated);
                return;
            }
            i = i + 1;
        }
        self.0.push(RecentProject { modified: now, path: project, kind: type_of_exec(kind, cover) });
    }

    /// Records that the project at `project` of kind `kind` changed at `now`
    /// (the caller reads the clock): the first entry of that kind whose path is
    /// the project's gets the new time; when there is none, a new entry is
    /// added at the end, a beatmap showing the cover image `cover`. Paths are
    /// compared as paths; for plain path strings that means as strings.
    pub fn mark_project_modified(&mut self, project: &String, kind: ProjectKind, cover: Option<String>, now: i64)
        ensures
            final(self).0@.len() == old(self).0@.len() ==> exists|i: int|
                0 <= i < old(self).0@.len() && kind_of(old(self).0@[i].kind) == kind
                    && #[trigger] final(self).0@ == old(self).0@.update(i, with_modified(old(self).0@[i], now))
                    && (plain_path(project@) && plain_path(old(self).0@[i].path@) ==> old(self).0@[i].path@ == project@)
                    && (forall|j: int| 0 <= j < i && kind_of(old(self).0@[j].kind) == kind && plain_path(project@)
                        && plain_path(#[trigger] old(self).0@[j].path@) ==> old(self).0@[j].path@ != project@),
            final(self).0@.len() != old(self).0@.len() ==> {
                &&& final(self).0@.len() == old(self).0@.len() + 1
                &&& final(self).0@.drop_last() == old(self).0@
                &&& final(self).0@.last().path == *project
                &&& final(self).0@.last().kind == type_of(kind, cover)
                &&& final(self).0@.last().modified == now
                &&& forall|i: int| 0 <= i < old(self).0@.len() && kind_of(#[trigger] old(self).0@[i].kind) == kind
                    ==> old(self).0@[i].path@ != project@
            },
    {
        let mut same: Vec<bool> = Vec::new();
        for i in 0..self.0.len()
            invariant
                same@.len() == i,
                forall|j: int| 0 <= j < i ==> (self.0@[j].path@ == project@ ==> #[trigger] same@[j]),
                forall|j: int| 0 <= j < i && plain_path(project@) && plain_path(self.0@[j].path@)
                    ==> (#[trigger] same@[j] ==> self.0@[j].path@ == project@),
        {
            same.push(same_path(&self.0[i].path, project));
        }
        let ghost ps = self.0@;
        proof {
            lemma_first_match_bounds(ps, same@, kind, 0);
        }
        self.mark_modified_matching(&same, project.clone(), kind, cover, now);
        proof {
            let i = first_match_from(ps, same@, kind, 0);
            if i < ps.len() {
                assert(self.0@[i].modified == now);
                assert(self.0@ == ps.update(i, with_modified(ps[i], now)));
                assert(same@[i]);
                assert forall|j: int| 0 <= j < i && kind_of(ps[j].kind) == kind && plain_path(project@)
                    && plain_path(#[trigger] ps[j].path@) implies ps[j].path@ != project@ by {
                    if ps[j].path@ == project@ {
                        assert(same@[j]);
                    }
                }
            } else {
                assert(self.0@.drop_last() =~= ps);
                assert forall|j: int| 0 <= j < ps.len() && kind_of(#[trigger] ps[j].kind) == kind
                    implies ps[j].path@ != project@ by {
                    if ps[j].path@ == project@ {
                        assert(same@[j]);
                        lemma_first_match_bounds(ps, same@, kind, 0);
                    }
                }
            }
        }
    }
}

/// The search from `i` ends at a matching position no earlier than `i`, with
/// no match in between, or at the end when no position from `i` on matches.
proof fn lemma_first_match_bounds(ps: Seq<RecentProject>, same: Seq<bool>, kind: ProjectKind, i: int)
    requires
        0 <= i <= ps.len(),
        same.len() == ps.len(),
    ensures
        i <= first_match_from(ps, same, kind, i) <= ps.len(),
        forall|j: int| i <= j < first_match_from(ps, same, kind, i) ==> !(#[trigger] same[j] && kind_of(ps[j].kind) == kind),
        first_match_from(ps, same, kind, i) < ps.len() ==> {
            let k = first_match_from(ps, same, kind, i);
            same[k] && kind_of(ps[k].kind) == kind
        },
    decreases ps.len() - i,
{
    if i < ps.len() && !(same[i] && kind_of(ps[i].kind) == kind) {
        lemma_first_match_bounds(ps, same, kind, i + 1);
    }
}

fn type_of_exec(kind: ProjectKind, cover: Option<String>) -> (t: ProjectType)
    ensures
        t == type_of(kind, cover),
{
    match kind {
        ProjectKind::EnvironmentMesh => ProjectType::EnvironmentMesh,
        ProjectKind::SaberMesh => ProjectType::SaberMesh,
        ProjectKind::NoteMesh => ProjectType::NoteMesh,
        ProjectKind::Beatmap => ProjectType::Beatmap { img: cover },
        ProjectKind::Lightshow => ProjectType::Lightshow,
    }
}

/// The cover image a project type shows, if any.
pub open spec fn cover_of(t: ProjectType) -> Option<String> {
    match t {
        ProjectType::Beatmap { img } => img,
        _ => None,
    }
}

/// Storing a project and reading it back with the cover image it showed
/// gives the same project, and reading a stored entry and storing it again
/// gives the same entry.
pub proof fn lemma_recent_project_roundtrip(p: RecentProject, raw: RawRecentProject, cover: Option<String>)
    ensures
        kind_of(type_of(raw.kind, cover)) == raw.kind,
        type_of(kind_of(p.kind), cover_of(p.kind)) == p.kind,
{
}

/// After a project is marked modified, the list holds an entry of its kind
/// with the new time whose path is the project's, or is marked as the
/// project's by `same`; nothing else changes, and the list grows by at most one.
pub proof fn lemma_marked_project_listed(
    before: Seq<RecentProject>,
    after: Seq<RecentProject>,
    same: Seq<bool>,
    project: String,
    kind: ProjectKind,
    cover: Option<String>,
    now: i64,
)
    requires
        same.len() == before.len(),
        ({
            let i = first_match_from(before, same, kind, 0);
            if i < before.len() {
                after == before.update(i, with_modified(before[i], now))
            } else {
                after == before.push((RecentProject { modified: now, path: project, kind: type_of(kind, cover) }))
            }
        }),
    ensures
        exists|i: int| 0 <= i < after.len() && kind_of((#[trigger] after[i]).kind) == kind && after[i].modified == now
            && (after[i].path == project || (i < before.len() && same[i])),
        after.len() == before.len() || after.len() == before.len() + 1,
        forall|i: int| 0 <= i < before.len() && after[i] != before[i] ==> #[trigger] same[i] && kind_of(before[i].kind) == kind,
{
    lemma_first_match_bounds(before, same, kind, 0);
    let i = first_match_from(before, same, kind, 0);
    if i < before.len() {
        assert(after[i] == with_modified(before[i], now));
    } else {
        let k = before.len() as int;
        assert(after[k].kind == type_of(kind, cover));
        assert(forall|j: int| 0 <= j < before.len() ==> after[j] == before[j]);
    }
}

/// Each project type has the kind of the same name, each kind is shown by
/// its own name, and a stored kind becomes the project type of the same name
/// (a beatmap keeping the cover image it is given).
pub proof fn lemma_project_kind_table(cover: Option<String>)
    ensures
        kind_of(ProjectType::EnvironmentMesh) == ProjectKind::EnvironmentMesh,
        kind_of(ProjectType::SaberMesh) == ProjectKind::SaberMesh,
        kind_of(ProjectType::NoteMesh) == ProjectKind::NoteMesh,
        kind_of(ProjectType::Beatmap { img: cover }) == ProjectKind::Beatmap,
        kind_of(ProjectType::Lightshow) == ProjectKind::Lightshow,
        type_of(ProjectKind::EnvironmentMesh, cover) == ProjectType::EnvironmentMesh,
        type_of(ProjectKind::SaberMesh, cover) == ProjectType::SaberMesh,
        type_of(ProjectKind::NoteMesh, cover) == ProjectType::NoteMesh,
        type_of(ProjectKind::Beatmap, cover) == (ProjectType::Beatmap { img: cover }),
        type_of(ProjectKind::Lightshow, cover) == ProjectType::Lightshow,
        kind_name(ProjectKind::EnvironmentMesh) == "Environment Mesh"@,
        kind_name(ProjectKind::SaberMesh) == "Saber Mesh"@,
        kind_name(ProjectKind::NoteMesh) == "Note Mesh"@,
        kind_name(ProjectKind::Beatmap) == "Beatmap"@,
        kind_name(ProjectKind::Lightshow) == "Lightshow"@,
{
}

} // verus!
