//! The project registry: one active project and the list of inactive ones.

use vstd::prelude::*;

verus! {

/// Kind of project.
#[derive(Debug, Clone, Copy, PartialEq, Eq, Structural)]
pub enum Category {
    Binary,
    Library,
    Refactor,
}

impl Category {
    /// The category at `index` in the order binary, library, refactor.
    pub fn from_index(index: usize) -> (r: Category)
        requires
            index < 3,
        ensures
            index == 0 ==> r == Category::Binary,
            index == 1 ==> r == Category::Library,
            index == 2 ==> r == Category::Refactor,
    {
        if index == 0 {
            Category::Binary
        } else if index == 1 {
            Category::Library
        } else {
            Category::Refactor
        }
    }

    /// Lower-case name, as shown and stored.
    pub fn name(&self) -> (r: &'static str)
        ensures
            r@ == match self {
                Category::Binary => "binary"@,
                Category::Library => "library"@,
                Category::Refactor => "refactor"@,
            },
    {
        match self {
            Category::Binary => "binary",
            Category::Library => "library",
            Category::Refactor => "refactor",
        }
    }
}

/// Expected size of a project.
#[derive(Debug, Clone, Copy, PartialEq, Eq, Structural)]
pub enum Complexity {
    Low,
    Medium,
    High,
}

impl Complexity {
    /// The complexity at `index` in the order low, medium, high.
    pub fn from_index(index: usize) -> (r: Complexity)
        requires
            index < 3,
        ensures
            index == 0 ==> r == Complexity::Low,
            index == 1 ==> r == Complexity::Medium,
            index == 2 ==> r == Complexity::High,
    {
        if index == 0 {
            Complexity::Low
        } else if index == 1 {
            Complexity::Medium
        } else {
            Complexity::High
        }
    }

    /// Lower-case name, as shown and stored.
    pub fn name(&self) -> (r: &'static str)
        ensures
            r@ == match self {
                Complexity::Low => "low"@,
                Complexity::Medium => "medium"@,
                Complexity::High => "high"@,
            },
    {
        match self {
            Complexity::Low => "low",
            Complexity::Medium => "medium",
            Complexity::High => "high",
        }
    }
}

/// A registered project.
#[derive(Debug)]
pub struct Project {
    pub id: String,
    pub category: Category,
    pub complexity: Complexity,
    pub title: String,
    pub subtitle: String,
    pub description: String,
    pub directory: String,
    pub user_name: Option<String>,
    pub locked: bool,
}

/// Mathematical value of a registered project.
pub ghost struct ProjectV {
    pub id: Seq<char>,
    pub category: Category,
    pub complexity: Complexity,
    pub title: Seq<char>,
    pub subtitle: Seq<char>,
    pub description: Seq<char>,
    pub directory: Seq<char>,
    pub user_name: Option<Seq<char>>,
    pub locked: bool,
}

impl View for Project {
    type V = ProjectV;

    open spec fn view(&self) -> ProjectV {
        ProjectV {
            id: self.id@,
            category: self.category,
            complexity: self.complexity,
            title: self.title@,
            subtitle: self.subtitle@,
            description: self.description@,
            directory: self.directory@,
            user_name: self.user_name.deep_view(),
            locked: self.locked,
        }
    }
}

impl DeepView for Project {
    type V = ProjectV;

    open spec fn deep_view(&self) -> ProjectV {
        self@
    }
}

/// The active project, if any, and the inactive ones in registration order.
#[derive(Debug, Default)]
pub struct ProjectRegistry {
    pub active: Option<Project>,
    pub inactive: Vec<Project>,
}

/// Mathematical value of the registry.
pub ghost struct RegistryV {
    pub active: Option<ProjectV>,
    pub inactive: Seq<ProjectV>,
}

impl View for ProjectRegistry {
    type V = RegistryV;

    open spec fn view(&self) -> RegistryV {
        RegistryV { active: self.active.deep_view(), inactive: self.inactive.deep_view() }
    }
}

/// The active project has id `id`.
pub open spec fn active_is(r: RegistryV, id: Seq<char>) -> bool {
    r.active matches Some(a) && a.id == id
}

/// Index of the first inactive project with id `id`.
pub open spec fn inactive_index(ps: Seq<ProjectV>, id: Seq<char>) -> Option<int>
    decreases ps.len(),
{
    if ps.len() == 0 {
        None
    } else {
        match inactive_index(ps.drop_last(), id) {
            Some(i) => Some(i),
            None => if ps.last().id == id {
                Some(ps.len() - 1)
            } else {
                None
            },
        }
    }
}

/// The registry after `project` becomes active; the previous active project,
/// if any, joins the end of the inactive list.
pub open spec fn with_active(r: RegistryV, p: ProjectV) -> RegistryV {
    RegistryV {
        active: Some(p),
        inactive: match r.active {
            Some(a) => r.inactive.push(a),
            None => r.inactive,
        },
    }
}

proof fn lemma_inactive_index_prefix(ps: Seq<ProjectV>, id: Seq<char>, k: int)
    requires
        0 <= k <= ps.len(),
        inactive_index(ps.take(k), id) is Some,
    ensures
        inactive_index(ps, id) == inactive_index(ps.take(k), id),
    decreases ps.len(),
{
    if k == ps.len() {
        assert(ps.take(k) =~= ps);
    } else {
        assert(ps.drop_last().take(k) =~= ps.take(k));
        lemma_inactive_index_prefix(ps.drop_last(), id, k);
    }
}

/// Some inactive project has id `id` exactly when `inactive_index` finds one,
/// and then it finds a project with that id.
pub proof fn lemma_inactive_index(ps: Seq<ProjectV>, id: Seq<char>)
    ensures
        inactive_index(ps, id) is Some <==> exists|i: int| 0 <= i < ps.len() && (#[trigger] ps[i]).id == id,
        inactive_index(ps, id) matches Some(i) ==> 0 <= i < ps.len() && ps[i].id == id,
    decreases ps.len(),
{
    if ps.len() > 0 {
        lemma_inactive_index(ps.drop_last(), id);
        if exists|i: int| 0 <= i < ps.len() && (#[trigger] ps[i]).id == id {
            let i = choose|i: int| 0 <= i < ps.len() && (#[trigger] ps[i]).id == id;
            if i < ps.len() - 1 {
                assert(ps.drop_last()[i] == ps[i]);
            }
        }
        match inactive_index(ps.drop_last(), id) {
            Some(i) => {
                assert(ps.drop_last()[i] == ps[i]);
            },
            None => {},
        }
    }
}

fn find_inactive(ps: &Vec<Project>, id: &str) -> (r: Option<usize>)
    ensures
        match r {
            Some(k) => inactive_index(ps.deep_view(), id@) == Some(k as int),
            None => inactive_index(ps.deep_view(), id@) is None,
        },
{
    let ghost pv = ps.deep_view();
    let target = id.to_owned();
    let mut i: usize = 0;
    assert(pv.take(0) =~= Seq::<ProjectV>::empty());
    while i < ps.len()
        invariant
            pv == ps.deep_view(),
            target@ == id@,
            i <= pv.len(),
            inactive_index(pv.take(i as int), id@) is None,
        decreases ps.len() - i,
    {
        assert(pv.take(i + 1).drop_last() =~= pv.take(i as int));
        assert(pv.take(i + 1).last() == ps@[i as int]@);
        if ps[i].id == target {
            proof { lemma_inactive_index_prefix(pv, id@, i + 1); }
            return Some(i);
        }
        i += 1;
    }
    assert(pv.take(pv.len() as int) =~= pv);
    None
}

fn active_has_id(active: &Option<Project>, id: &str) -> (r: bool)
    ensures
        r == (active.deep_view() matches Some(a) && a.id == id@),
{
    match active {
        Some(a) => {
            let target = id.to_owned();
            a.id == target
        },
        None => false,
    }
}

impl ProjectRegistry {
    /// Make `project` the active project; the previous active project, if
    /// any, is moved to the end of the inactive list.
    pub fn set_active(&mut self, project: Project)
        ensures
            final(self)@ == with_active(old(self)@, project@),
    {
        let ghost before = self.inactive.deep_view();
        if let Some(current) = self.active.take() {
            let ghost cv = current@;
            self.inactive.push(current);
            assert(self.inactive.deep_view() =~= before.push(cv));
        }
        self.active = Some(project);
    }

    /// Whether a project with id `id` is registered, active or inactive.
    pub fn has_project(&self, id: &str) -> (r: bool)
        ensures
            r == (active_is(self@, id@) || exists|i: int|
                0 <= i < self@.inactive.len() && (#[trigger] self@.inactive[i]).id == id@),
    {
        proof { lemma_inactive_index(self@.inactive, id@); }
        active_has_id(&self.active, id) || find_inactive(&self.inactive, id).is_some()
    }

    /// Remove and return the project with id `id`: the active one if it has
    /// that id, else the first inactive one with it.
    pub fn remove_project(&mut self, id: &str) -> (r: Option<Project>)
        ensures
            if active_is(old(self)@, id@) {
                r.deep_view() == old(self)@.active && final(self)@ == (RegistryV { active: None, ..old(self)@ })
            } else {
                match inactive_index(old(self)@.inactive, id@) {
                    Some(i) => r.deep_view() == Some(old(self)@.inactive[i]) && final(self)@ == (RegistryV {
                        inactive: old(self)@.inactive.remove(i),
                        ..old(self)@
                    }),
                    None => r is None && final(self)@ == old(self)@,
                }
            },
    {
        if active_has_id(&self.active, id) {
            return self.active.take();
        }
        proof { lemma_inactive_index(self@.inactive, id@); }
        match find_inactive(&self.inactive, id) {
            Some(pos) => {
                let ghost before = self.inactive.deep_view();
                let p = self.inactive.remove(pos);
                assert(self.inactive.deep_view() =~= before.remove(pos as int));
                Some(p)
            },
            None => None,
        }
    }

    /// Activate the inactive project `id`, moving the current active project
    /// to the end of the inactive list.
    #[verifier::spinoff_prover]
    pub fn activate_project(&mut self, id: &str) -> (r: Result<(), String>)
        ensures
            if active_is(old(self)@, id@) {
                r matches Err(m) && m@ == "Project \""@ + id@ + "\" is already the active project."@
                    && final(self)@ == old(self)@
            } else {
                match inactive_index(old(self)@.inactive, id@) {
                    Some(i) => r is Ok && final(self)@ == with_active(
                        RegistryV { inactive: old(self)@.inactive.remove(i), ..old(self)@ },
                        old(self)@.inactive[i],
                    ),
                    None => r matches Err(m) && m@ == "Project \""@ + id@ + "\" not found."@
                        && final(self)@ == old(self)@,
                }
            },
    {
        if active_has_id(&self.active, id) {
            return Err("Project \"".to_owned().concat(id).concat("\" is already the active project."));
        }
        proof { lemma_inactive_index(self@.inactive, id@); }
        match find_inactive(&self.inactive, id) {
            Some(pos) => {
                let ghost before = self.inactive.deep_view();
                let project = self.inactive.remove(pos);
                assert(self.inactive.deep_view() =~= before.remove(pos as int));
                self.set_active(project);
                Ok(())
            },
            None => {
                proof { reveal_strlit("Project \""); reveal_strlit("\" not found."); }
                Err("Project \"".to_owned().concat(id).concat("\" not found."))
            },
        }
    }
}


/// Every registered project: the inactive ones, then the active one.
pub open spec fn all_projects(r: RegistryV) -> Seq<ProjectV> {
    match r.active {
        Some(a) => r.inactive.push(a),
        None => r.inactive,
    }
}

/// Activating an inactive project only rearranges the registry: the same
/// projects stay registered, and the requested one becomes active.
pub proof fn law_activation_keeps_projects(r: RegistryV, i: int)
    requires
        0 <= i < r.inactive.len(),
    ensures
        ({
            let after = with_active(RegistryV { inactive: r.inactive.remove(i), ..r }, r.inactive[i]);
            &&& all_projects(after).to_multiset() == all_projects(r).to_multiset()
            &&& after.active == Some(r.inactive[i])
        }),
{
    broadcast use vstd::seq_lib::to_multiset_remove, vstd::seq_lib::to_multiset_build, vstd::multiset::group_multiset_axioms;
    let p = r.inactive[i];
    let rest = r.inactive.remove(i);
    assert(r.inactive.to_multiset().count(p) > 0) by {
        broadcast use vstd::seq_lib::to_multiset_contains;
        assert(r.inactive.contains(p));
    }
    match r.active {
        Some(a) => {
            assert(all_projects(with_active(RegistryV { inactive: rest, ..r }, p)) == rest.push(a).push(p));
            assert(rest.push(a).push(p).to_multiset() =~= r.inactive.push(a).to_multiset());
        },
        None => {
            assert(all_projects(with_active(RegistryV { inactive: rest, ..r }, p)) == rest.push(p));
            assert(rest.push(p).to_multiset() =~= r.inactive.to_multiset());
        },
    }
}

} // verus!
