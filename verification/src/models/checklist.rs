//! The project checklist: items grouped by category, found by id.

use vstd::prelude::*;

verus! {

/// Pipeline phase an item belongs to.
#[derive(Debug, Clone, Copy, PartialEq, Eq, Structural)]
pub enum Phase {
    Design,
    Planning,
}

impl Phase {
    /// Lower-case name, as shown and stored.
    pub fn name(&self) -> (r: &'static str)
        ensures
            r@ == match self {
                Phase::Design => "design"@,
                Phase::Planning => "planning"@,
            },
    {
        match self {
            Phase::Design => "design",
            Phase::Planning => "planning",
        }
    }
}

/// The eight checklist categories, in display order.
#[derive(Debug, Clone, Copy, PartialEq, Eq, Structural)]
pub enum ChecklistCategory {
    DesignMustHaves,
    ArchitectureConstraints,
    PlanningMilestones,
    Objectives,
    TasksToPlanFor,
    ResearchAndPrototyping,
    RiskMitigations,
    OutOfScope,
}

/// Position of a category in display order.
pub open spec fn category_rank(c: ChecklistCategory) -> int {
    match c {
        ChecklistCategory::DesignMustHaves => 0,
        ChecklistCategory::ArchitectureConstraints => 1,
        ChecklistCategory::PlanningMilestones => 2,
        ChecklistCategory::Objectives => 3,
        ChecklistCategory::TasksToPlanFor => 4,
        ChecklistCategory::ResearchAndPrototyping => 5,
        ChecklistCategory::RiskMitigations => 6,
        ChecklistCategory::OutOfScope => 7,
    }
}

/// The category at a position in display order.
pub open spec fn category_at(i: int) -> ChecklistCategory {
    if i <= 0 {
        ChecklistCategory::DesignMustHaves
    } else if i == 1 {
        ChecklistCategory::ArchitectureConstraints
    } else if i == 2 {
        ChecklistCategory::PlanningMilestones
    } else if i == 3 {
        ChecklistCategory::Objectives
    } else if i == 4 {
        ChecklistCategory::TasksToPlanFor
    } else if i == 5 {
        ChecklistCategory::ResearchAndPrototyping
    } else if i == 6 {
        ChecklistCategory::RiskMitigations
    } else {
        ChecklistCategory::OutOfScope
    }
}

impl ChecklistCategory {
    /// Every category, in display order.
    pub fn all() -> (r: Vec<ChecklistCategory>)
        ensures
            r@.len() == 8,
            forall|i: int| 0 <= i < 8 ==> r@[i] == category_at(i),
    {
        vec![
            ChecklistCategory::DesignMustHaves,
            ChecklistCategory::ArchitectureConstraints,
            ChecklistCategory::PlanningMilestones,
            ChecklistCategory::Objectives,
            ChecklistCategory::TasksToPlanFor,
            ChecklistCategory::ResearchAndPrototyping,
            ChecklistCategory::RiskMitigations,
            ChecklistCategory::OutOfScope,
        ]
    }

    /// Human-readable heading of the category.
    pub fn label(&self) -> (r: &'static str)
        ensures
            r@ == match self {
                ChecklistCategory::DesignMustHaves => "Design Must-Haves"@,
                ChecklistCategory::ArchitectureConstraints => "Architecture Constraints"@,
                ChecklistCategory::PlanningMilestones => "Planning Milestones"@,
                ChecklistCategory::Objectives => "Objectives"@,
                ChecklistCategory::TasksToPlanFor => "Tasks to Plan For"@,
                ChecklistCategory::ResearchAndPrototyping => "Research & Prototyping"@,
                ChecklistCategory::RiskMitigations => "Risk Mitigations"@,
                ChecklistCategory::OutOfScope => "Out of Scope"@,
            },
    {
        match self {
            ChecklistCategory::DesignMustHaves => "Design Must-Haves",
            ChecklistCategory::ArchitectureConstraints => "Architecture Constraints",
            ChecklistCategory::PlanningMilestones => "Planning Milestones",
            ChecklistCategory::Objectives => "Objectives",
            ChecklistCategory::TasksToPlanFor => "Tasks to Plan For",
            ChecklistCategory::ResearchAndPrototyping => "Research & Prototyping",
            ChecklistCategory::RiskMitigations => "Risk Mitigations",
            ChecklistCategory::OutOfScope => "Out of Scope",
        }
    }

    /// Kebab-case name, as given on the command line.
    pub fn name(&self) -> (r: &'static str)
        ensures
            r@ == match self {
                ChecklistCategory::DesignMustHaves => "design-must-haves"@,
                ChecklistCategory::ArchitectureConstraints => "architecture-constraints"@,
                ChecklistCategory::PlanningMilestones => "planning-milestones"@,
                ChecklistCategory::Objectives => "objectives"@,
                ChecklistCategory::TasksToPlanFor => "tasks-to-plan-for"@,
                ChecklistCategory::ResearchAndPrototyping => "research-and-prototyping"@,
                ChecklistCategory::RiskMitigations => "risk-mitigations"@,
                ChecklistCategory::OutOfScope => "out-of-scope"@,
            },
    {
        match self {
            ChecklistCategory::DesignMustHaves => "design-must-haves",
            ChecklistCategory::ArchitectureConstraints => "architecture-constraints",
            ChecklistCategory::PlanningMilestones => "planning-milestones",
            ChecklistCategory::Objectives => "objectives",
            ChecklistCategory::TasksToPlanFor => "tasks-to-plan-for",
            ChecklistCategory::ResearchAndPrototyping => "research-and-prototyping",
            ChecklistCategory::RiskMitigations => "risk-mitigations",
            ChecklistCategory::OutOfScope => "out-of-scope",
        }
    }
}

/// One checklist entry.
#[derive(Debug)]
pub struct ChecklistItem {
    pub id: String,
    pub title: String,
    pub description: String,
    pub complete: Option<bool>,
    pub phase: Option<Phase>,
}

/// Mathematical value of a checklist entry.
pub ghost struct ItemV {
    pub id: Seq<char>,
    pub title: Seq<char>,
    pub description: Seq<char>,
    pub complete: Option<bool>,
    pub phase: Option<Phase>,
}

impl View for ChecklistItem {
    type V = ItemV;

    open spec fn view(&self) -> ItemV {
        ItemV {
            id: self.id@,
            title: self.title@,
            description: self.description@,
            complete: self.complete,
            phase: self.phase,
        }
    }
}

impl DeepView for ChecklistItem {
    type V = ItemV;

    open spec fn deep_view(&self) -> ItemV {
        self@
    }
}

/// The lists of items by category, with the date and free-form context.
#[derive(Debug)]
pub struct ProjectChecklist {
    pub date: String,
    pub design_must_haves: Vec<ChecklistItem>,
    pub architecture_constraints: Vec<ChecklistItem>,
    pub planning_milestones: Vec<ChecklistItem>,
    pub objectives: Vec<ChecklistItem>,
    pub tasks_to_plan_for: Vec<ChecklistItem>,
    pub research_and_prototyping: Vec<ChecklistItem>,
    pub risk_mitigations: Vec<ChecklistItem>,
    pub out_of_scope: Vec<ChecklistItem>,
    pub context: String,
}

/// The checklist document.
#[derive(Debug)]
pub struct Checklist {
    pub project_checklist: ProjectChecklist,
}

impl Checklist {
    /// The items of one category.
    pub open spec fn items_of(&self, category: ChecklistCategory) -> Seq<ItemV> {
        let c = self.project_checklist;
        match category {
            ChecklistCategory::DesignMustHaves => c.design_must_haves.deep_view(),
            ChecklistCategory::ArchitectureConstraints => c.architecture_constraints.deep_view(),
            ChecklistCategory::PlanningMilestones => c.planning_milestones.deep_view(),
            ChecklistCategory::Objectives => c.objectives.deep_view(),
            ChecklistCategory::TasksToPlanFor => c.tasks_to_plan_for.deep_view(),
            ChecklistCategory::ResearchAndPrototyping => c.research_and_prototyping.deep_view(),
            ChecklistCategory::RiskMitigations => c.risk_mitigations.deep_view(),
            ChecklistCategory::OutOfScope => c.out_of_scope.deep_view(),
        }
    }

    /// An empty checklist dated `date`.
    pub fn new(date: &str) -> (r: Checklist)
        ensures
            r.project_checklist.date@ == date@,
            r.project_checklist.context@ == Seq::<char>::empty(),
            forall|c: ChecklistCategory| r.items_of(c).len() == 0,
    {
        Checklist {
            project_checklist: ProjectChecklist {
                date: date.to_owned(),
                design_must_haves: Vec::new(),
                architecture_constraints: Vec::new(),
                planning_milestones: Vec::new(),
                objectives: Vec::new(),
                tasks_to_plan_for: Vec::new(),
                research_and_prototyping: Vec::new(),
                risk_mitigations: Vec::new(),
                out_of_scope: Vec::new(),
                context: String::new(),
            },
        }
    }

    /// The items of `category`.
    pub fn items(&self, category: ChecklistCategory) -> (r: &Vec<ChecklistItem>)
        ensures
            r.deep_view() == self.items_of(category),
    {
        let c = &self.project_checklist;
        match category {
            ChecklistCategory::DesignMustHaves => &c.design_must_haves,
            ChecklistCategory::ArchitectureConstraints => &c.architecture_constraints,
            ChecklistCategory::PlanningMilestones => &c.planning_milestones,
            ChecklistCategory::Objectives => &c.objectives,
            ChecklistCategory::TasksToPlanFor => &c.tasks_to_plan_for,
            ChecklistCategory::ResearchAndPrototyping => &c.research_and_prototyping,
            ChecklistCategory::RiskMitigations => &c.risk_mitigations,
            ChecklistCategory::OutOfScope => &c.out_of_scope,
        }
    }

    /// The items of `category`, to change in place.
    pub fn items_mut(&mut self, category: ChecklistCategory) -> (r: &mut Vec<ChecklistItem>)
        ensures
            r.deep_view() == old(self).items_of(category),
            final(self).items_of(category) == final(r).deep_view(),
            forall|c: ChecklistCategory| c != category ==> final(self).items_of(c) == old(self).items_of(c),
            final(self).project_checklist.date == old(self).project_checklist.date,
            final(self).project_checklist.context == old(self).project_checklist.context,
    {
        let c = &mut self.project_checklist;
        match category {
            ChecklistCategory::DesignMustHaves => &mut c.design_must_haves,
            ChecklistCategory::ArchitectureConstraints => &mut c.architecture_constraints,
            ChecklistCategory::PlanningMilestones => &mut c.planning_milestones,
            ChecklistCategory::Objectives => &mut c.objectives,
            ChecklistCategory::TasksToPlanFor => &mut c.tasks_to_plan_for,
            ChecklistCategory::ResearchAndPrototyping => &mut c.research_and_prototyping,
            ChecklistCategory::RiskMitigations => &mut c.risk_mitigations,
            ChecklistCategory::OutOfScope => &mut c.out_of_scope,
        }
    }

    /// The list of `c` holds an item with id `id`.
    pub open spec fn holds(&self, c: ChecklistCategory, id: Seq<char>) -> bool {
        exists|k: int| 0 <= k < self.items_of(c).len() && (#[trigger] self.items_of(c)[k]).id == id
    }

    /// The first category, in display order, that holds an item with id `id`.
    pub fn find_category(&self, id: &str) -> (r: Option<ChecklistCategory>)
        ensures
            match r {
                Some(c) => self.holds(c, id@) && forall|j: int|
                    0 <= j < category_rank(c) ==> !self.holds(#[trigger] category_at(j), id@),
                None => forall|c: ChecklistCategory| !self.holds(c, id@),
            },
    {
        let cats = ChecklistCategory::all();
        let target = id.to_owned();
        let mut i: usize = 0;
        while i < cats.len()
            invariant
                cats@.len() == 8,
                forall|k: int| 0 <= k < 8 ==> cats@[k] == category_at(k),
                target@ == id@,
                i <= 8,
                forall|j: int| 0 <= j < i ==> !self.holds(#[trigger] category_at(j), id@),
            decreases 8 - i,
        {
            let cat = cats[i];
            let list = self.items(cat);
            let mut k: usize = 0;
            while k < list.len()
                invariant
                    list.deep_view() == self.items_of(cat),
                    cat == category_at(i as int),
                    i < 8,
                    forall|j: int| 0 <= j < i ==> !self.holds(#[trigger] category_at(j), id@),
                    target@ == id@,
                    k <= list@.len(),
                    forall|m: int| 0 <= m < k ==> (#[trigger] self.items_of(cat)[m]).id != id@,
                decreases list.len() - k,
            {
                assert(self.items_of(cat)[k as int] == list@[k as int]@);
                if list[k].id == target {
                    assert(self.holds(cat, id@));
                    assert(category_rank(cat) == i);
                    return Some(cat);
                }
                k += 1;
            }
            assert(!self.holds(category_at(i as int), id@));
            i += 1;
        }
        assert forall|c: ChecklistCategory| !self.holds(c, id@) by {
            assert(category_at(category_rank(c)) == c);
        }
        None
    }

    /// Whether any category holds an item with id `id`.
    pub fn has_id(&self, id: &str) -> (r: bool)
        ensures
            r == exists|c: ChecklistCategory| self.holds(c, id@),
    {
        let f = self.find_category(id);
        f.is_some()
    }
}

} // verus!
