//! The item pickers of the create command: which onboarding and design items
//! are required, preselected, and which rows of the picker can be used.

use vstd::prelude::*;
use crate::models::project::{Category, Complexity};
use crate::models::project_status::design_required;
use crate::text::str_eq;

verus! {

/// The two item lists a picker shows.
#[derive(Debug, Clone, Copy, PartialEq, Eq, Structural)]
pub enum ItemList {
    /// The onboarding items, with the category tabs.
    Onboarding,
    /// The design items.
    Design,
}

/// Number of items of a list.
pub open spec fn item_count(list: ItemList) -> int {
    match list {
        ItemList::Onboarding => 15,
        ItemList::Design => 9,
    }
}

/// The onboarding item at position `i`.
pub open spec fn onboarding_item(i: int) -> Seq<char> {
    if i == 0 { "goal"@ } else if i == 1 { "scope"@ } else if i == 2 { "existing-code"@ }
    else if i == 3 { "libraries-and-sdks"@ } else if i == 4 { "research"@ } else if i == 5 { "resources"@ }
    else if i == 6 { "user-expertise"@ } else if i == 7 { "integration-testing"@ }
    else if i == 8 { "success-measures"@ } else if i == 9 { "known-risks"@ } else if i == 10 { "uat"@ }
    else if i == 11 { "environment-variables"@ } else if i == 12 { "idea-generation"@ }
    else if i == 13 { "skill-building"@ } else { "checklist"@ }
}

/// The design item at position `i`.
pub open spec fn design_item(i: int) -> Seq<char> {
    if i == 0 { "existing-code-exploration"@ } else if i == 1 { "library-review"@ }
    else if i == 2 { "module-design"@ } else if i == 3 { "architecture-design"@ }
    else if i == 4 { "integration-testing"@ } else if i == 5 { "foreign-critique"@ }
    else if i == 6 { "error-handling"@ } else if i == 7 { "architecture-proposal"@ }
    else { "user-acceptance"@ }
}

/// The item at position `i` of a list.
pub open spec fn item_at(list: ItemList, i: int) -> Seq<char> {
    match list {
        ItemList::Onboarding => onboarding_item(i),
        ItemList::Design => design_item(i),
    }
}

/// Onboarding items required whatever the selection: goal, scope, uat, and the
/// existing code of a refactor.
pub open spec fn onboarding_required(item: Seq<char>, category: Category) -> bool {
    item == "goal"@ || item == "scope"@ || item == "uat"@ || (item == "existing-code"@ && category
        == Category::Refactor)
}

/// The item is required in its list for `category`.
pub open spec fn required_in(list: ItemList, item: Seq<char>, category: Category) -> bool {
    match list {
        ItemList::Onboarding => onboarding_required(item, category),
        ItemList::Design => design_required(item, category),
    }
}

impl ItemList {
    /// Number of items of the list.
    pub fn len(&self) -> (r: usize)
        ensures
            r == item_count(*self),
    {
        match self {
            ItemList::Onboarding => 15,
            ItemList::Design => 9,
        }
    }

    /// The item at position `i`.
    pub fn item(&self, i: usize) -> (r: &'static str)
        requires
            i < item_count(*self),
        ensures
            r@ == item_at(*self, i as int),
    {
        match self {
            ItemList::Onboarding => {
                if i == 0 { "goal" } else if i == 1 { "scope" } else if i == 2 { "existing-code" }
                else if i == 3 { "libraries-and-sdks" } else if i == 4 { "research" }
                else if i == 5 { "resources" } else if i == 6 { "user-expertise" }
                else if i == 7 { "integration-testing" } else if i == 8 { "success-measures" }
                else if i == 9 { "known-risks" } else if i == 10 { "uat" }
                else if i == 11 { "environment-variables" } else if i == 12 { "idea-generation" }
                else if i == 13 { "skill-building" } else { "checklist" }
            },
            ItemList::Design => {
                if i == 0 { "existing-code-exploration" } else if i == 1 { "library-review" }
                else if i == 2 { "module-design" } else if i == 3 { "architecture-design" }
                else if i == 4 { "integration-testing" } else if i == 5 { "foreign-critique" }
                else if i == 6 { "error-handling" } else if i == 7 { "architecture-proposal" }
                else { "user-acceptance" }
            },
        }
    }
}

/// Whether `item` is required in `list` for `category`.
pub fn is_required(list: ItemList, item: &str, category: &Category) -> (r: bool)
    ensures
        r == required_in(list, item@, *category),
{
    match list {
        ItemList::Onboarding => str_eq(item, "goal") || str_eq(item, "scope") || str_eq(item, "uat")
            || (str_eq(item, "existing-code") && *category == Category::Refactor),
        ItemList::Design => crate::models::project_status::is_design_required(item, category),
    }
}

/// The preselection: required items, and every item unless the project is
/// of low complexity.
pub fn compute_defaults(list: ItemList, complexity: &Complexity, category: &Category) -> (r: Vec<bool>)
    ensures
        r@.len() == item_count(list),
        forall|i: int|
            0 <= i < item_count(list) ==> r@[i] == (required_in(list, item_at(list, i), *category)
                || *complexity != Complexity::Low),
{
    let n = list.len();
    let mut out: Vec<bool> = Vec::new();
    let mut i: usize = 0;
    while i < n
        invariant
            n == item_count(list),
            i <= n,
            out@.len() == i,
            forall|k: int|
                0 <= k < i ==> out@[k] == (required_in(list, item_at(list, k), *category) || *complexity
                    != Complexity::Low),
        decreases n - i,
    {
        let req = is_required(list, list.item(i), category);
        let v = if req {
            true
        } else {
            match complexity {
                Complexity::High | Complexity::Medium => true,
                Complexity::Low => false,
            }
        };
        out.push(v);
        i += 1;
    }
    out
}

/// The tab index to category of the onboarding picker: library, binary,
/// refactor.
pub fn category_from_tab(index: usize) -> (r: Category)
    requires
        index < 3,
    ensures
        index == 0 ==> r == Category::Library,
        index == 1 ==> r == Category::Binary,
        index == 2 ==> r == Category::Refactor,
{
    if index == 0 {
        Category::Library
    } else if index == 1 {
        Category::Binary
    } else {
        Category::Refactor
    }
}

/// Select every required item; leave the others as they are.
pub fn apply_required(list: ItemList, selected: &mut Vec<bool>, category: &Category)
    requires
        old(selected)@.len() >= item_count(list),
    ensures
        final(selected)@.len() == old(selected)@.len(),
        forall|i: int|
            0 <= i < old(selected)@.len() ==> final(selected)@[i] == if i < item_count(list) && required_in(
                list,
                item_at(list, i),
                *category,
            ) {
                true
            } else {
                old(selected)@[i]
            },
{
    let n = list.len();
    let mut i: usize = 0;
    while i < n
        invariant
            n == item_count(list),
            i <= n,
            selected@.len() == old(selected)@.len(),
            old(selected)@.len() >= n,
            forall|k: int|
                0 <= k < old(selected)@.len() ==> selected@[k] == if k < i && required_in(
                    list,
                    item_at(list, k),
                    *category,
                ) {
                    true
                } else {
                    old(selected)@[k]
                },
        decreases n - i,
    {
        if is_required(list, list.item(i), category) {
            selected.set(i, true);
        }
        i += 1;
    }
}

/// The first action row (select all) is disabled when everything is
/// selected; the second (clear) when exactly the required items, as far as
/// both lists go, are selected; other rows are not actions.
pub open spec fn action_disabled(list: ItemList, row: int, selected: Seq<bool>, category: Category) -> bool {
    if row == 0 {
        forall|i: int| 0 <= i < selected.len() ==> selected[i]
    } else if row == 1 {
        forall|i: int|
            0 <= i < selected.len() && i < item_count(list) ==> selected[i] == required_in(
                list,
                item_at(list, i),
                category,
            )
    } else {
        false
    }
}

/// Whether action row `row` is disabled.
pub fn is_action_disabled(list: ItemList, row: usize, selected: &[bool], category: &Category) -> (r: bool)
    ensures
        r == action_disabled(list, row as int, selected@, *category),
{
    if row == 0 {
        let mut i: usize = 0;
        while i < selected.len()
            invariant
                row == 0,
                i <= selected@.len(),
                forall|k: int| 0 <= k < i ==> selected@[k],
            decreases selected.len() - i,
        {
            if !selected[i] {
                return false;
            }
            i += 1;
        }
        true
    } else if row == 1 {
        let n = list.len();
        let mut i: usize = 0;
        while i < selected.len() && i < n
            invariant
                row == 1,
                n == item_count(list),
                i <= selected@.len(),
                forall|k: int|
                    0 <= k < i && k < n ==> selected@[k] == required_in(list, item_at(list, k), *category),
            decreases selected.len() - i,
        {
            if selected[i] != is_required(list, list.item(i), category) {
                return false;
            }
            i += 1;
        }
        true
    } else {
        false
    }
}

/// Rows 0 and 1 are the actions; the rows after them are the items, and a
/// required item's row is disabled.
pub open spec fn row_disabled(list: ItemList, row: int, selected: Seq<bool>, category: Category) -> bool {
    if row < 2 {
        action_disabled(list, row, selected, category)
    } else {
        required_in(list, item_at(list, row - 2), category)
    }
}

/// Whether picker row `row` is disabled.
pub fn is_row_disabled(list: ItemList, row: usize, selected: &[bool], category: &Category) -> (r: bool)
    requires
        row < 2 + item_count(list),
    ensures
        r == row_disabled(list, row as int, selected@, *category),
{
    if row < 2 {
        is_action_disabled(list, row, selected, category)
    } else {
        is_required(list, list.item(row - 2), category)
    }
}

/// One step of the picker cursor over `total` rows, wrapping around.
pub open spec fn cursor_step(pos: int, forward: bool, total: int) -> int {
    if forward {
        if pos + 1 == total { 0 } else { pos + 1 }
    } else {
        if pos == 0 { total - 1 } else { pos - 1 }
    }
}

/// The cursor after `i` steps from `start`.
pub open spec fn cursor_walk(start: int, i: nat, forward: bool, total: int) -> int
    decreases i,
{
    if i == 0 {
        start
    } else {
        cursor_step(cursor_walk(start, (i - 1) as nat, forward, total), forward, total)
    }
}

/// `i` steps land `i` rows on, wrapping once.
proof fn lemma_cursor_walk(start: int, i: nat, forward: bool, total: int)
    requires
        0 <= start < total,
        i <= total,
    ensures
        cursor_walk(start, i, forward, total) == if forward {
            if start + i < total { start + i } else { start + i - total }
        } else {
            if start - i >= 0 { start - i } else { start - i + total }
        },
    decreases i,
{
    if i > 0 {
        lemma_cursor_walk(start, (i - 1) as nat, forward, total);
    }
}

/// The row the cursor moves to: the first row, stepping from `cursor` in
/// the direction and wrapping around, that is enabled or is `cursor` itself.
pub open spec fn skip_target(
    list: ItemList,
    cursor: int,
    forward: bool,
    selected: Seq<bool>,
    category: Category,
    r: int,
) -> bool {
    let total = 2 + item_count(list);
    exists|i: nat|
        1 <= i <= total && r == #[trigger] cursor_walk(cursor, i, forward, total) && (!row_disabled(
            list,
            r,
            selected,
            category,
        ) || r == cursor) && forall|j: nat|
            1 <= j < i ==> row_disabled(list, #[trigger] cursor_walk(cursor, j, forward, total), selected, category)
                && cursor_walk(cursor, j, forward, total) != cursor
}

/// Move the picker cursor one row up or down, skipping disabled rows.
pub fn skip_disabled(list: ItemList, cursor: usize, forward: bool, selected: &[bool], category: &Category) -> (r: usize)
    requires
        cursor < 2 + item_count(list),
    ensures
        r < 2 + item_count(list),
        skip_target(list, cursor as int, forward, selected@, *category, r as int),
{
    let total = 2 + list.len();
    let mut pos = cursor;
    let mut i: usize = 0;
    loop
        invariant
            total == 2 + item_count(list),
            cursor < total,
            pos < total,
            i < total,
            pos == cursor_walk(cursor as int, i as nat, forward, total as int),
            forall|j: nat|
                1 <= j <= i ==> row_disabled(list, #[trigger] cursor_walk(cursor as int, j, forward, total as int), selected@, *category)
                    && cursor_walk(cursor as int, j, forward, total as int) != cursor,
        decreases total - i,
    {
        pos = if forward {
            if pos + 1 == total { 0 } else { pos + 1 }
        } else {
            if pos == 0 { total - 1 } else { pos - 1 }
        };
        i += 1;
        assert(pos == cursor_walk(cursor as int, i as nat, forward, total as int));
        if pos == cursor || !is_row_disabled(list, pos, selected, category) {
            assert(skip_target(list, cursor as int, forward, selected@, *category, pos as int));
            return pos;
        }
        proof {
            lemma_cursor_walk(cursor as int, i as nat, forward, total as int);
        }
        assert(i < total) by {
            if i == total {
                lemma_cursor_walk(cursor as int, i as nat, forward, total as int);
            }
        }
    }
}

/// The cursor moves to one row only: the first row in the direction that
/// is enabled or is the starting row.
pub proof fn law_cursor_target_unique(
    list: ItemList,
    cursor: int,
    forward: bool,
    selected: Seq<bool>,
    category: Category,
    r1: int,
    r2: int,
)
    requires
        skip_target(list, cursor, forward, selected, category, r1),
        skip_target(list, cursor, forward, selected, category, r2),
    ensures
        r1 == r2,
{
    let total = 2 + item_count(list);
    let i1 = choose|i: nat|
        1 <= i <= total && r1 == #[trigger] cursor_walk(cursor, i, forward, total) && (!row_disabled(
            list,
            r1,
            selected,
            category,
        ) || r1 == cursor) && forall|j: nat|
            1 <= j < i ==> row_disabled(list, #[trigger] cursor_walk(cursor, j, forward, total), selected, category)
                && cursor_walk(cursor, j, forward, total) != cursor;
    let i2 = choose|i: nat|
        1 <= i <= total && r2 == #[trigger] cursor_walk(cursor, i, forward, total) && (!row_disabled(
            list,
            r2,
            selected,
            category,
        ) || r2 == cursor) && forall|j: nat|
            1 <= j < i ==> row_disabled(list, #[trigger] cursor_walk(cursor, j, forward, total), selected, category)
                && cursor_walk(cursor, j, forward, total) != cursor;
    if i1 < i2 {
        assert(row_disabled(list, cursor_walk(cursor, i1, forward, total), selected, category));
    } else if i2 < i1 {
        assert(row_disabled(list, cursor_walk(cursor, i2, forward, total), selected, category));
    }
}

/// The keys the pickers react to.
#[derive(Debug, Clone, Copy, PartialEq, Eq, Structural)]
pub enum PickerKey {
    Up,
    Down,
    /// Space: run the action under the cursor, or toggle its item.
    Toggle,
    /// Enter.
    Confirm,
    /// Escape: back to the preselection.
    Reset,
    /// Tab or right arrow: next category (onboarding picker only).
    NextTab,
    /// Shift-tab or left arrow: previous category (onboarding picker only).
    PrevTab,
    /// Ctrl-C.
    Cancel,
    /// Any other key.
    Other,
}

/// An item picker: its list, the category tab, the cursor row and the
/// selection of each item.
#[derive(Debug)]
pub struct Picker {
    pub list: ItemList,
    pub tab: usize,
    pub category: Category,
    pub complexity: Complexity,
    pub cursor: usize,
    pub selected: Vec<bool>,
}

/// A picker as plain values.
pub ghost struct PickerV {
    pub list: ItemList,
    pub tab: int,
    pub category: Category,
    pub complexity: Complexity,
    pub cursor: int,
    pub selected: Seq<bool>,
}

impl View for Picker {
    type V = PickerV;

    open spec fn view(&self) -> PickerV {
        PickerV {
            list: self.list,
            tab: self.tab as int,
            category: self.category,
            complexity: self.complexity,
            cursor: self.cursor as int,
            selected: self.selected@,
        }
    }
}

/// What a key press leaves the picker with.
#[derive(Debug)]
pub enum PickOutcome {
    /// The picker stays open.
    Open,
    /// The user confirmed these items, in list order.
    Chosen(Vec<String>),
    /// The user cancelled.
    Cancelled,
}

/// An outcome as plain values.
pub ghost enum PickOutcomeV {
    Open,
    Chosen(Seq<Seq<char>>),
    Cancelled,
}

impl View for PickOutcome {
    type V = PickOutcomeV;

    open spec fn view(&self) -> PickOutcomeV {
        match self {
            PickOutcome::Open => PickOutcomeV::Open,
            PickOutcome::Chosen(v) => PickOutcomeV::Chosen(v.deep_view()),
            PickOutcome::Cancelled => PickOutcomeV::Cancelled,
        }
    }
}

/// The category of each tab of the onboarding picker.
pub open spec fn tab_category(t: int) -> Category {
    if t == 0 {
        Category::Library
    } else if t == 1 {
        Category::Binary
    } else {
        Category::Refactor
    }
}

/// The preselection: required items, and all items unless complexity is low.
pub open spec fn defaults(list: ItemList, complexity: Complexity, category: Category) -> Seq<bool> {
    Seq::new(item_count(list) as nat, |i: int| required_in(list, item_at(list, i), category) || complexity != Complexity::Low)
}

/// Only the required items.
pub open spec fn required_only(list: ItemList, category: Category) -> Seq<bool> {
    Seq::new(item_count(list) as nat, |i: int| required_in(list, item_at(list, i), category))
}

/// The names of the first `n` items that are selected, in list order.
pub open spec fn chosen_items(list: ItemList, selected: Seq<bool>, n: int) -> Seq<Seq<char>>
    decreases n,
{
    if n <= 0 {
        seq![]
    } else if selected[n - 1] {
        chosen_items(list, selected, n - 1).push(item_at(list, n - 1))
    } else {
        chosen_items(list, selected, n - 1)
    }
}

/// A picker whose selection covers its list, whose cursor is on a row and
/// whose onboarding category follows its tab.
pub open spec fn picker_ok(p: PickerV) -> bool {
    &&& p.selected.len() == item_count(p.list)
    &&& 0 <= p.cursor < 2 + item_count(p.list)
    &&& 0 <= p.tab < 3
    &&& p.list == ItemList::Onboarding ==> p.category == tab_category(p.tab)
}

/// The picker `p2` and outcome `o` that key `k` leads to from `p`: the
/// cursor skips disabled rows; space runs select-all or clear (then moves
/// on) unless disabled, or toggles an item that is not required; enter
/// confirms the selected items; escape restores the preselection; the tab
/// keys switch the onboarding category and its preselection; ctrl-c cancels.
pub open spec fn key_result(p: PickerV, k: PickerKey, p2: PickerV, o: PickOutcomeV) -> bool {
    let n = item_count(p.list);
    match k {
        PickerKey::Up => o is Open && p2 == PickerV { cursor: p2.cursor, ..p } && skip_target(
            p.list,
            p.cursor,
            false,
            p.selected,
            p.category,
            p2.cursor,
        ),
        PickerKey::Down => o is Open && p2 == PickerV { cursor: p2.cursor, ..p } && skip_target(
            p.list,
            p.cursor,
            true,
            p.selected,
            p.category,
            p2.cursor,
        ),
        PickerKey::Toggle => o is Open && if p.cursor == 0 {
            if action_disabled(p.list, 0, p.selected, p.category) {
                p2 == p
            } else {
                let sel = Seq::new(n as nat, |i: int| true);
                p2 == PickerV { selected: sel, cursor: p2.cursor, ..p } && skip_target(p.list, 0, true, sel, p.category, p2.cursor)
            }
        } else if p.cursor == 1 {
            if action_disabled(p.list, 1, p.selected, p.category) {
                p2 == p
            } else {
                let sel = required_only(p.list, p.category);
                p2 == PickerV { selected: sel, cursor: p2.cursor, ..p } && skip_target(p.list, 1, true, sel, p.category, p2.cursor)
            }
        } else if required_in(p.list, item_at(p.list, p.cursor - 2), p.category) {
            p2 == p
        } else {
            p2 == PickerV { selected: p.selected.update(p.cursor - 2, !p.selected[p.cursor - 2]), ..p }
        },
        PickerKey::Confirm => p2 == p && o == PickOutcomeV::Chosen(chosen_items(p.list, p.selected, n)),
        PickerKey::Reset => o is Open && p2 == PickerV { selected: defaults(p.list, p.complexity, p.category), ..p },
        PickerKey::NextTab | PickerKey::PrevTab => o is Open && if p.list == ItemList::Onboarding {
            let t = if k == PickerKey::NextTab {
                (p.tab + 1) % 3
            } else if p.tab == 0 {
                2
            } else {
                p.tab - 1
            };
            p2 == PickerV {
                tab: t,
                category: tab_category(t),
                selected: defaults(p.list, p.complexity, tab_category(t)),
                ..p
            }
        } else {
            p2 == p
        },
        PickerKey::Cancel => p2 == p && o is Cancelled,
        PickerKey::Other => p2 == p && o is Open,
    }
}

impl Picker {
    /// A picker over `list` with the preselection for `complexity`: the
    /// design picker for `category`, the onboarding picker on its first tab
    /// (library). The cursor starts on the first enabled row after the
    /// actions' first row.
    pub fn new(list: ItemList, complexity: &Complexity, category: &Category) -> (r: Picker)
        ensures
            picker_ok(r@),
            r.list == list,
            r.tab == 0,
            r.category == (if list == ItemList::Onboarding { Category::Library } else { *category }),
            r.complexity == *complexity,
            r.selected@ == defaults(list, *complexity, r.category),
            skip_target(list, 1, true, r.selected@, r.category, r.cursor as int),
    {
        let cat = match list {
            ItemList::Onboarding => category_from_tab(0),
            ItemList::Design => *category,
        };
        let selected = compute_defaults(list, complexity, &cat);
        assert(selected@ =~= defaults(list, *complexity, cat));
        let cursor = skip_disabled(list, 1, true, selected.as_slice(), &cat);
        Picker { list, tab: 0, category: cat, complexity: *complexity, cursor, selected }
    }

    /// React to key `k` (see `key_result`).
    pub fn key(&mut self, k: PickerKey) -> (o: PickOutcome)
        requires
            picker_ok(old(self)@),
        ensures
            picker_ok(final(self)@),
            key_result(old(self)@, k, final(self)@, o@),
    {
        let n = self.list.len();
        match k {
            PickerKey::Up => {
                self.cursor = skip_disabled(self.list, self.cursor, false, self.selected.as_slice(), &self.category);
                PickOutcome::Open
            },
            PickerKey::Down => {
                self.cursor = skip_disabled(self.list, self.cursor, true, self.selected.as_slice(), &self.category);
                PickOutcome::Open
            },
            PickerKey::Toggle => {
                if self.cursor == 0 {
                    if !is_action_disabled(self.list, 0, self.selected.as_slice(), &self.category) {
                        let mut sel: Vec<bool> = Vec::new();
                        let mut i: usize = 0;
                        while i < n
                            invariant
                                i <= n,
                                sel@ =~= Seq::new(i as nat, |j: int| true),
                            decreases n - i,
                        {
                            sel.push(true);
                            i += 1;
                        }
                        self.selected = sel;
                        self.cursor = skip_disabled(self.list, 0, true, self.selected.as_slice(), &self.category);
                    }
                } else if self.cursor == 1 {
                    if !is_action_disabled(self.list, 1, self.selected.as_slice(), &self.category) {
                        let mut sel: Vec<bool> = Vec::new();
                        let mut i: usize = 0;
                        while i < n
                            invariant
                                i <= n,
                                n == item_count(self.list),
                                sel@.len() == i,
                                forall|j: int| 0 <= j < i ==> sel@[j] == required_in(self.list, item_at(self.list, j), self.category),
                            decreases n - i,
                        {
                            sel.push(is_required(self.list, self.list.item(i), &self.category));
                            i += 1;
                        }
                        assert(sel@ =~= required_only(self.list, self.category));
                        self.selected = sel;
                        self.cursor = skip_disabled(self.list, 1, true, self.selected.as_slice(), &self.category);
                    }
                } else {
                    let idx = self.cursor - 2;
                    if !is_required(self.list, self.list.item(idx), &self.category) {
                        let v = !self.selected[idx];
                        self.selected.set(idx, v);
                    }
                }
                PickOutcome::Open
            },
            PickerKey::Confirm => {
                let mut out: Vec<String> = Vec::new();
                let mut i: usize = 0;
                assert(out.deep_view() =~= chosen_items(self.list, self.selected@, 0));
                while i < n
                    invariant
                        i <= n,
                        n == item_count(self.list),
                        self.selected@.len() == n,
                        out.deep_view() == chosen_items(self.list, self.selected@, i as int),
                    decreases n - i,
                {
                    if self.selected[i] {
                        let ghost before = out.deep_view();
                        out.push(self.list.item(i).to_owned());
                        assert(out.deep_view() =~= before.push(item_at(self.list, i as int)));
                    }
                    i += 1;
                }
                PickOutcome::Chosen(out)
            },
            PickerKey::Reset => {
                let sel = compute_defaults(self.list, &self.complexity, &self.category);
                assert(sel@ =~= defaults(self.list, self.complexity, self.category));
                self.selected = sel;
                PickOutcome::Open
            },
            PickerKey::NextTab | PickerKey::PrevTab => {
                if self.list == ItemList::Onboarding {
                    let t = if k == PickerKey::NextTab {
                        (self.tab + 1) % 3
                    } else if self.tab == 0 {
                        2
                    } else {
                        self.tab - 1
                    };
                    self.tab = t;
                    self.category = category_from_tab(t);
                    let sel = compute_defaults(self.list, &self.complexity, &self.category);
                    assert(sel@ =~= defaults(self.list, self.complexity, self.category));
                    self.selected = sel;
                }
                PickOutcome::Open
            },
            PickerKey::Cancel => PickOutcome::Cancelled,
            PickerKey::Other => PickOutcome::Open,
        }
    }
}

/// Every item required for the picker's category is selected.
pub open spec fn required_selected(p: PickerV) -> bool {
    forall|i: int|
        0 <= i < item_count(p.list) && required_in(p.list, item_at(p.list, i), p.category) ==> #[trigger] p.selected[i]
}

/// A required item can never be deselected: a new picker selects every
/// required item, and every key keeps them all selected.
pub proof fn law_required_stay_selected(p: PickerV, k: PickerKey, p2: PickerV, o: PickOutcomeV)
    requires
        picker_ok(p),
        required_selected(p),
        key_result(p, k, p2, o),
    ensures
        required_selected(p2),
{
    if k == PickerKey::Toggle && p.cursor >= 2 {
        assert forall|i: int|
            0 <= i < item_count(p2.list) && required_in(p2.list, item_at(p2.list, i), p2.category) implies #[trigger] p2.selected[i] by {
            if i != p.cursor - 2 {
                assert(p2.selected[i] == p.selected[i]);
            }
        }
    }
}

/// A new picker selects every required item.
pub proof fn law_new_picker_selects_required(list: ItemList, complexity: Complexity, category: Category)
    ensures
        required_selected(PickerV {
            list,
            tab: 0,
            category,
            complexity,
            cursor: 0,
            selected: defaults(list, complexity, category),
        }),
{
}

/// What the design picker returns.
pub struct DesignSelectResult {
    pub selected_items: Vec<String>,
}

/// What the onboarding picker returns.
pub struct TabSelectResult {
    pub category: Category,
    pub selected_items: Vec<String>,
}

/// How the box of an item is drawn.
#[derive(Debug, Clone, Copy, PartialEq, Eq, Structural)]
pub enum CheckBox {
    /// A required item: always on.
    Required,
    /// A selected item.
    Checked,
    /// An item not selected.
    Empty,
}

/// The box of item `i`: required items first, then the selection.
pub open spec fn checkbox_of(p: PickerV, i: int) -> CheckBox {
    if required_in(p.list, item_at(p.list, i), p.category) {
        CheckBox::Required
    } else if p.selected[i] {
        CheckBox::Checked
    } else {
        CheckBox::Empty
    }
}

/// The advice beside the picker's prompt: select everything for a project
/// of medium or high complexity; for a low one, a warning once everything
/// is selected, else nothing.
pub open spec fn guidance_of(complexity: Complexity, selected: Seq<bool>) -> Seq<char> {
    match complexity {
        Complexity::High | Complexity::Medium => "(recommend selecting all for medium and high complexity)"@,
        Complexity::Low => if forall|i: int| 0 <= i < selected.len() ==> selected[i] {
            "(recommend only a few of these for low complexity)"@
        } else {
            ""@
        },
    }
}

impl Picker {
    /// The box drawn for item `i`.
    pub fn checkbox(&self, i: usize) -> (r: CheckBox)
        requires
            i < self.selected@.len(),
            i < item_count(self.list),
        ensures
            r == checkbox_of(self@, i as int),
    {
        if is_required(self.list, self.list.item(i), &self.category) {
            CheckBox::Required
        } else if self.selected[i] {
            CheckBox::Checked
        } else {
            CheckBox::Empty
        }
    }

    /// The advice shown beside the prompt.
    pub fn guidance(&self) -> (r: &'static str)
        ensures
            r@ == guidance_of(self.complexity, self@.selected),
    {
        match self.complexity {
            Complexity::High | Complexity::Medium => "(recommend selecting all for medium and high complexity)",
            Complexity::Low => {
                if is_action_disabled(self.list, 0, self.selected.as_slice(), &self.category) {
                    "(recommend only a few of these for low complexity)"
                } else {
                    ""
                }
            },
        }
    }
}

} // verus!
