use rex_cli::models::project::{Category, Complexity};
use rex_cli::selection::{skip_disabled, CheckBox, ItemList, PickOutcome, Picker, PickerKey};

fn chosen(o: PickOutcome) -> Vec<String> {
    match o {
        PickOutcome::Chosen(v) => v,
        other => panic!("expected a choice, got {other:?}"),
    }
}

#[test]
fn picker_design_low_complexity_starts_with_required_only() {
    let mut p = Picker::new(ItemList::Design, &Complexity::Low, &Category::Binary);
    // Clear is disabled (only required items selected): the cursor starts on the first optional item.
    assert_eq!(p.cursor, 2);
    let items = chosen(p.key(PickerKey::Confirm));
    assert_eq!(
        items,
        vec!["module-design", "architecture-design", "error-handling", "architecture-proposal"]
            .into_iter()
            .map(String::from)
            .collect::<Vec<_>>()
    );
}

#[test]
fn picker_toggle_select_all_and_clear() {
    let mut p = Picker::new(ItemList::Design, &Complexity::Low, &Category::Binary);
    assert!(matches!(p.key(PickerKey::Toggle), PickOutcome::Open));
    assert!(p.selected[0]);
    // Required items cannot be toggled off.
    p.cursor = 4;
    p.key(PickerKey::Toggle);
    assert!(p.selected[2]);
    // select all
    p.cursor = 0;
    p.key(PickerKey::Toggle);
    assert!(p.selected.iter().all(|s| *s));
    assert_eq!(p.cursor, 1);
    // clear
    p.key(PickerKey::Toggle);
    assert_eq!(p.selected, vec![false, false, true, true, false, false, true, true, false]);
    assert_eq!(p.cursor, 2);
    // reset restores the preselection
    p.key(PickerKey::Toggle);
    p.key(PickerKey::Reset);
    assert_eq!(p.selected, vec![false, false, true, true, false, false, true, true, false]);
    assert!(matches!(p.key(PickerKey::Cancel), PickOutcome::Cancelled));
}

#[test]
fn picker_cursor_wraps_and_skips_required_rows() {
    let mut p = Picker::new(ItemList::Design, &Complexity::High, &Category::Refactor);
    // Everything selected; existing-code-exploration is required for a refactor.
    assert_eq!(p.cursor, 3);
    p.key(PickerKey::Down);
    assert_eq!(p.cursor, 6);
    p.key(PickerKey::Up);
    assert_eq!(p.cursor, 3);
    p.key(PickerKey::Up);
    assert_eq!(p.cursor, 1);
    p.key(PickerKey::Up);
    assert_eq!(p.cursor, 10);
    p.key(PickerKey::Down);
    assert_eq!(p.cursor, 1);
    assert_eq!(skip_disabled(ItemList::Design, 3, true, &p.selected, &Category::Refactor), 6);
}

#[test]
fn picker_onboarding_tabs_switch_category() {
    let mut p = Picker::new(ItemList::Onboarding, &Complexity::Low, &Category::Binary);
    assert_eq!(p.category, Category::Library);
    p.key(PickerKey::NextTab);
    assert_eq!(p.category, Category::Binary);
    p.key(PickerKey::NextTab);
    assert_eq!(p.category, Category::Refactor);
    assert!(p.selected[2]);
    p.key(PickerKey::NextTab);
    assert_eq!(p.tab, 0);
    assert_eq!(p.category, Category::Library);
    p.key(PickerKey::PrevTab);
    assert_eq!(p.tab, 2);
    let items = chosen(p.key(PickerKey::Confirm));
    assert_eq!(items, vec!["goal", "scope", "existing-code", "uat"].into_iter().map(String::from).collect::<Vec<_>>());
    let mut d = Picker::new(ItemList::Design, &Complexity::Low, &Category::Binary);
    d.key(PickerKey::NextTab);
    assert_eq!(d.category, Category::Binary);
}

#[test]
fn picker_boxes_show_required_checked_and_empty() {
    let p = Picker::new(ItemList::Onboarding, &Complexity::Low, &Category::Binary);
    // goal is required; research (4) is not preselected at low complexity.
    assert_eq!(p.checkbox(0), CheckBox::Required);
    assert_eq!(p.checkbox(4), CheckBox::Empty);
    let high = Picker::new(ItemList::Onboarding, &Complexity::High, &Category::Binary);
    assert_eq!(high.checkbox(4), CheckBox::Checked);
    assert_eq!(high.checkbox(1), CheckBox::Required);
}

#[test]
fn picker_guidance_depends_on_complexity_and_selection() {
    let high = Picker::new(ItemList::Design, &Complexity::High, &Category::Binary);
    assert_eq!(high.guidance(), "(recommend selecting all for medium and high complexity)");
    let mut low = Picker::new(ItemList::Design, &Complexity::Low, &Category::Binary);
    assert_eq!(low.guidance(), "");
    low.cursor = 0;
    let _ = low.key(PickerKey::Toggle);
    assert!(low.selected.iter().all(|&s| s));
    assert_eq!(low.guidance(), "(recommend only a few of these for low complexity)");
}
