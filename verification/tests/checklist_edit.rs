use rex_cli::models::checklist::{Checklist, ChecklistCategory, Phase};
use rex_cli::models::checklist_edit::{add_item, listed_categories, locate_item, remove_item, select_items, set_complete, update_item};

fn sample() -> Checklist {
    let mut cl = Checklist::new("2024-05-01");
    add_item(&mut cl, ChecklistCategory::DesignMustHaves, "d1", "Fast", "Be fast", Some(Phase::Design)).unwrap();
    add_item(&mut cl, ChecklistCategory::Objectives, "o1", "Ship", "Ship it", Some(Phase::Planning)).unwrap();
    add_item(&mut cl, ChecklistCategory::OutOfScope, "x1", "GUI", "No GUI", None).unwrap();
    cl
}

#[test]
fn checklist_add_rules() {
    let mut cl = sample();
    assert_eq!(cl.items(ChecklistCategory::DesignMustHaves).len(), 1);
    assert_eq!(cl.items(ChecklistCategory::DesignMustHaves)[0].complete, Some(false));
    assert_eq!(cl.items(ChecklistCategory::OutOfScope)[0].complete, None);
    assert_eq!(
        add_item(&mut cl, ChecklistCategory::RiskMitigations, "o1", "t", "d", Some(Phase::Design)).unwrap_err(),
        "Item with ID \"o1\" already exists in the checklist."
    );
    assert_eq!(
        add_item(&mut cl, ChecklistCategory::OutOfScope, "x2", "t", "d", Some(Phase::Design)).unwrap_err(),
        "Out-of-scope items should not have a phase."
    );
    assert_eq!(
        add_item(&mut cl, ChecklistCategory::RiskMitigations, "r1", "t", "d", None).unwrap_err(),
        "--phase (design or planning) is required for non out-of-scope items."
    );
    assert!(cl.items(ChecklistCategory::RiskMitigations).is_empty());
}

#[test]
fn checklist_update_reports_changes() {
    let mut cl = sample();
    assert_eq!(
        update_item(&mut cl, "d1", None, None, None).unwrap_err(),
        "At least one of --title, --description, or --phase must be provided."
    );
    assert_eq!(update_item(&mut cl, "zz", Some("t".into()), None, None).unwrap_err(), "Item \"zz\" not found in checklist.");
    assert_eq!(
        update_item(&mut cl, "x1", None, None, Some(Phase::Design)).unwrap_err(),
        "Cannot set phase on out-of-scope items."
    );
    let notes = update_item(&mut cl, "d1", Some("Faster".into()), Some("Be faster".into()), Some(Phase::Planning)).unwrap();
    assert_eq!(
        notes,
        vec![
            "title: \"Fast\" → \"Faster\"".to_owned(),
            "description updated".to_owned(),
            "phase: design → planning".to_owned(),
        ]
    );
    let item = &cl.items(ChecklistCategory::DesignMustHaves)[0];
    assert_eq!(item.title, "Faster");
    assert_eq!(item.description, "Be faster");
    assert_eq!(item.phase, Some(Phase::Planning));
}

#[test]
fn checklist_complete_and_remove() {
    let mut cl = sample();
    set_complete(&mut cl, "o1", true).unwrap();
    assert_eq!(cl.items(ChecklistCategory::Objectives)[0].complete, Some(true));
    set_complete(&mut cl, "o1", false).unwrap();
    assert_eq!(cl.items(ChecklistCategory::Objectives)[0].complete, Some(false));
    assert_eq!(set_complete(&mut cl, "x1", true).unwrap_err(), "Cannot mark out-of-scope items as complete.");
    assert_eq!(set_complete(&mut cl, "x1", false).unwrap_err(), "Cannot toggle completion on out-of-scope items.");
    assert_eq!(remove_item(&mut cl, "o1").unwrap(), ChecklistCategory::Objectives);
    assert!(cl.items(ChecklistCategory::Objectives).is_empty());
    assert_eq!(remove_item(&mut cl, "o1").unwrap_err(), "Item \"o1\" not found in checklist.");
}

#[test]
fn checklist_listing_filters() {
    let mut cl = sample();
    add_item(&mut cl, ChecklistCategory::DesignMustHaves, "d2", "Safe", "Be safe", Some(Phase::Planning)).unwrap();
    set_complete(&mut cl, "d2", true).unwrap();
    let items = cl.items(ChecklistCategory::DesignMustHaves);
    assert_eq!(select_items(items, None, false, false), vec![0, 1]);
    assert_eq!(select_items(items, Some(Phase::Design), false, false), vec![0]);
    assert_eq!(select_items(items, None, true, false), vec![1]);
    assert_eq!(select_items(items, None, false, true), vec![0]);
    assert_eq!(listed_categories(Some(ChecklistCategory::Objectives)), vec![ChecklistCategory::Objectives]);
    assert_eq!(listed_categories(None).len(), 8);
    assert_eq!(locate_item(&cl, "d2").unwrap(), (ChecklistCategory::DesignMustHaves, 1));
    assert_eq!(locate_item(&cl, "nope").unwrap_err(), "Item \"nope\" not found in checklist.");
}
