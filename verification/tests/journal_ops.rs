use whyno::journal::{add_wine, position_of, remove_wine, update_wine, JournalError, WineChanges};
use whyno::wine::{Wine, WineError, WineInput};

fn input(name: &str, rating: Option<u8>) -> WineInput {
    WineInput {
        name: name.to_string(),
        producer: None,
        vintage: None,
        price_bits: None,
        purchase_date: None,
        drink_by: None,
        region: None,
        country: None,
        grape: None,
        rating,
        notes: None,
        tags: None,
    }
}

fn no_changes() -> WineChanges {
    WineChanges {
        vintage: None,
        price_bits: None,
        purchase_date: None,
        drink_by: None,
        producer: None,
        region: None,
        country: None,
        grape: None,
        rating: None,
        notes: None,
        tags: None,
    }
}

fn journal_of(names: &[&str]) -> Vec<Wine> {
    let mut wines = Vec::new();
    for name in names {
        add_wine(&mut wines, input(name, Some(3))).unwrap();
    }
    wines
}

#[test]
fn add_assigns_increasing_ids() {
    let mut wines = Vec::new();
    assert_eq!(add_wine(&mut wines, input("Test Wine", Some(4))).unwrap(), 1);
    assert_eq!(add_wine(&mut wines, input("Second Wine", Some(5))).unwrap(), 2);
    assert_eq!(wines.len(), 2);
    assert_eq!(wines[0].id, 1);
    assert_eq!(wines[1].id, 2);
    assert_eq!(wines[1].name, "Second Wine");
}

#[test]
fn add_refused_leaves_journal_unchanged() {
    let mut wines = journal_of(&["One"]);
    let result = add_wine(&mut wines, input("Bad Rating", Some(99)));
    assert!(matches!(result, Err(WineError::RatingOutOfRange)));
    assert_eq!(wines.len(), 1);
    let result = add_wine(&mut wines, input("", Some(4)));
    assert!(matches!(result, Err(WineError::EmptyName)));
    assert_eq!(wines.len(), 1);
}

#[test]
fn add_after_gap_uses_largest_id_plus_one() {
    let mut wines = journal_of(&["A", "B", "C"]);
    assert!(remove_wine(&mut wines, 2).is_some());
    assert_eq!(add_wine(&mut wines, input("D", None)).unwrap(), 4);
}

#[test]
fn removing_the_largest_id_lets_it_be_given_again() {
    let mut wines = journal_of(&["A"]);
    assert!(remove_wine(&mut wines, 1).is_some());
    assert_eq!(add_wine(&mut wines, input("B", None)).unwrap(), 1);
}

#[test]
fn position_of_finds_first_match() {
    let wines = journal_of(&["A", "B", "C"]);
    assert_eq!(position_of(&wines, 2), Some(1));
    assert_eq!(position_of(&wines, 9), None);
}

#[test]
fn remove_returns_removed_wine() {
    let mut wines = journal_of(&["Wine To Remove", "Keep"]);
    let removed = remove_wine(&mut wines, 1).unwrap();
    assert_eq!(removed.name, "Wine To Remove");
    assert_eq!(wines.len(), 1);
    assert_eq!(wines[0].name, "Keep");
    assert_eq!(position_of(&wines, 1), None);
}

#[test]
fn remove_missing_id_is_refused() {
    let mut wines = journal_of(&["A"]);
    assert!(remove_wine(&mut wines, 99).is_none());
    assert_eq!(wines.len(), 1);
    assert_eq!(JournalError::NotFound(99).message(), "Wine with ID 99 not found");
}

#[test]
fn update_changes_only_given_fields() {
    let mut wines = journal_of(&["Editable Wine"]);
    wines[0].notes = Some("Old notes".to_string());
    wines[0].region = Some("Rioja".to_string());
    let mut changes = no_changes();
    changes.rating = Some(5);
    changes.notes = Some("  Improved  ".to_string());
    assert_eq!(update_wine(&mut wines, 1, changes).unwrap(), 0);
    assert_eq!(wines[0].rating, Some(5));
    assert_eq!(wines[0].notes, Some("Improved".to_string()));
    assert_eq!(wines[0].region, Some("Rioja".to_string()));
    assert_eq!(wines[0].name, "Editable Wine");
}

#[test]
fn update_trims_texts_and_replaces_grape_and_tags() {
    let mut wines = journal_of(&["Wine"]);
    let mut changes = no_changes();
    changes.producer = Some("  Estate  ".to_string());
    changes.grape = Some(" Merlot ".to_string());
    changes.tags = Some(vec![" special ".to_string(), " aged".to_string()]);
    changes.vintage = Some(2015);
    update_wine(&mut wines, 1, changes).unwrap();
    assert_eq!(wines[0].producer, Some("Estate".to_string()));
    assert_eq!(wines[0].grapes, Some(vec!["Merlot".to_string()]));
    assert_eq!(
        wines[0].tags,
        Some(vec!["special".to_string(), "aged".to_string()])
    );
    assert_eq!(wines[0].vintage, Some(2015));
}

#[test]
fn update_price_and_dates() {
    let mut wines = journal_of(&["Cellar Wine"]);
    let mut changes = no_changes();
    changes.price_bits = Some(50.0f32.to_bits());
    changes.drink_by = Some(" 2032-01-01 ".to_string());
    update_wine(&mut wines, 1, changes).unwrap();
    assert_eq!(wines[0].price_bits.map(f32::from_bits), Some(50.0));
    assert_eq!(wines[0].drink_by, Some("2032-01-01".to_string()));
    assert_eq!(wines[0].purchase_date, None);
}

#[test]
fn update_refusals_in_order() {
    let mut wines = journal_of(&["Wine"]);

    let mut changes = no_changes();
    changes.rating = Some(99);
    let err = update_wine(&mut wines, 7, changes).unwrap_err();
    assert!(matches!(err, JournalError::NotFound(7)));
    assert_eq!(err.message(), "Wine with ID 7 not found");

    let mut changes = no_changes();
    changes.rating = Some(99);
    changes.vintage = Some(1800);
    let err = update_wine(&mut wines, 1, changes).unwrap_err();
    assert!(matches!(err, JournalError::Invalid(WineError::VintageOutOfRange)));
    assert_eq!(err.message(), "Vintage must be between 1900 and 2100");

    let mut changes = no_changes();
    changes.rating = Some(0);
    let err = update_wine(&mut wines, 1, changes).unwrap_err();
    assert_eq!(err.message(), "Rating must be between 1 and 5");

    let mut changes = no_changes();
    changes.price_bits = Some(f32::INFINITY.to_bits());
    let err = update_wine(&mut wines, 1, changes).unwrap_err();
    assert_eq!(err.message(), "Price must be finite");

    let mut changes = no_changes();
    changes.price_bits = Some((-0.5f32).to_bits());
    let err = update_wine(&mut wines, 1, changes).unwrap_err();
    assert_eq!(err.message(), "Price must be non-negative");

    let mut changes = no_changes();
    changes.purchase_date = Some("  ".to_string());
    let err = update_wine(&mut wines, 1, changes).unwrap_err();
    assert_eq!(err.message(), "Purchase date cannot be empty");

    let mut changes = no_changes();
    changes.drink_by = Some("".to_string());
    let err = update_wine(&mut wines, 1, changes).unwrap_err();
    assert_eq!(err.message(), "Drink-by date cannot be empty");

    assert_eq!(wines[0].rating, Some(3));
    assert_eq!(wines[0].vintage, None);
}
