use whyno::query::RatingStats;
use whyno::render::{
    added_lines, entry_lines_of, join_texts, listing_head_lines, removed_line, show_lines,
    stats_lines, updated_line,
};
use whyno::wine::Wine;

fn full_wine() -> Wine {
    Wine {
        id: 12,
        name: "Opus One".to_string(),
        producer: Some("Opus One".to_string()),
        vintage: Some(2015),
        price_bits: Some(42.5f32.to_bits()),
        purchase_date: Some("2024-06-01".to_string()),
        drink_by: Some("2030-01-01".to_string()),
        region: Some("Napa Valley".to_string()),
        country: Some("USA".to_string()),
        grapes: Some(vec!["Cabernet".to_string(), "Merlot".to_string()]),
        rating: Some(5),
        notes: Some("Complex".to_string()),
        tags: Some(vec!["special".to_string(), "birthday".to_string()]),
    }
}

fn bare_wine() -> Wine {
    Wine {
        id: 3,
        name: "Everyday Red".to_string(),
        producer: None,
        vintage: None,
        price_bits: None,
        purchase_date: None,
        drink_by: None,
        region: None,
        country: Some("Spain".to_string()),
        grapes: None,
        rating: None,
        notes: None,
        tags: None,
    }
}

#[test]
fn show_lines_of_full_wine() {
    let lines = show_lines(&full_wine(), &Some("42.50".to_string()));
    assert_eq!(
        lines,
        vec![
            "Opus One — 5/5",
            "Producer: Opus One",
            "Vintage: 2015",
            "Price: 42.50",
            "Purchase date: 2024-06-01",
            "Drink by: 2030-01-01",
            "Region: Napa Valley, USA",
            "Grapes: Cabernet, Merlot",
            "Notes: Complex",
            "Tags: special, birthday",
        ]
    );
}

#[test]
fn show_lines_of_bare_wine() {
    let lines = show_lines(&bare_wine(), &None);
    assert_eq!(lines, vec!["Everyday Red — Unrated", "Country: Spain"]);
}

#[test]
fn entry_lines_are_indented() {
    let lines = entry_lines_of(&full_wine());
    assert_eq!(
        lines,
        vec![
            "12. Opus One — 5/5",
            "   Producer: Opus One",
            "   Vintage: 2015",
            "   Region: Napa Valley, USA",
            "   Grapes: Cabernet, Merlot",
            "   Notes: Complex",
            "",
        ]
    );
    assert_eq!(entry_lines_of(&bare_wine()), vec!["3. Everyday Red — Unrated", "   Country: Spain", ""]);
}

#[test]
fn added_report() {
    assert_eq!(
        added_lines(&full_wine()),
        vec!["Added wine: Opus One (ID: 12)", "  Rating: 5", "  Notes: Complex"]
    );
    assert_eq!(added_lines(&bare_wine()), vec!["Added wine: Everyday Red (ID: 3)"]);
}

#[test]
fn command_reports() {
    assert_eq!(updated_line("Editable Wine"), "Updated wine: Editable Wine");
    assert_eq!(removed_line("Old"), "Removed wine: Old");
    assert_eq!(
        listing_head_lines(0),
        vec!["No wines found matching criteria. Add one with `whyno add <name>`"]
    );
    assert_eq!(listing_head_lines(2), vec!["Found 2 wine(s):", ""]);
    assert_eq!(join_texts(&vec![], ", "), "");
    assert_eq!(join_texts(&vec!["a".to_string()], ", "), "a");
}

#[test]
fn stats_reports() {
    let none = RatingStats { total: 0, rated: 0, rating_sum: 0 };
    assert_eq!(stats_lines(&none, ""), vec!["No wines saved yet."]);
    let unrated = RatingStats { total: 1, rated: 0, rating_sum: 0 };
    assert_eq!(
        stats_lines(&unrated, ""),
        vec!["Total wines saved: 1", "Average rating: N/A (no rated wines)"]
    );
    let rated = RatingStats { total: 2, rated: 2, rating_sum: 6 };
    assert_eq!(
        stats_lines(&rated, "3.00"),
        vec!["Total wines saved: 2", "Average rating: 3.00"]
    );
}
