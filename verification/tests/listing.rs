use whyno::journal::add_wine;
use whyno::query::{matching_wines, rating_stats, ListFilter};
use whyno::wine::{Wine, WineInput};

fn no_filter() -> ListFilter {
    ListFilter {
        tag: None,
        grape: None,
        country: None,
        min_rating: None,
        query: None,
    }
}

fn add(
    wines: &mut Vec<Wine>,
    name: &str,
    country: Option<&str>,
    grape: Option<&str>,
    rating: Option<u8>,
    tags: Option<Vec<&str>>,
) {
    let input = WineInput {
        name: name.to_string(),
        producer: None,
        vintage: None,
        price_bits: None,
        purchase_date: None,
        drink_by: None,
        region: None,
        country: country.map(|c| c.to_string()),
        grape: grape.map(|g| g.to_string()),
        rating,
        notes: None,
        tags: tags.map(|t| t.into_iter().map(|s| s.to_string()).collect()),
    };
    add_wine(wines, input).unwrap();
}

fn sample() -> Vec<Wine> {
    let mut wines = Vec::new();
    add(&mut wines, "French Merlot", Some("France"), Some("Merlot"), Some(4), Some(vec!["favorite"]));
    add(&mut wines, "Italian Red", Some("Italy"), Some("Sangiovese"), Some(3), None);
    add(&mut wines, "Mystery", None, None, None, Some(vec!["Cellar"]));
    wines
}

#[test]
fn no_filter_lists_every_wine() {
    let wines = sample();
    assert_eq!(matching_wines(&wines, &no_filter()), vec![0, 1, 2]);
}

#[test]
fn filter_by_country_ignores_case() {
    let wines = sample();
    let mut f = no_filter();
    f.country = Some("france".to_string());
    assert_eq!(matching_wines(&wines, &f), vec![0]);
}

#[test]
fn filter_by_grape_ignores_case() {
    let wines = sample();
    let mut f = no_filter();
    f.grape = Some("MERLOT".to_string());
    assert_eq!(matching_wines(&wines, &f), vec![0]);
}

#[test]
fn filter_by_min_rating_skips_unrated() {
    let wines = sample();
    let mut f = no_filter();
    f.min_rating = Some(4);
    assert_eq!(matching_wines(&wines, &f), vec![0]);
    f.min_rating = Some(1);
    assert_eq!(matching_wines(&wines, &f), vec![0, 1]);
}

#[test]
fn filter_by_tag_matches_whole_tag() {
    let wines = sample();
    let mut f = no_filter();
    f.tag = Some("cellar".to_string());
    assert_eq!(matching_wines(&wines, &f), vec![2]);
    f.tag = Some("fav".to_string());
    assert!(matching_wines(&wines, &f).is_empty());
}

#[test]
fn query_searches_all_texts() {
    let wines = sample();
    let mut f = no_filter();
    f.query = Some("italian".to_string());
    assert_eq!(matching_wines(&wines, &f), vec![1]);
    f.query = Some("RAN".to_string());
    assert_eq!(matching_wines(&wines, &f), vec![0]);
    f.query = Some("sangio".to_string());
    assert_eq!(matching_wines(&wines, &f), vec![1]);
    f.query = Some("ella".to_string());
    assert_eq!(matching_wines(&wines, &f), vec![2]);
    f.query = Some(String::new());
    assert_eq!(matching_wines(&wines, &f), vec![0, 1, 2]);
}

#[test]
fn filters_combine() {
    let wines = sample();
    let mut f = no_filter();
    f.country = Some("Italy".to_string());
    f.min_rating = Some(4);
    assert!(matching_wines(&wines, &f).is_empty());
}

#[test]
fn stats_of_empty_journal() {
    let s = rating_stats(&[]);
    assert_eq!((s.total, s.rated, s.rating_sum), (0, 0, 0));
}

#[test]
fn stats_count_rated_wines() {
    let wines = sample();
    let s = rating_stats(&wines);
    assert_eq!(s.total, 3);
    assert_eq!(s.rated, 2);
    assert_eq!(s.rating_sum, 7);
}
