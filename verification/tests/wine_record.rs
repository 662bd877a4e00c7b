use whyno::wine::{Wine, WineInput};

#[test]
fn test_empty_name_validation() {
    let input = WineInput {
        name: "   ".to_string(),
        producer: None,
        vintage: None,
        price_bits: None,
        purchase_date: None,
        drink_by: None,
        region: None,
        country: None,
        grape: None,
        rating: None,
        notes: None,
        tags: None,
    };

    let result = Wine::from_input(1, input);
    assert!(result.is_err());
    assert_eq!(result.unwrap_err().message(), "Wine name cannot be empty");
}

#[test]
fn test_invalid_rating_validation() {
    let input = WineInput {
        name: "Test Wine".to_string(),
        producer: None,
        vintage: None,
        price_bits: None,
        purchase_date: None,
        drink_by: None,
        region: None,
        country: None,
        grape: None,
        rating: Some(6),
        notes: None,
        tags: None,
    };

    let result = Wine::from_input(1, input);
    assert!(result.is_err());
    assert_eq!(result.unwrap_err().message(), "Rating must be between 1 and 5");
}

#[test]
fn test_invalid_vintage_validation() {
    let input = WineInput {
        name: "Test Wine".to_string(),
        producer: None,
        vintage: Some(1899),
        price_bits: None,
        purchase_date: None,
        drink_by: None,
        region: None,
        country: None,
        grape: None,
        rating: None,
        notes: None,
        tags: None,
    };

    let result = Wine::from_input(1, input);
    assert!(result.is_err());
    assert_eq!(result.unwrap_err().message(), "Vintage must be between 1900 and 2100");
}

#[test]
fn test_valid_wine_creation() {
    let input = WineInput {
        name: "  Test Wine  ".to_string(),
        producer: Some("  Test Producer  ".to_string()),
        vintage: Some(2020),
        price_bits: None,
        purchase_date: None,
        drink_by: None,
        region: Some("  Napa Valley  ".to_string()),
        country: Some("  USA  ".to_string()),
        grape: Some("  Cabernet Sauvignon  ".to_string()),
        rating: Some(4),
        notes: Some("  Great wine  ".to_string()),
        tags: Some(vec!["  red  ".to_string(), "  bold  ".to_string()]),
    };

    let wine = Wine::from_input(42, input).unwrap();
    assert_eq!(wine.id, 42);
    assert_eq!(wine.name, "Test Wine");
    assert_eq!(wine.producer, Some("Test Producer".to_string()));
    assert_eq!(wine.vintage, Some(2020));
    assert_eq!(wine.region, Some("Napa Valley".to_string()));
    assert_eq!(wine.country, Some("USA".to_string()));
    assert_eq!(wine.grapes, Some(vec!["Cabernet Sauvignon".to_string()]));
    assert_eq!(wine.rating, Some(4));
    assert_eq!(wine.notes, Some("Great wine".to_string()));
    assert_eq!(wine.tags, Some(vec!["red".to_string(), "bold".to_string()]));
}

#[test]
fn test_blank_optional_text_fields_are_omitted() {
    let input = WineInput {
        name: "Test Wine".to_string(),
        producer: Some("   ".to_string()),
        vintage: None,
        price_bits: None,
        purchase_date: None,
        drink_by: None,
        region: Some("   ".to_string()),
        country: Some("   ".to_string()),
        grape: Some("   ".to_string()),
        rating: None,
        notes: Some("   ".to_string()),
        tags: Some(vec!["  ".to_string(), " favorite ".to_string(), "".to_string()]),
    };

    let wine = Wine::from_input(42, input).unwrap();
    assert_eq!(wine.producer, None);
    assert_eq!(wine.region, None);
    assert_eq!(wine.country, None);
    assert_eq!(wine.grapes, None);
    assert_eq!(wine.notes, None);
    assert_eq!(wine.tags, Some(vec!["favorite".to_string()]));
}

#[test]
fn test_valid_wine_creation_with_richer_fields() {
    let input = WineInput {
        name: "Test Wine".to_string(),
        producer: None,
        vintage: None,
        price_bits: Some(42.50f32.to_bits()),
        purchase_date: Some(" 2024-06-01 ".to_string()),
        drink_by: Some(" 2030-01-01 ".to_string()),
        region: None,
        country: None,
        grape: None,
        rating: None,
        notes: None,
        tags: None,
    };

    let wine = Wine::from_input(42, input).unwrap();
    assert_eq!(wine.price_bits.map(f32::from_bits), Some(42.50));
    assert_eq!(wine.purchase_date, Some("2024-06-01".to_string()));
    assert_eq!(wine.drink_by, Some("2030-01-01".to_string()));
}

#[test]
fn test_negative_price_validation() {
    let input = WineInput {
        name: "Test Wine".to_string(),
        producer: None,
        vintage: None,
        price_bits: Some((-1.0f32).to_bits()),
        purchase_date: None,
        drink_by: None,
        region: None,
        country: None,
        grape: None,
        rating: None,
        notes: None,
        tags: None,
    };

    let result = Wine::from_input(1, input);
    assert!(result.is_err());
    assert_eq!(result.unwrap_err().message(), "Price must be non-negative");
}

#[test]
fn test_non_finite_price_validation() {
    let input = WineInput {
        name: "Test Wine".to_string(),
        producer: None,
        vintage: None,
        price_bits: Some(f32::NAN.to_bits()),
        purchase_date: None,
        drink_by: None,
        region: None,
        country: None,
        grape: None,
        rating: None,
        notes: None,
        tags: None,
    };

    let result = Wine::from_input(1, input);
    assert!(result.is_err());
    assert_eq!(result.unwrap_err().message(), "Price must be finite");
}

#[test]
fn test_empty_purchase_date_validation() {
    let input = WineInput {
        name: "Test Wine".to_string(),
        producer: None,
        vintage: None,
        price_bits: None,
        purchase_date: Some("   ".to_string()),
        drink_by: None,
        region: None,
        country: None,
        grape: None,
        rating: None,
        notes: None,
        tags: None,
    };

    let result = Wine::from_input(1, input);
    assert!(result.is_err());
    assert_eq!(result.unwrap_err().message(), "Purchase date cannot be empty");
}

#[test]
fn test_empty_drink_by_validation() {
    let input = WineInput {
        name: "Test Wine".to_string(),
        producer: None,
        vintage: None,
        price_bits: None,
        purchase_date: None,
        drink_by: Some("   ".to_string()),
        region: None,
        country: None,
        grape: None,
        rating: None,
        notes: None,
        tags: None,
    };

    let result = Wine::from_input(1, input);
    assert!(result.is_err());
    assert_eq!(result.unwrap_err().message(), "Drink-by date cannot be empty");
}

#[test]
fn test_next_id_empty() {
    assert_eq!(Wine::next_id(&[]), 1);
}

#[test]
fn test_next_id_single() {
    let wines = vec![Wine {
            id: 1,
            name: "Test".to_string(),
            producer: None,
            vintage: None,
            price_bits: None,
            purchase_date: None,
            drink_by: None,
            region: None,
            country: None,
            grapes: None,
            rating: None,
            notes: None,
            tags: None,
        }];
    assert_eq!(Wine::next_id(&wines), 2);
}

#[test]
fn test_next_id_multiple() {
    let wines = vec![
        Wine {
            id: 1,
            name: "Test 1".to_string(),
            producer: None,
            vintage: None,
            price_bits: None,
            purchase_date: None,
            drink_by: None,
            region: None,
            country: None,
            grapes: None,
            rating: None,
            notes: None,
            tags: None,
        },
        Wine {
            id: 3,
            name: "Test 3".to_string(),
            producer: None,
            vintage: None,
            price_bits: None,
            purchase_date: None,
            drink_by: None,
            region: None,
            country: None,
            grapes: None,
            rating: None,
            notes: None,
            tags: None,
        },
        Wine {
            id: 2,
            name: "Test 2".to_string(),
            producer: None,
            vintage: None,
            price_bits: None,
            purchase_date: None,
            drink_by: None,
            region: None,
            country: None,
            grapes: None,
            rating: None,
            notes: None,
            tags: None,
        },
    ];
    assert_eq!(Wine::next_id(&wines), 4);
}
