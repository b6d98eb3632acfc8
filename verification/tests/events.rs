use brewlog::events::{brew_event, BrewFacts, EventDetail};

fn facts(filter: Option<&str>, ratio: Option<&str>) -> BrewFacts {
    BrewFacts {
        brew_id: 12,
        roast_name: "Kiamabara".to_string(),
        roast_slug: "kiamabara".to_string(),
        roaster_name: "Square Mile".to_string(),
        roaster_slug: "square-mile".to_string(),
        grinder_name: "Comandante C40".to_string(),
        brewer_name: "Hario V60".to_string(),
        filter_paper_name: filter.map(str::to_string),
        coffee_weight_text: "15.0".to_string(),
        water_volume: 250,
        water_temp_text: "94.5".to_string(),
        grind_setting_text: "24.0".to_string(),
        ratio_text: ratio.map(str::to_string),
    }
}

fn rows(details: &[EventDetail]) -> Vec<(&str, &str)> {
    details.iter().map(|d| (d.label.as_str(), d.value.as_str())).collect()
}

#[test]
fn brew_event_rows_in_order() {
    let event = brew_event(facts(Some("Hario tabbed"), Some("16.7")));
    assert_eq!(event.entity_type, "brew");
    assert_eq!(event.entity_id, 12);
    assert_eq!(event.action, "brewed");
    assert_eq!(event.title, "Kiamabara");
    assert_eq!(event.slug, Some("kiamabara".to_string()));
    assert_eq!(event.roaster_slug, Some("square-mile".to_string()));
    assert_eq!(
        rows(&event.details),
        vec![
            ("Roaster", "Square Mile"),
            ("Coffee", "15.0g"),
            ("Water", "250ml @ 94.5\u{00B0}C"),
            ("Grinder", "Comandante C40 @ 24.0"),
            ("Brewer", "Hario V60"),
            ("Filter", "Hario tabbed"),
            ("Ratio", "1:16.7"),
        ]
    );
}

#[test]
fn brew_event_without_filter_or_ratio() {
    let event = brew_event(facts(None, None));
    assert_eq!(
        rows(&event.details),
        vec![
            ("Roaster", "Square Mile"),
            ("Coffee", "15.0g"),
            ("Water", "250ml @ 94.5\u{00B0}C"),
            ("Grinder", "Comandante C40 @ 24.0"),
            ("Brewer", "Hario V60"),
            ("Ratio", "N/A"),
        ]
    );
}
