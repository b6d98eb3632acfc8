use brewlog::brew_form::{apply_choice_override, apply_extra_overrides, BrewExtras, GearChoice, OptionView};

fn option(id: &str, label: &str) -> OptionView {
    OptionView { id: id.to_string(), label: label.to_string() }
}

fn grinders() -> Vec<OptionView> {
    vec![
        option("1", "Comandante C40"),
        option("2", "Niche Zero"),
        option("2", "Niche Zero (old)"),
    ]
}

#[test]
fn override_selects_the_requested_gear() {
    let mut choice = GearChoice { id: "1".to_string(), name: "Comandante C40".to_string() };
    apply_choice_override(&grinders(), Some("2".to_string()), &mut choice);
    assert_eq!(choice, GearChoice { id: "2".to_string(), name: "Niche Zero".to_string() });
}

#[test]
fn unknown_gear_keeps_the_name() {
    let mut choice = GearChoice { id: "1".to_string(), name: "Comandante C40".to_string() };
    apply_choice_override(&grinders(), Some("9".to_string()), &mut choice);
    assert_eq!(choice, GearChoice { id: "9".to_string(), name: "Comandante C40".to_string() });
}

#[test]
fn no_override_changes_nothing() {
    let mut choice = GearChoice { id: String::new(), name: String::new() };
    apply_choice_override(&grinders(), None, &mut choice);
    assert_eq!(choice, GearChoice { id: String::new(), name: String::new() });
}

#[test]
fn extra_overrides_replace_only_what_is_given() {
    let mut extras = BrewExtras { water_volume: 250, brew_time: None, quick_notes: "bloom".to_string() };
    apply_extra_overrides(&mut extras, Some(300), Some(180), None);
    assert_eq!(
        extras,
        BrewExtras { water_volume: 300, brew_time: Some(180), quick_notes: "bloom".to_string() }
    );
    apply_extra_overrides(&mut extras, None, None, Some("slow pour".to_string()));
    assert_eq!(
        extras,
        BrewExtras { water_volume: 300, brew_time: Some(180), quick_notes: "slow pour".to_string() }
    );
}
