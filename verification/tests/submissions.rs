use brewlog::errors::AppError;
use brewlog::submissions::{
    check_new_gear, optional_id_text, plan_nearby_search, require_changes, NearbySearch,
    default_tasting_notes, plan_checkin, require, validate_bag_roast, validate_rating,
    BagScanSubmission, CafeChoice, CalendarDate, NewRoastSubmission, RoastsQuery,
    TastingNotesInput,
};

fn validation(msg: &str) -> AppError {
    AppError::Validation(msg.to_string())
}

fn roast_form() -> NewRoastSubmission {
    NewRoastSubmission {
        roaster_id: 3,
        name: "  Halo  ".to_string(),
        origin: "Ethiopia".to_string(),
        region: "Yirgacheffe".to_string(),
        producer: " Coop ".to_string(),
        tasting_notes: TastingNotesInput::Text("jasmine, bergamot\n, peach ".to_string()),
        process: "Washed".to_string(),
    }
}

fn scan_form() -> BagScanSubmission {
    BagScanSubmission {
        image: None,
        prompt: None,
        roaster_name: "Radical".to_string(),
        roaster_country: "UK".to_string(),
        roaster_city: None,
        roaster_homepage: None,
        roast_name: " Kiambu ".to_string(),
        origin: "Kenya".to_string(),
        region: "Kiambu".to_string(),
        producer: "Estate".to_string(),
        process: "Washed".to_string(),
        tasting_notes: TastingNotesInput::List(vec!["Cassis".to_string()]),
    }
}

#[test]
fn text_notes_split_on_commas_and_newlines() {
    let notes = TastingNotesInput::Text(" jasmine,bergamot\n\n, peach ,".to_string()).into_vec();
    assert_eq!(notes, vec!["jasmine", "bergamot", "peach"]);
}

#[test]
fn list_notes_are_trimmed_and_blanks_dropped() {
    let notes = TastingNotesInput::List(vec![
        " cocoa ".to_string(),
        "".to_string(),
        "   ".to_string(),
        "plum, fig".to_string(),
    ])
    .into_vec();
    assert_eq!(notes, vec!["cocoa", "plum, fig"]);
}

#[test]
fn default_notes_are_empty_text() {
    assert_eq!(default_tasting_notes(), TastingNotesInput::Text(String::new()));
    assert!(default_tasting_notes().into_vec().is_empty());
}

#[test]
fn valid_roast_form_is_trimmed() {
    let roast = roast_form().into_new_roast().unwrap();
    assert_eq!(roast.roaster_id, 3);
    assert_eq!(roast.name, "Halo");
    assert_eq!(roast.producer, "Coop");
    assert_eq!(roast.tasting_notes, vec!["jasmine", "bergamot", "peach"]);
}

#[test]
fn roast_form_errors_come_in_order() {
    let mut form = roast_form();
    form.roaster_id = 0;
    form.name = " ".to_string();
    assert_eq!(form.into_new_roast().unwrap_err(), validation("invalid roaster id"));
    let mut form = roast_form();
    form.name = " ".to_string();
    form.process = String::new();
    assert_eq!(form.into_new_roast().unwrap_err(), validation("name is required"));
    let mut form = roast_form();
    form.process = "\t".to_string();
    assert_eq!(form.into_new_roast().unwrap_err(), validation("process is required"));
    let mut form = roast_form();
    form.tasting_notes = TastingNotesInput::Text(" , ,".to_string());
    assert_eq!(
        form.into_new_roast().unwrap_err(),
        validation("tasting notes are required")
    );
}

#[test]
fn require_trims_or_names_the_field() {
    assert_eq!(require("origin", "  Peru ").unwrap(), "Peru");
    assert_eq!(require("origin", "   ").unwrap_err(), validation("origin is required"));
}

#[test]
fn scan_without_raw_input_requires_every_field() {
    let form = scan_form();
    assert!(!form.has_raw_input());
    let roast = form.into_new_roast(9, false).unwrap();
    assert_eq!(roast.roaster_id, 9);
    assert_eq!(roast.name, "Kiambu");
    let mut form = scan_form();
    form.region = String::new();
    assert_eq!(
        form.into_new_roast(9, false).unwrap_err(),
        validation("region is required")
    );
    let mut form = scan_form();
    form.tasting_notes = TastingNotesInput::Text(String::new());
    form.roast_name = String::new();
    assert_eq!(
        form.into_new_roast(9, false).unwrap_err(),
        validation("tasting notes are required")
    );
}

#[test]
fn scan_with_raw_input_only_needs_a_name() {
    let mut form = scan_form();
    form.prompt = Some("a bag of Kenyan coffee".to_string());
    form.origin = String::new();
    form.tasting_notes = TastingNotesInput::Text(String::new());
    assert!(form.has_raw_input());
    let roast = form.into_new_roast(2, true).unwrap();
    assert_eq!(roast.origin, "");
    assert!(roast.tasting_notes.is_empty());
    let mut form = scan_form();
    form.image = Some("data:image/png;base64,AAAA".to_string());
    form.roast_name = "  ".to_string();
    assert_eq!(
        form.into_new_roast(2, true).unwrap_err(),
        validation("could not extract a roast name from the image/text")
    );
}

#[test]
fn empty_raw_input_does_not_count() {
    let mut form = scan_form();
    form.image = Some(String::new());
    form.prompt = Some(String::new());
    assert!(!form.has_raw_input());
}

#[test]
fn checkin_with_existing_cafe() {
    assert_eq!(
        plan_checkin("12", Some("4"), None).unwrap(),
        (12, CafeChoice::Existing(4))
    );
}

#[test]
fn checkin_with_new_cafe() {
    assert_eq!(
        plan_checkin("12", Some(""), Some("Origin Coffee")).unwrap(),
        (12, CafeChoice::New("Origin Coffee".to_string()))
    );
}

#[test]
fn checkin_errors() {
    assert_eq!(
        plan_checkin("x", Some("4"), None).unwrap_err(),
        validation("invalid roast ID")
    );
    assert_eq!(
        plan_checkin("1", Some("four"), None).unwrap_err(),
        validation("invalid cafe ID")
    );
    assert_eq!(
        plan_checkin("1", None, Some("")).unwrap_err(),
        validation("cafe name is required")
    );
}

#[test]
fn roaster_filter_reads_trimmed_id() {
    let none = RoastsQuery { roaster_id: None };
    assert_eq!(none.roaster_filter().unwrap(), None);
    let empty = RoastsQuery {
        roaster_id: Some(String::new()),
    };
    assert_eq!(empty.roaster_filter().unwrap(), None);
    let id = RoastsQuery {
        roaster_id: Some(" 42 ".to_string()),
    };
    assert_eq!(id.roaster_filter().unwrap(), Some(42));
    let bad = RoastsQuery {
        roaster_id: Some(" abc ".to_string()),
    };
    assert_eq!(
        bad.roaster_filter().unwrap_err(),
        validation("Invalid roaster_id: 'abc'")
    );
}

#[test]
fn ratings_outside_one_to_five_are_rejected() {
    assert!(validate_rating(None).is_ok());
    assert!(validate_rating(Some(1)).is_ok());
    assert!(validate_rating(Some(5)).is_ok());
    assert_eq!(
        validate_rating(Some(0)).unwrap_err(),
        validation("rating must be between 1 and 5")
    );
    assert!(validate_rating(Some(6)).is_err());
}

#[test]
fn bag_roast_and_date_are_checked() {
    assert_eq!(
        validate_bag_roast(0, Some("2024-01-02")).unwrap_err(),
        validation("invalid roast id")
    );
    assert_eq!(validate_bag_roast(1, None).unwrap(), None);
    assert_eq!(validate_bag_roast(1, Some("")).unwrap(), None);
    assert_eq!(
        validate_bag_roast(1, Some("2024-01-02")).unwrap(),
        Some(CalendarDate {
            year: 2024,
            month: 1,
            day: 2
        })
    );
    assert_eq!(
        validate_bag_roast(1, Some("02/01/2024")).unwrap_err(),
        validation("invalid roast date format")
    );
}

#[test]
fn nearby_search_needs_two_bytes_of_query() {
    assert_eq!(
        plan_nearby_search(" a ", None, true, true),
        Err(validation("q must be at least 2 characters"))
    );
    assert_eq!(
        plan_nearby_search("é", None, true, true),
        Ok(NearbySearch::Coordinates { query: "é".to_string() })
    );
    assert_eq!(
        plan_nearby_search("  flat white ", Some(" Oslo "), false, false),
        Ok(NearbySearch::Near { query: "flat white".to_string(), near: "Oslo".to_string() })
    );
    assert_eq!(
        plan_nearby_search("espresso", Some(" x"), true, true),
        Err(validation("near must be at least 2 characters"))
    );
}

#[test]
fn nearby_search_without_a_place_needs_coordinates() {
    assert_eq!(
        plan_nearby_search("espresso", None, false, true),
        Err(validation("lat is required when near is not provided"))
    );
    assert_eq!(
        plan_nearby_search("espresso", None, true, false),
        Err(validation("lng is required when near is not provided"))
    );
}

#[test]
fn gear_forms_need_a_category_make_and_model() {
    assert_eq!(check_new_gear(false, "Hario", "V60"), Err(validation("invalid category")));
    assert_eq!(check_new_gear(true, "  ", "V60"), Err(validation("make cannot be empty")));
    assert_eq!(check_new_gear(true, "Hario", "\t"), Err(validation("model cannot be empty")));
    assert_eq!(check_new_gear(true, "Hario", "V60"), Ok(()));
}

#[test]
fn updates_must_change_something() {
    assert_eq!(require_changes(&vec![false, true, false]), Ok(()));
    assert_eq!(require_changes(&vec![false, false]), Err(validation("no changes provided")));
    assert_eq!(require_changes(&vec![]), Err(validation("no changes provided")));
}

#[test]
fn optional_ids_from_form_text() {
    assert_eq!(optional_id_text(""), Some(None));
    assert_eq!(optional_id_text("42"), Some(Some(42)));
    assert_eq!(optional_id_text("-7"), Some(Some(-7)));
    assert_eq!(optional_id_text(" 4"), None);
    assert_eq!(optional_id_text("x"), None);
}
