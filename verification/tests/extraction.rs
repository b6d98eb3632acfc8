use brewlog::extraction::{
    bag_scan_signals, join_notes, roaster_signals, scan_success_signals, BagScanExtraction,
    ExtractedRoast, ExtractedRoaster, Signal,
};
use brewlog::submissions::{BagScanSubmission, TastingNotesInput};

fn text(s: &str) -> Signal {
    Signal::Text(s.to_string())
}

fn blank_scan() -> BagScanSubmission {
    BagScanSubmission {
        image: Some("data:image/png;base64,AAAA".to_string()),
        prompt: Some("a bag of coffee".to_string()),
        roaster_name: "Old Roaster".to_string(),
        roaster_country: "Norway".to_string(),
        roaster_city: Some("Oslo".to_string()),
        roaster_homepage: None,
        roast_name: String::new(),
        origin: "Kenya".to_string(),
        region: String::new(),
        producer: String::new(),
        process: String::new(),
        tasting_notes: TastingNotesInput::List(vec!["cocoa".to_string()]),
    }
}

#[test]
fn notes_join_with_comma_and_space() {
    assert_eq!(join_notes(&vec![]), "");
    assert_eq!(join_notes(&vec!["plum".to_string()]), "plum");
    assert_eq!(
        join_notes(&vec!["plum".to_string(), "cocoa".to_string(), "rose".to_string()]),
        "plum, cocoa, rose"
    );
}

#[test]
fn scan_signals_fill_every_field_and_flag_the_scan() {
    let extraction = BagScanExtraction {
        roaster: ExtractedRoaster {
            name: Some("Tim Wendelboe".to_string()),
            country: Some("Norway".to_string()),
            city: None,
            homepage: Some("https://timwendelboe.no".to_string()),
        },
        roast: ExtractedRoast {
            name: Some("Ben Saïd".to_string()),
            origin: Some("Ethiopia".to_string()),
            region: None,
            producer: Some("Ben Saïd".to_string()),
            process: Some("Natural".to_string()),
            tasting_notes: Some(vec!["berries".to_string(), "wine".to_string()]),
        },
    };
    let signals = bag_scan_signals(extraction);
    assert_eq!(
        signals,
        vec![
            ("_roaster-name", text("Tim Wendelboe")),
            ("_roaster-country", text("Norway")),
            ("_roaster-city", text("")),
            ("_roaster-homepage", text("https://timwendelboe.no")),
            ("_roast-name", text("Ben Saïd")),
            ("_origin", text("Ethiopia")),
            ("_region", text("")),
            ("_producer", text("Ben Saïd")),
            ("_process", text("Natural")),
            ("_tasting-notes", text("berries, wine")),
            ("_scan-extracted", Signal::Flag(true)),
        ]
    );
}

#[test]
fn roaster_signals_flag_the_extraction() {
    let signals = roaster_signals(ExtractedRoaster {
        name: Some("Coffee Collective".to_string()),
        country: None,
        city: Some("Copenhagen".to_string()),
        homepage: None,
    });
    assert_eq!(
        signals,
        vec![
            ("_roaster-name", text("Coffee Collective")),
            ("_roaster-country", text("")),
            ("_roaster-city", text("Copenhagen")),
            ("_roaster-homepage", text("")),
            ("_extracted", Signal::Flag(true)),
        ]
    );
}

#[test]
fn success_signals_name_the_new_roast() {
    assert_eq!(
        scan_success_signals(42, "Kiamabara".to_string(), "Square Mile".to_string()),
        vec![
            ("_roast-id", text("42")),
            ("_scan-success", text("Kiamabara")),
            ("_roaster-name", text("Square Mile")),
        ]
    );
}

#[test]
fn extraction_replaces_only_what_it_found() {
    let mut scan = blank_scan();
    scan.apply_extraction(BagScanExtraction {
        roaster: ExtractedRoaster {
            name: Some("New Roaster".to_string()),
            country: None,
            city: None,
            homepage: Some("https://example.com".to_string()),
        },
        roast: ExtractedRoast {
            name: Some("Gakuyuini".to_string()),
            origin: None,
            region: Some("Kirinyaga".to_string()),
            producer: None,
            process: Some("Washed".to_string()),
            tasting_notes: Some(vec!["blackcurrant".to_string(), "tomato".to_string()]),
        },
    });
    assert_eq!(scan.image, None);
    assert_eq!(scan.prompt, None);
    assert_eq!(scan.roaster_name, "New Roaster");
    assert_eq!(scan.roaster_country, "Norway");
    assert_eq!(scan.roaster_city, Some("Oslo".to_string()));
    assert_eq!(scan.roaster_homepage, Some("https://example.com".to_string()));
    assert_eq!(scan.roast_name, "Gakuyuini");
    assert_eq!(scan.origin, "Kenya");
    assert_eq!(scan.region, "Kirinyaga");
    assert_eq!(scan.producer, "");
    assert_eq!(scan.process, "Washed");
    assert_eq!(
        scan.tasting_notes,
        TastingNotesInput::Text("blackcurrant, tomato".to_string())
    );
}

#[test]
fn extraction_without_notes_keeps_the_form_notes() {
    let mut scan = blank_scan();
    scan.apply_extraction(BagScanExtraction::default());
    assert_eq!(
        scan.tasting_notes,
        TastingNotesInput::List(vec!["cocoa".to_string()])
    );
    assert_eq!(scan.roaster_name, "Old Roaster");
    assert_eq!(scan.image, None);
}

#[test]
fn joined_notes_read_back_as_the_same_notes() {
    let notes = vec!["stone fruit".to_string(), "jasmine".to_string(), "cola".to_string()];
    let text = join_notes(&notes);
    assert_eq!(TastingNotesInput::Text(text).into_vec(), notes);
    assert_eq!(TastingNotesInput::Text(join_notes(&vec![])).into_vec(), Vec::<String>::new());
}
