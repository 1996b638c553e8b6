use pitgun_racing::track::{
    apply_presentation_circuits, apply_presentation_drivers, browser_track_id, country_code_from_track_id, get_track,
    normalize_track_id, PresentationCircuit, TrackKey, TrackPresentation,
};

#[test]
fn track_ids_drop_separators_and_uppercase() {
    assert_eq!(normalize_track_id("monza"), "MONZA");
    assert_eq!(normalize_track_id("Spa-Franco_champs 1"), "SPAFRANCOCHAMPS1");
    assert_eq!(normalize_track_id("straße"), "STRASSE");
    assert_eq!(browser_track_id("it-monza-2023"), "IT");
    assert_eq!(browser_track_id("monza"), "MONZA");
}

#[test]
fn country_codes_are_two_ascii_letters() {
    assert_eq!(country_code_from_track_id("it-monza"), Some("IT".to_string()));
    assert_eq!(country_code_from_track_id(" gb -silverstone"), Some("GB".to_string()));
    assert_eq!(country_code_from_track_id("monza"), None);
    assert_eq!(country_code_from_track_id("1t-x"), None);
}

fn key(id: &str, browser: &str) -> TrackKey {
    TrackKey { id: id.to_string(), browser_id: browser.to_string() }
}

#[test]
fn circuits_are_found_by_id_then_browser_id() {
    let tracks = vec![key("MONZA", "IT"), key("SPA", "BE")];
    assert_eq!(get_track(&tracks, "spa"), Ok(1));
    assert_eq!(get_track(&tracks, "it"), Ok(0));
    assert_eq!(get_track(&tracks, "su-zu_ka"), Err("unknown circuit 'SUZUKA'".to_string()));
}

fn stored(id: &str, browser: &str) -> TrackPresentation {
    TrackPresentation { id: id.to_string(), browser_id: browser.to_string(), display_name: id.to_string(), country_code: None, laps: None }
}

fn entry(id: &str, model: &str) -> PresentationCircuit {
    PresentationCircuit {
        id: id.to_string(),
        source_id: format!("src-{id}"),
        model_id: model.to_string(),
        display_name: format!("Circuit {id}"),
        country_code: Some("IT".to_string()),
        laps: Some(53),
    }
}

#[test]
fn presentation_updates_matching_circuits() {
    let mut tracks = vec![stored("MONZA", "MONZA")];
    assert_eq!(apply_presentation_circuits(&mut tracks, vec![entry("monza", "monza")], 1, 1), Ok(()));
    assert_eq!(tracks[0].browser_id, "monza");
    assert_eq!(tracks[0].display_name, "Circuit monza");
    assert_eq!(tracks[0].laps, Some(53));

    let mut other = vec![stored("MONZA", "MONZA")];
    assert_eq!(
        apply_presentation_circuits(&mut other, vec![entry("monza", "imola")], 1, 1),
        Err("presentation circuit 'src-monza' expects model 'imola', found 'MONZA'".to_string())
    );
    let mut counted = vec![stored("MONZA", "MONZA")];
    assert_eq!(
        apply_presentation_circuits(&mut counted, vec![], 1, 1),
        Err("presentation index contains 0 circuits for 1 simulation resources".to_string())
    );
    assert_eq!(
        apply_presentation_circuits(&mut counted, vec![entry("monza", "monza")], 2, 3),
        Err("presentation index contains 2 drivers for 3 simulation resources".to_string())
    );
    let mut lost = vec![stored("MONZA", "MONZA")];
    assert_eq!(
        apply_presentation_circuits(&mut lost, vec![entry("spa", "spa")], 1, 1),
        Err("presentation circuit 'src-spa' has no simulation resource".to_string())
    );
}

#[test]
fn presentation_names_stored_drivers() {
    let mut drivers = vec![("default".to_string(), "Default".to_string()), ("ace".to_string(), "ace".to_string())];
    assert_eq!(apply_presentation_drivers(&mut drivers, vec![("ace".to_string(), "Ace Racer".to_string())]), Ok(()));
    assert_eq!(drivers[1], ("ace".to_string(), "Ace Racer".to_string()));
    assert_eq!(
        apply_presentation_drivers(&mut drivers, vec![("ghost".to_string(), "G".to_string())]),
        Err("presentation driver 'ghost' has no simulation resource".to_string())
    );
}
