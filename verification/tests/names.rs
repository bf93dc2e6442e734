use timesheet_report::names::{day_name, is_weekend, month_name};

#[test]
fn months_have_their_french_names() {
    let names: Vec<Option<&str>> = (1..=12).map(month_name).collect();
    assert_eq!(
        names,
        vec![
            Some("Janvier"),
            Some("Février"),
            Some("Mars"),
            Some("Avril"),
            Some("Mai"),
            Some("Juin"),
            Some("Juillet"),
            Some("Août"),
            Some("Septembre"),
            Some("Octobre"),
            Some("Novembre"),
            Some("Décembre"),
        ]
    );
}

#[test]
fn there_is_no_month_zero_or_thirteen() {
    assert_eq!(month_name(0), None);
    assert_eq!(month_name(13), None);
    assert_eq!(month_name(u32::MAX), None);
}

#[test]
fn days_have_their_french_names() {
    let names: Vec<Option<&str>> = (0..7).map(day_name).collect();
    assert_eq!(
        names,
        vec![
            Some("Lundi"),
            Some("Mardi"),
            Some("Mercredi"),
            Some("Jeudi"),
            Some("Vendredi"),
            Some("Samedi"),
            Some("Dimanche"),
        ]
    );
    assert_eq!(day_name(7), None);
    assert_eq!(day_name(u8::MAX), None);
}

#[test]
fn saturday_and_sunday_are_the_weekend() {
    let weekend: Vec<bool> = (0..8).map(is_weekend).collect();
    assert_eq!(weekend, vec![false, false, false, false, false, true, true, false]);
}
