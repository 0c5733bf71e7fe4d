use affilify::regions::{choose_regions, get_region_suggestions, regions, SUGGESTION_LIMIT};
use affilify::routing::{route, InteractionKind, Route};
use affilify::stats::{
    count_text_of, region_line_for, region_line_of, regions_text, show_lines, TOP_REGIONS,
};
use affilify::text::signed_decimal_text;

fn codes(found: &[(String, String)]) -> Vec<&str> {
    found.iter().map(|(code, _)| code.as_str()).collect()
}

// The suggestions as a filter over the table says them.
fn by_filter(input: &str) -> Vec<(String, String)> {
    let lower = input.to_lowercase();
    regions()
        .into_iter()
        .filter(|(code, name)| code.contains(&lower) || name.to_lowercase().contains(&lower))
        .take(25)
        .collect()
}

#[test]
fn table_starts_with_the_entry_for_all_regions() {
    let table = regions();
    assert_eq!(table.len(), 20);
    assert_eq!(table[0], ("global".to_string(), "🌍 Global Settings (All Regions)".to_string()));
    assert_eq!(table[5], ("co.uk".to_string(), "🇬🇧 UK (amazon.co.uk)".to_string()));
    assert_eq!(table[19], ("com.au".to_string(), "🇦🇺 Australia (amazon.com.au)".to_string()));
    assert_eq!(SUGGESTION_LIMIT, 25);
}

#[test]
fn nothing_typed_suggests_every_region() {
    assert_eq!(get_region_suggestions(""), regions());
}

#[test]
fn code_is_matched_as_typed_in_lower_case() {
    assert_eq!(codes(&get_region_suggestions("co.")), vec!["co.uk", "co.jp"]);
    assert_eq!(codes(&get_region_suggestions("CO.")), vec!["co.uk", "co.jp"]);
    assert_eq!(codes(&get_region_suggestions("com.")), vec!["com.mx", "com.au"]);
}

#[test]
fn name_is_matched_without_regard_to_case() {
    assert_eq!(codes(&get_region_suggestions("GERM")), vec!["de"]);
    assert_eq!(codes(&get_region_suggestions("united")), Vec::<&str>::new());
    assert_eq!(codes(&get_region_suggestions("uae")), vec!["ae"]);
    assert_eq!(codes(&get_region_suggestions("🇯🇵")), vec!["co.jp"]);
    assert_eq!(codes(&get_region_suggestions("settings")), vec!["global"]);
}

#[test]
fn suggestions_agree_with_a_filter_over_the_table() {
    for input in ["", "a", "A", "amazon", "co", ".", "de", "x", "in", "SA", "glob", "(", "🌍", "é"] {
        assert_eq!(get_region_suggestions(input), by_filter(input), "input: {:?}", input);
    }
}

#[test]
fn numbers_with_a_sign_are_written_in_decimal() {
    assert_eq!(signed_decimal_text(0), "0");
    assert_eq!(signed_decimal_text(42), "42");
    assert_eq!(signed_decimal_text(-1), "-1");
    assert_eq!(signed_decimal_text(i64::MAX), "9223372036854775807");
    assert_eq!(signed_decimal_text(i64::MIN), "-9223372036854775808");
}

#[test]
fn counts_are_shown_as_links() {
    assert_eq!(count_text_of(0), "0 links");
    assert_eq!(count_text_of(1234), "1234 links");
    assert_eq!(region_line_of("co.uk", 7), "🌍 **CO.UK**: 7 links");
}

#[test]
fn top_regions_are_listed_line_by_line() {
    assert_eq!(TOP_REGIONS, 5);
    assert_eq!(regions_text(&Vec::new()), "No regions yet");
    assert_eq!(regions_text(&vec![("de".to_string(), 3)]), "🌍 **DE**: 3 links");
    assert_eq!(
        regions_text(&vec![("de".to_string(), 30), ("co.uk".to_string(), 12), ("com".to_string(), 1)]),
        "🌍 **DE**: 30 links\n🌍 **CO.UK**: 12 links\n🌍 **COM**: 1 links"
    );
}

#[test]
fn commands_go_to_their_handlers() {
    assert_eq!(route(InteractionKind::Command, "configure"), Route::Configure);
    assert_eq!(route(InteractionKind::Command, "amazon"), Route::Amazon);
    assert_eq!(route(InteractionKind::Command, "stats"), Route::Stats);
    assert_eq!(route(InteractionKind::Command, "Amazon"), Route::Ignore);
    assert_eq!(route(InteractionKind::Command, ""), Route::Ignore);
}

#[test]
fn suggestions_and_forms_go_to_the_configuration() {
    assert_eq!(route(InteractionKind::Autocomplete, "configure"), Route::ConfigureSuggestions);
    assert_eq!(route(InteractionKind::Autocomplete, "amazon"), Route::Ignore);
    assert_eq!(route(InteractionKind::Modal, "config_modal_de"), Route::ConfigureForm);
    assert_eq!(route(InteractionKind::Modal, "config_modal_"), Route::ConfigureForm);
    assert_eq!(route(InteractionKind::Modal, "configure"), Route::Ignore);
    assert_eq!(route(InteractionKind::Other, "configure"), Route::Ignore);
}

#[test]
fn entries_are_chosen_by_code_and_by_name_in_lower_case() {
    let entries: Vec<(String, String, String)> = [
        ("de", "Germany", "germany"),
        ("co.uk", "UK", "uk"),
        ("fr", "France", "france"),
        ("com", "USA", "usa"),
    ]
    .iter()
    .map(|(c, n, l)| (c.to_string(), n.to_string(), l.to_string()))
    .collect();
    assert_eq!(codes(&choose_regions(&entries, "")), vec!["de", "co.uk", "fr", "com"]);
    assert_eq!(codes(&choose_regions(&entries, "an")), vec!["de", "fr"]);
    assert_eq!(codes(&choose_regions(&entries, "u")), vec!["co.uk", "com"]);
    assert_eq!(codes(&choose_regions(&entries, "UK")), Vec::<&str>::new());
    assert_eq!(choose_regions(&entries, "fr"), vec![("fr".to_string(), "France".to_string())]);
    assert_eq!(choose_regions(&Vec::new(), ""), Vec::new());
}

#[test]
fn no_more_entries_are_chosen_than_the_limit() {
    let entries: Vec<(String, String, String)> =
        (0..40).map(|i| (format!("r{}", i), format!("R{}", i), format!("r{}", i))).collect();
    let found = choose_regions(&entries, "r");
    assert_eq!(found.len(), 25);
    assert_eq!(found[0].0, "r0");
    assert_eq!(found[24].0, "r24");
    assert_eq!(codes(&choose_regions(&entries, "r3")), vec![
        "r3", "r30", "r31", "r32", "r33", "r34", "r35", "r36", "r37", "r38", "r39"
    ]);
}

#[test]
fn lines_are_shown_one_below_the_other() {
    assert_eq!(show_lines(&Vec::new()), "No regions yet");
    assert_eq!(show_lines(&vec!["a".to_string()]), "a");
    assert_eq!(show_lines(&vec!["a".to_string(), "".to_string(), "b".to_string()]), "a\n\nb");
    assert_eq!(region_line_for("CO.UK", 7), "🌍 **CO.UK**: 7 links");
    assert_eq!(region_line_for("", -2), "🌍 ****: -2 links");
}
