use affilify::config::{
    database_url, default_signature, default_tag_of, default_tracking_tag, discord_token, Config,
};

fn config(vars: &[(&str, &str)]) -> Config {
    Config::new(vars.iter().map(|(n, v)| (n.to_string(), v.to_string())).collect())
}

#[test]
fn default_tag_is_read_from_the_variable_of_the_region() {
    let c = config(&[
        ("DEFAULT_TRACKING_TAG_DE", "dev-tag-21"),
        ("DEFAULT_TRACKING_TAG_CO_UK", "dev-uk-21"),
        ("DEFAULT_TRACKING_TAG_COM", ""),
    ]);
    assert_eq!(default_tracking_tag(&c, "de"), "dev-tag-21");
    assert_eq!(default_tracking_tag(&c, "co.uk"), "dev-uk-21");
    assert_eq!(default_tracking_tag(&c, "com"), "");
    assert_eq!(default_tracking_tag(&c, "fr"), "");
    assert_eq!(default_tracking_tag(&c, ""), "");
}

#[test]
fn variable_names_are_matched_as_they_are() {
    let c = config(&[("default_tracking_tag_de", "lower"), ("DEFAULT_TRACKING_TAG_DE", "upper")]);
    assert_eq!(default_tracking_tag(&c, "de"), "upper");
    assert_eq!(default_tracking_tag(&c, "DE"), "upper");
}

#[test]
fn first_variable_of_a_name_counts() {
    let c = config(&[("DEFAULT_SIGNATURE", "one"), ("DEFAULT_SIGNATURE", "two")]);
    assert_eq!(c.get("DEFAULT_SIGNATURE"), Some("one".to_string()));
    assert_eq!(c.get("OTHER"), None);
}

#[test]
fn signature_has_a_built_in_default() {
    assert_eq!(default_signature(&config(&[])), "🤖 Powered by Affilify Bot");
    assert_eq!(default_signature(&config(&[("DEFAULT_SIGNATURE", "mine")])), "mine");
    assert_eq!(default_signature(&config(&[("DEFAULT_SIGNATURE", "")])), "");
}

#[test]
fn database_path_loses_its_scheme() {
    assert_eq!(database_url(&config(&[])), "./bot.db");
    assert_eq!(database_url(&config(&[("DATABASE_URL", "sqlite://data/bot.db")])), "data/bot.db");
    assert_eq!(database_url(&config(&[("DATABASE_URL", "/var/bot.db")])), "/var/bot.db");
    assert_eq!(
        database_url(&config(&[("DATABASE_URL", "sqlite://sqlite://x")])),
        "sqlite://x"
    );
}

#[test]
fn token_is_there_or_not() {
    assert_eq!(discord_token(&config(&[])), None);
    assert_eq!(discord_token(&config(&[("DISCORD_TOKEN", "abc")])), Some("abc".to_string()));
}

#[test]
fn variable_of_a_region_has_underscores_for_dots() {
    let c = config(&[
        ("DEFAULT_TRACKING_TAG_COM_MX", "mx-20"),
        ("DEFAULT_TRACKING_TAG_", "none"),
        ("DEFAULT_TRACKING_TAG_co_uk", "lower"),
    ]);
    assert_eq!(default_tag_of(&c, "COM.MX"), "mx-20");
    assert_eq!(default_tag_of(&c, "COM_MX"), "mx-20");
    assert_eq!(default_tag_of(&c, ""), "none");
    assert_eq!(default_tag_of(&c, "co.uk"), "lower");
    assert_eq!(default_tag_of(&c, "CO.UK"), "");
}
