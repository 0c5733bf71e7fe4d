use affilify::config::Config;
use affilify::pipeline::{
    after_landing, decide, decide_with, process_amazon_url, resolve_url, start, Action, Event,
    Outcome, Stage, UsageEvent, REDIRECT_LIMIT,
};
use affilify::tags::Scope;

fn config(vars: &[(&str, &str)]) -> Config {
    Config::new(vars.iter().map(|(n, v)| (n.to_string(), v.to_string())).collect())
}

fn guild() -> Scope {
    Scope::Guild("4711".to_string())
}

fn tagged(clean_url: &str, footer: &str, scope: &str, region: &str) -> Outcome {
    Outcome::Tagged {
        clean_url: clean_url.to_string(),
        footer_template: footer.to_string(),
        usage: UsageEvent { scope: scope.to_string(), region: region.to_string() },
    }
}

const BUILT_IN: &str = "Using this link you support our server!";

#[test]
fn redirects_are_bounded() {
    assert_eq!(REDIRECT_LIMIT, 10);
}

#[test]
fn failed_request_leaves_the_input() {
    assert_eq!(resolve_url("https://amzn.to/abc", None), "https://amzn.to/abc");
    assert_eq!(
        resolve_url("https://amzn.to/abc", Some("https://www.amazon.de/dp/B0/".to_string())),
        "https://www.amazon.de/dp/B0/"
    );
}

#[test]
fn link_in_a_guild_with_a_tag_is_cleaned_and_logged_once() {
    let c = config(&[]);
    let (stage, action) = start("https://amazon.de/dp/B0EXAMPLE/", guild());
    assert_eq!(action, Action::Resolve { url: "https://amazon.de/dp/B0EXAMPLE/".to_string() });
    let landed = Event::Landed(Some("https://amazon.de/dp/B0EXAMPLE/".to_string()));
    let (stage, action) = process_amazon_url(stage, landed, &c);
    assert_eq!(
        action,
        Action::ReadSettings { guild: "4711".to_string(), region: "de".to_string() }
    );
    assert_eq!(
        stage,
        Stage::Reading {
            catalog_id: "B0EXAMPLE".to_string(),
            region: "de".to_string(),
            guild: "4711".to_string()
        }
    );
    let settings = Event::Settings { tag: Some("abc-21".to_string()), footer: None };
    let (stage, action) = process_amazon_url(stage, settings, &c);
    assert_eq!(stage, Stage::Done);
    assert_eq!(
        action,
        Action::Finish(tagged("https://amazon.de/dp/B0EXAMPLE/?tag=abc-21", BUILT_IN, "4711", "de"))
    );
    let again = Event::Settings { tag: Some("abc-21".to_string()), footer: None };
    assert_eq!(process_amazon_url(stage, again, &c), (Stage::Done, Action::Nothing));
}

#[test]
fn short_link_is_parsed_where_it_landed() {
    let c = config(&[("DEFAULT_TRACKING_TAG_CO_UK", "dev-uk-21"), ("DEFAULT_SIGNATURE", "sig")]);
    let (stage, _) = start("https://amzn.to/abc", Scope::DirectMessage);
    let landed = Event::Landed(Some("https://www.amazon.co.uk/Some-Thing/dp/B0ABC/ref=x?y=1".to_string()));
    let (stage, action) = process_amazon_url(stage, landed, &c);
    assert_eq!(stage, Stage::Done);
    assert_eq!(
        action,
        Action::Finish(tagged(
            "https://amazon.co.uk/dp/B0ABC/?tag=dev-uk-21",
            "sig",
            "direct-message",
            "co.uk"
        ))
    );
}

#[test]
fn failed_request_goes_on_with_the_input() {
    let c = config(&[("DEFAULT_TRACKING_TAG_DE", "dev-tag-21")]);
    let (stage, _) = start("https://www.amazon.de/dp/B0EXAMPLE", Scope::DirectMessage);
    let (stage, action) = process_amazon_url(stage, Event::Landed(None), &c);
    assert_eq!(stage, Stage::Done);
    assert_eq!(
        action,
        Action::Finish(tagged(
            "https://amazon.de/dp/B0EXAMPLE/?tag=dev-tag-21",
            "🤖 Powered by Affilify Bot",
            "direct-message",
            "de"
        ))
    );
}

#[test]
fn link_without_catalog_id_is_invalid() {
    let c = config(&[("DEFAULT_TRACKING_TAG_DE", "dev-tag-21")]);
    let (stage, _) = start("https://amzn.to/abc", guild());
    let (stage, action) = process_amazon_url(stage, Event::Landed(None), &c);
    assert_eq!(stage, Stage::Done);
    assert_eq!(action, Action::Finish(Outcome::InvalidUrl));
}

#[test]
fn region_without_any_tag_logs_nothing() {
    let c = config(&[("DEFAULT_TRACKING_TAG_DE", "dev-tag-21")]);
    let (stage, _) = start("https://www.amazon.fr/dp/B0EXAMPLE", guild());
    let (stage, action) = process_amazon_url(stage, Event::Landed(None), &c);
    assert_eq!(
        action,
        Action::ReadSettings { guild: "4711".to_string(), region: "fr".to_string() }
    );
    let (stage, action) =
        process_amazon_url(stage, Event::Settings { tag: None, footer: Some("ours".into()) }, &c);
    assert_eq!(stage, Stage::Done);
    assert_eq!(action, Action::Finish(Outcome::NoTagForRegion));

    let (stage, _) = start("https://www.amazon.fr/dp/B0EXAMPLE", Scope::DirectMessage);
    let (_, action) = process_amazon_url(stage, Event::Landed(None), &c);
    assert_eq!(action, Action::Finish(Outcome::NoTagForRegion));
}

#[test]
fn guild_without_tag_gets_default_tag_and_signature() {
    let c = config(&[("DEFAULT_TRACKING_TAG_DE", "dev-tag-21"), ("DEFAULT_SIGNATURE", "sig")]);
    assert_eq!(
        decide("B0EXAMPLE", "de", &guild(), None, Some("ours".to_string()), &c),
        tagged("https://amazon.de/dp/B0EXAMPLE/?tag=dev-tag-21", "sig", "4711", "de")
    );
    assert_eq!(
        decide("B0EXAMPLE", "de", &guild(), Some("g-tag-21".to_string()), Some("ours".to_string()), &c),
        tagged("https://amazon.de/dp/B0EXAMPLE/?tag=g-tag-21", "ours", "4711", "de")
    );
}

#[test]
fn event_that_does_not_belong_changes_nothing() {
    let c = config(&[]);
    let (stage, _) = start("https://amzn.to/abc", guild());
    let settings = Event::Settings { tag: Some("t".to_string()), footer: None };
    let (stage, action) = process_amazon_url(stage, settings, &c);
    assert_eq!(action, Action::Nothing);
    assert_eq!(stage, Stage::Resolving { url: "https://amzn.to/abc".to_string(), scope: guild() });
    let reading = Stage::Reading {
        catalog_id: "B0".to_string(),
        region: "de".to_string(),
        guild: "4711".to_string(),
    };
    let (stage, action) = process_amazon_url(reading.clone(), Event::Landed(None), &c);
    assert_eq!(action, Action::Nothing);
    assert_eq!(stage, reading);
    assert_eq!(process_amazon_url(Stage::Done, Event::Landed(None), &c), (Stage::Done, Action::Nothing));
}

#[test]
fn failing_store_leaves_the_defaults() {
    let c = config(&[("DEFAULT_TRACKING_TAG_DE", "dev-tag-21"), ("DEFAULT_SIGNATURE", "sig")]);
    let (stage, _) = start("https://www.amazon.de/dp/B0EXAMPLE", guild());
    let (stage, _) = process_amazon_url(stage, Event::Landed(None), &c);
    let (stage, action) = process_amazon_url(stage, Event::Settings { tag: None, footer: None }, &c);
    assert_eq!(stage, Stage::Done);
    assert_eq!(
        action,
        Action::Finish(tagged("https://amazon.de/dp/B0EXAMPLE/?tag=dev-tag-21", "sig", "4711", "de"))
    );
}

#[test]
fn every_tagged_link_carries_one_usage_event_of_its_scope_and_region() {
    let c = config(&[("DEFAULT_TRACKING_TAG_COM", "dev-com-20")]);
    for (scope, id) in [(guild(), "4711"), (Scope::DirectMessage, "direct-message")] {
        match decide("B01XYZ", "com", &scope, None, None, &c) {
            Outcome::Tagged { usage, clean_url, .. } => {
                assert_eq!(usage, UsageEvent { scope: id.to_string(), region: "com".to_string() });
                assert_eq!(clean_url, "https://amazon.com/dp/B01XYZ/?tag=dev-com-20");
            }
            other => panic!("unexpected outcome: {:?}", other),
        }
    }
}

#[test]
fn outcome_follows_from_what_is_stored_and_the_defaults() {
    let some = |s: &str| Some(s.to_string());
    assert_eq!(
        decide_with("B0", "de", &guild(), some("g-21"), None, "d-21".into(), "sig".into()),
        tagged("https://amazon.de/dp/B0/?tag=g-21", BUILT_IN, "4711", "de")
    );
    assert_eq!(
        decide_with("B0", "de", &guild(), some(""), some("ours"), "d-21".into(), "sig".into()),
        tagged("https://amazon.de/dp/B0/?tag=d-21", "sig", "4711", "de")
    );
    assert_eq!(
        decide_with("B0", "de", &Scope::DirectMessage, some("g-21"), None, "d-21".into(), "".into()),
        tagged("https://amazon.de/dp/B0/?tag=d-21", "", "direct-message", "de")
    );
    assert_eq!(
        decide_with("B0", "de", &guild(), None, None, "".into(), "sig".into()),
        Outcome::NoTagForRegion
    );
}

#[test]
fn parsed_link_decides_how_the_work_goes_on() {
    let c = config(&[("DEFAULT_TRACKING_TAG_IT", "dev-it-21")]);
    let link = Some(("B0X".to_string(), "it".to_string()));
    assert_eq!(after_landing(None, guild(), &c), (Stage::Done, Action::Finish(Outcome::InvalidUrl)));
    assert_eq!(
        after_landing(None, Scope::DirectMessage, &c),
        (Stage::Done, Action::Finish(Outcome::InvalidUrl))
    );
    assert_eq!(
        after_landing(link.clone(), guild(), &c),
        (
            Stage::Reading {
                catalog_id: "B0X".to_string(),
                region: "it".to_string(),
                guild: "4711".to_string()
            },
            Action::ReadSettings { guild: "4711".to_string(), region: "it".to_string() }
        )
    );
    assert_eq!(
        after_landing(link, Scope::DirectMessage, &c),
        (
            Stage::Done,
            Action::Finish(tagged(
                "https://amazon.it/dp/B0X/?tag=dev-it-21",
                "🤖 Powered by Affilify Bot",
                "direct-message",
                "it"
            ))
        )
    );
}
