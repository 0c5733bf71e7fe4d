use affilify::messages::{hint_text, message, plan_message, MessagePlan, HINT_LIFETIME_SECONDS};
use affilify::pipeline::{Outcome, UsageEvent};
use affilify::replies::{command_reply, Button, ErrorKey, Offer, Reply, BUTTON_LIMIT};
use affilify::tags::Scope;

fn guild() -> Scope {
    Scope::Guild("4711".to_string())
}

fn tagged(clean_url: &str, footer: &str) -> Outcome {
    Outcome::Tagged {
        clean_url: clean_url.to_string(),
        footer_template: footer.to_string(),
        usage: UsageEvent { scope: "4711".to_string(), region: "de".to_string() },
    }
}

fn button(label: &str, url: &str) -> Button {
    Button { label: label.to_string(), url: url.to_string() }
}

#[test]
fn message_of_a_bot_or_outside_a_guild_is_ignored() {
    assert_eq!(plan_message(true, true, "https://amzn.to/abc"), MessagePlan::Ignore);
    assert_eq!(plan_message(false, false, "https://amzn.to/abc"), MessagePlan::Ignore);
}

#[test]
fn message_without_links_is_ignored() {
    assert_eq!(plan_message(false, true, "hello"), MessagePlan::Ignore);
    assert_eq!(plan_message(false, true, ""), MessagePlan::Ignore);
    assert_eq!(plan_message(false, true, "xamazon.de"), MessagePlan::Ignore);
    assert_eq!(plan_message(false, true, "amazon. is big"), MessagePlan::Ignore);
}

#[test]
fn link_only_message_is_deleted() {
    assert_eq!(plan_message(false, true, "https://amzn.to/abc"), MessagePlan::DeleteAndHint);
    assert_eq!(plan_message(false, true, "  amazon.de/dp/B0 \n amzn.to/x "), MessagePlan::DeleteAndHint);
}

#[test]
fn mixed_message_gets_buttons() {
    assert_eq!(
        plan_message(false, true, "check this out https://amzn.to/abc thanks amazon.de/x"),
        MessagePlan::OfferButtons(vec!["https://amzn.to/abc".to_string(), "https://amazon.de/x".to_string()])
    );
}

#[test]
fn hint_names_the_sender() {
    assert_eq!(hint_text("<@1>"), "<@1>, please use `/amazon <link>` to clean and tag your URL.");
    assert_eq!(HINT_LIFETIME_SECONDS, 10);
}

#[test]
fn command_reply_shows_link_and_footer() {
    let outcome = tagged("https://amazon.de/dp/B0EXAMPLE/?tag=abc-21", "thanks {{sender}}");
    assert_eq!(
        command_reply(&outcome, &guild(), "<@7>"),
        Reply::Text("https://amazon.de/dp/B0EXAMPLE/?tag=abc-21\n-# thanks <@7>".to_string())
    );
    assert_eq!(
        command_reply(&outcome, &Scope::DirectMessage, "<@7>"),
        Reply::Text("https://amazon.de/dp/B0EXAMPLE/?tag=abc-21\n-# thanks {{sender}}".to_string())
    );
    let plain = tagged("https://amazon.de/dp/B0/?tag=t", "Support us!");
    assert_eq!(
        command_reply(&plain, &guild(), "<@7>"),
        Reply::Text("https://amazon.de/dp/B0/?tag=t\n-# <@7> recommended this. Support us!".to_string())
    );
}

#[test]
fn command_reply_names_the_error() {
    assert_eq!(command_reply(&Outcome::InvalidUrl, &guild(), "<@7>"), Reply::Error(ErrorKey::InvalidUrl));
    assert_eq!(
        command_reply(&Outcome::NoTagForRegion, &guild(), "<@7>"),
        Reply::Error(ErrorKey::NoTagForRegion)
    );
    assert_eq!(ErrorKey::InvalidUrl.key(), "invalid-url");
    assert_eq!(ErrorKey::NoTagForRegion.key(), "no-tag-for-region");
    assert_eq!(ErrorKey::InvalidUrl.notice(), "Could not parse Amazon URL. Ensure it's valid.");
    assert_eq!(ErrorKey::NoTagForRegion.notice(), "No tracking tag available for this region.");
}

#[test]
fn single_link_gets_a_button_without_number() {
    let mut offer = Offer::new(vec!["https://amzn.to/a".to_string()]);
    assert_eq!(offer.pending(), Some("https://amzn.to/a".to_string()));
    offer.take(&tagged("https://amazon.de/dp/A/?tag=t", "Support us!"));
    assert_eq!(offer.pending(), None);
    assert_eq!(
        offer.finish("<@7>"),
        Some(Reply::Buttons {
            content: "-# <@7> recommended this. Support us!".to_string(),
            buttons: vec![button("🛒 View on Amazon", "https://amazon.de/dp/A/?tag=t")],
        })
    );
}

#[test]
fn several_links_get_numbered_buttons() {
    let urls: Vec<String> = ["a", "b", "c"].iter().map(|x| format!("https://amzn.to/{}", x)).collect();
    let mut offer = Offer::new(urls);
    offer.take(&tagged("https://amazon.de/dp/A/?tag=t", ""));
    assert_eq!(offer.pending(), Some("https://amzn.to/b".to_string()));
    offer.take(&Outcome::InvalidUrl);
    assert_eq!(offer.pending(), Some("https://amzn.to/c".to_string()));
    offer.take(&tagged("https://amazon.de/dp/C/?tag=t", "by {{sender}}"));
    assert_eq!(offer.pending(), None);
    offer.take(&tagged("https://amazon.de/dp/D/?tag=t", "late"));
    assert_eq!(
        offer.finish("<@7>"),
        Some(Reply::Buttons {
            content: "-# by <@7>".to_string(),
            buttons: vec![
                button("🛒 View on Amazon (1)", "https://amazon.de/dp/A/?tag=t"),
                button("🛒 View on Amazon (3)", "https://amazon.de/dp/C/?tag=t"),
            ],
        })
    );
}

#[test]
fn first_footer_that_is_not_empty_is_kept() {
    let urls: Vec<String> = ["a", "b"].iter().map(|x| format!("https://amzn.to/{}", x)).collect();
    let mut offer = Offer::new(urls);
    offer.take(&tagged("https://amazon.de/dp/A/?tag=t", "first"));
    offer.take(&tagged("https://amazon.de/dp/B/?tag=t", "second"));
    match offer.finish("<@7>") {
        Some(Reply::Buttons { content, buttons }) => {
            assert_eq!(content, "-# <@7> recommended this. first");
            assert_eq!(buttons.len(), 2);
        }
        other => panic!("unexpected reply: {:?}", other),
    }
}

#[test]
fn offer_without_button_presents_nothing() {
    let mut offer = Offer::new(vec!["https://amzn.to/a".to_string()]);
    offer.take(&Outcome::NoTagForRegion);
    assert_eq!(offer.finish("<@7>"), None);
    assert_eq!(Offer::new(Vec::new()).finish("<@7>"), None);
    assert_eq!(Offer::new(Vec::new()).pending(), None);
}

#[test]
fn buttons_stop_at_the_limit() {
    assert_eq!(BUTTON_LIMIT, 5);
    let urls: Vec<String> = (0..8).map(|i| format!("https://amzn.to/{}", i)).collect();
    let mut offer = Offer::new(urls);
    let mut worked = 0;
    while let Some(url) = offer.pending() {
        assert_eq!(url, format!("https://amzn.to/{}", worked));
        if worked == 1 {
            offer.take(&Outcome::InvalidUrl);
        } else {
            offer.take(&tagged(&format!("https://amazon.de/dp/X{}/?tag=t", worked), "f"));
        }
        worked += 1;
    }
    assert_eq!(worked, 6);
    match offer.finish("<@7>") {
        Some(Reply::Buttons { buttons, .. }) => {
            let labels: Vec<String> = buttons.iter().map(|b| b.label.clone()).collect();
            assert_eq!(
                labels,
                vec![
                    "🛒 View on Amazon (1)",
                    "🛒 View on Amazon (3)",
                    "🛒 View on Amazon (4)",
                    "🛒 View on Amazon (5)",
                    "🛒 View on Amazon (6)"
                ]
            );
        }
        other => panic!("unexpected reply: {:?}", other),
    }
}

#[test]
fn white_space_around_a_message_changes_nothing() {
    for text in [
        "https://amzn.to/abc",
        "check this out https://amzn.to/abc thanks amazon.de/x",
        "amazon.de/dp/B0 and more",
        "hello",
    ] {
        let padded = format!(" \n\t{}\u{a0} ", text);
        assert_eq!(plan_message(false, true, &padded), plan_message(false, true, text));
    }
}

#[test]
fn posted_message_counts_without_the_white_space_around_it() {
    assert_eq!(message(false, true, "  https://amzn.to/abc \n"), MessagePlan::DeleteAndHint);
    assert_eq!(
        message(false, true, "\tlook amazon.de/x \u{a0}"),
        MessagePlan::OfferButtons(vec!["https://amazon.de/x".to_string()])
    );
    for text in ["https://amzn.to/abc", " a amzn.to/b ", "hello", "", "   ", " amazon. "] {
        assert_eq!(message(false, true, text), plan_message(false, true, text.trim()));
    }
}

#[test]
fn posted_message_without_marketplace_name_is_ignored() {
    for text in ["", "  ", "hello there", "https://example.com/x", "amazon", "amzn.t o", " Amazon.de "] {
        assert_eq!(message(false, true, text), MessagePlan::Ignore, "text: {:?}", text);
    }
    assert_eq!(message(true, true, "https://amzn.to/abc"), MessagePlan::Ignore);
    assert_eq!(message(false, false, "https://amzn.to/abc"), MessagePlan::Ignore);
}

#[test]
fn message_with_a_link_to_another_site_is_not_deleted() {
    assert_eq!(
        message(false, true, "https://amzn.to/abc https://example.com/x"),
        MessagePlan::OfferButtons(vec!["https://amzn.to/abc".to_string()])
    );
}

#[test]
fn button_reply_names_the_sender_in_the_kept_footer() {
    let urls: Vec<String> = ["a", "b", "c"].iter().map(|x| format!("https://amzn.to/{}", x)).collect();
    let mut offer = Offer::new(urls.clone());
    offer.take(&Outcome::NoTagForRegion);
    offer.take(&tagged("https://amazon.de/dp/B/?tag=t", "thanks {{sender}}, {{sender}}!"));
    offer.take(&tagged("https://amazon.de/dp/C/?tag=t", "later"));
    match offer.finish("<@7>") {
        Some(Reply::Buttons { content, buttons }) => {
            assert_eq!(content, "-# thanks <@7>, <@7>!");
            assert_eq!(buttons.len(), 2);
        }
        other => panic!("unexpected reply: {:?}", other),
    }
    let mut offer = Offer::new(urls);
    offer.take(&tagged("https://amazon.de/dp/A/?tag=t", ""));
    offer.take(&tagged("https://amazon.de/dp/B/?tag=t", "second"));
    match offer.finish("<@7>") {
        Some(Reply::Buttons { content, .. }) => assert_eq!(content, "-# <@7> recommended this. second"),
        other => panic!("unexpected reply: {:?}", other),
    }
}

#[test]
fn buttons_are_offered_in_the_order_of_the_text() {
    assert_eq!(
        message(false, true, "see amzn.to/abc and https://amazon.de/dp/B0EXAMPLE/ too"),
        MessagePlan::OfferButtons(vec![
            "https://amzn.to/abc".to_string(),
            "https://amazon.de/dp/B0EXAMPLE/".to_string()
        ])
    );
}
