//! What is to be done about a message that was posted in a guild.

use crate::classifier::{is_amazon_link_only, link_only, link_only_text_holds_a_link};
use crate::extractor::{extract_amazon_urls, extracted};
use crate::grammar::{names_marketplace, Marks};
use crate::text::{chars_of, trim, trimmed};
use vstd::prelude::*;
use vstd::string::*;

verus! {

/// For how many seconds the hint that follows on a deleted message stays.
pub const HINT_LIFETIME_SECONDS: u64 = 10;

/// What is to be done about a message.
#[derive(Clone, Debug, PartialEq, Eq)]
pub enum MessagePlan {
    /// Nothing.
    Ignore,
    /// The message holds links only: delete it and hint at the command.
    DeleteAndHint,
    /// The message holds links among other text: offer a button for each of them.
    OfferButtons(Vec<String>),
}

/// A plan, with the links as texts.
pub enum MessagePlanView {
    Ignore,
    DeleteAndHint,
    OfferButtons(Seq<Seq<char>>),
}

impl View for MessagePlan {
    type V = MessagePlanView;

    open spec fn view(&self) -> MessagePlanView {
        match self {
            MessagePlan::Ignore => MessagePlanView::Ignore,
            MessagePlan::DeleteAndHint => MessagePlanView::DeleteAndHint,
            MessagePlan::OfferButtons(urls) => MessagePlanView::OfferButtons(urls.deep_view()),
        }
    }
}

/// What is to be done about a message: nothing where a bot wrote it, outside a guild,
/// or where no marketplace link is found in it; else by whether it is link-only.
pub open spec fn planned(author_is_bot: bool, in_guild: bool, content: Seq<char>) -> MessagePlanView {
    if author_is_bot || !in_guild || !names_marketplace(content) || extracted(content).len() == 0 {
        MessagePlanView::Ignore
    } else if link_only(content) {
        MessagePlanView::DeleteAndHint
    } else {
        MessagePlanView::OfferButtons(extracted(content))
    }
}

/// What is to be done about a message as it was posted: its text counts without the
/// white space around it.
pub open spec fn message_plan(author_is_bot: bool, in_guild: bool, content: Seq<char>) -> MessagePlanView {
    planned(author_is_bot, in_guild, trimmed(content))
}

/// A message of a bot, a message outside a guild, and a message whose text does not
/// name the marketplace is ignored: it is not classified, and nothing is deleted or
/// sent for it.
pub proof fn message_without_marketplace_name_is_ignored(
    author_is_bot: bool,
    in_guild: bool,
    content: Seq<char>,
)
    requires
        author_is_bot || !in_guild || !names_marketplace(trimmed(content)),
    ensures
        message_plan(author_is_bot, in_guild, content) == MessagePlanView::Ignore,
        !names_marketplace(trimmed(content)) ==> !link_only(trimmed(content)),
{
}

/// A message of a user in a guild whose text names the marketplace is deleted if and
/// only if the text is link-only; else it gets buttons for the links that are
/// extracted from it, or is ignored where there is none.
pub proof fn message_with_marketplace_name_is_classified(content: Seq<char>)
    requires
        names_marketplace(trimmed(content)),
    ensures
        link_only(trimmed(content)) <==> message_plan(false, true, content)
            == MessagePlanView::DeleteAndHint,
        !link_only(trimmed(content)) && extracted(trimmed(content)).len() > 0 ==> message_plan(
            false,
            true,
            content,
        ) == MessagePlanView::OfferButtons(extracted(trimmed(content))),
        extracted(trimmed(content)).len() == 0 ==> message_plan(false, true, content)
            == MessagePlanView::Ignore,
{
    if link_only(trimmed(content)) {
        link_only_text_holds_a_link(trimmed(content));
    }
}

/// The hint that is sent to `sender` in place of a deleted message.
pub open spec fn hint(sender: Seq<char>) -> Seq<char> {
    sender + ", please use `/amazon <link>` to clean and tag your URL."@
}

/// Decides what is to be done about a message of this text.
pub fn plan_message(author_is_bot: bool, in_guild: bool, content: &str) -> (plan: MessagePlan)
    ensures
        plan@ == planned(author_is_bot, in_guild, content@),
{
    if author_is_bot || !in_guild {
        return MessagePlan::Ignore;
    }
    let text = chars_of(content);
    if !Marks::new().names(text.as_slice()) {
        return MessagePlan::Ignore;
    }
    let urls = extract_amazon_urls(content);
    if urls.len() == 0 {
        return MessagePlan::Ignore;
    }
    if is_amazon_link_only(content) {
        MessagePlan::DeleteAndHint
    } else {
        MessagePlan::OfferButtons(urls)
    }
}

/// Decides what is to be done about a message as it was posted.
pub fn message(author_is_bot: bool, in_guild: bool, content: &str) -> (plan: MessagePlan)
    ensures
        plan@ == message_plan(author_is_bot, in_guild, content@),
{
    plan_message(author_is_bot, in_guild, trim(content))
}

/// Builds `hint`.
pub fn hint_text(sender: &str) -> (text: String)
    ensures
        text@ == hint(sender@),
{
    let mut text = sender.to_owned();
    text.append(", please use `/amazon <link>` to clean and tag your URL.");
    text
}

} // verus!
