//! What the messaging side is asked to present: a text, buttons, or the key of an
//! error.

use crate::pipeline::{Outcome, OutcomeOf, UsageOf};
use crate::tags::{
    footer_text, guild_footer_text, render_footer, render_guild_footer, Scope, ScopeOf,
};
use crate::text::{contains, decimal, decimal_text, substituted};
use vstd::prelude::*;
use vstd::string::*;

verus! {

/// How many buttons one message can carry.
pub const BUTTON_LIMIT: usize = 5;

/// Why no link can be shown.
#[derive(Clone, Copy, Debug, PartialEq, Eq, Structural)]
pub enum ErrorKey {
    InvalidUrl,
    NoTagForRegion,
}

/// A button that leads to a link.
#[derive(Clone, Debug, PartialEq, Eq)]
pub struct ButtonOf<T> {
    pub label: T,
    pub url: T,
}

/// A button as it is held at run time; its view holds the same over `Seq<char>`.
pub type Button = ButtonOf<String>;

impl View for ButtonOf<String> {
    type V = ButtonOf<Seq<char>>;

    open spec fn view(&self) -> ButtonOf<Seq<char>> {
        ButtonOf { label: self.label@, url: self.url@ }
    }
}

/// What the messaging side is asked to present.
#[derive(Clone, Debug, PartialEq, Eq)]
pub enum Reply {
    /// A message of this text.
    Text(String),
    /// A message of this text with these buttons below it.
    Buttons { content: String, buttons: Vec<Button> },
    /// The message that belongs to this key.
    Error(ErrorKey),
}

/// A reply, with its texts as sequences of characters.
pub enum ReplyView {
    Text(Seq<char>),
    Buttons { content: Seq<char>, buttons: Seq<ButtonOf<Seq<char>>> },
    Error(ErrorKey),
}

/// What each button holds.
pub open spec fn button_views(buttons: Seq<Button>) -> Seq<ButtonOf<Seq<char>>> {
    Seq::new(buttons.len(), |i: int| buttons[i]@)
}

impl View for Reply {
    type V = ReplyView;

    open spec fn view(&self) -> ReplyView {
        match self {
            Reply::Text(text) => ReplyView::Text(text@),
            Reply::Buttons { content, buttons } => ReplyView::Buttons {
                content: content@,
                buttons: button_views(buttons@),
            },
            Reply::Error(key) => ReplyView::Error(*key),
        }
    }
}

/// The key of an error, as the messaging side knows it.
pub open spec fn key_text(key: ErrorKey) -> Seq<char> {
    match key {
        ErrorKey::InvalidUrl => "invalid-url"@,
        ErrorKey::NoTagForRegion => "no-tag-for-region"@,
    }
}

/// What a user is told about an error.
pub open spec fn error_notice(key: ErrorKey) -> Seq<char> {
    match key {
        ErrorKey::InvalidUrl => "Could not parse Amazon URL. Ensure it's valid."@,
        ErrorKey::NoTagForRegion => "No tracking tag available for this region."@,
    }
}

/// The answer to the command that asks for one link: the clean link with the footer
/// in small print below it, or the key of what went wrong.
pub open spec fn command_answer(
    outcome: OutcomeOf<Seq<char>>,
    scope: ScopeOf<Seq<char>>,
    sender: Seq<char>,
) -> ReplyView {
    match outcome {
        OutcomeOf::Tagged { clean_url, footer_template, .. } => ReplyView::Text(
            clean_url + "\n-# "@ + footer_text(scope, footer_template, sender),
        ),
        OutcomeOf::InvalidUrl => ReplyView::Error(ErrorKey::InvalidUrl),
        OutcomeOf::NoTagForRegion => ReplyView::Error(ErrorKey::NoTagForRegion),
    }
}

/// The label of the button for the link at `position` among `total` links: numbered
/// from one where there are several links.
pub open spec fn button_label(position: nat, total: nat) -> Seq<char> {
    if total > 1 {
        "🛒 View on Amazon ("@ + decimal(position + 1) + ")"@
    } else {
        "🛒 View on Amazon"@
    }
}

impl ErrorKey {
    /// Builds `key_text`.
    pub fn key(&self) -> (text: String)
        ensures
            text@ == key_text(*self),
    {
        match self {
            ErrorKey::InvalidUrl => "invalid-url".to_owned(),
            ErrorKey::NoTagForRegion => "no-tag-for-region".to_owned(),
        }
    }

    /// Builds `error_notice`.
    pub fn notice(&self) -> (text: String)
        ensures
            text@ == error_notice(*self),
    {
        match self {
            ErrorKey::InvalidUrl => "Could not parse Amazon URL. Ensure it's valid.".to_owned(),
            ErrorKey::NoTagForRegion => "No tracking tag available for this region.".to_owned(),
        }
    }
}

/// Builds `command_answer`.
pub fn command_reply(outcome: &Outcome, scope: &Scope, sender: &str) -> (reply: Reply)
    ensures
        reply@ == command_answer(outcome@, scope@, sender@),
{
    match outcome {
        OutcomeOf::Tagged { clean_url, footer_template, .. } => {
            let mut text = clean_url.clone();
            text.append("\n-# ");
            text.append(render_footer(scope, footer_template.as_str(), sender).as_str());
            Reply::Text(text)
        },
        OutcomeOf::InvalidUrl => Reply::Error(ErrorKey::InvalidUrl),
        OutcomeOf::NoTagForRegion => Reply::Error(ErrorKey::NoTagForRegion),
    }
}

/// Builds `button_label`.
fn label_of(position: usize, total: usize) -> (label: String)
    requires
        position < total,
    ensures
        label@ == button_label(position as nat, total as nat),
{
    if total > 1 {
        let mut label = "🛒 View on Amazon (".to_owned();
        label.append(decimal_text((position + 1) as u64).as_str());
        label.append(")");
        label
    } else {
        "🛒 View on Amazon".to_owned()
    }
}

/// The buttons that are being collected for the links of one message.
pub struct Offer {
    urls: Vec<String>,
    next: usize,
    buttons: Vec<Button>,
    footer_template: String,
}

/// The links of the message, how many of them were worked on, the buttons so far, and
/// the footer template that goes with them.
pub struct OfferView {
    pub urls: Seq<Seq<char>>,
    pub next: nat,
    pub buttons: Seq<ButtonOf<Seq<char>>>,
    pub footer_template: Seq<char>,
}

impl View for Offer {
    type V = OfferView;

    closed spec fn view(&self) -> OfferView {
        OfferView {
            urls: self.urls.deep_view(),
            next: self.next as nat,
            buttons: button_views(self.buttons@),
            footer_template: self.footer_template@,
        }
    }
}

/// An offer for these links, before any was worked on.
pub open spec fn offered(urls: Seq<Seq<char>>) -> OfferView {
    OfferView { urls, next: 0, buttons: Seq::empty(), footer_template: Seq::empty() }
}

/// No link was counted that the message does not hold, no button was made without a
/// link, the buttons are within the limit, and no footer template is kept before the
/// first button.
pub open spec fn well_formed(offer: OfferView) -> bool {
    &&& offer.buttons.len() <= offer.next <= offer.urls.len()
    &&& offer.buttons.len() <= BUTTON_LIMIT
    &&& offer.buttons.len() == 0 ==> offer.footer_template.len() == 0
}

/// The link to work on next: the first that was not worked on yet, unless the
/// buttons have reached the limit.
pub open spec fn pending_link(offer: OfferView) -> Option<Seq<char>> {
    if offer.next < offer.urls.len() && offer.buttons.len() < BUTTON_LIMIT {
        Some(offer.urls[offer.next as int])
    } else {
        None
    }
}

/// The offer after the outcome for the pending link. A tagged link gets a button, and
/// its footer template is kept where none was kept before that is not empty. Without a
/// pending link the offer stays as it is.
pub open spec fn taken(offer: OfferView, outcome: OutcomeOf<Seq<char>>) -> OfferView {
    if pending_link(offer) is None {
        offer
    } else {
        match outcome {
            OutcomeOf::Tagged { clean_url, footer_template, .. } => OfferView {
                urls: offer.urls,
                next: offer.next + 1,
                buttons: offer.buttons.push(
                    ButtonOf { label: button_label(offer.next, offer.urls.len()), url: clean_url },
                ),
                footer_template: if offer.footer_template.len() == 0 {
                    footer_template
                } else {
                    offer.footer_template
                },
            },
            _ => OfferView {
                urls: offer.urls,
                next: offer.next + 1,
                buttons: offer.buttons,
                footer_template: offer.footer_template,
            },
        }
    }
}

/// What is presented for an offer: nothing without a button, else the buttons below
/// the footer in small print.
pub open spec fn offer_answer(offer: OfferView, sender: Seq<char>) -> Option<ReplyView> {
    if offer.buttons.len() == 0 {
        None
    } else {
        Some(
            ReplyView::Buttons {
                content: "-# "@ + guild_footer_text(offer.footer_template, sender),
                buttons: offer.buttons,
            },
        )
    }
}

/// Each outcome keeps an offer well formed, and an offer with a pending link has
/// fewer buttons than the limit.
pub proof fn offer_stays_well_formed(offer: OfferView, outcome: OutcomeOf<Seq<char>>)
    requires
        well_formed(offer),
    ensures
        well_formed(taken(offer, outcome)),
        taken(offer, outcome).urls == offer.urls,
        pending_link(offer) is Some ==> taken(offer, outcome).next == offer.next + 1,
        pending_link(offer) is None ==> taken(offer, outcome) == offer,
{
}

/// The footer template of the first link that is tagged is kept, and one that is not
/// empty stays whatever comes after it.
pub proof fn first_tagged_link_gives_the_footer(
    offer: OfferView,
    clean_url: Seq<char>,
    footer_template: Seq<char>,
    usage: UsageOf<Seq<char>>,
    later: OutcomeOf<Seq<char>>,
)
    requires
        well_formed(offer),
        pending_link(offer) is Some,
        offer.buttons.len() == 0,
    ensures
        taken(offer, OutcomeOf::Tagged { clean_url, footer_template, usage }).footer_template
            == footer_template,
        taken(offer, OutcomeOf::Tagged { clean_url, footer_template, usage }).buttons.len() == 1,
        footer_template.len() > 0 ==> taken(
            taken(offer, OutcomeOf::Tagged { clean_url, footer_template, usage }),
            later,
        ).footer_template == footer_template,
{
}

/// The buttons of a message are sent below the kept footer template in small print,
/// with the sender in place of each `{{sender}}`, or, for a template without one,
/// behind the sender and ` recommended this. `.
pub proof fn button_reply_names_the_sender(offer: OfferView, sender: Seq<char>)
    ensures
        match offer_answer(offer, sender) {
            Some(ReplyView::Buttons { content, buttons }) => {
                &&& offer.buttons.len() > 0
                &&& buttons == offer.buttons
                &&& content == "-# "@ + (if contains(offer.footer_template, "{{sender}}"@) {
                    substituted(offer.footer_template, "{{sender}}"@, sender, 0)
                } else {
                    sender + " recommended this. "@ + offer.footer_template
                })
            },
            Some(_) => false,
            None => offer.buttons.len() == 0,
        },
{
}

impl Offer {
    /// Whether the offer is well formed.
    pub open spec fn wf(&self) -> bool {
        well_formed(self@)
    }

    /// Starts an offer for the links of a message.
    pub fn new(urls: Vec<String>) -> (offer: Offer)
        ensures
            offer.wf(),
            offer@ == offered(urls.deep_view()),
    {
        let offer = Offer { urls, next: 0, buttons: Vec::new(), footer_template: String::new() };
        assert(button_views(offer.buttons@) =~= Seq::empty());
        offer
    }

    /// The link to work on next, if there is one.
    pub fn pending(&self) -> (link: Option<String>)
        requires
            self.wf(),
        ensures
            match link {
                Some(url) => pending_link(self@) == Some(url@),
                None => pending_link(self@) is None,
            },
    {
        if self.next < self.urls.len() && self.buttons.len() < BUTTON_LIMIT {
            Some(self.urls[self.next].clone())
        } else {
            None
        }
    }

    /// Takes the outcome of the work on the pending link.
    pub fn take(&mut self, outcome: &Outcome)
        requires
            old(self).wf(),
        ensures
            final(self).wf(),
            final(self)@ == taken(old(self)@, outcome@),
    {
        if !(self.next < self.urls.len() && self.buttons.len() < BUTTON_LIMIT) {
            return ;
        }
        match outcome {
            OutcomeOf::Tagged { clean_url, footer_template, .. } => {
                let label = label_of(self.next, self.urls.len());
                self.buttons.push(ButtonOf { label, url: clean_url.clone() });
                if self.footer_template.as_str().is_empty() {
                    self.footer_template = footer_template.clone();
                }
                assert(button_views(self.buttons@) =~= button_views(old(self).buttons@).push(
                    ButtonOf {
                        label: button_label(old(self).next as nat, old(self).urls@.len()),
                        url: clean_url@,
                    },
                ));
            },
            _ => {},
        }
        self.next = self.next + 1;
    }

    /// What is to be presented when no link is pending any more.
    pub fn finish(self, sender: &str) -> (reply: Option<Reply>)
        requires
            self.wf(),
        ensures
            match reply {
                Some(r) => offer_answer(self@, sender@) == Some(r@),
                None => offer_answer(self@, sender@) is None,
            },
    {
        if self.buttons.len() == 0 {
            return None;
        }
        let mut content = "-# ".to_owned();
        content.append(render_guild_footer(self.footer_template.as_str(), sender).as_str());
        Some(Reply::Buttons { content, buttons: self.buttons })
    }
}

} // verus!
