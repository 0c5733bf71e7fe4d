//! The work on one link, step by step: follow its redirects, parse where it landed,
//! read the guild's settings, decide. Each step takes what came back from outside and
//! says what is to be done outside next.

use crate::config::{
    default_signature, default_tracking_tag, signature_of, tag_variable, value_or, Config,
};
use crate::parser::{parse_amazon_url, parsed_link};
use crate::tags::{clean_link, clean_url, resolve_tag, resolved, scope_id, Scope, ScopeOf};
use crate::text::views;
use vstd::prelude::*;
use vstd::string::*;

verus! {

/// How many redirects the resolver follows before it gives up.
pub const REDIRECT_LIMIT: usize = 10;

/// One use of a tag, to be appended to the usage log.
#[derive(Clone, Debug, PartialEq, Eq)]
pub struct UsageOf<T> {
    pub scope: T,
    pub region: T,
}

/// A usage event as it is held at run time; its view holds the same over `Seq<char>`.
pub type UsageEvent = UsageOf<String>;

/// How the work on one link ends.
#[derive(Clone, Debug, PartialEq, Eq)]
pub enum OutcomeOf<T> {
    /// The link was tagged: `usage` is to be logged, and `clean_url` to be shown with a
    /// footer made from `footer_template`.
    Tagged { clean_url: T, footer_template: T, usage: UsageOf<T> },
    /// The link holds no catalog id.
    InvalidUrl,
    /// No tag is known for the link's region.
    NoTagForRegion,
}

/// An outcome as it is held at run time; its view holds the same over `Seq<char>`.
pub type Outcome = OutcomeOf<String>;

/// Where the work on one link stands.
#[derive(Clone, Debug, PartialEq, Eq)]
pub enum StageOf<T> {
    /// The redirects of `url` are being followed.
    Resolving { url: T, scope: ScopeOf<T> },
    /// The settings of `guild` for `region` are being read.
    Reading { catalog_id: T, region: T, guild: T },
    /// The work is over.
    Done,
}

/// A stage as it is held at run time; its view holds the same over `Seq<char>`.
pub type Stage = StageOf<String>;

/// What came back from outside.
#[derive(Clone, Debug, PartialEq, Eq)]
pub enum EventOf<T> {
    /// The URL at which the redirects ended, or `None` where the request failed.
    Landed(Option<T>),
    /// What the settings store holds: the guild's tag for the region and the guild's
    /// footer, each `None` where there is no row or the store failed.
    Settings { tag: Option<T>, footer: Option<T> },
}

/// An event as it is held at run time; its view holds the same over `Seq<char>`.
pub type Event = EventOf<String>;

/// What is to be done outside next.
#[derive(Clone, Debug, PartialEq, Eq)]
pub enum ActionOf<T> {
    /// Follow the redirects of `url`, and come back with `Landed`.
    Resolve { url: T },
    /// Read the tag of `guild` for `region` and the footer of `guild`, and come back
    /// with `Settings`.
    ReadSettings { guild: T, region: T },
    /// Act on the outcome.
    Finish(OutcomeOf<T>),
    /// The event did not belong to the stage: nothing is to be done.
    Nothing,
}

/// An action as it is held at run time; its view holds the same over `Seq<char>`.
pub type Action = ActionOf<String>;

impl View for UsageOf<String> {
    type V = UsageOf<Seq<char>>;

    open spec fn view(&self) -> UsageOf<Seq<char>> {
        UsageOf { scope: self.scope@, region: self.region@ }
    }
}

impl View for OutcomeOf<String> {
    type V = OutcomeOf<Seq<char>>;

    open spec fn view(&self) -> OutcomeOf<Seq<char>> {
        match self {
            OutcomeOf::Tagged { clean_url, footer_template, usage } => OutcomeOf::Tagged {
                clean_url: clean_url@,
                footer_template: footer_template@,
                usage: usage@,
            },
            OutcomeOf::InvalidUrl => OutcomeOf::InvalidUrl,
            OutcomeOf::NoTagForRegion => OutcomeOf::NoTagForRegion,
        }
    }
}

impl View for StageOf<String> {
    type V = StageOf<Seq<char>>;

    open spec fn view(&self) -> StageOf<Seq<char>> {
        match self {
            StageOf::Resolving { url, scope } => StageOf::Resolving { url: url@, scope: scope@ },
            StageOf::Reading { catalog_id, region, guild } => StageOf::Reading {
                catalog_id: catalog_id@,
                region: region@,
                guild: guild@,
            },
            StageOf::Done => StageOf::Done,
        }
    }
}

impl View for EventOf<String> {
    type V = EventOf<Seq<char>>;

    open spec fn view(&self) -> EventOf<Seq<char>> {
        match self {
            EventOf::Landed(url) => EventOf::Landed(views(*url)),
            EventOf::Settings { tag, footer } => EventOf::Settings {
                tag: views(*tag),
                footer: views(*footer),
            },
        }
    }
}

impl View for ActionOf<String> {
    type V = ActionOf<Seq<char>>;

    open spec fn view(&self) -> ActionOf<Seq<char>> {
        match self {
            ActionOf::Resolve { url } => ActionOf::Resolve { url: url@ },
            ActionOf::ReadSettings { guild, region } => ActionOf::ReadSettings {
                guild: guild@,
                region: region@,
            },
            ActionOf::Finish(outcome) => ActionOf::Finish(outcome@),
            ActionOf::Nothing => ActionOf::Nothing,
        }
    }
}

/// The URL to go on with: where the redirects ended, or the input where the request
/// failed.
pub open spec fn landing(input: Seq<char>, landed: Option<Seq<char>>) -> Seq<char> {
    match landed {
        Some(url) => url,
        None => input,
    }
}

/// The outcome for a link of `region` with `catalog_id` in `scope`, given what the
/// settings store holds and what the defaults are: tagged where a tag is resolved,
/// with one usage event for the scope and the region.
pub open spec fn decided_with(
    catalog_id: Seq<char>,
    region: Seq<char>,
    scope: ScopeOf<Seq<char>>,
    stored_tag: Option<Seq<char>>,
    stored_footer: Option<Seq<char>>,
    default_tag: Seq<char>,
    signature: Seq<char>,
) -> OutcomeOf<Seq<char>> {
    match resolved(scope is Guild, stored_tag, stored_footer, default_tag, signature) {
        Some((tag, footer_template)) => OutcomeOf::Tagged {
            clean_url: clean_link(region, catalog_id, tag),
            footer_template,
            usage: UsageOf { scope: scope_id(scope), region },
        },
        None => OutcomeOf::NoTagForRegion,
    }
}

/// The outcome for a link, with the defaults of the configuration.
pub open spec fn decided(
    catalog_id: Seq<char>,
    region: Seq<char>,
    scope: ScopeOf<Seq<char>>,
    stored_tag: Option<Seq<char>>,
    stored_footer: Option<Seq<char>>,
    config: Seq<(Seq<char>, Seq<char>)>,
) -> OutcomeOf<Seq<char>> {
    decided_with(
        catalog_id,
        region,
        scope,
        stored_tag,
        stored_footer,
        value_or(config, tag_variable(region), Seq::empty()),
        signature_of(config),
    )
}

/// The stage in which the work on a link starts, and the first thing to do.
pub open spec fn started(url: Seq<char>, scope: ScopeOf<Seq<char>>) -> (
    StageOf<Seq<char>>,
    ActionOf<Seq<char>>,
) {
    (StageOf::Resolving { url, scope }, ActionOf::Resolve { url })
}

/// What follows when the redirects were followed and the URL at which they ended was
/// parsed: the work is over where it holds no link and, with the outcome, in a direct
/// message; for a guild its settings are read first.
pub open spec fn landed(
    link: Option<(Seq<char>, Seq<char>)>,
    scope: ScopeOf<Seq<char>>,
    config: Seq<(Seq<char>, Seq<char>)>,
) -> (StageOf<Seq<char>>, ActionOf<Seq<char>>) {
    match link {
        None => (StageOf::Done, ActionOf::Finish(OutcomeOf::InvalidUrl)),
        Some((catalog_id, region)) => match scope {
            ScopeOf::DirectMessage => (
                StageOf::Done,
                ActionOf::Finish(decided(catalog_id, region, scope, None, None, config)),
            ),
            ScopeOf::Guild(guild) => (
                StageOf::Reading { catalog_id, region, guild },
                ActionOf::ReadSettings { guild, region },
            ),
        },
    }
}

/// The stage that follows on an event, and what is to be done then. An event that does
/// not belong to the stage changes nothing.
pub open spec fn stepped(
    stage: StageOf<Seq<char>>,
    event: EventOf<Seq<char>>,
    config: Seq<(Seq<char>, Seq<char>)>,
) -> (StageOf<Seq<char>>, ActionOf<Seq<char>>) {
    match (stage, event) {
        (StageOf::Resolving { url, scope }, EventOf::Landed(url_landed)) => landed(
            parsed_link(landing(url, url_landed)),
            scope,
            config,
        ),
        (StageOf::Reading { catalog_id, region, guild }, EventOf::Settings { tag, footer }) => (
            StageOf::Done,
            ActionOf::Finish(
                decided(catalog_id, region, ScopeOf::Guild(guild), tag, footer, config),
            ),
        ),
        _ => (stage, ActionOf::Nothing),
    }
}

/// A usage event is logged for a link if and only if a tag was resolved for it, and
/// then it names the scope and the region of the link, and the clean link carries the
/// tag, which is not empty.
pub proof fn usage_goes_with_a_tag(
    catalog_id: Seq<char>,
    region: Seq<char>,
    scope: ScopeOf<Seq<char>>,
    stored_tag: Option<Seq<char>>,
    stored_footer: Option<Seq<char>>,
    default_tag: Seq<char>,
    signature: Seq<char>,
)
    ensures
        match decided_with(
            catalog_id,
            region,
            scope,
            stored_tag,
            stored_footer,
            default_tag,
            signature,
        ) {
            OutcomeOf::Tagged { clean_url, footer_template, usage } => {
                let found = resolved(
                    scope is Guild,
                    stored_tag,
                    stored_footer,
                    default_tag,
                    signature,
                );
                &&& found is Some
                &&& (found->0).0.len() > 0
                &&& clean_url == clean_link(region, catalog_id, (found->0).0)
                &&& footer_template == (found->0).1
                &&& usage.scope == scope_id(scope)
                &&& usage.region == region
            },
            OutcomeOf::NoTagForRegion => resolved(
                scope is Guild,
                stored_tag,
                stored_footer,
                default_tag,
                signature,
            ) is None,
            OutcomeOf::InvalidUrl => false,
        },
{
}

/// The work on a link is over after the landing URL, or after the settings that were
/// asked for on it: no third event is needed, and one that does not belong to the
/// stage changes nothing.
pub proof fn every_link_is_settled(
    url: Seq<char>,
    scope: ScopeOf<Seq<char>>,
    landed: Option<Seq<char>>,
    tag: Option<Seq<char>>,
    footer: Option<Seq<char>>,
    config: Seq<(Seq<char>, Seq<char>)>,
)
    ensures
        ({
            let first = stepped(started(url, scope).0, EventOf::Landed(landed), config);
            let second = stepped(first.0, EventOf::Settings { tag, footer }, config);
            &&& first.1 is Finish <==> first.0 is Done
            &&& first.0 is Done || (first.1 is ReadSettings && scope is Guild)
            &&& second.0 is Done
            &&& first.0 is Done ==> second.1 is Nothing
            &&& !(first.0 is Done) ==> second.1 is Finish
        }),
        stepped(StageOf::Done, EventOf::Landed(landed), config) == (
            StageOf::<Seq<char>>::Done,
            ActionOf::<Seq<char>>::Nothing,
        ),
        stepped(StageOf::Done, EventOf::Settings { tag, footer }, config) == (
            StageOf::<Seq<char>>::Done,
            ActionOf::<Seq<char>>::Nothing,
        ),
{
}

/// Chooses the URL to go on with after the redirects were followed.
pub fn resolve_url(input: &str, landed: Option<String>) -> (url: String)
    ensures
        url@ == landing(input@, views(landed)),
{
    match landed {
        Some(url) => url,
        None => input.to_owned(),
    }
}

/// Decides the outcome for a parsed link, given the defaults.
pub fn decide_with(
    catalog_id: &str,
    region: &str,
    scope: &Scope,
    stored_tag: Option<String>,
    stored_footer: Option<String>,
    default_tag: String,
    signature: String,
) -> (outcome: Outcome)
    ensures
        outcome@ == decided_with(
            catalog_id@,
            region@,
            scope@,
            views(stored_tag),
            views(stored_footer),
            default_tag@,
            signature@,
        ),
{
    match resolve_tag(scope, stored_tag, stored_footer, default_tag, signature) {
        Some((tag, footer_template)) => OutcomeOf::Tagged {
            clean_url: clean_url(region, catalog_id, tag.as_str()),
            footer_template,
            usage: UsageOf { scope: scope.id(), region: region.to_owned() },
        },
        None => OutcomeOf::NoTagForRegion,
    }
}

/// Decides the outcome for a parsed link, with the defaults of the configuration.
pub fn decide(
    catalog_id: &str,
    region: &str,
    scope: &Scope,
    stored_tag: Option<String>,
    stored_footer: Option<String>,
    config: &Config,
) -> (outcome: Outcome)
    ensures
        outcome@ == decided(
            catalog_id@,
            region@,
            scope@,
            views(stored_tag),
            views(stored_footer),
            config@,
        ),
{
    let default_tag = default_tracking_tag(config, region);
    let signature = default_signature(config);
    decide_with(catalog_id, region, scope, stored_tag, stored_footer, default_tag, signature)
}

/// Starts the work on a link.
pub fn start(url: &str, scope: Scope) -> (next: (Stage, Action))
    ensures
        (next.0@, next.1@) == started(url@, scope@),
{
    (StageOf::Resolving { url: url.to_owned(), scope }, ActionOf::Resolve { url: url.to_owned() })
}

/// What the text of an optional link holds.
pub open spec fn link_view(link: Option<(String, String)>) -> Option<(Seq<char>, Seq<char>)> {
    match link {
        Some((catalog_id, region)) => Some((catalog_id@, region@)),
        None => None,
    }
}

/// Goes on after the landing URL was parsed.
pub fn after_landing(link: Option<(String, String)>, scope: Scope, config: &Config) -> (next: (
    Stage,
    Action,
))
    ensures
        (next.0@, next.1@) == landed(link_view(link), scope@, config@),
{
    match link {
        None => (StageOf::Done, ActionOf::Finish(OutcomeOf::InvalidUrl)),
        Some((catalog_id, region)) => match scope {
            ScopeOf::DirectMessage => {
                let outcome = decide(
                    catalog_id.as_str(),
                    region.as_str(),
                    &scope,
                    None,
                    None,
                    config,
                );
                (StageOf::Done, ActionOf::Finish(outcome))
            },
            ScopeOf::Guild(guild) => {
                let action = ActionOf::ReadSettings {
                    guild: guild.clone(),
                    region: region.clone(),
                };
                (StageOf::Reading { catalog_id, region, guild }, action)
            },
        },
    }
}

/// Takes the work on a link one step further: from the stage and what came back from
/// outside to the next stage and what is to be done next.
pub fn process_amazon_url(stage: Stage, event: Event, config: &Config) -> (next: (Stage, Action))
    ensures
        (next.0@, next.1@) == stepped(stage@, event@, config@),
{
    match (stage, event) {
        (StageOf::Resolving { url, scope }, EventOf::Landed(landed)) => {
            let target = resolve_url(url.as_str(), landed);
            after_landing(parse_amazon_url(target.as_str()), scope, config)
        },
        (StageOf::Reading { catalog_id, region, guild }, EventOf::Settings { tag, footer }) => {
            let scope = ScopeOf::Guild(guild);
            let outcome = decide(catalog_id.as_str(), region.as_str(), &scope, tag, footer, config);
            (StageOf::Done, ActionOf::Finish(outcome))
        },
        (stage, _) => (stage, ActionOf::Nothing),
    }
}

} // verus!
