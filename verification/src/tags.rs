//! The tag resolver: which tracking tag and which footer apply in a scope, and how the
//! clean link and the footer are written.

use crate::text::{
    chars_of, contains, decimal, decimal_text, has, occurs_at, substitute, substituted,
    substituted_single_match, views,
};
use vstd::prelude::*;
use vstd::string::*;

verus! {

/// Where a link was posted: in a direct message, or in the guild with this identifier.
#[derive(Clone, Debug, PartialEq, Eq)]
pub enum ScopeOf<T> {
    DirectMessage,
    Guild(T),
}

/// A scope as it is held at run time; its view holds the same over `Seq<char>`.
pub type Scope = ScopeOf<String>;

impl View for ScopeOf<String> {
    type V = ScopeOf<Seq<char>>;

    open spec fn view(&self) -> ScopeOf<Seq<char>> {
        match self {
            ScopeOf::DirectMessage => ScopeOf::DirectMessage,
            ScopeOf::Guild(id) => ScopeOf::Guild(id@),
        }
    }
}

/// The identifier under which the settings store and the usage log know a scope.
pub open spec fn scope_id(scope: ScopeOf<Seq<char>>) -> Seq<char> {
    match scope {
        ScopeOf::DirectMessage => "direct-message"@,
        ScopeOf::Guild(id) => id,
    }
}

/// The footer of a guild that has stored none.
pub open spec fn guild_footer() -> Seq<char> {
    "Using this link you support our server!"@
}

/// The tag and the footer template that apply. A guild's stored tag, where it is not
/// empty, goes with the guild's stored footer or else the built-in one. In a direct
/// message, and for a guild without such a tag, both the tag and the footer are the
/// defaults. `None` where the tag that was found is empty.
pub open spec fn resolved(
    in_guild: bool,
    stored_tag: Option<Seq<char>>,
    stored_footer: Option<Seq<char>>,
    default_tag: Seq<char>,
    signature: Seq<char>,
) -> Option<(Seq<char>, Seq<char>)> {
    if in_guild && stored_tag is Some && stored_tag->0.len() > 0 {
        Some(
            (
                stored_tag->0,
                match stored_footer {
                    Some(footer) => footer,
                    None => guild_footer(),
                },
            ),
        )
    } else if default_tag.len() > 0 {
        Some((default_tag, signature))
    } else {
        None
    }
}

/// The link to a catalog entry of a region's storefront, with a tracking tag.
pub open spec fn clean_link(region: Seq<char>, catalog_id: Seq<char>, tag: Seq<char>) -> Seq<char> {
    "https://amazon."@ + region + "/dp/"@ + catalog_id + "/?tag="@ + tag
}

/// How a user is referred to in a message.
pub open spec fn mention(user_id: nat) -> Seq<char> {
    "<@"@ + decimal(user_id) + ">"@
}

/// The footer below a link that `sender` posted in a guild: the template with the
/// sender in place of each `{{sender}}`, or, for a template without one, behind the
/// sender and ` recommended this. `.
pub open spec fn guild_footer_text(template: Seq<char>, sender: Seq<char>) -> Seq<char> {
    if contains(template, "{{sender}}"@) {
        substituted(template, "{{sender}}"@, sender, 0)
    } else {
        sender + " recommended this. "@ + template
    }
}

/// The footer below a link: in a direct message the template as it is.
pub open spec fn footer_text(
    scope: ScopeOf<Seq<char>>,
    template: Seq<char>,
    sender: Seq<char>,
) -> Seq<char> {
    match scope {
        ScopeOf::DirectMessage => template,
        ScopeOf::Guild(_) => guild_footer_text(template, sender),
    }
}

/// A tag that was resolved is never empty.
pub proof fn resolved_tag_is_not_empty(
    in_guild: bool,
    stored_tag: Option<Seq<char>>,
    stored_footer: Option<Seq<char>>,
    default_tag: Seq<char>,
    signature: Seq<char>,
)
    ensures
        match resolved(in_guild, stored_tag, stored_footer, default_tag, signature) {
            Some((tag, _)) => tag.len() > 0,
            None => default_tag.len() == 0,
        },
{
}

/// A guild's own tag, where it is not empty, is resolved together with the guild's own
/// footer, or with the built-in footer where the guild has stored none.
pub proof fn guild_tag_comes_first(
    tag: Seq<char>,
    stored_footer: Option<Seq<char>>,
    default_tag: Seq<char>,
    signature: Seq<char>,
)
    requires
        tag.len() > 0,
    ensures
        resolved(true, Some(tag), stored_footer, default_tag, signature) == Some(
            (
                tag,
                match stored_footer {
                    Some(footer) => footer,
                    None => guild_footer(),
                },
            ),
        ),
{
}

/// A guild without a tag of its own for the region is served as a direct message is:
/// with the default tag and the default signature, whatever footer the guild has
/// stored.
pub proof fn guild_without_tag_falls_back(
    stored_tag: Option<Seq<char>>,
    stored_footer: Option<Seq<char>>,
    default_tag: Seq<char>,
    signature: Seq<char>,
)
    requires
        match stored_tag {
            Some(tag) => tag.len() == 0,
            None => true,
        },
    ensures
        resolved(true, stored_tag, stored_footer, default_tag, signature) == resolved(
            false,
            None,
            None,
            default_tag,
            signature,
        ),
        default_tag.len() > 0 ==> resolved(true, stored_tag, stored_footer, default_tag, signature)
            == Some((default_tag, signature)),
{
}

/// What the settings store holds makes no difference in a direct message.
pub proof fn direct_message_uses_defaults(
    stored_tag: Option<Seq<char>>,
    stored_footer: Option<Seq<char>>,
    default_tag: Seq<char>,
    signature: Seq<char>,
)
    ensures
        resolved(false, stored_tag, stored_footer, default_tag, signature) == if default_tag.len()
            > 0 {
            Some((default_tag, signature))
        } else {
            None
        },
{
}

/// A template with one `{{sender}}` gets the sender in its place and is otherwise
/// kept; a template without any gets the sender and the fixed phrase in front.
pub proof fn footer_names_the_sender(
    before: Seq<char>,
    after: Seq<char>,
    template: Seq<char>,
    sender: Seq<char>,
)
    requires
        forall|j: int|
            j != before.len() ==> !occurs_at(before + "{{sender}}"@ + after, "{{sender}}"@, j),
    ensures
        guild_footer_text(before + "{{sender}}"@ + after, sender) == before + sender + after,
        !contains(template, "{{sender}}"@) ==> guild_footer_text(template, sender) == sender
            + " recommended this. "@ + template,
{
    reveal_strlit("{{sender}}");
    let whole = before + "{{sender}}"@ + after;
    let at = before.len() as int;
    assert(whole.subrange(at, at + 10) =~= "{{sender}}"@);
    assert(occurs_at(whole, "{{sender}}"@, at));
    substituted_single_match(before, "{{sender}}"@, after, sender);
}

impl ScopeOf<String> {
    /// Computes `scope_id`.
    pub fn id(&self) -> (id: String)
        ensures
            id@ == scope_id(self@),
    {
        match self {
            ScopeOf::DirectMessage => "direct-message".to_owned(),
            ScopeOf::Guild(id) => id.clone(),
        }
    }

    /// Whether the scope is a guild.
    pub fn is_guild(&self) -> (b: bool)
        ensures
            b == (self@ is Guild),
    {
        match self {
            ScopeOf::DirectMessage => false,
            ScopeOf::Guild(_) => true,
        }
    }
}

/// Resolves the tag and the footer template for a scope from what the settings store
/// holds and from the defaults.
pub fn resolve_tag(
    scope: &Scope,
    stored_tag: Option<String>,
    stored_footer: Option<String>,
    default_tag: String,
    signature: String,
) -> (r: Option<(String, String)>)
    ensures
        match r {
            Some((tag, footer)) => resolved(
                scope@ is Guild,
                views(stored_tag),
                views(stored_footer),
                default_tag@,
                signature@,
            ) == Some((tag@, footer@)),
            None => resolved(
                scope@ is Guild,
                views(stored_tag),
                views(stored_footer),
                default_tag@,
                signature@,
            ) is None,
        },
{
    if scope.is_guild() {
        if let Some(tag) = stored_tag {
            if !tag.as_str().is_empty() {
                let footer = match stored_footer {
                    Some(footer) => footer,
                    None => "Using this link you support our server!".to_owned(),
                };
                return Some((tag, footer));
            }
        }
    }
    if default_tag.as_str().is_empty() {
        None
    } else {
        Some((default_tag, signature))
    }
}

/// Builds `clean_link`.
pub fn clean_url(region: &str, catalog_id: &str, tag: &str) -> (url: String)
    ensures
        url@ == clean_link(region@, catalog_id@, tag@),
{
    let mut url = "https://amazon.".to_owned();
    url.append(region);
    url.append("/dp/");
    url.append(catalog_id);
    url.append("/?tag=");
    url.append(tag);
    url
}

/// Builds `mention`.
pub fn mention_of(user_id: u64) -> (m: String)
    ensures
        m@ == mention(user_id as nat),
{
    let mut m = "<@".to_owned();
    m.append(decimal_text(user_id).as_str());
    m.append(">");
    m
}

/// Builds `guild_footer_text`.
pub fn render_guild_footer(template: &str, sender: &str) -> (footer: String)
    ensures
        footer@ == guild_footer_text(template@, sender@),
{
    let text = chars_of(template);
    let token = chars_of("{{sender}}");
    if has(text.as_slice(), token.as_slice()) {
        substitute(template, "{{sender}}", sender)
    } else {
        let mut footer = sender.to_owned();
        footer.append(" recommended this. ");
        footer.append(template);
        footer
    }
}

/// Builds `footer_text`.
pub fn render_footer(scope: &Scope, template: &str, sender: &str) -> (footer: String)
    ensures
        footer@ == footer_text(scope@, template@, sender@),
{
    if scope.is_guild() {
        render_guild_footer(template, sender)
    } else {
        template.to_owned()
    }
}

} // verus!
