//! The configuration that the process was started with, as data: the default tags of
//! the regions, the default signature, and where the database and the token are found.

use crate::text::{
    first_from, first_from_is_unique, strip_once, stripped, substitute, substituted, to_upper,
    uppercased,
};
use vstd::prelude::*;
use vstd::string::*;

verus! {

/// The variables that the process was started with, read once: each a name and a value.
#[derive(Clone, Debug, PartialEq, Eq)]
pub struct Config {
    pub vars: Vec<(String, String)>,
}

impl View for Config {
    type V = Seq<(Seq<char>, Seq<char>)>;

    open spec fn view(&self) -> Seq<(Seq<char>, Seq<char>)> {
        Seq::new(self.vars@.len(), |i: int| (self.vars@[i].0@, self.vars@[i].1@))
    }
}

/// The value of the first variable that is called `name`.
pub open spec fn value_of(vars: Seq<(Seq<char>, Seq<char>)>, name: Seq<char>) -> Option<Seq<char>> {
    let at = first_from(vars.len() as int, 0, |j: int| vars[j].0 == name);
    if at < vars.len() {
        Some(vars[at].1)
    } else {
        None
    }
}

/// The value of the variable `name`, and `otherwise` where there is none.
pub open spec fn value_or(
    vars: Seq<(Seq<char>, Seq<char>)>,
    name: Seq<char>,
    otherwise: Seq<char>,
) -> Seq<char> {
    match value_of(vars, name) {
        Some(value) => value,
        None => otherwise,
    }
}

/// The signature that stands below a link where no guild says otherwise: the variable
/// `DEFAULT_SIGNATURE`, or the built-in one.
pub open spec fn signature_of(vars: Seq<(Seq<char>, Seq<char>)>) -> Seq<char> {
    value_or(vars, "DEFAULT_SIGNATURE"@, "🤖 Powered by Affilify Bot"@)
}

/// The name of the variable that holds the default tag of the region that is written
/// `upper` in upper case: `upper` with `_` for each dot, behind `DEFAULT_TRACKING_TAG_`.
pub open spec fn tag_variable_of(upper: Seq<char>) -> Seq<char> {
    "DEFAULT_TRACKING_TAG_"@ + substituted(upper, "."@, "_"@, 0)
}

/// The name of the variable that holds the default tag of a region.
pub open spec fn tag_variable(region: Seq<char>) -> Seq<char> {
    tag_variable_of(uppercased(region))
}

impl Config {
    /// A configuration of these variables.
    pub fn new(vars: Vec<(String, String)>) -> (config: Config)
        ensures
            config.vars == vars,
    {
        Config { vars }
    }

    /// The value of the variable `name`.
    pub fn get(&self, name: &str) -> (value: Option<String>)
        ensures
            match value {
                Some(v) => value_of(self@, name@) == Some(v@),
                None => value_of(self@, name@) is None,
            },
    {
        let wanted = name.to_owned();
        let mut i: usize = 0;
        while i < self.vars.len()
            invariant
                i <= self.vars.len(),
                wanted@ == name@,
                forall|j: int| 0 <= j < i ==> self@[j].0 != name@,
            ensures
                i <= self.vars.len(),
                forall|j: int| 0 <= j < i ==> self@[j].0 != name@,
                i < self.vars.len() ==> self@[i as int].0 == name@,
            decreases self.vars.len() - i,
        {
            if self.vars[i].0 == wanted {
                break;
            }
            i += 1;
        }
        proof {
            let vars = self@;
            first_from_is_unique(vars.len() as int, 0, |j: int| vars[j].0 == name@, i as int);
        }
        if i < self.vars.len() {
            Some(self.vars[i].1.clone())
        } else {
            None
        }
    }
}

/// The default tag of the region that is written `upper` in upper case: the value of
/// its variable, and the empty text where there is none.
pub fn default_tag_of(config: &Config, upper: &str) -> (tag: String)
    ensures
        tag@ == value_or(config@, tag_variable_of(upper@), Seq::empty()),
{
    let suffix = substitute(upper, ".", "_");
    let mut name = "DEFAULT_TRACKING_TAG_".to_owned();
    name.append(suffix.as_str());
    match config.get(name.as_str()) {
        Some(tag) => tag,
        None => String::new(),
    }
}

/// The default tag of a region.
pub fn default_tracking_tag(config: &Config, region: &str) -> (tag: String)
    ensures
        tag@ == value_or(config@, tag_variable(region@), Seq::empty()),
{
    default_tag_of(config, to_upper(region).as_str())
}

/// Finds `signature_of`.
pub fn default_signature(config: &Config) -> (signature: String)
    ensures
        signature@ == signature_of(config@),
{
    match config.get("DEFAULT_SIGNATURE") {
        Some(signature) => signature,
        None => "🤖 Powered by Affilify Bot".to_owned(),
    }
}

/// The path of the database: the variable `DATABASE_URL`, or `./bot.db`, without a
/// leading `sqlite://`.
pub fn database_url(config: &Config) -> (path: String)
    ensures
        path@ == stripped(value_or(config@, "DATABASE_URL"@, "./bot.db"@), "sqlite://"@),
{
    let raw = match config.get("DATABASE_URL") {
        Some(raw) => raw,
        None => "./bot.db".to_owned(),
    };
    strip_once(raw.as_str(), "sqlite://").to_owned()
}

/// The token that the bot logs in with, where the variable `DISCORD_TOKEN` is set.
pub fn discord_token(config: &Config) -> (token: Option<String>)
    ensures
        match token {
            Some(t) => value_of(config@, "DISCORD_TOKEN"@) == Some(t@),
            None => value_of(config@, "DISCORD_TOKEN"@) is None,
        },
{
    config.get("DISCORD_TOKEN")
}

} // verus!
