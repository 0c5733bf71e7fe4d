//! The configuration form of a guild: its texts, what was entered in it, the writes
//! to the settings store that follow from it, and what the user is told afterwards.

use crate::text::{
    chars_of, contains, decimal, decimal_text, has, matches_at, occurs_at, same_text, stripped_or,
    to_upper, trim, trimmed, uppercased, views,
};
use vstd::prelude::*;
use vstd::string::*;

verus! {

/// The longest tag that the form takes.
pub const TAG_MAX_LENGTH: u16 = 50;

/// The longest footer that the form takes.
pub const FOOTER_MAX_LENGTH: u16 = 500;

/// One write to the settings store.
#[derive(Clone, Debug, PartialEq, Eq)]
pub enum WriteOf<T> {
    /// Store `tag` as the tag of `guild` for `region`.
    SetTag { guild: T, region: T, tag: T },
    /// Store `footer` as the footer of `guild`.
    SetFooter { guild: T, footer: T },
}

/// A write as it is held at run time; its view holds the same over `Seq<char>`.
pub type Write = WriteOf<String>;

impl View for WriteOf<String> {
    type V = WriteOf<Seq<char>>;

    open spec fn view(&self) -> WriteOf<Seq<char>> {
        match self {
            WriteOf::SetTag { guild, region, tag } => WriteOf::SetTag {
                guild: guild@,
                region: region@,
                tag: tag@,
            },
            WriteOf::SetFooter { guild, footer } => WriteOf::SetFooter {
                guild: guild@,
                footer: footer@,
            },
        }
    }
}

/// What each write holds.
pub open spec fn write_views(writes: Seq<Write>) -> Seq<WriteOf<Seq<char>>> {
    Seq::new(writes.len(), |i: int| writes[i]@)
}

/// Who may configure a guild: its owner and its administrators.
pub open spec fn allowed(is_owner: bool, is_administrator: bool) -> bool {
    is_owner || is_administrator
}

/// The identifier of the form for a region.
pub open spec fn form_id(region: Seq<char>) -> Seq<char> {
    "config_modal_"@ + region
}

/// The region that a form with this identifier is for.
pub open spec fn form_region(custom_id: Seq<char>) -> Seq<char> {
    stripped_or(custom_id, "config_modal_"@, "unknown"@)
}

/// The title of the form for a region that is written `upper` in upper case.
pub open spec fn form_title_with(region: Seq<char>, upper: Seq<char>) -> Seq<char> {
    if region == "global"@ {
        "🌍 Global Amazon Configuration"@
    } else {
        "🌍 Configure Amazon "@ + upper
    }
}

/// The title of the form for a region.
pub open spec fn form_title(region: Seq<char>) -> Seq<char> {
    form_title_with(region, uppercased(region))
}

/// The label of the tag field of the form for the region that is written `upper` in
/// upper case.
pub open spec fn tag_label_with(upper: Seq<char>) -> Seq<char> {
    "🏷️ Tracking Tag for "@ + upper
}

/// The label of the tag field of the form for a region.
pub open spec fn tag_label(region: Seq<char>) -> Seq<char> {
    tag_label_with(uppercased(region))
}

/// The example that the tag field shows while it is empty.
pub open spec fn tag_placeholder(region: Seq<char>) -> Seq<char> {
    if contains(region, "co."@) {
        "your-tag-21"@
    } else {
        "your-tag-20"@
    }
}

/// What was entered in a field: its text without the white space around it, and `None`
/// where nothing is left of it.
pub open spec fn entered(raw: Option<Seq<char>>) -> Option<Seq<char>> {
    match raw {
        Some(text) => if trimmed(text).len() > 0 {
            Some(trimmed(text))
        } else {
            None
        },
        None => None,
    }
}

/// What was entered in the field `id` of a form: the entry of the last field of that
/// name that holds one.
pub open spec fn form_entry(fields: Seq<(Seq<char>, Option<Seq<char>>)>, id: Seq<char>) -> Option<
    Seq<char>,
>
    decreases fields.len(),
{
    if fields.len() == 0 {
        None
    } else if fields.last().0 == id && entered(fields.last().1) is Some {
        entered(fields.last().1)
    } else {
        form_entry(fields.drop_last(), id)
    }
}

/// The tag that the form shows for a region: that of the last of the guild's stored
/// tags for the region, and the empty text where there is none.
pub open spec fn shown_tag(tags: Seq<(Seq<char>, Seq<char>)>, region: Seq<char>) -> Seq<char>
    decreases tags.len(),
{
    if tags.len() == 0 {
        Seq::empty()
    } else if tags.last().0 == region {
        tags.last().1
    } else {
        shown_tag(tags.drop_last(), region)
    }
}

/// The regions that get a tag where a guild that has none yet sets one for all.
pub open spec fn popular_regions() -> Seq<Seq<char>> {
    seq!["com"@, "de"@, "co.uk"@, "fr"@]
}

/// Whether the regions for which the guild has a tag must be read before the writes
/// can be planned: where a tag is set for all regions.
pub open spec fn regions_wanted(region: Seq<char>, tag: Option<Seq<char>>) -> bool {
    region == "global"@ && tag is Some
}

/// The regions whose tag is written: the one of the form, or, for all regions, those
/// for which the guild has a tag, or the popular ones where it has none.
pub open spec fn target_regions(region: Seq<char>, existing: Seq<Seq<char>>) -> Seq<Seq<char>> {
    if region != "global"@ {
        seq![region]
    } else if existing.len() > 0 {
        existing
    } else {
        popular_regions()
    }
}

/// One write of `tag` for each of `regions`.
pub open spec fn tag_writes(guild: Seq<char>, regions: Seq<Seq<char>>, tag: Seq<char>) -> Seq<
    WriteOf<Seq<char>>,
> {
    Seq::new(regions.len(), |i: int| WriteOf::SetTag { guild, region: regions[i], tag })
}

/// The writes that a form asks for: those of the tag, where one was entered, then that
/// of the footer, where one was entered.
pub open spec fn planned_writes(
    guild: Seq<char>,
    region: Seq<char>,
    tag: Option<Seq<char>>,
    footer: Option<Seq<char>>,
    existing: Seq<Seq<char>>,
) -> Seq<WriteOf<Seq<char>>> {
    let tags = match tag {
        Some(tag) => tag_writes(guild, target_regions(region, existing), tag),
        None => Seq::empty(),
    };
    match footer {
        Some(footer) => tags.push(WriteOf::SetFooter { guild, footer }),
        None => tags,
    }
}

/// What the user is told after the writes for a region that is written `upper` in
/// upper case: how many were made, that none was asked for, or the error of the store.
pub open spec fn save_message_with(
    region: Seq<char>,
    upper: Seq<char>,
    saved: Result<nat, Seq<char>>,
) -> Seq<char> {
    match saved {
        Ok(writes) => if writes == 0 {
            "ℹ️ No changes made."@
        } else if region == "global"@ {
            "✅ Global configuration updated!\n🌍 "@ + decimal(writes) + " regions configured"@
        } else {
            "✅ Configuration updated for "@ + upper + "!\n🌍 "@ + decimal(writes)
                + " items configured"@
        },
        Err(error) => "❌ Error saving configuration: "@ + error,
    }
}

/// What the user is told after the writes.
pub open spec fn save_message(region: Seq<char>, saved: Result<nat, Seq<char>>) -> Seq<char> {
    save_message_with(region, uppercased(region), saved)
}

/// As many writes are planned as there are target regions, where a tag was entered,
/// and one more where a footer was entered; a form without entries plans none.
pub proof fn writes_are_counted(
    guild: Seq<char>,
    region: Seq<char>,
    tag: Option<Seq<char>>,
    footer: Option<Seq<char>>,
    existing: Seq<Seq<char>>,
)
    ensures
        planned_writes(guild, region, tag, footer, existing).len() == (if tag is Some {
            target_regions(region, existing).len()
        } else {
            0
        }) + (if footer is Some {
            1nat
        } else {
            0
        }),
        target_regions(region, existing).len() > 0,
        forall|i: int|
            0 <= i < planned_writes(guild, region, tag, footer, existing).len() ==> match (
                #[trigger] planned_writes(guild, region, tag, footer, existing)[i]
            ) {
                WriteOf::SetTag { guild: g, region: r, tag: t } => g == guild && tag == Some(t)
                    && target_regions(region, existing).contains(r),
                WriteOf::SetFooter { guild: g, footer: f } => g == guild && footer == Some(f),
            },
{
    let regions = target_regions(region, existing);
    let writes = planned_writes(guild, region, tag, footer, existing);
    assert forall|i: int| 0 <= i < writes.len() implies match (#[trigger] writes[i]) {
        WriteOf::SetTag { guild: g, region: r, tag: t } => g == guild && tag == Some(t)
            && regions.contains(r),
        WriteOf::SetFooter { guild: g, footer: f } => g == guild && footer == Some(f),
    } by {
        if tag is Some && i < regions.len() {
            assert(regions[i] == regions[i]);
            assert(regions.contains(regions[i]));
        }
    }
}

/// Decides `allowed`.
pub fn may_configure(is_owner: bool, is_administrator: bool) -> (ok: bool)
    ensures
        ok == allowed(is_owner, is_administrator),
{
    is_owner || is_administrator
}

/// Builds `form_id`.
pub fn form_id_of(region: &str) -> (id: String)
    ensures
        id@ == form_id(region@),
{
    let mut id = "config_modal_".to_owned();
    id.append(region);
    id
}

/// Whether a form with this identifier is a configuration form.
pub fn is_config_form(custom_id: &str) -> (b: bool)
    ensures
        b == occurs_at(custom_id@, "config_modal_"@, 0),
{
    let text = chars_of(custom_id);
    let lead = chars_of("config_modal_");
    matches_at(text.as_slice(), 0, lead.as_slice())
}

/// Computes `form_region`.
pub fn form_region_of(custom_id: &str) -> (region: String)
    ensures
        region@ == form_region(custom_id@),
{
    let text = chars_of(custom_id);
    let lead = chars_of("config_modal_");
    if matches_at(text.as_slice(), 0, lead.as_slice()) {
        custom_id.substring_char(lead.len(), text.len()).to_owned()
    } else {
        "unknown".to_owned()
    }
}

/// Builds `form_title_with`.
pub fn form_title_for(region: &str, upper: &str) -> (title: String)
    ensures
        title@ == form_title_with(region@, upper@),
{
    if same_text(region, "global") {
        "🌍 Global Amazon Configuration".to_owned()
    } else {
        let mut title = "🌍 Configure Amazon ".to_owned();
        title.append(upper);
        title
    }
}

/// Builds `form_title`.
pub fn form_title_of(region: &str) -> (title: String)
    ensures
        title@ == form_title(region@),
{
    form_title_for(region, to_upper(region).as_str())
}

/// Builds `tag_label_with`.
pub fn tag_label_for(upper: &str) -> (label: String)
    ensures
        label@ == tag_label_with(upper@),
{
    let mut label = "🏷️ Tracking Tag for ".to_owned();
    label.append(upper);
    label
}

/// Builds `tag_label`.
pub fn tag_label_of(region: &str) -> (label: String)
    ensures
        label@ == tag_label(region@),
{
    tag_label_for(to_upper(region).as_str())
}

/// Builds `tag_placeholder`.
pub fn tag_placeholder_of(region: &str) -> (hint: String)
    ensures
        hint@ == tag_placeholder(region@),
{
    let text = chars_of(region);
    let mark = chars_of("co.");
    if has(text.as_slice(), mark.as_slice()) {
        "your-tag-21".to_owned()
    } else {
        "your-tag-20".to_owned()
    }
}

/// Reads what was entered in a field.
pub fn form_value(raw: &Option<String>) -> (value: Option<String>)
    ensures
        views(value) == entered(views(*raw)),
{
    match raw {
        Some(text) => {
            let kept = trim(text.as_str());
            if kept.is_empty() {
                None
            } else {
                Some(kept.to_owned())
            }
        },
        None => None,
    }
}

/// What each field of a form holds: its name and its text.
pub open spec fn field_views(fields: Seq<(String, Option<String>)>) -> Seq<
    (Seq<char>, Option<Seq<char>>),
> {
    Seq::new(fields.len(), |i: int| (fields[i].0@, views(fields[i].1)))
}

/// Reads what was entered in the field `id` of a form.
pub fn read_form(fields: &Vec<(String, Option<String>)>, id: &str) -> (value: Option<String>)
    ensures
        views(value) == form_entry(field_views(fields@), id@),
{
    let ghost all = field_views(fields@);
    let mut n: usize = fields.len();
    assert(all.take(n as int) =~= all);
    while n > 0
        invariant
            n <= fields.len(),
            all == field_views(fields@),
            form_entry(all.take(n as int), id@) == form_entry(all, id@),
        decreases n,
    {
        let field = &fields[n - 1];
        assert(all.take(n as int).last() == all[n - 1]);
        assert(all.take(n as int).drop_last() =~= all.take(n - 1));
        if same_text(field.0.as_str(), id) {
            let value = form_value(&field.1);
            if value.is_some() {
                return value;
            }
        }
        n -= 1;
    }
    None
}

/// What each stored tag holds: its region and the tag.
pub open spec fn tag_views(tags: Seq<(String, String)>) -> Seq<(Seq<char>, Seq<char>)> {
    Seq::new(tags.len(), |i: int| (tags[i].0@, tags[i].1@))
}

/// Finds `shown_tag` among the stored tags of a guild.
pub fn current_tag(tags: &Vec<(String, String)>, region: &str) -> (tag: String)
    ensures
        tag@ == shown_tag(tag_views(tags@), region@),
{
    let ghost all = tag_views(tags@);
    let mut n: usize = tags.len();
    assert(all.take(n as int) =~= all);
    while n > 0
        invariant
            n <= tags.len(),
            all == tag_views(tags@),
            shown_tag(all.take(n as int), region@) == shown_tag(all, region@),
        decreases n,
    {
        assert(all.take(n as int).last() == all[n - 1]);
        assert(all.take(n as int).drop_last() =~= all.take(n - 1));
        if same_text(tags[n - 1].0.as_str(), region) {
            return tags[n - 1].1.clone();
        }
        n -= 1;
    }
    String::new()
}

/// Decides `regions_wanted`.
pub fn needs_regions(region: &str, tag: &Option<String>) -> (b: bool)
    ensures
        b == regions_wanted(region@, views(*tag)),
{
    same_text(region, "global") && tag.is_some()
}

/// Plans the writes that a form asks for. `existing` holds the regions for which the
/// guild has a tag; it is read only where a tag is set for all regions.
pub fn plan_writes(
    guild: &str,
    region: &str,
    tag: &Option<String>,
    footer: &Option<String>,
    existing: &Vec<String>,
) -> (writes: Vec<Write>)
    ensures
        write_views(writes@) == planned_writes(
            guild@,
            region@,
            views(*tag),
            views(*footer),
            existing.deep_view(),
        ),
{
    let mut writes: Vec<Write> = Vec::new();
    if let Some(tag) = tag {
        if !same_text(region, "global") {
            writes.push(
                WriteOf::SetTag {
                    guild: guild.to_owned(),
                    region: region.to_owned(),
                    tag: tag.clone(),
                },
            );
            assert(write_views(writes@) =~= tag_writes(guild@, seq![region@], tag@));
        } else if existing.len() > 0 {
            let mut i: usize = 0;
            while i < existing.len()
                invariant
                    i <= existing.len(),
                    write_views(writes@) == tag_writes(
                        guild@,
                        existing.deep_view().take(i as int),
                        tag@,
                    ),
                decreases existing.len() - i,
            {
                let ghost before = write_views(writes@);
                let ghost done = existing.deep_view().take(i as int);
                writes.push(
                    WriteOf::SetTag {
                        guild: guild.to_owned(),
                        region: existing[i].clone(),
                        tag: tag.clone(),
                    },
                );
                proof {
                    let write = WriteOf::SetTag { guild: guild@, region: existing@[i as int]@, tag: tag@ };
                    assert(write_views(writes@) =~= before.push(write));
                    assert(existing.deep_view().take(i + 1) =~= done.push(existing@[i as int]@));
                    assert(tag_writes(guild@, done.push(existing@[i as int]@), tag@) =~= tag_writes(
                        guild@,
                        done,
                        tag@,
                    ).push(write));
                }
                i += 1;
            }
            assert(existing.deep_view().take(i as int) =~= existing.deep_view());
        } else {
            writes.push(popular_write(guild, "com", tag));
            writes.push(popular_write(guild, "de", tag));
            writes.push(popular_write(guild, "co.uk", tag));
            writes.push(popular_write(guild, "fr", tag));
            assert(write_views(writes@) =~= tag_writes(guild@, popular_regions(), tag@));
        }
    } else {
        assert(write_views(writes@) =~= Seq::empty());
    }
    if let Some(footer) = footer {
        let ghost before = write_views(writes@);
        writes.push(WriteOf::SetFooter { guild: guild.to_owned(), footer: footer.clone() });
        assert(write_views(writes@) =~= before.push(
            WriteOf::SetFooter { guild: guild@, footer: footer@ },
        ));
    }
    writes
}

/// One write of `tag` for `region`.
fn popular_write(guild: &str, region: &str, tag: &String) -> (write: Write)
    ensures
        write@ == (WriteOf::SetTag { guild: guild@, region: region@, tag: tag@ }),
{
    WriteOf::SetTag { guild: guild.to_owned(), region: region.to_owned(), tag: tag.clone() }
}

/// The text of an outcome of the store: a count, or an error.
pub open spec fn saved_view(saved: Result<usize, String>) -> Result<nat, Seq<char>> {
    match saved {
        Ok(writes) => Ok(writes as nat),
        Err(error) => Err(error@),
    }
}

/// Builds `save_message`.
pub fn save_reply(region: &str, saved: &Result<usize, String>) -> (text: String)
    ensures
        text@ == save_message(region@, saved_view(*saved)),
{
    save_reply_for(region, to_upper(region).as_str(), saved)
}

/// Builds `save_message_with`.
pub fn save_reply_for(region: &str, upper: &str, saved: &Result<usize, String>) -> (text: String)
    ensures
        text@ == save_message_with(region@, upper@, saved_view(*saved)),
{
    match saved {
        Ok(writes) => {
            if *writes == 0 {
                "ℹ️ No changes made.".to_owned()
            } else if same_text(region, "global") {
                let mut text = "✅ Global configuration updated!\n🌍 ".to_owned();
                text.append(decimal_text(*writes as u64).as_str());
                text.append(" regions configured");
                text
            } else {
                let mut text = "✅ Configuration updated for ".to_owned();
                text.append(upper);
                text.append("!\n🌍 ");
                text.append(decimal_text(*writes as u64).as_str());
                text.append(" items configured");
                text
            }
        },
        Err(error) => {
            let mut text = "❌ Error saving configuration: ".to_owned();
            text.append(error.as_str());
            text
        },
    }
}

} // verus!
