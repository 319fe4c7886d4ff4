//! The chat command handlers' decisions: what `ping`, `say`, `botinvite`,
//! `enable`, `disable`, and `prefix` reply and how they change the guild
//! settings store. Sending the replies, and the database round-trips behind
//! the store, happen outside the library.

use vstd::prelude::*;
use crate::args::FilteredArgs;
use crate::args::filter_args;
use crate::args::filtered_channels;
use crate::args::filtered_commands;
use crate::args::filtered_role_user;
use crate::store::SettingsStore;
use crate::store::guild_doc;
use crate::store::has_guild;
use crate::store::is_seed_doc;
use crate::text::split_ws;
use crate::text::split_ws_spec;
use crate::text::strip_quotes;
use crate::text::strip_quotes_spec;

verus! {

/// A command handler's reply.
#[derive(Debug, PartialEq)]
pub enum Reply {
    CurrentPrefix(String),
    PrefixChanged(String),
    UsageError,
}

/// The `ping` reply.
pub fn ping_reply() -> (r: String)
    ensures
        r@ == "Pong!"@,
{
    "Pong!".to_owned()
}

/// How `say` sanitizes message content before echoing it. This is the
/// library's picture of the platform sanitizer's switches; the caller maps
/// it onto the sanitizer it uses.
pub struct ContentOptions {
    pub clean_user: bool,
    pub clean_role: bool,
    pub clean_channel: bool,
    pub clean_everyone: bool,
    pub clean_here: bool,
    pub display_as_member_from: Option<i64>,
}

/// Choose the sanitizer settings for `say`. Raw user and role mention
/// syntax is never relayed: user and role mentions are always cleaned,
/// and in a guild, user mentions are rendered as the member's display name
/// (via the guild id handed to the sanitizer) rather than stripped.
/// Channel mentions stay, as they ping nobody.
pub fn say_options(guild_id: Option<i64>) -> (r: ContentOptions)
    ensures
        r.clean_user,
        r.clean_role,
        !r.clean_channel,
        r.clean_everyone,
        r.clean_here,
        r.display_as_member_from == guild_id,
{
    ContentOptions {
        clean_user: true,
        clean_role: true,
        clean_channel: false,
        clean_everyone: true,
        clean_here: true,
        display_as_member_from: guild_id,
    }
}

/// The embed of the `botinvite` reply, around the invite url the platform
/// produced.
pub struct InviteEmbed {
    pub title: String,
    pub url: String,
    pub color: u32,
    pub description: String,
}

/// Build the `botinvite` reply embed for an invite url.
pub fn invite_embed(url: String) -> (r: InviteEmbed)
    ensures
        r.title@ == "Bot Invite Link"@,
        r.url == url,
        r.color == 64141,
        r.description@ == "Click the title to invite me to your server"@,
{
    InviteEmbed {
        title: "Bot Invite Link".to_owned(),
        url,
        color: 64141,
        description: "Click the title to invite me to your server".to_owned(),
    }
}

/// The `prefix` command. With no argument, reply with the guild's stored
/// prefix, creating its settings document on this first reference; with one
/// argument, store it (surrounding quotes stripped) and acknowledge; with
/// more than one, reject with a usage error and leave the store untouched.
pub fn prefix_command(
    store: &mut SettingsStore,
    guild_id: i64,
    args: &Vec<String>,
    default_prefix: &str,
) -> (r: Reply)
    requires
        old(store).wf(),
    ensures
        final(store).wf(),
        args@.len() == 0 ==> {
            &&& r is CurrentPrefix
            &&& r->CurrentPrefix_0@ == guild_doc(final(store).docs@, guild_id).prefix@
            &&& has_guild(final(store).docs@, guild_id)
            &&& (has_guild(old(store).docs@, guild_id) ==> final(store).docs@ == old(
                store,
            ).docs@)
            &&& (!has_guild(old(store).docs@, guild_id) ==> final(store).docs@ == old(
                store,
            ).docs@.push(guild_doc(final(store).docs@, guild_id)) && is_seed_doc(
                guild_doc(final(store).docs@, guild_id),
                guild_id,
                default_prefix@,
            ))
        },
        args@.len() == 1 ==> {
            &&& r is PrefixChanged
            &&& r->PrefixChanged_0@ == strip_quotes_spec(args@[0]@)
            &&& has_guild(final(store).docs@, guild_id)
            &&& guild_doc(final(store).docs@, guild_id).prefix@ == strip_quotes_spec(args@[0]@)
            &&& (forall|g: i64|
                g != guild_id ==> has_guild(final(store).docs@, g) == has_guild(
                    old(store).docs@,
                    g,
                ))
            &&& (forall|g: i64|
                g != guild_id && has_guild(old(store).docs@, g) ==> guild_doc(
                    final(store).docs@,
                    g,
                ) == guild_doc(old(store).docs@, g))
        },
        args@.len() >= 2 ==> r is UsageError && *final(store) == *old(store),
{
    if args.len() == 0 {
        store.fetch_or_create(guild_id, default_prefix);
        let current = store.read_prefix(guild_id);
        match current {
            Some(p) => Reply::CurrentPrefix(p),
            None => {
                proof {
                    assert(false);
                }
                Reply::UsageError
            },
        }
    } else if args.len() == 1 {
        let new_prefix: String = strip_quotes(args[0].as_str());
        store.set_prefix(guild_id, new_prefix.as_str(), default_prefix);
        Reply::PrefixChanged(new_prefix)
    } else {
        Reply::UsageError
    }
}

/// Resolve the command prefix for an incoming message. A direct message
/// (no guild) uses the default prefix; a guild message uses the guild's
/// stored prefix, its settings document created with the default prefix on
/// first reference.
pub fn dynamic_prefix(
    store: &mut SettingsStore,
    guild_id: Option<i64>,
    default_prefix: &str,
) -> (r: String)
    requires
        old(store).wf(),
    ensures
        final(store).wf(),
        guild_id is None ==> r@ == default_prefix@ && *final(store) == *old(store),
        guild_id matches Some(g) ==> {
            &&& has_guild(final(store).docs@, g)
            &&& r@ == guild_doc(final(store).docs@, g).prefix@
            &&& (has_guild(old(store).docs@, g) ==> final(store).docs@ == old(store).docs@)
            &&& (!has_guild(old(store).docs@, g) ==> final(store).docs@ == old(
                store,
            ).docs@.push(guild_doc(final(store).docs@, g)) && is_seed_doc(
                guild_doc(final(store).docs@, g),
                g,
                default_prefix@,
            ) && r@ == default_prefix@)
        },
{
    match guild_id {
        None => default_prefix.to_owned(),
        Some(g) => {
            store.fetch_or_create(g, default_prefix);
            let current = store.read_prefix(g);
            match current {
                Some(p) => p,
                None => {
                    proof {
                        assert(false);
                    }
                    String::new()
                },
            }
        },
    }
}

/// Shared body of `enable` and `disable`: an empty argument string is a
/// no-op; otherwise the guild's settings document is created on first
/// reference and the argument string is tokenized, partitioned, and
/// filtered into the target lists. How the enablement map is to be updated
/// from those lists is left to the caller: the stored schema is
/// deliberately not fixed here.
fn targets_command(
    store: &mut SettingsStore,
    guild_id: i64,
    arg_text: &str,
    default_prefix: &str,
) -> (r: Option<FilteredArgs>)
    requires
        old(store).wf(),
    ensures
        final(store).wf(),
        arg_text@.len() == 0 ==> r is None && *final(store) == *old(store),
        arg_text@.len() > 0 ==> {
            &&& has_guild(final(store).docs@, guild_id)
            &&& (has_guild(old(store).docs@, guild_id) ==> final(store).docs@ == old(
                store,
            ).docs@)
            &&& (!has_guild(old(store).docs@, guild_id) ==> final(store).docs@ == old(
                store,
            ).docs@.push(guild_doc(final(store).docs@, guild_id)) && is_seed_doc(
                guild_doc(final(store).docs@, guild_id),
                guild_id,
                default_prefix@,
            ))
            &&& (r matches Some(f) && f.commands.deep_view() == Some(
                filtered_commands(split_ws_spec(arg_text@)),
            ) && f.channels.deep_view() == Some(filtered_channels(split_ws_spec(arg_text@)))
                && f.role_user.deep_view() == Some(
                filtered_role_user(split_ws_spec(arg_text@)),
            ))
        },
{
    if arg_text.unicode_len() == 0 {
        return None;
    }
    store.fetch_or_create(guild_id, default_prefix);
    let toks: Vec<String> = split_ws(arg_text);
    Some(filter_args(&toks))
}

/// The `enable` command: see `targets_command` for what is parsed and
/// created; turning the parsed target lists into enablement-map updates is
/// the caller's to decide.
pub fn enable_command(
    store: &mut SettingsStore,
    guild_id: i64,
    arg_text: &str,
    default_prefix: &str,
) -> (r: Option<FilteredArgs>)
    requires
        old(store).wf(),
    ensures
        final(store).wf(),
        arg_text@.len() == 0 ==> r is None && *final(store) == *old(store),
        arg_text@.len() > 0 ==> {
            &&& has_guild(final(store).docs@, guild_id)
            &&& (has_guild(old(store).docs@, guild_id) ==> final(store).docs@ == old(
                store,
            ).docs@)
            &&& (!has_guild(old(store).docs@, guild_id) ==> final(store).docs@ == old(
                store,
            ).docs@.push(guild_doc(final(store).docs@, guild_id)) && is_seed_doc(
                guild_doc(final(store).docs@, guild_id),
                guild_id,
                default_prefix@,
            ))
            &&& (r matches Some(f) && f.commands.deep_view() == Some(
                filtered_commands(split_ws_spec(arg_text@)),
            ) && f.channels.deep_view() == Some(filtered_channels(split_ws_spec(arg_text@)))
                && f.role_user.deep_view() == Some(
                filtered_role_user(split_ws_spec(arg_text@)),
            ))
        },
{
    targets_command(store, guild_id, arg_text, default_prefix)
}

/// The `disable` command. It parses its arguments exactly as `enable`
/// does; what it is to store was never settled, so, like `enable`, it hands
/// the parsed target lists back to the caller.
pub fn disable_command(
    store: &mut SettingsStore,
    guild_id: i64,
    arg_text: &str,
    default_prefix: &str,
) -> (r: Option<FilteredArgs>)
    requires
        old(store).wf(),
    ensures
        final(store).wf(),
        arg_text@.len() == 0 ==> r is None && *final(store) == *old(store),
        arg_text@.len() > 0 ==> {
            &&& has_guild(final(store).docs@, guild_id)
            &&& (has_guild(old(store).docs@, guild_id) ==> final(store).docs@ == old(
                store,
            ).docs@)
            &&& (!has_guild(old(store).docs@, guild_id) ==> final(store).docs@ == old(
                store,
            ).docs@.push(guild_doc(final(store).docs@, guild_id)) && is_seed_doc(
                guild_doc(final(store).docs@, guild_id),
                guild_id,
                default_prefix@,
            ))
            &&& (r matches Some(f) && f.commands.deep_view() == Some(
                filtered_commands(split_ws_spec(arg_text@)),
            ) && f.channels.deep_view() == Some(filtered_channels(split_ws_spec(arg_text@)))
                && f.role_user.deep_view() == Some(
                filtered_role_user(split_ws_spec(arg_text@)),
            ))
        },
{
    targets_command(store, guild_id, arg_text, default_prefix)
}

} // verus!
