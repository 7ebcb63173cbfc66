//! The operator's commands on the registry: list, add by name, remove by
//! name. Name resolution happens before these calls; its result is handed in.

use vstd::prelude::*;
use vstd::string::*;
use crate::live_state::ProviderError;
use crate::registry::{
    Registry,
    RegistryError,
    Streamer,
    StreamerView,
    has_channel,
    without_channel,
};
use crate::sanitize::push_char;

verus! {

#[derive(Debug, Clone, Copy, PartialEq, Eq, Structural)]
pub enum ControlCommand {
    ListSubscribers,
    AddSubscriber,
    RemoveSubscriber,
    Unknown,
}

pub open spec fn command_of(name: Seq<char>) -> ControlCommand {
    if name == "subscribers"@ {
        ControlCommand::ListSubscribers
    } else if name == "add_subscriber"@ {
        ControlCommand::AddSubscriber
    } else if name == "remove_subscriber"@ {
        ControlCommand::RemoveSubscriber
    } else {
        ControlCommand::Unknown
    }
}

/// The command called `name`.
pub fn parse_command(name: &str) -> (r: ControlCommand)
    ensures
        r == command_of(name@),
{
    let n = String::from_str(name);
    if n == String::from_str("subscribers") {
        ControlCommand::ListSubscribers
    } else if n == String::from_str("add_subscriber") {
        ControlCommand::AddSubscriber
    } else if n == String::from_str("remove_subscriber") {
        ControlCommand::RemoveSubscriber
    } else {
        ControlCommand::Unknown
    }
}

/// `[name](https://youtube.com/@name) - channel_id`
pub open spec fn subscriber_line(s: StreamerView) -> Seq<char> {
    "["@ + s.name + "](https://youtube.com/@"@ + s.name + ") - "@ + s.channel_id
}

/// The lines of `rows`, each after a newline but the first.
pub open spec fn joined_lines(rows: Seq<StreamerView>) -> Seq<char>
    decreases rows.len(),
{
    if rows.len() == 0 {
        Seq::empty()
    } else if rows.len() == 1 {
        subscriber_line(rows[0])
    } else {
        joined_lines(rows.drop_last()) + seq!['\n'] + subscriber_line(rows.last())
    }
}

pub open spec fn subscribers_text_of(rows: Seq<StreamerView>) -> Seq<char> {
    if rows.len() == 0 {
        "No subscribers found."@
    } else {
        joined_lines(rows)
    }
}

/// The reply to the list command.
pub fn subscribers_text(rows: &Vec<Streamer>) -> (r: String)
    ensures
        r@ == subscribers_text_of(rows@.map_values(|s: Streamer| s@)),
{
    let ghost v = rows@.map_values(|s: Streamer| s@);
    if rows.len() == 0 {
        return String::from_str("No subscribers found.");
    }
    let mut out = String::new();
    let mut i: usize = 0;
    while i < rows.len()
        invariant
            i <= rows.len(),
            v == rows@.map_values(|s: Streamer| s@),
            out@ == joined_lines(v.take(i as int)),
        decreases rows.len() - i,
    {
        proof {
            assert(v.take(i + 1).drop_last() == v.take(i as int));
            assert(v.take(i + 1).last() == rows@[i as int]@);
            assert(v.take(i + 1)[0] == v[0]);
            if i == 0 {
                assert(v.take(0) =~= Seq::<StreamerView>::empty());
            }
        }
        if i > 0 {
            push_char(&mut out, '\n');
        }
        let s = &rows[i];
        out.append("[");
        out.append(s.name.as_str());
        out.append("](https://youtube.com/@");
        out.append(s.name.as_str());
        out.append(") - ");
        out.append(s.channel_id.as_str());
        proof {
            if i == 0 {
                assert(out@ =~= subscriber_line(v[0]));
            } else {
                assert(out@ =~= joined_lines(v.take(i as int)) + seq!['\n'] + subscriber_line(
                    v[i as int],
                ));
            }
        }
        i = i + 1;
    }
    proof {
        assert(v.take(rows.len() as int) =~= v);
    }
    out
}

/// What a command did.
#[derive(Debug, Clone)]
pub enum ControlOutcome {
    Added { id: i64, name: String, channel_id: String },
    AddFailed(RegistryError),
    Removed { name: String, channel_id: String },
    NothingRemoved { name: String },
    ResolveFailed { name: String, error: ProviderError },
    /// The command came without the channel name it needs.
    MissingName,
    /// No such command.
    NotImplemented,
}

pub open spec fn is_resolve_failed(r: ControlOutcome, name: Seq<char>, error: ProviderError) -> bool {
    match r {
        ControlOutcome::ResolveFailed { name: n, error: e } => n@ == name && e == error,
        _ => false,
    }
}

pub open spec fn is_added(r: ControlOutcome, id: i64, name: Seq<char>, cid: Seq<char>) -> bool {
    match r {
        ControlOutcome::Added { id: i, name: n, channel_id: c } => i == id && n@ == name && c@ == cid,
        _ => false,
    }
}

pub open spec fn is_removed(r: ControlOutcome, name: Seq<char>, cid: Seq<char>) -> bool {
    match r {
        ControlOutcome::Removed { name: n, channel_id: c } => n@ == name && c@ == cid,
        _ => false,
    }
}

pub open spec fn is_nothing_removed(r: ControlOutcome, name: Seq<char>) -> bool {
    match r {
        ControlOutcome::NothingRemoved { name: n } => n@ == name,
        _ => false,
    }
}

/// Adds the channel called `name`, whose id was resolved as `resolved`.
pub fn add_subscriber(reg: &mut Registry, name: &str, resolved: &Result<String, ProviderError>) -> (r:
    ControlOutcome)
    requires
        old(reg).wf(),
    ensures
        final(reg).wf(),
        match resolved {
            Err(e) => is_resolve_failed(r, name@, *e) && final(reg).view() == old(reg).view(),
            Ok(cid) => {
                &&& has_channel(old(reg).view(), cid@) ==> r == ControlOutcome::AddFailed(
                    RegistryError::AlreadyExists,
                ) && final(reg).view() == old(reg).view()
                &&& !has_channel(old(reg).view(), cid@) && old(reg).spec_next_id() < i64::MAX ==> {
                    &&& is_added(r, old(reg).spec_next_id(), name@, cid@)
                    &&& final(reg).view() == old(reg).view().push(
                        StreamerView { id: old(reg).spec_next_id(), name: name@, channel_id: cid@ },
                    )
                }
                &&& !has_channel(old(reg).view(), cid@) && old(reg).spec_next_id() == i64::MAX
                    ==> r == ControlOutcome::AddFailed(RegistryError::IdsExhausted)
                    && final(reg).view() == old(reg).view()
            },
        },
{
    match resolved {
        Err(e) => ControlOutcome::ResolveFailed { name: String::from_str(name), error: *e },
        Ok(cid) => match reg.add_streamer(name, cid.as_str()) {
            Ok(id) => ControlOutcome::Added {
                id,
                name: String::from_str(name),
                channel_id: cid.clone(),
            },
            Err(e) => ControlOutcome::AddFailed(e),
        },
    }
}

/// Removes the channel called `name`, whose id was resolved as `resolved`.
pub fn remove_subscriber(
    reg: &mut Registry,
    name: &str,
    resolved: &Result<String, ProviderError>,
) -> (r: ControlOutcome)
    requires
        old(reg).wf(),
    ensures
        final(reg).wf(),
        match resolved {
            Err(e) => is_resolve_failed(r, name@, *e) && final(reg).view() == old(reg).view(),
            Ok(cid) => {
                &&& final(reg).view() == without_channel(old(reg).view(), cid@)
                &&& has_channel(old(reg).view(), cid@) ==> is_removed(r, name@, cid@)
                &&& !has_channel(old(reg).view(), cid@) ==> is_nothing_removed(r, name@)
            },
        },
{
    match resolved {
        Err(e) => ControlOutcome::ResolveFailed { name: String::from_str(name), error: *e },
        Ok(cid) => {
            if reg.remove_streamer(cid.as_str()) {
                ControlOutcome::Removed { name: String::from_str(name), channel_id: cid.clone() }
            } else {
                ControlOutcome::NothingRemoved { name: String::from_str(name) }
            }
        },
    }
}

pub open spec fn registry_error_text(e: RegistryError) -> Seq<char> {
    match e {
        RegistryError::AlreadyExists => "the channel is already tracked"@,
        RegistryError::DuplicateId => "the row id is already taken"@,
        RegistryError::IdsExhausted => "no row id is left"@,
    }
}

/// Why `name` could not be resolved.
pub open spec fn provider_error_text(e: ProviderError, name: Seq<char>) -> Seq<char> {
    match e {
        ProviderError::Unavailable => "the provider is unavailable"@,
        ProviderError::NotFound => "No channel found with name: "@ + name,
    }
}

pub open spec fn reply_text_of(r: ControlOutcome) -> Seq<char> {
    match r {
        ControlOutcome::Added { name, channel_id, .. } => "Successfully added subscriber: "@ + name@
            + " ("@ + channel_id@ + "). Their live streams will now be recorded."@,
        ControlOutcome::AddFailed(e) => "Failed to add subscriber to database: "@
            + registry_error_text(e),
        ControlOutcome::Removed { name, channel_id } => "Successfully removed subscriber: "@
            + name@ + " ("@ + channel_id@ + "). Their live streams will no longer be recorded."@,
        ControlOutcome::NothingRemoved { name } => "No subscriber could be removed with the name: "@
            + name@ + ". Please check the name and try again."@,
        ControlOutcome::ResolveFailed { name, error } => "Failed to get channel ID: "@
            + provider_error_text(error, name@),
        ControlOutcome::MissingName => "Invalid command usage. Please provide the YouTube channel name."@,
        ControlOutcome::NotImplemented => "Not implemented"@,
    }
}

fn registry_error_str(e: RegistryError) -> (r: &'static str)
    ensures
        r@ == registry_error_text(e),
{
    match e {
        RegistryError::AlreadyExists => "the channel is already tracked",
        RegistryError::DuplicateId => "the row id is already taken",
        RegistryError::IdsExhausted => "no row id is left",
    }
}


/// The message that reports `r` to the operator.
pub fn reply_text(r: &ControlOutcome) -> (t: String)
    ensures
        t@ == reply_text_of(*r),
{
    match r {
        ControlOutcome::Added { name, channel_id, .. } => {
            let mut t = String::from_str("Successfully added subscriber: ");
            t.append(name.as_str());
            t.append(" (");
            t.append(channel_id.as_str());
            t.append("). Their live streams will now be recorded.");
            t
        },
        ControlOutcome::AddFailed(e) => {
            let mut t = String::from_str("Failed to add subscriber to database: ");
            t.append(registry_error_str(*e));
            t
        },
        ControlOutcome::Removed { name, channel_id } => {
            let mut t = String::from_str("Successfully removed subscriber: ");
            t.append(name.as_str());
            t.append(" (");
            t.append(channel_id.as_str());
            t.append("). Their live streams will no longer be recorded.");
            t
        },
        ControlOutcome::NothingRemoved { name } => {
            let mut t = String::from_str("No subscriber could be removed with the name: ");
            t.append(name.as_str());
            t.append(". Please check the name and try again.");
            t
        },
        ControlOutcome::ResolveFailed { name, error } => {
            let mut t = String::from_str("Failed to get channel ID: ");
            match error {
                ProviderError::Unavailable => t.append("the provider is unavailable"),
                ProviderError::NotFound => {
                    t.append("No channel found with name: ");
                    t.append(name.as_str());
                },
            }
            t
        },
        ControlOutcome::MissingName => String::from_str(
            "Invalid command usage. Please provide the YouTube channel name.",
        ),
        ControlOutcome::NotImplemented => String::from_str("Not implemented"),
    }
}

} // verus!
