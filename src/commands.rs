//! The four management commands, run in a channel by a user.
use vstd::prelude::*;
use crate::registry::{
    Registry, RegistryError, RegistryView, add_channel_to_globalchat, create_globalchat,
    delete_globalchat, delete_globalchat_channel,
};

verus! {

/// The confirmation a successful command shows to the user.
#[derive(PartialEq, Eq, Structural, Clone, Copy, Debug)]
pub enum Reply {
    Created,
    Joined,
    Left,
    Deleted,
}

pub open spec fn reply_text(r: Reply) -> Seq<char> {
    match r {
        Reply::Created => "作成しました"@,
        Reply::Joined => "参加しました。"@,
        Reply::Left => "退出しました。"@,
        Reply::Deleted => "削除しました"@,
    }
}

pub open spec fn refusal_text(e: RegistryError) -> Seq<char> {
    match e {
        RegistryError::NotFound => "そのグローバルチャットは見つかりません。"@,
        RegistryError::Conflict => "その名前またはチャンネルはすでに使われています。"@,
        RegistryError::Unauthorized => "作成者だけが削除できます。"@,
    }
}

impl Reply {
    /// The confirmation text.
    pub fn text(&self) -> (r: &'static str)
        ensures
            r@ == reply_text(*self),
    {
        match self {
            Reply::Created => "作成しました",
            Reply::Joined => "参加しました。",
            Reply::Left => "退出しました。",
            Reply::Deleted => "削除しました",
        }
    }
}

impl RegistryError {
    /// The text shown to the user when a command is refused.
    pub fn text(&self) -> (r: &'static str)
        ensures
            r@ == refusal_text(*self),
    {
        match self {
            RegistryError::NotFound => "そのグローバルチャットは見つかりません。",
            RegistryError::Conflict => "その名前またはチャンネルはすでに使われています。",
            RegistryError::Unauthorized => "作成者だけが削除できます。",
        }
    }
}

/// The outcome of `create`: the name must be free and the channel in no network.
pub open spec fn create_outcome(v: RegistryView, name: Seq<char>, channel: i64) -> Result<Reply, RegistryError> {
    if v.owners.contains_key(name) || v.routes.contains_key(channel) {
        Err(RegistryError::Conflict)
    } else {
        Ok(Reply::Created)
    }
}

/// The outcome of `delete`: the network must exist and belong to the user.
pub open spec fn delete_outcome(v: RegistryView, name: Seq<char>, user: i64) -> Result<Reply, RegistryError> {
    if !v.owners.contains_key(name) {
        Err(RegistryError::NotFound)
    } else if v.owners[name] != user {
        Err(RegistryError::Unauthorized)
    } else {
        Ok(Reply::Deleted)
    }
}

/// Creates the network `name`, owned by `user`, with `channel` as its first member.
pub fn create(reg: &mut Registry, channel: i64, user: i64, name: String) -> (r: Result<Reply, RegistryError>)
    requires
        old(reg).wf(),
    ensures
        final(reg).wf(),
        r == create_outcome(old(reg)@, name@, channel),
        r is Ok ==> final(reg)@ == old(reg)@.with_network(name@, user).with_member(name@, channel),
        r is Err ==> final(reg)@ == old(reg)@,
{
    if crate::registry::get_globalchat_name_by_channel_id(reg, channel).is_some() {
        return Err(RegistryError::Conflict);
    }
    let copy = name.clone();
    match create_globalchat(reg, name, user) {
        Err(e) => Err(e),
        Ok(()) => {
            let added = add_channel_to_globalchat(reg, copy, channel);
            proof {
                assert(added is Ok);
            }
            Ok(Reply::Created)
        },
    }
}

/// Adds `channel` to the network `name`.
pub fn join(reg: &mut Registry, channel: i64, name: String) -> (r: Result<Reply, RegistryError>)
    requires
        old(reg).wf(),
    ensures
        final(reg).wf(),
        r == (match old(reg)@.add_result(name@, channel) {
            Ok(()) => Ok(Reply::Joined),
            Err(e) => Err::<Reply, RegistryError>(e),
        }),
        r is Ok ==> final(reg)@ == old(reg)@.with_member(name@, channel),
        r is Err ==> final(reg)@ == old(reg)@,
{
    match add_channel_to_globalchat(reg, name, channel) {
        Ok(()) => Ok(Reply::Joined),
        Err(e) => Err(e),
    }
}

/// Takes `channel` out of its network; a channel in none is left as it is.
pub fn leave(reg: &mut Registry, channel: i64) -> (r: Result<Reply, RegistryError>)
    requires
        old(reg).wf(),
    ensures
        final(reg).wf(),
        r == Ok::<Reply, RegistryError>(Reply::Left),
        final(reg)@ == old(reg)@.without_member(channel),
{
    delete_globalchat_channel(reg, channel);
    Ok(Reply::Left)
}

/// Deletes the network `name`, with all its memberships, when `user` owns it.
pub fn delete(reg: &mut Registry, name: String, user: i64) -> (r: Result<Reply, RegistryError>)
    requires
        old(reg).wf(),
    ensures
        final(reg).wf(),
        r == delete_outcome(old(reg)@, name@, user),
        r is Ok ==> final(reg)@ == old(reg)@.without_network(name@),
        r is Err ==> final(reg)@ == old(reg)@,
{
    let known = reg.has_network(&name);
    if !known {
        return Err(RegistryError::NotFound);
    }
    if delete_globalchat(reg, name, user) {
        Ok(Reply::Deleted)
    } else {
        Err(RegistryError::Unauthorized)
    }
}

} // verus!
