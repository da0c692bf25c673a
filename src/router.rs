use std::collections::HashMap;
use vstd::prelude::*;

use crate::registry::Action;

verus! {

/// The single control byte (ASCII end-of-text) that asks for the
/// connection to be dropped.
pub const END_OF_TEXT: u8 = 3;

/// An open channel: still carrying raw data, with the channel object kept
/// for a later upgrade, or handed over to the file-transfer engine.
pub enum ChannelState<C> {
    Unbound(C),
    Bound,
}

/// What to do with data that arrived on a channel.
#[derive(Clone, Copy, Debug, PartialEq, Eq, Structural)]
pub enum DataAction {
    /// Drop the whole connection.
    Disconnect,
    /// Send the data back on the same channel.
    Echo,
    /// The channel belongs to the file-transfer engine; nothing to do here.
    Forwarded,
    /// The channel is not open: refuse.
    Refused,
}

/// The answer to a subsystem request.
pub enum SubsystemDecision<C> {
    /// Acknowledge, then run the file-transfer engine on this channel.
    Accept(C),
    /// Reject; the channel stays as it was.
    Reject,
}

/// Whether `data` is exactly the control byte that ends a connection.
pub open spec fn is_end_of_text(data: Seq<u8>) -> bool {
    data.len() == 1 && data[0] == END_OF_TEXT
}

/// What the router does with `data` arriving on channel `id`.
pub open spec fn data_action<C>(m: Map<u32, ChannelState<C>>, id: u32, data: Seq<u8>) -> DataAction {
    if !m.contains_key(id) {
        DataAction::Refused
    } else if is_end_of_text(data) {
        DataAction::Disconnect
    } else {
        match m[id] {
            ChannelState::Unbound(_) => DataAction::Echo,
            ChannelState::Bound => DataAction::Forwarded,
        }
    }
}

/// Whether a subsystem request named `name` on channel `id` is accepted:
/// only the file-transfer subsystem (named "sftp"), only on an open
/// channel that has not been upgraded yet.
pub open spec fn upgrade_accepted<C>(m: Map<u32, ChannelState<C>>, id: u32, name: Seq<char>) -> bool {
    &&& name == "sftp"@
    &&& m.contains_key(id)
    &&& m[id] is Unbound
}

/// The channel router of one connection: the open channels and their state.
pub struct ServerHandler<C> {
    session_id: u64,
    channels: HashMap<u32, ChannelState<C>>,
}

impl<C> ServerHandler<C> {
    /// The connection this router serves.
    pub closed spec fn session(&self) -> u64 {
        self.session_id
    }

    /// The open channels, by channel identifier.
    pub closed spec fn channels(&self) -> Map<u32, ChannelState<C>> {
        self.channels@
    }

    /// A router for connection `session_id`, with no open channel.
    pub fn new(session_id: u64) -> (r: ServerHandler<C>)
        ensures
            r.session() == session_id,
            r.channels() == Map::<u32, ChannelState<C>>::empty(),
    {
        ServerHandler { session_id, channels: HashMap::new() }
    }

    /// The connection this router serves.
    pub fn session_id(&self) -> (r: u64)
        ensures
            r == self.session(),
    {
        self.session_id
    }

    /// A peer opened channel `id`: it is recorded, raw, with its channel
    /// object, and the open is accepted.
    pub fn channel_open_session(&mut self, id: u32, channel: C) -> (r: bool)
        ensures
            r,
            final(self).session() == old(self).session(),
            final(self).channels() == old(self).channels().insert(id, ChannelState::Unbound(channel)),
    {
        self.channels.insert(id, ChannelState::Unbound(channel));
        true
    }

    /// Data arrived on channel `id`.
    pub fn data(&self, id: u32, data: &[u8]) -> (r: DataAction)
        ensures
            r == data_action(self.channels(), id, data@),
    {
        match self.channels.get(&id) {
            None => DataAction::Refused,
            Some(state) => if data.len() == 1 && data[0] == END_OF_TEXT {
                DataAction::Disconnect
            } else {
                match state {
                    ChannelState::Unbound(_) => DataAction::Echo,
                    ChannelState::Bound => DataAction::Forwarded,
                }
            },
        }
    }

    /// The peer sent end-of-file on channel `id`: the answer is whether the
    /// channel is to be closed, which it is when it is open.
    pub fn channel_eof(&self, id: u32) -> (r: bool)
        ensures
            r == self.channels().contains_key(id),
    {
        self.channels.contains_key(&id)
    }

    /// Channel `id` was closed: it is forgotten, and if it was open the
    /// answer is the mailbox action that removes it from the registry.
    pub fn channel_close<R>(&mut self, id: u32) -> (r: Option<Action<R>>)
        ensures
            old(self).channels().contains_key(id) ==> r == Some(
                Action::<R>::RemoveChannel { session: old(self).session(), channel: id },
            ),
            !old(self).channels().contains_key(id) ==> r == None::<Action<R>>,
            final(self).session() == old(self).session(),
            final(self).channels() == old(self).channels().remove(id),
    {
        match self.channels.remove(&id) {
            Some(_) => Some(Action::RemoveChannel { session: self.session_id, channel: id }),
            None => None,
        }
    }

    /// The peer asked for subsystem `name` on channel `id`. The
    /// file-transfer subsystem on a raw channel is accepted, once: the
    /// channel object is handed out and the channel is marked as upgraded.
    /// Anything else is rejected and the channel stays as it was.
    pub fn subsystem_request(&mut self, id: u32, name: &str) -> (r: SubsystemDecision<C>)
        ensures
            final(self).session() == old(self).session(),
            upgrade_accepted(old(self).channels(), id, name@) ==> {
                &&& r is Accept
                &&& old(self).channels()[id] == ChannelState::Unbound(r->Accept_0)
                &&& final(self).channels() == old(self).channels().insert(id, ChannelState::Bound)
            },
            !upgrade_accepted(old(self).channels(), id, name@) ==> {
                &&& r is Reject
                &&& final(self).channels() == old(self).channels()
            },
    {
        let wanted = name.to_string();
        let known = "sftp".to_string();
        if wanted != known {
            return SubsystemDecision::Reject;
        }
        match self.channels.remove(&id) {
            None => SubsystemDecision::Reject,
            Some(ChannelState::Bound) => {
                self.channels.insert(id, ChannelState::Bound);
                proof {
                    assert(self.channels@ =~= old(self).channels@);
                }
                SubsystemDecision::Reject
            },
            Some(ChannelState::Unbound(channel)) => {
                self.channels.insert(id, ChannelState::Bound);
                SubsystemDecision::Accept(channel)
            },
        }
    }
}

/// The end-of-text byte drops the connection from any open channel, raw or
/// upgraded, whatever state the other channels are in.
pub proof fn lemma_end_of_text_disconnects<C>(m: Map<u32, ChannelState<C>>, id: u32)
    requires
        m.contains_key(id),
    ensures
        data_action(m, id, seq![END_OF_TEXT]) == DataAction::Disconnect,
{
}

/// A subsystem other than file transfer is rejected, and the channel
/// stays open as it was, ready for further requests.
pub proof fn lemma_other_subsystem_rejected<C>(m: Map<u32, ChannelState<C>>, id: u32, name: Seq<char>)
    requires
        name != "sftp"@,
    ensures
        !upgrade_accepted(m, id, name),
{
}

/// A closed channel's identifier is no longer valid: after channel `id` is
/// closed, data on it is refused, end-of-file on it closes nothing, and no
/// subsystem request on it is accepted, until it is opened again.
pub proof fn lemma_closed_channel_refused<C>(
    m: Map<u32, ChannelState<C>>,
    id: u32,
    data: Seq<u8>,
    name: Seq<char>,
)
    ensures
        data_action(m.remove(id), id, data) == DataAction::Refused,
        !m.remove(id).contains_key(id),
        !upgrade_accepted(m.remove(id), id, name),
{
}

} // verus!
