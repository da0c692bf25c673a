use std::collections::HashMap;
use vstd::prelude::*;

verus! {

/// A pending change to the registry, posted to the mailbox by any task and
/// applied by the single loop that owns the registry.
pub enum Action<C> {
    /// Keep the channel reference `chan` of channel `channel` of `session`.
    StoreChannel { session: u64, channel: u32, chan: C },
    /// Forget `session` and its channels, and cancel its task.
    RemoveSession { session: u64 },
    /// Drop the stored reference of channel `channel` of `session`.
    RemoveChannel { session: u64, channel: u32 },
}

/// One registered connection: how to cancel its task, and the channel
/// references stored for it.
pub struct SessionEntry<H, C> {
    pub cancel: H,
    pub channels: HashMap<u32, C>,
}

/// The process-wide table of live connections.
pub struct Registry<H, C> {
    next_id: u64,
    issued: Ghost<Seq<u64>>,
    sessions: HashMap<u64, SessionEntry<H, C>>,
}

/// What removing session `id` from `t` hands back: its cancellation
/// handle, if it was registered.
pub open spec fn removal<H, C>(t: Map<u64, (H, Map<u32, C>)>, id: u64) -> Option<H> {
    if t.contains_key(id) {
        Some(t[id].0)
    } else {
        None
    }
}

/// `t` with the channels of session `id`, if it is registered, replaced by `chans`.
pub open spec fn with_channels<H, C>(
    t: Map<u64, (H, Map<u32, C>)>,
    id: u64,
    chans: Map<u32, C>,
) -> Map<u64, (H, Map<u32, C>)> {
    if t.contains_key(id) {
        t.insert(id, (t[id].0, chans))
    } else {
        t
    }
}

impl<H, C> Registry<H, C> {
    /// The identifier the next accepted connection gets.
    pub closed spec fn next(&self) -> u64 {
        self.next_id
    }

    /// Every identifier handed out so far, in the order it was handed out.
    pub closed spec fn issued(&self) -> Seq<u64> {
        self.issued@
    }

    /// The registered sessions: each one's cancellation handle and its
    /// stored channel references.
    pub closed spec fn table(&self) -> Map<u64, (H, Map<u32, C>)> {
        self.sessions@.map_values(|e: SessionEntry<H, C>| (e.cancel, e.channels@))
    }

    /// Every registered identifier was handed out already.
    pub closed spec fn wf(&self) -> bool {
        &&& forall|id: u64| #[trigger] self.sessions@.contains_key(id) ==> id < self.next_id
        &&& forall|i: int| 0 <= i < self.issued@.len() ==> #[trigger] self.issued@[i] < self.next_id
        &&& forall|i: int, j: int|
            0 <= i < j < self.issued@.len() ==> #[trigger] self.issued@[i] < #[trigger] self.issued@[j]
    }

    /// An empty registry; the first identifier it hands out is 0.
    pub fn new() -> (r: Registry<H, C>)
        ensures
            r.wf(),
            r.next() == 0,
            r.issued() == Seq::<u64>::empty(),
            r.table() == Map::<u64, (H, Map<u32, C>)>::empty(),
    {
        let r = Registry { next_id: 0, issued: Ghost(Seq::empty()), sessions: HashMap::new() };
        assert(r.table() =~= Map::<u64, (H, Map<u32, C>)>::empty());
        r
    }

    /// Hands out the identifier of a newly accepted connection: one never
    /// handed out before, and so never registered. `None` once all
    /// identifiers are used up.
    pub fn allocate_id(&mut self) -> (r: Option<u64>)
        requires
            old(self).wf(),
        ensures
            final(self).wf(),
            final(self).table() == old(self).table(),
            old(self).next() < u64::MAX ==> final(self).issued() == old(self).issued().push(old(self).next()),
            old(self).next() == u64::MAX ==> final(self).issued() == old(self).issued(),
            old(self).next() < u64::MAX ==> r == Some(old(self).next()) && final(self).next()
                == old(self).next() + 1 && !old(self).table().contains_key(old(self).next()),
            old(self).next() == u64::MAX ==> r == None::<u64> && final(self).next() == old(self).next(),
    {
        if self.next_id == u64::MAX {
            None
        } else {
            let id = self.next_id;
            self.next_id = self.next_id + 1;
            self.issued = Ghost(self.issued@.push(id));
            Some(id)
        }
    }

    /// Whether session `id` is registered.
    pub fn contains_session(&self, id: u64) -> (r: bool)
        ensures
            r == self.table().contains_key(id),
    {
        self.sessions.contains_key(&id)
    }

    /// How many sessions are registered.
    pub fn session_count(&self) -> (r: usize)
        ensures
            r == self.table().len(),
    {
        assert(self.table().dom() =~= self.sessions@.dom());
        self.sessions.len()
    }

    /// Registers connection `id` with the handle that cancels its task.
    /// Refused, handing `cancel` back, when `id` is registered already or
    /// was never handed out.
    pub fn register_session(&mut self, id: u64, cancel: H) -> (r: Result<(), H>)
        requires
            old(self).wf(),
        ensures
            final(self).wf(),
            final(self).next() == old(self).next(),
            final(self).issued() == old(self).issued(),
            (old(self).table().contains_key(id) || id >= old(self).next()) ==> r == Err::<(), H>(
                cancel,
            ) && final(self).table() == old(self).table(),
            !(old(self).table().contains_key(id) || id >= old(self).next()) ==> r == Ok::<(), H>(
                (),
            ) && final(self).table() == old(self).table().insert(
                id,
                (cancel, Map::<u32, C>::empty()),
            ),
    {
        if id >= self.next_id || self.sessions.contains_key(&id) {
            return Err(cancel);
        }
        let channels: HashMap<u32, C> = HashMap::new();
        self.sessions.insert(id, SessionEntry { cancel, channels });
        assert(self.table() =~= old(self).table().insert(id, (cancel, Map::<u32, C>::empty())));
        Ok(())
    }

    /// Stores the reference `chan` of channel `channel` of `session`, for
    /// a later event on that channel to take back. A channel cannot outlive
    /// its connection: for a session that is not registered the reference
    /// is dropped, and the answer is `false`.
    pub fn store_channel(&mut self, session: u64, channel: u32, chan: C) -> (r: bool)
        requires
            old(self).wf(),
        ensures
            final(self).wf(),
            final(self).next() == old(self).next(),
            final(self).issued() == old(self).issued(),
            r == old(self).table().contains_key(session),
            final(self).table() == with_channels(
                old(self).table(),
                session,
                old(self).table()[session].1.insert(channel, chan),
            ),
    {
        match self.sessions.remove(&session) {
            None => false,
            Some(entry) => {
                let SessionEntry { cancel, mut channels } = entry;
                channels.insert(channel, chan);
                self.sessions.insert(session, SessionEntry { cancel, channels });
                assert(self.table() =~= with_channels(
                    old(self).table(),
                    session,
                    old(self).table()[session].1.insert(channel, chan),
                ));
                true
            },
        }
    }

    /// Takes back the stored reference of channel `channel` of `session`:
    /// `None` if it was never stored, or taken or removed already.
    pub fn take_channel(&mut self, session: u64, channel: u32) -> (r: Option<C>)
        requires
            old(self).wf(),
        ensures
            final(self).wf(),
            final(self).next() == old(self).next(),
            final(self).issued() == old(self).issued(),
            r == (if old(self).table().contains_key(session) && old(self).table()[session].1.contains_key(channel) {
                Some(old(self).table()[session].1[channel])
            } else {
                None
            }),
            final(self).table() == with_channels(
                old(self).table(),
                session,
                old(self).table()[session].1.remove(channel),
            ),
    {
        match self.sessions.remove(&session) {
            None => None,
            Some(entry) => {
                let SessionEntry { cancel, mut channels } = entry;
                let taken = channels.remove(&channel);
                self.sessions.insert(session, SessionEntry { cancel, channels });
                assert(self.table() =~= with_channels(
                    old(self).table(),
                    session,
                    old(self).table()[session].1.remove(channel),
                ));
                taken
            },
        }
    }

    /// Drops the stored reference of channel `channel` of `session`, if any.
    pub fn remove_channel(&mut self, session: u64, channel: u32)
        requires
            old(self).wf(),
        ensures
            final(self).wf(),
            final(self).next() == old(self).next(),
            final(self).issued() == old(self).issued(),
            final(self).table() == with_channels(
                old(self).table(),
                session,
                old(self).table()[session].1.remove(channel),
            ),
    {
        let _ = self.take_channel(session, channel);
    }

    /// Forgets `session` and every channel stored for it, and hands back
    /// the handle that cancels its task, if it was registered. Removing a
    /// session that is gone already changes nothing and is no error.
    pub fn remove_session(&mut self, session: u64) -> (r: Option<H>)
        requires
            old(self).wf(),
        ensures
            final(self).wf(),
            final(self).next() == old(self).next(),
            final(self).issued() == old(self).issued(),
            r == removal(old(self).table(), session),
            final(self).table() == old(self).table().remove(session),
    {
        let removed = self.sessions.remove(&session);
        assert(self.table() =~= old(self).table().remove(session));
        match removed {
            Some(entry) => Some(entry.cancel),
            None => None,
        }
    }

    /// Applies one mailbox action; for a session removal, hands back the
    /// handle whose task is to be cancelled.
    pub fn apply(&mut self, action: Action<C>) -> (r: Option<H>)
        requires
            old(self).wf(),
        ensures
            final(self).wf(),
            final(self).next() == old(self).next(),
            final(self).issued() == old(self).issued(),
            match action {
                Action::StoreChannel { session, channel, chan } => r == None::<H> && final(self).table() == with_channels(
                    old(self).table(),
                    session,
                    old(self).table()[session].1.insert(channel, chan),
                ),
                Action::RemoveSession { session } => r == removal(old(self).table(), session)
                    && final(self).table() == old(self).table().remove(session),
                Action::RemoveChannel { session, channel } => r == None::<H> && final(self).table() == with_channels(
                    old(self).table(),
                    session,
                    old(self).table()[session].1.remove(channel),
                ),
            },
    {
        match action {
            Action::StoreChannel { session, channel, chan } => {
                self.store_channel(session, channel, chan);
                None
            },
            Action::RemoveSession { session } => self.remove_session(session),
            Action::RemoveChannel { session, channel } => {
                self.remove_channel(session, channel);
                None
            },
        }
    }
}

/// Connection identifiers are never reused: the identifier a registry hands
/// out next is not registered in it, and a registry that has handed out
/// more identifiers since hands out a larger one.
pub proof fn lemma_identifiers_never_reused<H, C>(earlier: Registry<H, C>, later: Registry<H, C>)
    requires
        earlier.wf(),
        later.wf(),
        earlier.next() < later.next(),
    ensures
        !earlier.table().contains_key(earlier.next()),
        !later.table().contains_key(later.next()),
{
    assert(earlier.table().dom() =~= earlier.sessions@.dom());
    assert(later.table().dom() =~= later.sessions@.dom());
}

/// Every accepted connection gets its own identifier: the identifiers a
/// registry has handed out are pairwise distinct (each larger than all
/// before it), none of them is handed out again, and only identifiers
/// handed out can be registered.
pub proof fn lemma_identifiers_unique<H, C>(r: Registry<H, C>)
    requires
        r.wf(),
    ensures
        forall|i: int, j: int|
            0 <= i < r.issued().len() && 0 <= j < r.issued().len() && i != j ==> #[trigger] r.issued()[i]
                != #[trigger] r.issued()[j],
        forall|i: int| 0 <= i < r.issued().len() ==> #[trigger] r.issued()[i] < r.next(),
        forall|id: u64| #[trigger] r.table().contains_key(id) ==> id < r.next(),
{
    assert forall|i: int, j: int|
        0 <= i < r.issued().len() && 0 <= j < r.issued().len() && i != j implies #[trigger] r.issued()[i]
            != #[trigger] r.issued()[j] by {
        if i < j {
            assert(r.issued@[i] < r.issued@[j]);
        } else {
            assert(r.issued@[j] < r.issued@[i]);
        }
    }
    assert forall|id: u64| #[trigger] r.table().contains_key(id) implies id < r.next() by {
        assert(r.sessions@.contains_key(id));
    }
}

/// The table after each session of `ids`, one after another, was
/// registered with `entries[i]` (its cancellation handle and whatever
/// channels were stored for it) and then removed.
pub open spec fn after_cycles<H, C>(
    t: Map<u64, (H, Map<u32, C>)>,
    ids: Seq<u64>,
    entries: Seq<(H, Map<u32, C>)>,
) -> Map<u64, (H, Map<u32, C>)>
    decreases ids.len(),
{
    if ids.len() == 0 || entries.len() == 0 {
        t
    } else {
        after_cycles(t.insert(ids[0], entries[0]).remove(ids[0]), ids.drop_first(), entries.drop_first())
    }
}

/// No entry leaks: any number of connections that are registered, store
/// channels and are removed again, one after another, leave the table as it
/// was before the first of them.
pub proof fn lemma_no_leak_after_cycles<H, C>(
    t: Map<u64, (H, Map<u32, C>)>,
    ids: Seq<u64>,
    entries: Seq<(H, Map<u32, C>)>,
)
    requires
        forall|i: int| 0 <= i < ids.len() ==> !t.contains_key(#[trigger] ids[i]),
    ensures
        after_cycles(t, ids, entries) == t,
    decreases ids.len(),
{
    if ids.len() > 0 && entries.len() > 0 {
        assert(!t.contains_key(ids[0]));
        assert(t.insert(ids[0], entries[0]).remove(ids[0]) =~= t);
        assert forall|i: int| 0 <= i < ids.drop_first().len() implies !t.contains_key(
            #[trigger] ids.drop_first()[i],
        ) by {
            assert(ids.drop_first()[i] == ids[i + 1]);
        }
        lemma_no_leak_after_cycles(t, ids.drop_first(), entries.drop_first());
    }
}

/// A session's entry is removed exactly once: the first removal hands back
/// its cancellation handle, and removing it again (say, after its task
/// finished on its own) raises nothing: it finds nothing, hands back
/// nothing and changes nothing. No other session is touched.
pub proof fn lemma_removed_once<H, C>(t: Map<u64, (H, Map<u32, C>)>, id: u64)
    ensures
        t.contains_key(id) ==> removal(t, id) == Some(t[id].0),
        removal(t.remove(id), id) == None::<H>,
        t.remove(id).remove(id) == t.remove(id),
        forall|k: u64| k != id ==> (#[trigger] t.remove(id).contains_key(k) <==> t.contains_key(k)),
        forall|k: u64| k != id && t.contains_key(k) ==> #[trigger] t.remove(id)[k] == t[k],
{
    assert(t.remove(id).remove(id) =~= t.remove(id));
}

} // verus!
