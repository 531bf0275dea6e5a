//! The table of live connections and the decisions of one session.
use crate::commands::{handle_input_of, respond, response_of};
use crate::text::{decode_lossy, lossy_text};
use std::collections::HashMap;
use vstd::prelude::*;
use vstd::std_specs::hash::*;
use vstd::string::*;

verus! {

broadcast use vstd::std_specs::hash::group_hash_axioms;

/// Whether a connection is still being served.
#[derive(Clone, Copy, Debug, PartialEq, Eq, Structural)]
pub enum ConnectionStatus {
    Active,
    Disconnected,
}

/// What the server keeps about one connection. Times are whatever clock
/// readings the caller hands in.
#[derive(Debug)]
pub struct ConnectionInfo {
    pub status: ConnectionStatus,
    pub address: String,
    pub connected_at: u64,
    pub last_activity: u64,
}

/// A connection record as plain values.
pub struct InfoView {
    pub status: ConnectionStatus,
    pub address: Seq<char>,
    pub connected_at: u64,
    pub last_activity: u64,
}

impl View for ConnectionInfo {
    type V = InfoView;

    open spec fn view(&self) -> InfoView {
        InfoView {
            status: self.status,
            address: self.address@,
            connected_at: self.connected_at,
            last_activity: self.last_activity,
        }
    }
}

/// The table as plain values: the records by id, and the id that the
/// next connection gets.
pub struct RegistryView {
    pub entries: Map<u64, InfoView>,
    pub next: u64,
}

/// Every id in the table was handed out before: the next id is above all
/// of them, so no id is handed out twice.
pub open spec fn ids_below_next(r: RegistryView) -> bool {
    forall|id: u64| r.entries.contains_key(id) ==> id < r.next
}

/// Whether the table can take one more connection: an id is left, and
/// the next id is free.
pub open spec fn can_accept(r: RegistryView) -> bool {
    r.next < u64::MAX && !r.entries.contains_key(r.next)
}

/// The table after a connection from `address` was accepted at `now`: it
/// is entered as active under the next id, and the next id moves on.
pub open spec fn accepted(r: RegistryView, address: Seq<char>, now: u64) -> RegistryView {
    if can_accept(r) {
        RegistryView {
            entries: r.entries.insert(
                r.next,
                InfoView {
                    status: ConnectionStatus::Active,
                    address,
                    connected_at: now,
                    last_activity: now,
                },
            ),
            next: (r.next + 1) as u64,
        }
    } else {
        r
    }
}

/// The table after connection `id` was active at `now`.
pub open spec fn touched(r: RegistryView, id: u64, now: u64) -> RegistryView {
    if r.entries.contains_key(id) {
        RegistryView {
            entries: r.entries.insert(id, InfoView { last_activity: now, ..r.entries[id] }),
            next: r.next,
        }
    } else {
        r
    }
}

/// The table after connection `id` was marked as disconnected.
pub open spec fn disconnected(r: RegistryView, id: u64) -> RegistryView {
    if r.entries.contains_key(id) {
        RegistryView {
            entries: r.entries.insert(
                id,
                InfoView { status: ConnectionStatus::Disconnected, ..r.entries[id] },
            ),
            next: r.next,
        }
    } else {
        r
    }
}

/// The table after connection `id` was taken out.
pub open spec fn removed(r: RegistryView, id: u64) -> RegistryView {
    RegistryView { entries: r.entries.remove(id), next: r.next }
}

/// The table of live connections. Ids are handed out in sequence and
/// never again.
pub struct ConnectionRegistry {
    connections: HashMap<u64, ConnectionInfo>,
    next_id: u64,
}

impl View for ConnectionRegistry {
    type V = RegistryView;

    closed spec fn view(&self) -> RegistryView {
        RegistryView {
            entries: Map::new(
                |id: u64| self.connections@.contains_key(id),
                |id: u64| self.connections@[id]@,
            ),
            next: self.next_id,
        }
    }
}

impl ConnectionRegistry {
    /// An empty table whose first id is 0.
    pub fn new() -> (r: Self)
        ensures
            r@ == (RegistryView { entries: Map::empty(), next: 0 }),
            ids_below_next(r@),
    {
        let r = Self { connections: HashMap::new(), next_id: 0 };
        assert(r@.entries =~= Map::empty());
        r
    }

    /// The id that the next connection gets.
    pub fn next_id(&self) -> (r: u64)
        ensures
            r == self@.next,
    {
        self.next_id
    }

    /// How many connections are in the table.
    pub fn len(&self) -> (r: usize)
        ensures
            r == self@.entries.len(),
    {
        proof {
            assert(self@.entries.dom() =~= self.connections@.dom());
        }
        self.connections.len()
    }

    /// Whether `id` is in the table.
    pub fn contains(&self, id: u64) -> (r: bool)
        ensures
            r == self@.entries.contains_key(id),
    {
        self.connections.contains_key(&id)
    }

    /// The status of connection `id`.
    pub fn status(&self, id: u64) -> (r: Option<ConnectionStatus>)
        ensures
            r == match self@.entries.get(id) {
                Some(info) => Some(info.status),
                None => None,
            },
    {
        match self.connections.get(&id) {
            Some(info) => Some(info.status),
            None => None,
        }
    }

    /// When connection `id` was last active.
    pub fn last_activity(&self, id: u64) -> (r: Option<u64>)
        ensures
            r == match self@.entries.get(id) {
                Some(info) => Some(info.last_activity),
                None => None,
            },
    {
        match self.connections.get(&id) {
            Some(info) => Some(info.last_activity),
            None => None,
        }
    }

    /// Enters `info` under `id`. Ids are taken in sequence: the entry is
    /// made, and `true` returned, exactly when `id` is the next id, is not
    /// in the table, and another id can follow it; otherwise nothing
    /// changes.
    pub fn insert(&mut self, id: u64, info: ConnectionInfo) -> (r: bool)
        ensures
            r == (id == old(self)@.next && id < u64::MAX && !old(self)@.entries.contains_key(id)),
            r ==> final(self)@ == (RegistryView {
                entries: old(self)@.entries.insert(id, info@),
                next: (id + 1) as u64,
            }),
            !r ==> final(self)@ == old(self)@,
            ids_below_next(old(self)@) ==> ids_below_next(final(self)@),
    {
        if id != self.next_id || id == u64::MAX || self.connections.contains_key(&id) {
            return false;
        }
        let ghost before = self@;
        self.connections.insert(id, info);
        self.next_id = id + 1;
        assert(self@.entries =~= before.entries.insert(id, info@));
        true
    }

    /// Enters a connection from `address`, active since `now`, under the
    /// next id, and returns that id; `None` when the ids are used up.
    pub fn accept(&mut self, address: String, now: u64) -> (r: Option<u64>)
        ensures
            r == if can_accept(old(self)@) {
                Some(old(self)@.next)
            } else {
                None
            },
            final(self)@ == accepted(old(self)@, address@, now),
            ids_below_next(old(self)@) ==> ids_below_next(final(self)@),
    {
        let id = self.next_id();
        let info = ConnectionInfo {
            status: ConnectionStatus::Active,
            address,
            connected_at: now,
            last_activity: now,
        };
        if self.insert(id, info) {
            Some(id)
        } else {
            None
        }
    }

    /// Notes that connection `id` was active at `now`. Returns whether
    /// `id` is in the table; nothing changes where it is not.
    pub fn update_activity(&mut self, id: u64, now: u64) -> (r: bool)
        ensures
            r == old(self)@.entries.contains_key(id),
            final(self)@ == touched(old(self)@, id, now),
            ids_below_next(old(self)@) ==> ids_below_next(final(self)@),
    {
        let ghost before = self@;
        match self.connections.remove(&id) {
            Some(info) => {
                let updated = ConnectionInfo {
                    status: info.status,
                    address: info.address,
                    connected_at: info.connected_at,
                    last_activity: now,
                };
                self.connections.insert(id, updated);
                assert(self@.entries =~= before.entries.insert(
                    id,
                    InfoView { last_activity: now, ..before.entries[id] },
                ));
                true
            },
            None => {
                assert(self@.entries =~= before.entries);
                false
            },
        }
    }

    /// Marks connection `id` as disconnected. Returns whether `id` is in
    /// the table; nothing changes where it is not.
    pub fn mark_disconnected(&mut self, id: u64) -> (r: bool)
        ensures
            r == old(self)@.entries.contains_key(id),
            final(self)@ == disconnected(old(self)@, id),
            ids_below_next(old(self)@) ==> ids_below_next(final(self)@),
    {
        let ghost before = self@;
        match self.connections.remove(&id) {
            Some(info) => {
                let updated = ConnectionInfo {
                    status: ConnectionStatus::Disconnected,
                    address: info.address,
                    connected_at: info.connected_at,
                    last_activity: info.last_activity,
                };
                self.connections.insert(id, updated);
                assert(self@.entries =~= before.entries.insert(
                    id,
                    InfoView { status: ConnectionStatus::Disconnected, ..before.entries[id] },
                ));
                true
            },
            None => {
                assert(self@.entries =~= before.entries);
                false
            },
        }
    }

    /// Takes connection `id` out of the table. Returns whether it was
    /// there. The id is not handed out again.
    pub fn remove(&mut self, id: u64) -> (r: bool)
        ensures
            r == old(self)@.entries.contains_key(id),
            final(self)@ == removed(old(self)@, id),
            !final(self)@.entries.contains_key(id),
            ids_below_next(old(self)@) ==> ids_below_next(final(self)@),
    {
        let ghost before = self@;
        let removed = self.connections.remove(&id);
        assert(self@.entries =~= before.entries.remove(id));
        removed.is_some()
    }
}

/// What the reading side of a session reports.
#[derive(Debug)]
pub enum SessionEvent {
    /// The bytes of one read; none when the peer closed the connection.
    Read(Vec<u8>),
    /// Reading failed.
    Failed,
}

/// What a session does next.
#[derive(Debug)]
pub enum SessionAction {
    /// Send this text, note the activity, and read again.
    Reply(String),
    /// End the session: the peer is gone.
    Finish,
    /// End the session with the read failure.
    Abort,
}

/// An action as plain values.
pub enum ActionView {
    Reply(Seq<char>),
    Finish,
    Abort,
}

impl View for SessionAction {
    type V = ActionView;

    open spec fn view(&self) -> ActionView {
        match self {
            SessionAction::Reply(text) => ActionView::Reply(text@),
            SessionAction::Finish => ActionView::Finish,
            SessionAction::Abort => ActionView::Abort,
        }
    }
}

/// What the session answers to the bytes of one read: the response line
/// of the command that their text holds.
pub open spec fn reply_of(bytes: Seq<u8>) -> Seq<char> {
    response_of(handle_input_of(lossy_text(bytes))) + "\n"@
}

/// What a session does on an event: bytes are answered with their reply;
/// a read without bytes means that the peer is gone, and the session
/// finishes; a read failure ends the session with that failure.
pub open spec fn action_of(event: SessionEvent) -> ActionView {
    match event {
        SessionEvent::Read(bytes) => if bytes@.len() > 0 {
            ActionView::Reply(reply_of(bytes@))
        } else {
            ActionView::Finish
        },
        SessionEvent::Failed => ActionView::Abort,
    }
}

/// Decides one step of a session. The table is not needed for it, so a
/// session decodes and dispatches without keeping others from theirs.
pub fn session_step(event: &SessionEvent) -> (r: SessionAction)
    ensures
        r@ == action_of(*event),
{
    match event {
        SessionEvent::Read(bytes) => {
            if bytes.len() > 0 {
                let text = decode_lossy(bytes.as_slice());
                SessionAction::Reply(respond(text.as_str()))
            } else {
                SessionAction::Finish
            }
        },
        SessionEvent::Failed => SessionAction::Abort,
    }
}

/// What a step of the session of connection `id` leaves in the table: a
/// reply that was sent at `now` is noted as activity, a finished session
/// is marked as disconnected, a failure changes nothing.
pub open spec fn recorded(r: RegistryView, id: u64, action: ActionView, now: u64) -> RegistryView {
    match action {
        ActionView::Reply(_) => touched(r, id, now),
        ActionView::Finish => disconnected(r, id),
        ActionView::Abort => r,
    }
}

/// Enters into the table what the step `action` of the session of
/// connection `id` means for it; for a reply, once it has been sent.
pub fn record_step(registry: &mut ConnectionRegistry, id: u64, action: &SessionAction, now: u64)
    ensures
        final(registry)@ == recorded(old(registry)@, id, action@, now),
        ids_below_next(old(registry)@) ==> ids_below_next(final(registry)@),
{
    match action {
        SessionAction::Reply(_) => {
            registry.update_activity(id, now);
        },
        SessionAction::Finish => {
            registry.mark_disconnected(id);
        },
        SessionAction::Abort => {},
    }
}

/// In a table whose ids all lie below the next id, the next id is free:
/// the connection that gets it shares it with no other.
pub proof fn lemma_next_id_free(r: RegistryView)
    requires
        ids_below_next(r),
    ensures
        !r.entries.contains_key(r.next),
{
}

/// Taking an id out of a table leaves it absent and every other record
/// as it was, and the id is not the next one to be handed out.
pub proof fn lemma_removed_id_stays_out(r: RegistryView, id: u64)
    requires
        ids_below_next(r),
        r.entries.contains_key(id),
    ensures
        !r.entries.remove(id).contains_key(id),
        id != r.next,
        ids_below_next(RegistryView { entries: r.entries.remove(id), next: r.next }),
        forall|other: u64|
            other != id && r.entries.contains_key(other) ==> r.entries.remove(id).contains_key(
                other,
            ) && r.entries.remove(id)[other] == r.entries[other],
{
}

/// Bytes never end a session: whatever they hold, an unknown command or
/// wrong arguments among it, they are answered with one reply that ends
/// in a line break, and recording the reply leaves the connection in the
/// table with its status, and every other record as it was.
pub proof fn lemma_session_goes_on(r: RegistryView, id: u64, bytes: Seq<u8>, now: u64)
    requires
        bytes.len() > 0,
        r.entries.contains_key(id),
    ensures
        reply_of(bytes).len() > 0,
        reply_of(bytes).last() == '\n',
        ({
            let after = recorded(r, id, ActionView::Reply(reply_of(bytes)), now);
            &&& after.next == r.next
            &&& after.entries.dom() == r.entries.dom()
            &&& after.entries[id].status == r.entries[id].status
            &&& after.entries[id].last_activity == now
            &&& forall|other: u64|
                other != id && r.entries.contains_key(other) ==> after.entries[other]
                    == r.entries[other]
        }),
{
    reveal_strlit("\n");
    let after = recorded(r, id, ActionView::Reply(reply_of(bytes)), now);
    assert(after.entries.dom() =~= r.entries.dom());
}

/// One thing that happens to the table.
pub enum RegistryStep {
    /// A connection from this address is accepted at this time.
    Accept(Seq<char>, u64),
    /// A step of the session of this connection is recorded at this time.
    Record(u64, ActionView, u64),
    /// The session of this connection has ended.
    Remove(u64),
}

/// The table after one step.
pub open spec fn stepped(r: RegistryView, step: RegistryStep) -> RegistryView {
    match step {
        RegistryStep::Accept(address, now) => accepted(r, address, now),
        RegistryStep::Record(id, action, now) => recorded(r, id, action, now),
        RegistryStep::Remove(id) => removed(r, id),
    }
}

/// The table after a run of steps, in whatever order the sessions took
/// their turns.
pub open spec fn ran(r: RegistryView, steps: Seq<RegistryStep>) -> RegistryView
    decreases steps.len(),
{
    if steps.len() == 0 {
        r
    } else {
        ran(stepped(r, steps[0]), steps.drop_first())
    }
}

/// How many connections a run of steps accepts.
pub open spec fn accepts_in(steps: Seq<RegistryStep>) -> nat
    decreases steps.len(),
{
    if steps.len() == 0 {
        0
    } else if steps[0] is Accept {
        1 + accepts_in(steps.drop_first())
    } else {
        accepts_in(steps.drop_first())
    }
}

/// The table a server starts with.
pub open spec fn empty_registry() -> RegistryView {
    RegistryView { entries: Map::empty(), next: 0 }
}

/// No step moves the next id back, and every step keeps the ids in the
/// table below it.
pub proof fn lemma_step_keeps_order(r: RegistryView, step: RegistryStep)
    requires
        ids_below_next(r),
    ensures
        ids_below_next(stepped(r, step)),
        r.next <= stepped(r, step).next,
        forall|id: u64|
            id < r.next && !r.entries.contains_key(id) ==> !stepped(r, step).entries.contains_key(
                id,
            ),
{
}

/// Whatever the sessions do and in whatever order, every id in the table
/// lies below the next id, the next id never moves back, and an id that
/// was handed out and is no longer in the table never returns to it: no
/// id is used twice.
pub proof fn lemma_run_keeps_order(r: RegistryView, steps: Seq<RegistryStep>)
    requires
        ids_below_next(r),
    ensures
        ids_below_next(ran(r, steps)),
        r.next <= ran(r, steps).next,
        forall|id: u64|
            id < r.next && !r.entries.contains_key(id) ==> !ran(r, steps).entries.contains_key(id),
    decreases steps.len(),
{
    if steps.len() > 0 {
        lemma_step_keeps_order(r, steps[0]);
        lemma_run_keeps_order(stepped(r, steps[0]), steps.drop_first());
    }
}

/// Ids are handed out in sequence: after a run of steps the next id is
/// the one before the run plus the number of connections accepted, as
/// long as ids are left. From the empty table, the connection accepted
/// after `k` others gets the id `k`.
pub proof fn lemma_ids_in_sequence(r: RegistryView, steps: Seq<RegistryStep>)
    requires
        ids_below_next(r),
        r.next + accepts_in(steps) < u64::MAX,
    ensures
        ran(r, steps).next == r.next + accepts_in(steps),
    decreases steps.len(),
{
    if steps.len() > 0 {
        lemma_step_keeps_order(r, steps[0]);
        lemma_ids_in_sequence(stepped(r, steps[0]), steps.drop_first());
    }
}

/// Once the session of a connection has ended, by whatever path, its id
/// is out of the table and stays out, whatever the other sessions do
/// before and after.
pub proof fn lemma_ended_session_absent(
    r: RegistryView,
    steps: Seq<RegistryStep>,
    j: int,
    id: u64,
)
    requires
        ids_below_next(r),
        0 <= j < steps.len(),
        steps[j] == RegistryStep::Remove(id),
        id < ran(r, steps.take(j)).next,
    ensures
        !ran(r, steps).entries.contains_key(id),
    decreases steps.len(),
{
    let after = stepped(r, steps[0]);
    let rest = steps.drop_first();
    lemma_step_keeps_order(r, steps[0]);
    if j == 0 {
        assert(steps.take(0) =~= Seq::<RegistryStep>::empty());
        assert(ran(r, steps.take(0)) == r);
        assert(!after.entries.contains_key(id));
        assert(id < after.next);
        lemma_run_keeps_order(after, rest);
    } else {
        assert(steps.take(j).drop_first() =~= rest.take(j - 1));
        assert(steps.take(j)[0] == steps[0]);
        assert(ran(r, steps.take(j)) == ran(after, rest.take(j - 1)));
        assert(rest[j - 1] == steps[j]);
        lemma_ended_session_absent(after, rest, j - 1, id);
    }
    assert(ran(r, steps) == ran(after, rest));
}

/// Whether, in a run of steps from the empty table, the session of
/// connection `id` has ended after the id was handed out.
pub open spec fn session_ended(steps: Seq<RegistryStep>, id: u64) -> bool {
    exists|j: int|
        0 <= j < steps.len() && #[trigger] steps[j] == RegistryStep::Remove(id) && id < ran(
            empty_registry(),
            steps.take(j),
        ).next
}

/// Nothing is left behind: where every id handed out so far belongs to a
/// session that has ended, the table is empty.
pub proof fn lemma_nothing_leaked(steps: Seq<RegistryStep>)
    requires
        forall|id: u64|
            id < ran(empty_registry(), steps).next ==> #[trigger] session_ended(steps, id),
    ensures
        ran(empty_registry(), steps).entries == Map::<u64, InfoView>::empty(),
{
    let end = ran(empty_registry(), steps);
    lemma_run_keeps_order(empty_registry(), steps);
    assert forall|id: u64| !end.entries.contains_key(id) by {
        if id < end.next {
            assert(session_ended(steps, id));
            let j = choose|j: int|
                0 <= j < steps.len() && #[trigger] steps[j] == RegistryStep::Remove(id) && id < ran(
                    empty_registry(),
                    steps.take(j),
                ).next;
            lemma_ended_session_absent(empty_registry(), steps, j, id);
        }
    }
    assert(end.entries =~= Map::<u64, InfoView>::empty());
}

} // verus!
