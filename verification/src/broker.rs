//! The session and room broker: the single owner of the session table and of
//! room membership, and the component that decides where each chat message
//! goes. All mutation happens through the four operations `register`,
//! `unregister`, `join` and `route`, processed one at a time; the caller runs
//! them from a single serialized command loop and performs the returned
//! effects (deliveries, the persistence write, the history fetch) itself, so
//! that routing never blocks on storage or on a slow connection.

use std::collections::HashMap;
use vstd::prelude::*;
use vstd::string::*;

use crate::payload::{format_payload, spec_payload};

verus! {

broadcast use vstd::std_specs::hash::group_hash_axioms;

/// How many recent messages a `join` replays at most to the joining user.
pub const HISTORY_LIMIT: usize = 20;

/// A capability through which the broker can push one outbound payload to
/// exactly one connection. The broker holds it only while the session is
/// registered; the gateway maps it back to the live connection.
#[derive(Clone, Copy, PartialEq, Eq, Structural, Debug)]
pub struct DeliveryHandle {
    pub id: u64,
}

/// One outbound push: `payload` is to be sent through `handle`, which is the
/// delivery capability registered for `user_id` at the moment of routing.
#[derive(Debug)]
pub struct Delivery {
    pub user_id: i64,
    pub handle: DeliveryHandle,
    pub payload: String,
}

/// A chat message to be appended to durable storage, independently of the
/// live fan-out that already happened.
#[derive(Debug)]
pub struct PersistMessage {
    pub conversation_id: i64,
    pub sender_id: i64,
    pub content: String,
    pub msg_type: String,
}

/// A request to fetch the most recent messages of a conversation from the
/// store, issued by `join`; the result is handed back to `deliver_history`.
#[derive(Clone, Copy, PartialEq, Eq, Structural, Debug)]
pub struct HistoryFetch {
    pub user_id: i64,
    pub conversation_id: i64,
    pub limit: usize,
}

/// A stored chat message as the history fetch returns it. `send_time` is the
/// creation time as a unix timestamp in seconds.
#[derive(Debug, Clone)]
pub struct ChatMessage {
    pub sender_id: i64,
    pub content: String,
    pub send_time: i64,
}

/// One conversation room: the users currently subscribed for live delivery.
struct Room {
    conversation_id: i64,
    members: Vec<i64>,
}

/// The broker state: the session table and the room membership table.
pub struct ChatServer {
    sessions: HashMap<i64, DeliveryHandle>,
    rooms: Vec<Room>,
}

/// The abstract broker state: which user has which delivery capability, and
/// which users each conversation room currently holds.
#[verifier::ext_equal]
pub struct BrokerView {
    pub sessions: Map<i64, DeliveryHandle>,
    pub rooms: Map<i64, Set<i64>>,
}

impl BrokerView {
    /// The state of a freshly started broker: no sessions, no rooms.
    pub open spec fn init() -> BrokerView {
        BrokerView { sessions: Map::empty(), rooms: Map::empty() }
    }

    /// Effect of `register`: the session entry for `user_id` is inserted or
    /// overwritten; room membership is untouched.
    pub open spec fn register_effect(self, user_id: i64, handle: DeliveryHandle) -> BrokerView {
        BrokerView { sessions: self.sessions.insert(user_id, handle), rooms: self.rooms }
    }

    /// Effect of `unregister`: the session entry for `user_id` is removed and
    /// `user_id` leaves every room; the set of rooms itself is kept.
    pub open spec fn unregister_effect(self, user_id: i64) -> BrokerView {
        BrokerView {
            sessions: self.sessions.remove(user_id),
            rooms: Map::new(
                |c: i64| self.rooms.contains_key(c),
                |c: i64| self.rooms[c].remove(user_id),
            ),
        }
    }

    /// Effect of `join`: `user_id` enters the room of `conversation_id`,
    /// which is created if absent; sessions are untouched.
    pub open spec fn join_effect(self, user_id: i64, conversation_id: i64) -> BrokerView {
        BrokerView {
            sessions: self.sessions,
            rooms: self.rooms.insert(
                conversation_id,
                if self.rooms.contains_key(conversation_id) {
                    self.rooms[conversation_id].insert(user_id)
                } else {
                    Set::empty().insert(user_id)
                },
            ),
        }
    }

    /// The users a `route` for `conversation_id` delivers to: exactly the
    /// current room members that currently have a session.
    pub open spec fn route_targets(self, conversation_id: i64) -> Set<i64> {
        Set::new(
            |u: i64|
                self.rooms.contains_key(conversation_id) && self.rooms[conversation_id].contains(u)
                    && self.sessions.contains_key(u),
        )
    }
}

/// The set of users a sequence of deliveries reaches.
pub open spec fn delivered_users(ds: Seq<Delivery>) -> Set<i64> {
    Set::new(|u: i64| exists|i: int| 0 <= i < ds.len() && ds[i].user_id == u)
}

impl View for ChatServer {
    type V = BrokerView;

    closed spec fn view(&self) -> BrokerView {
        BrokerView {
            sessions: self.sessions@,
            rooms: Map::new(|c: i64| self.spec_has_room(c), |c: i64| self.spec_room_members(c)),
        }
    }
}

impl ChatServer {
    spec fn spec_has_room(&self, c: i64) -> bool {
        exists|i: int| 0 <= i < self.rooms@.len() && self.rooms@[i].conversation_id == c
    }

    spec fn spec_room_members(&self, c: i64) -> Set<i64> {
        Set::new(
            |u: i64|
                exists|i: int|
                    0 <= i < self.rooms@.len() && self.rooms@[i].conversation_id == c
                        && self.rooms@[i].members@.contains(u),
        )
    }

    /// Well-formedness: room identifiers are distinct, and each room lists
    /// every member once.
    pub closed spec fn wf(&self) -> bool {
        &&& forall|i: int, j: int|
            0 <= i < self.rooms@.len() && 0 <= j < self.rooms@.len() && i != j
                ==> self.rooms@[i].conversation_id != self.rooms@[j].conversation_id
        &&& forall|i: int|
            0 <= i < self.rooms@.len() ==> room_members_distinct(self.rooms@[i].members@)
    }

    /// A broker with no registered session and no room.
    pub fn new() -> (s: ChatServer)
        ensures
            s@ == BrokerView::init(),
            s.wf(),
    {
        let s = ChatServer { sessions: HashMap::new(), rooms: Vec::new() };
        proof {
            assert(s@.rooms =~= Map::<i64, Set<i64>>::empty());
            assert(s@ =~= BrokerView::init());
        }
        s
    }

    /// Inserts or overwrites the session entry for `user_id`. Always
    /// succeeds; a previous delivery capability of the same user is discarded
    /// from the table and receives nothing further.
    pub fn register(&mut self, user_id: i64, handle: DeliveryHandle)
        requires
            old(self).wf(),
        ensures
            final(self).wf(),
            final(self)@ == old(self)@.register_effect(user_id, handle),
    {
        self.sessions.insert(user_id, handle);
        proof {
            assert(self@.rooms =~~= old(self)@.rooms);
            assert(self@ =~= old(self)@.register_effect(user_id, handle));
        }
    }
    /// The delivery capability currently registered for `user_id`, if any.
    pub fn session_of(&self, user_id: i64) -> (r: Option<DeliveryHandle>)
        ensures
            match r {
                Some(h) => self@.sessions.contains_key(user_id) && h
                    == self@.sessions[user_id],
                None => !self@.sessions.contains_key(user_id),
            },
    {
        match self.sessions.get(&user_id) {
            Some(h) => Some(*h),
            None => None,
        }
    }

    /// Removes the session entry for `user_id` and removes `user_id` from
    /// every room. Unregistering a user with no session and no membership
    /// changes nothing.
    pub fn unregister(&mut self, user_id: i64)
        requires
            old(self).wf(),
        ensures
            final(self).wf(),
            final(self)@ == old(self)@.unregister_effect(user_id),
    {
        self.sessions.remove(&user_id);
        let n = self.rooms.len();
        let mut i: usize = 0;
        while i < n
            invariant
                old(self).wf(),
                i <= n,
                n == self.rooms@.len(),
                self.rooms@.len() == old(self).rooms@.len(),
                self.sessions@ == old(self).sessions@.remove(user_id),
                forall|k: int| i <= k < n ==> self.rooms@[k] == old(self).rooms@[k],
                forall|k: int|
                    0 <= k < i ==> (#[trigger] self.rooms@[k]).conversation_id == old(
                        self,
                    ).rooms@[k].conversation_id,
                forall|k: int|
                    0 <= k < i ==> room_members_distinct(
                        (#[trigger] self.rooms@[k]).members@,
                    ),
                forall|k: int, v: i64|
                    0 <= k < i ==> ((#[trigger] self.rooms@[k].members@.contains(v)) <==> (old(
                        self,
                    ).rooms@[k].members@.contains(v) && v != user_id)),
            decreases n - i,
        {
            proof {
                assert(room_members_distinct(self.rooms@[i as int].members@));
            }
            let room = vstd::std_specs::vec::vec_index_mut(&mut self.rooms, i);
            remove_member(&mut room.members, user_id);
            i = i + 1;
        }
        proof {
            let pre = old(self)@;
            let post = self@;
            let target = pre.unregister_effect(user_id);
            assert forall|c: i64| post.rooms.contains_key(c) <==> target.rooms.contains_key(
                c,
            ) by {
                if self.spec_has_room(c) {
                    let k = choose|k: int|
                        0 <= k < self.rooms@.len() && self.rooms@[k].conversation_id == c;
                    assert(old(self).rooms@[k].conversation_id == c);
                    assert(old(self).spec_has_room(c));
                }
                if old(self).spec_has_room(c) {
                    let k = choose|k: int|
                        0 <= k < old(self).rooms@.len() && old(self).rooms@[k].conversation_id
                            == c;
                    assert(self.rooms@[k].conversation_id == c);
                    assert(self.spec_has_room(c));
                }
            }
            assert forall|c: i64| #[trigger] target.rooms.contains_key(c) implies post.rooms[c]
                =~= target.rooms[c] by {
                assert forall|v: i64| #[trigger] post.rooms[c].contains(v) implies target.rooms[c].contains(v) by {
                    let k = choose|k: int|
                        0 <= k < self.rooms@.len() && self.rooms@[k].conversation_id == c
                            && self.rooms@[k].members@.contains(v);
                    assert(old(self).rooms@[k].members@.contains(v) && v != user_id);
                }
                assert forall|v: i64| #[trigger] target.rooms[c].contains(v) implies post.rooms[c].contains(v) by {
                    let k = choose|k: int|
                        0 <= k < old(self).rooms@.len() && old(self).rooms@[k].conversation_id
                            == c && old(self).rooms@[k].members@.contains(v);
                    assert(self.rooms@[k].members@.contains(v));
                }
            }
            assert(post.rooms =~~= target.rooms);
            assert(post =~= target);
        }
    }

    /// Adds `user_id` to the membership set of `conversation_id`, creating
    /// the room if absent, and returns the history fetch to perform: up to
    /// `HISTORY_LIMIT` recent messages of this conversation, to be handed to
    /// `deliver_history` for the joining user once the store answers.
    pub fn join(&mut self, user_id: i64, conversation_id: i64) -> (fetch: HistoryFetch)
        requires
            old(self).wf(),
        ensures
            final(self).wf(),
            final(self)@ == old(self)@.join_effect(user_id, conversation_id),
            fetch == (HistoryFetch { user_id, conversation_id, limit: HISTORY_LIMIT }),
    {
        match find_room(&self.rooms, conversation_id) {
            Some(ri) => {
                let room = vstd::std_specs::vec::vec_index_mut(&mut self.rooms, ri);
                add_member(&mut room.members, user_id);
                proof {
                    self.lemma_join_view(*old(self), user_id, conversation_id, ri as int);
                }
            },
            None => {
                let mut members: Vec<i64> = Vec::new();
                members.push(user_id);
                self.rooms.push(Room { conversation_id, members });
                proof {
                    self.lemma_join_view_new_room(*old(self), user_id, conversation_id);
                }
            },
        }
        HistoryFetch { user_id, conversation_id, limit: HISTORY_LIMIT }
    }

    /// Proves the abstract effect of `join` when the room already existed:
    /// only the room at index `i` changed, and it gained `user_id`.
    proof fn lemma_join_view(&self, pre: ChatServer, user_id: i64, conversation_id: i64, i: int)
        requires
            pre.wf(),
            self.sessions@ == pre.sessions@,
            0 <= i < pre.rooms@.len(),
            self.rooms@.len() == pre.rooms@.len(),
            pre.rooms@[i].conversation_id == conversation_id,
            self.rooms@[i].conversation_id == conversation_id,
            forall|k: int| 0 <= k < pre.rooms@.len() && k != i ==> self.rooms@[k] == pre.rooms@[k],
            forall|v: i64|
                #[trigger] self.rooms@[i].members@.contains(v) <==> (pre.rooms@[i].members@.contains(
                    v,
                ) || v == user_id),
            room_members_distinct(self.rooms@[i].members@),
        ensures
            self.wf(),
            self@ == pre@.join_effect(user_id, conversation_id),
    {
        let post = self@;
        let target = pre@.join_effect(user_id, conversation_id);
        assert forall|c: i64| post.rooms.contains_key(c) <==> target.rooms.contains_key(c) by {
            if self.spec_has_room(c) {
                let k = choose|k: int|
                    0 <= k < self.rooms@.len() && self.rooms@[k].conversation_id == c;
                if c != conversation_id {
                    assert(pre.rooms@[k].conversation_id == c);
                    assert(pre.spec_has_room(c));
                }
            }
            if c == conversation_id {
                assert(self.rooms@[i].conversation_id == c);
                assert(self.spec_has_room(c));
            } else if pre.spec_has_room(c) {
                let k = choose|k: int|
                    0 <= k < pre.rooms@.len() && pre.rooms@[k].conversation_id == c;
                assert(self.rooms@[k].conversation_id == c);
                assert(self.spec_has_room(c));
            }
        }
        assert forall|c: i64| #[trigger] target.rooms.contains_key(c) implies post.rooms[c]
            =~= target.rooms[c] by {
            assert forall|v: i64| #[trigger] post.rooms[c].contains(v) implies target.rooms[c]
                .contains(v) by {
                let k = choose|k: int|
                    0 <= k < self.rooms@.len() && self.rooms@[k].conversation_id == c
                        && self.rooms@[k].members@.contains(v);
                if c == conversation_id {
                    if v != user_id {
                        if k == i {
                            assert(pre.rooms@[i].members@.contains(v));
                        } else {
                            assert(pre.rooms@[k].members@.contains(v));
                        }
                        assert(pre.spec_room_members(c).contains(v));
                    }
                } else {
                    assert(k != i);
                    assert(pre.rooms@[k].conversation_id == c);
                    assert(pre.rooms@[k].members@.contains(v));
                    assert(pre.spec_room_members(c).contains(v));
                }
            }
            assert forall|v: i64| #[trigger] target.rooms[c].contains(v) implies post.rooms[c]
                .contains(v) by {
                if c == conversation_id && v == user_id {
                    assert(self.rooms@[i].members@.contains(v));
                    assert(self.spec_room_members(c).contains(v));
                } else {
                    assert(pre.spec_room_members(c).contains(v));
                    let k = choose|k: int|
                        0 <= k < pre.rooms@.len() && pre.rooms@[k].conversation_id == c
                            && pre.rooms@[k].members@.contains(v);
                    if k == i {
                        assert(self.rooms@[i].members@.contains(v));
                    } else {
                        assert(self.rooms@[k].members@.contains(v));
                    }
                    assert(self.spec_room_members(c).contains(v));
                }
            }
        }
        assert(post.rooms =~~= target.rooms);
        assert(post =~= target);
    }

    /// Proves the abstract effect of `join` when no room of
    /// `conversation_id` existed: a fresh room holding only `user_id` was
    /// appended to the table.
    proof fn lemma_join_view_new_room(&self, pre: ChatServer, user_id: i64, conversation_id: i64)
        requires
            pre.wf(),
            self.sessions@ == pre.sessions@,
            forall|k: int|
                0 <= k < pre.rooms@.len() ==> (#[trigger] pre.rooms@[k]).conversation_id
                    != conversation_id,
            self.rooms@.len() == pre.rooms@.len() + 1,
            forall|k: int| 0 <= k < pre.rooms@.len() ==> self.rooms@[k] == pre.rooms@[k],
            self.rooms@.last().conversation_id == conversation_id,
            self.rooms@.last().members@ =~= seq![user_id],
        ensures
            self.wf(),
            self@ == pre@.join_effect(user_id, conversation_id),
    {
        let post = self@;
        let target = pre@.join_effect(user_id, conversation_id);
        let last = pre.rooms@.len() as int;
        assert(room_members_distinct(self.rooms@[last].members@));
        assert forall|c: i64| post.rooms.contains_key(c) <==> target.rooms.contains_key(c) by {
            if self.spec_has_room(c) && c != conversation_id {
                let k = choose|k: int|
                    0 <= k < self.rooms@.len() && self.rooms@[k].conversation_id == c;
                assert(k != last);
                assert(pre.rooms@[k].conversation_id == c);
                assert(pre.spec_has_room(c));
            }
            if c == conversation_id {
                assert(self.rooms@[last].conversation_id == c);
                assert(self.spec_has_room(c));
            } else if pre.spec_has_room(c) {
                let k = choose|k: int|
                    0 <= k < pre.rooms@.len() && pre.rooms@[k].conversation_id == c;
                assert(self.rooms@[k].conversation_id == c);
                assert(self.spec_has_room(c));
            }
        }
        assert forall|c: i64| #[trigger] target.rooms.contains_key(c) implies post.rooms[c]
            =~= target.rooms[c] by {
            assert forall|v: i64| #[trigger] post.rooms[c].contains(v) implies target.rooms[c]
                .contains(v) by {
                let k = choose|k: int|
                    0 <= k < self.rooms@.len() && self.rooms@[k].conversation_id == c
                        && self.rooms@[k].members@.contains(v);
                if k == last {
                    assert(c == conversation_id);
                    assert(v == user_id);
                } else {
                    assert(pre.rooms@[k].conversation_id == c);
                    assert(pre.rooms@[k].members@.contains(v));
                    assert(pre.spec_room_members(c).contains(v));
                    assert(c != conversation_id);
                }
            }
            assert forall|v: i64| #[trigger] target.rooms[c].contains(v) implies post.rooms[c]
                .contains(v) by {
                if c == conversation_id {
                    assert(v == user_id);
                    assert(self.rooms@[last].members@[0] == user_id);
                    assert(self.rooms@[last].members@.contains(v));
                    assert(self.spec_room_members(c).contains(v));
                } else {
                    assert(pre.spec_room_members(c).contains(v));
                    let k = choose|k: int|
                        0 <= k < pre.rooms@.len() && pre.rooms@[k].conversation_id == c
                            && pre.rooms@[k].members@.contains(v);
                    assert(self.rooms@[k].members@.contains(v));
                    assert(self.spec_room_members(c).contains(v));
                }
            }
        }
        assert(post.rooms =~~= target.rooms);
        assert(post =~= target);
    }
}

/// What one `route` call asks the caller to perform: the live deliveries,
/// and the storage write that runs independently of them.
pub struct RouteEffects {
    pub deliveries: Vec<Delivery>,
    pub persist: PersistMessage,
}

impl ChatServer {
    /// Routes a message: produces one delivery for every current member of
    /// the conversation's room that currently has a registered session — no
    /// more, no fewer — each through that member's registered capability and
    /// carrying the payload `"<sender_id>: <content>"`, together with the
    /// write of the message to durable storage. Members without a session
    /// are skipped without error; a missing room delivers to nobody.
    pub fn route(&self, sender_id: i64, conversation_id: i64, content: &str) -> (r: RouteEffects)
        requires
            self.wf(),
        ensures
            delivered_users(r.deliveries@) == self@.route_targets(conversation_id),
            forall|i: int|
                #![all_triggers]
                0 <= i < r.deliveries@.len() ==> {
                    &&& self@.sessions.contains_key(r.deliveries@[i].user_id)
                    &&& r.deliveries@[i].handle == self@.sessions[r.deliveries@[i].user_id]
                    &&& r.deliveries@[i].payload@ == spec_payload(sender_id, content@)
                },
            forall|i: int, j: int|
                0 <= i < r.deliveries@.len() && 0 <= j < r.deliveries@.len() && i != j
                    ==> r.deliveries@[i].user_id != r.deliveries@[j].user_id,
            r.persist.conversation_id == conversation_id,
            r.persist.sender_id == sender_id,
            r.persist.content@ == content@,
            r.persist.msg_type@ == "text"@,
    {
        let payload = format_payload(sender_id, content);
        let mut deliveries: Vec<Delivery> = Vec::new();
        match find_room(&self.rooms, conversation_id) {
            Some(ri) => {
                let room = &self.rooms[ri];
                let n = room.members.len();
                let mut j: usize = 0;
                while j < n
                    invariant
                        self.wf(),
                        j <= n,
                        ri < self.rooms@.len(),
                        room == &self.rooms@[ri as int],
                        room.conversation_id == conversation_id,
                        n == room.members@.len(),
                        payload@ == spec_payload(sender_id, content@),
                        forall|k: int|
                            #![all_triggers]
                            0 <= k < deliveries@.len() ==> {
                                &&& self.sessions@.contains_key(deliveries@[k].user_id)
                                &&& deliveries@[k].handle
                                    == self.sessions@[deliveries@[k].user_id]
                                &&& deliveries@[k].payload@ == spec_payload(
                                    sender_id,
                                    content@,
                                )
                            },
                        forall|k: int|
                            0 <= k < deliveries@.len() ==> exists|m: int|
                                0 <= m < j && room.members@[m] == (
                                #[trigger] deliveries@[k]).user_id,
                        forall|m: int|
                            0 <= m < j && self.sessions@.contains_key(
                                #[trigger] room.members@[m],
                            ) ==> exists|k: int|
                                0 <= k < deliveries@.len() && deliveries@[k].user_id
                                    == room.members@[m],
                        forall|k1: int, k2: int|
                            0 <= k1 < deliveries@.len() && 0 <= k2 < deliveries@.len() && k1
                                != k2 ==> deliveries@[k1].user_id != deliveries@[k2].user_id,
                    decreases n - j,
                {
                    let u = room.members[j];
                    let ghost pre_ds = deliveries@;
                    match self.sessions.get(&u) {
                        Some(h) => {
                            deliveries.push(
                                Delivery { user_id: u, handle: *h, payload: payload.clone() },
                            );
                            proof {
                                let ds = deliveries@;
                                let last = ds.len() - 1;
                                assert(ds[last].user_id == u);
                                assert(room.members@[j as int] == u);
                                assert(room_members_distinct(room.members@));
                                assert forall|k1: int, k2: int|
                                    0 <= k1 < ds.len() && 0 <= k2 < ds.len() && k1
                                        != k2 implies ds[k1].user_id != ds[k2].user_id by {
                                    if k1 < last && k2 < last {
                                        assert(ds[k1] == pre_ds[k1] && ds[k2] == pre_ds[k2]);
                                    } else {
                                        let kk: int = if k1 == last {
                                            k2
                                        } else {
                                            k1
                                        };
                                        assert(ds[kk] == pre_ds[kk]);
                                        let m = choose|m: int|
                                            0 <= m < j && room.members@[m] == pre_ds[kk].user_id;
                                        assert(room.members@[m] != room.members@[j as int]);
                                    }
                                }
                                assert forall|k: int| 0 <= k < ds.len() implies exists|m: int|
                                    0 <= m < j + 1 && room.members@[m] == (
                                #[trigger] ds[k]).user_id by {
                                    if k < last {
                                        assert(ds[k] == pre_ds[k]);
                                        let m = choose|m: int|
                                            0 <= m < j && room.members@[m] == pre_ds[k].user_id;
                                        assert(room.members@[m] == ds[k].user_id);
                                    } else {
                                        assert(room.members@[j as int] == ds[k].user_id);
                                    }
                                }
                                assert forall|m: int|
                                    0 <= m < j + 1 && self.sessions@.contains_key(
                                        #[trigger] room.members@[m],
                                    ) implies exists|k: int|
                                    0 <= k < ds.len() && ds[k].user_id == room.members@[m] by {
                                    if m < j {
                                        let k = choose|k: int|
                                            0 <= k < pre_ds.len() && pre_ds[k].user_id
                                                == room.members@[m];
                                        assert(ds[k].user_id == room.members@[m]);
                                    } else {
                                        assert(ds[last].user_id == room.members@[m]);
                                    }
                                }
                            }
                        },
                        None => {
                            proof {
                                assert forall|m: int|
                                    0 <= m < j + 1 && self.sessions@.contains_key(
                                        #[trigger] room.members@[m],
                                    ) implies exists|k: int|
                                    0 <= k < deliveries@.len() && deliveries@[k].user_id
                                        == room.members@[m] by {
                                    if m < j {
                                        let k = choose|k: int|
                                            0 <= k < pre_ds.len() && pre_ds[k].user_id
                                                == room.members@[m];
                                        assert(deliveries@[k].user_id == room.members@[m]);
                                    } else {
                                        assert(room.members@[m] == u);
                                    }
                                }
                            }
                        },
                    }
                    j = j + 1;
                }
                proof {
                    self.lemma_route_complete(
                        deliveries@,
                        conversation_id,
                        ri as int,
                    );
                }
            },
            None => {
                proof {
                    assert(delivered_users(deliveries@) =~= self@.route_targets(
                        conversation_id,
                    ));
                }
            },
        }
        let persist = PersistMessage {
            conversation_id,
            sender_id,
            content: content.to_owned(),
            msg_type: String::from_str("text"),
        };
        RouteEffects { deliveries, persist }
    }

    /// Proves that a delivery list covering exactly the session-holding
    /// members of the room at index `ri` reaches exactly the route targets.
    proof fn lemma_route_complete(&self, ds: Seq<Delivery>, conversation_id: i64, ri: int)
        requires
            self.wf(),
            0 <= ri < self.rooms@.len(),
            self.rooms@[ri].conversation_id == conversation_id,
            forall|k: int|
                0 <= k < ds.len() ==> self.sessions@.contains_key(
                    (#[trigger] ds[k]).user_id,
                ),
            forall|k: int|
                0 <= k < ds.len() ==> self.rooms@[ri].members@.contains(
                    (#[trigger] ds[k]).user_id,
                ),
            forall|m: int|
                0 <= m < self.rooms@[ri].members@.len() && self.sessions@.contains_key(
                    #[trigger] self.rooms@[ri].members@[m],
                ) ==> exists|k: int|
                    0 <= k < ds.len() && ds[k].user_id == self.rooms@[ri].members@[m],
        ensures
            delivered_users(ds) == self@.route_targets(conversation_id),
    {
        let targets = self@.route_targets(conversation_id);
        assert forall|u: i64| #[trigger] delivered_users(ds).contains(u) implies targets.contains(
            u,
        ) by {
            let k = choose|k: int| 0 <= k < ds.len() && ds[k].user_id == u;
            assert(self.rooms@[ri].members@.contains(u));
            assert(self.spec_room_members(conversation_id).contains(u));
            assert(self.spec_has_room(conversation_id));
        }
        assert forall|u: i64| #[trigger] targets.contains(u) implies delivered_users(ds).contains(
            u,
        ) by {
            assert(self.spec_room_members(conversation_id).contains(u));
            let k2 = choose|k2: int|
                0 <= k2 < self.rooms@.len() && self.rooms@[k2].conversation_id
                    == conversation_id && self.rooms@[k2].members@.contains(u);
            assert(k2 == ri);
            let m = choose|m: int|
                0 <= m < self.rooms@[ri].members@.len() && self.rooms@[ri].members@[m] == u;
            assert(exists|k: int| 0 <= k < ds.len() && ds[k].user_id == u);
        }
        assert(delivered_users(ds) =~= targets);
    }

    /// Delivers fetched history to the user who joined — and to nobody else:
    /// at most `HISTORY_LIMIT` messages, each rendered as
    /// `"<sender_id>: <content>"`, in the order the store returned them. If
    /// the user's session is gone by the time the fetch completes, nothing
    /// is delivered and the result is discarded.
    pub fn deliver_history(&self, user_id: i64, messages: &Vec<ChatMessage>) -> (r: Vec<
        Delivery,
    >)
        ensures
            r@.len() <= HISTORY_LIMIT,
            !self@.sessions.contains_key(user_id) ==> r@.len() == 0,
            self@.sessions.contains_key(user_id) ==> r@.len() == (if messages@.len()
                < HISTORY_LIMIT {
                messages@.len() as int
            } else {
                HISTORY_LIMIT as int
            }),
            forall|i: int|
                #![all_triggers]
                0 <= i < r@.len() ==> {
                    &&& r@[i].user_id == user_id
                    &&& self@.sessions.contains_key(user_id) && r@[i].handle
                        == self@.sessions[user_id]
                    &&& r@[i].payload@ == spec_payload(
                        messages@[i].sender_id,
                        messages@[i].content@,
                    )
                },
    {
        let mut out: Vec<Delivery> = Vec::new();
        match self.sessions.get(&user_id) {
            Some(h) => {
                let handle = *h;
                let total = messages.len();
                let n = if total < HISTORY_LIMIT {
                    total
                } else {
                    HISTORY_LIMIT
                };
                let mut i: usize = 0;
                while i < n
                    invariant
                        i <= n,
                        n <= messages@.len(),
                        n <= HISTORY_LIMIT,
                        n == (if messages@.len() < HISTORY_LIMIT {
                            messages@.len() as int
                        } else {
                            HISTORY_LIMIT as int
                        }),
                        self.sessions@.contains_key(user_id),
                        handle == self.sessions@[user_id],
                        out@.len() == i,
                        forall|k: int|
                            #![all_triggers]
                            0 <= k < out@.len() ==> {
                                &&& out@[k].user_id == user_id
                                &&& out@[k].handle == handle
                                &&& out@[k].payload@ == spec_payload(
                                    messages@[k].sender_id,
                                    messages@[k].content@,
                                )
                            },
                    decreases n - i,
                {
                    let m = &messages[i];
                    out.push(
                        Delivery {
                            user_id,
                            handle,
                            payload: format_payload(m.sender_id, m.content.as_str()),
                        },
                    );
                    i = i + 1;
                }
            },
            None => {},
        }
        out
    }
}

/// Adds `user_id` to a member list, unless already present.
fn add_member(members: &mut Vec<i64>, user_id: i64)
    requires
        room_members_distinct(old(members)@),
    ensures
        room_members_distinct(final(members)@),
        forall|v: i64|
            #[trigger] final(members)@.contains(v) <==> (old(members)@.contains(v) || v
                == user_id),
{
    match find_index(members, user_id) {
        Some(_) => {},
        None => {
            members.push(user_id);
            proof {
                let s_old = old(members)@;
                let s_new = members@;
                assert forall|v: i64| #[trigger] s_new.contains(v) implies (s_old.contains(v)
                    || v == user_id) by {
                    let k = choose|k: int| 0 <= k < s_new.len() && s_new[k] == v;
                    if k < s_old.len() {
                        assert(s_old[k] == v);
                    }
                }
                assert forall|v: i64| (s_old.contains(v) || v == user_id) implies #[trigger] s_new
                    .contains(v) by {
                    if s_old.contains(v) {
                        let k = choose|k: int| 0 <= k < s_old.len() && s_old[k] == v;
                        assert(s_new[k] == v);
                    } else {
                        assert(s_new[s_old.len() as int] == v);
                    }
                }
                assert forall|a: int, b: int|
                    0 <= a < s_new.len() && 0 <= b < s_new.len() && a != b implies s_new[a]
                    != s_new[b] by {
                    if a < s_old.len() && b < s_old.len() {
                        assert(s_new[a] == s_old[a] && s_new[b] == s_old[b]);
                    } else if a < s_old.len() {
                        assert(s_new[b] == user_id && s_new[a] == s_old[a]);
                        assert(!s_old.contains(user_id));
                    } else {
                        assert(s_new[a] == user_id && s_new[b] == s_old[b]);
                        assert(!s_old.contains(user_id));
                    }
                }
            }
        },
    }
}

/// Finds the position of `user_id` in a member list.
fn find_index(members: &Vec<i64>, user_id: i64) -> (r: Option<usize>)
    ensures
        match r {
            Some(i) => i < members@.len() && members@[i as int] == user_id,
            None => !members@.contains(user_id),
        },
{
    let n = members.len();
    let mut i: usize = 0;
    while i < n
        invariant
            i <= n,
            n == members@.len(),
            forall|k: int| 0 <= k < i ==> members@[k] != user_id,
        decreases n - i,
    {
        if members[i] == user_id {
            return Some(i);
        }
        i = i + 1;
    }
    None
}

/// Finds the position of the room of `conversation_id` in the room table.
fn find_room(rooms: &Vec<Room>, conversation_id: i64) -> (r: Option<usize>)
    ensures
        match r {
            Some(i) => i < rooms@.len() && rooms@[i as int].conversation_id == conversation_id,
            None => forall|k: int|
                0 <= k < rooms@.len() ==> (#[trigger] rooms@[k]).conversation_id
                    != conversation_id,
        },
{
    let n = rooms.len();
    let mut i: usize = 0;
    while i < n
        invariant
            i <= n,
            n == rooms@.len(),
            forall|k: int| 0 <= k < i ==> (#[trigger] rooms@[k]).conversation_id
                != conversation_id,
        decreases n - i,
    {
        if rooms[i].conversation_id == conversation_id {
            return Some(i);
        }
        i = i + 1;
    }
    None
}

/// Removes `user_id` from a member list, if present.
fn remove_member(members: &mut Vec<i64>, user_id: i64)
    requires
        room_members_distinct(old(members)@),
    ensures
        room_members_distinct(final(members)@),
        forall|v: i64|
            #[trigger] final(members)@.contains(v) <==> (old(members)@.contains(v) && v
                != user_id),
{
    if let Some(i) = find_index(members, user_id) {
        members.remove(i);
        proof {
            let s_old = old(members)@;
            let s_new = members@;
            assert forall|v: i64| #[trigger] s_new.contains(v) implies (s_old.contains(v) && v
                != user_id) by {
                let k = choose|k: int| 0 <= k < s_new.len() && s_new[k] == v;
                if k < i {
                    assert(s_old[k] == v);
                    assert(k != i);
                } else {
                    assert(s_old[k + 1] == v);
                    assert(k + 1 != i);
                }
            }
            assert forall|v: i64| s_old.contains(v) && v != user_id implies #[trigger] s_new
                .contains(v) by {
                let k = choose|k: int| 0 <= k < s_old.len() && s_old[k] == v;
                if k < i {
                    assert(s_new[k] == v);
                } else {
                    assert(s_new[k - 1] == v);
                }
            }
            assert forall|a: int, b: int|
                0 <= a < s_new.len() && 0 <= b < s_new.len() && a != b implies s_new[a]
                != s_new[b] by {
                let a_old: int = if a < i { a } else { a + 1 };
                let b_old: int = if b < i { b } else { b + 1 };
                assert(s_new[a] == s_old[a_old]);
                assert(s_new[b] == s_old[b_old]);
            }
        }
    }
}

/// Join gating, seen across operations: after `join(u, c)`, a routed message
/// for `c` targets `u` exactly when `u` currently has a registered session,
/// and targets every other user exactly as before the join. Together with
/// the `route` contract — the delivered set equals `route_targets` — a route
/// reaches exactly the currently registered users that joined the room.
pub proof fn lemma_join_gating(v: BrokerView, u: i64, c: i64)
    ensures
        v.join_effect(u, c).route_targets(c).contains(u) <==> v.sessions.contains_key(u),
        forall|w: i64|
            w != u ==> (v.join_effect(u, c).route_targets(c).contains(w)
                <==> v.route_targets(c).contains(w)),
{
}

/// Registering has no effect on room membership, so it never widens the set
/// of rooms whose routes reach a user beyond what that user joined.
pub proof fn lemma_register_keeps_rooms(v: BrokerView, u: i64, h: DeliveryHandle)
    ensures
        v.register_effect(u, h).rooms == v.rooms,
{
}

/// Unregister cleans all rooms: after `unregister(u)`, `u` is a member of no
/// room, and no subsequent route — to any conversation whatever — targets
/// `u` until it registers and joins again.
pub proof fn lemma_unregister_cleans_rooms(v: BrokerView, u: i64, c: i64)
    ensures
        v.unregister_effect(u).rooms.contains_key(c) ==> !v.unregister_effect(u).rooms[c]
            .contains(u),
        !v.unregister_effect(u).route_targets(c).contains(u),
{
}

/// Reconnect supersession: against a state in which `register(u, h2)` was
/// the last registration of `u`, every delivery for `u` in a list that binds
/// each delivery to the registered capability of its user — as the `route`
/// and `deliver_history` contracts do — carries `h2`; a previously
/// registered capability of `u` receives nothing further.
pub proof fn lemma_reconnect_supersession(
    v: BrokerView,
    u: i64,
    h2: DeliveryHandle,
    ds: Seq<Delivery>,
)
    requires
        forall|i: int|
            0 <= i < ds.len() ==> (#[trigger] ds[i]).handle == v.register_effect(
                u,
                h2,
            ).sessions[ds[i].user_id],
    ensures
        forall|i: int|
            0 <= i < ds.len() && (#[trigger] ds[i]).user_id == u ==> ds[i].handle == h2,
{
}

/// Idempotent unregister: unregistering a user that has no session — and,
/// having none, sits in no room — changes nothing at all.
pub proof fn lemma_idempotent_unregister(v: BrokerView, u: i64)
    requires
        !v.sessions.contains_key(u),
        forall|c: i64| #[trigger] v.rooms.contains_key(c) ==> !v.rooms[c].contains(u),
    ensures
        v.unregister_effect(u) == v,
{
    assert(v.sessions.remove(u) =~= v.sessions);
    assert forall|c: i64| #[trigger] v.unregister_effect(u).rooms.contains_key(c) implies v
        .unregister_effect(u).rooms[c] =~= v.rooms[c] by {
        assert(!v.rooms[c].contains(u));
    }
    assert(v.unregister_effect(u).rooms =~~= v.rooms);
    assert(v.unregister_effect(u) =~= v);
}

/// Each user appears at most once in a room's member list.
pub open spec fn room_members_distinct(members: Seq<i64>) -> bool {
    forall|i: int, j: int|
        0 <= i < members.len() && 0 <= j < members.len() && i != j ==> members[i] != members[j]
}

} // verus!

