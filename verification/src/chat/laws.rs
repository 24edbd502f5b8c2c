//! What holds of the router over whole runs: the focus of a session, the read
//! flags of the log, and the message lists of the rooms.
use crate::chat::models::{ChatMessageView, ChatUserView};
use crate::chat::server::{
    acked, lemma_connected_wf, lemma_disconnected_wf, lemma_joined_wf, message_ids, room_ids,
    user_ids, ChatServerView,
};
use crate::ids::{first_index, lemma_first_at, lemma_first_index, lemma_with_id_distinct};
use crate::table::{keys, lemma_upsert_keys, lemma_value_of, upsert};
use vstd::prelude::*;

verus! {

/// One request to the router.
pub enum Step {
    Connect(ChatUserView),
    Disconnect(Seq<char>),
    /// The session (first) joins the user or room (second).
    Join(Seq<char>, Seq<char>),
    Submit(ChatMessageView),
    Read(Seq<ChatMessageView>),
    /// The user (first) opens a room with a name (second) that is given the
    /// identifier (third).
    CreateRoom(Seq<char>, Seq<char>, Seq<char>),
}

/// The router after one request.
pub open spec fn after(s: ChatServerView, step: Step) -> ChatServerView {
    match step {
        Step::Connect(user) => s.connected(user).0,
        Step::Disconnect(id) => s.disconnected(id).0,
        Step::Join(id, target) => s.joined(id, target).0,
        Step::Submit(msg) => s.submitted(msg).0,
        Step::Read(acks) => s.acknowledged(acks).0,
        Step::CreateRoom(sender, name, id) => s.room_created(sender, name, id).0,
    }
}

/// The router after a run of requests.
pub open spec fn run(s: ChatServerView, steps: Seq<Step>) -> ChatServerView
    decreases steps.len(),
{
    if steps.len() == 0 {
        s
    } else {
        after(run(s, steps.drop_last()), steps.last())
    }
}

/// No request of the run opens a room under an identifier that a room already
/// has.
pub open spec fn opens_new_rooms_only(s: ChatServerView, steps: Seq<Step>) -> bool
    decreases steps.len(),
{
    if steps.len() == 0 {
        true
    } else {
        &&& opens_new_rooms_only(s, steps.drop_last())
        &&& match steps.last() {
            Step::CreateRoom(_, _, id) => !room_ids(run(s, steps.drop_last()).public_rooms).contains(id),
            _ => true,
        }
    }
}

/// Every request keeps the router well formed.
pub proof fn step_keeps_wf(s: ChatServerView, step: Step)
    requires
        s.wf(),
    ensures
        after(s, step).wf(),
{
    match step {
        Step::Connect(user) => {
            lemma_connected_wf(s, user);
        },
        Step::Disconnect(id) => {
            lemma_disconnected_wf(s, id);
        },
        Step::Join(id, target) => {
            lemma_joined_wf(s, id, target);
        },
        Step::Submit(msg) => {
            lemma_first_index(room_ids(s.public_rooms), msg.receiver_id);
            assert(room_ids(after(s, step).public_rooms) =~= room_ids(s.public_rooms));
        },
        Step::Read(acks) => {},
        Step::CreateRoom(sender, name, id) => {
            let ids = room_ids(s.public_rooms);
            lemma_first_index(ids, id);
            if ids.contains(id) {
                assert(room_ids(after(s, step).public_rooms) =~= ids);
            } else {
                assert(room_ids(after(s, step).public_rooms) =~= ids.push(id));
                lemma_with_id_distinct(ids, id);
            }
        },
    }
}

/// Every run keeps the router well formed.
pub proof fn run_keeps_wf(s: ChatServerView, steps: Seq<Step>)
    requires
        s.wf(),
    ensures
        run(s, steps).wf(),
    decreases steps.len(),
{
    if steps.len() > 0 {
        run_keeps_wf(s, steps.drop_last());
        step_keeps_wf(run(s, steps.drop_last()), steps.last());
    }
}

/// Connecting is idempotent: the router after a user has connected twice in a
/// row is the router after the user has connected once.
pub proof fn connect_is_idempotent(s: ChatServerView, user: ChatUserView)
    ensures
        s.connected(user).0.connected(user).0 == s.connected(user).0,
{
    let once = s.connected(user).0;
    let twice = once.connected(user).0;
    let ids = user_ids(s.users);
    lemma_first_index(ids, user.id);
    if ids.contains(user.id) {
        assert(user_ids(once.users) =~= ids);
    } else {
        assert(user_ids(once.users) =~= ids.push(user.id));
        lemma_first_at(ids.push(user.id), user.id, ids.len() as int);
    }
    assert(twice.users =~= once.users);
    lemma_first_index(s.sessions, user.id);
    assert(once.sessions.contains(user.id)) by {
        if !s.sessions.contains(user.id) {
            assert(once.sessions[s.sessions.len() as int] == user.id);
        }
    }
    lemma_upsert_keys(s.id_pointers, user.id, user.id);
    lemma_value_of(once.id_pointers, user.id);
    assert(twice.id_pointers =~= once.id_pointers);
}

/// The router after the session `id` joins each of `targets` in turn.
pub open spec fn joins(s: ChatServerView, id: Seq<char>, targets: Seq<Seq<char>>) -> ChatServerView
    decreases targets.len(),
{
    if targets.len() == 0 {
        s
    } else {
        joins(s, id, targets.drop_last()).joined(id, targets.last()).0
    }
}

/// After any sequence of joins by one session, the session has exactly one
/// focus entry, and it points at the last target.
pub proof fn focus_is_single_valued(s: ChatServerView, id: Seq<char>, targets: Seq<Seq<char>>)
    requires
        s.wf(),
        targets.len() > 0,
    ensures
        joins(s, id, targets).wf(),
        joins(s, id, targets).focus(id) == Some(targets.last()),
        exists|i: int|
            #![trigger joins(s, id, targets).id_pointers[i]]
            {
                &&& 0 <= i < joins(s, id, targets).id_pointers.len()
                &&& joins(s, id, targets).id_pointers[i] == (id, targets.last())
                &&& forall|j: int|
                    0 <= j < joins(s, id, targets).id_pointers.len() && (#[trigger] joins(
                        s,
                        id,
                        targets,
                    ).id_pointers[j]).0 == id ==> j == i
            },
    decreases targets.len(),
{
    let before = joins(s, id, targets.drop_last());
    if targets.len() > 1 {
        focus_is_single_valued(s, id, targets.drop_last());
    }
    lemma_joined_wf(before, id, targets.last());
    let next = joins(s, id, targets);
    let pointers = next.id_pointers;
    assert(pointers == upsert(before.id_pointers, id, targets.last()));
    lemma_upsert_keys(before.id_pointers, id, targets.last());
    lemma_value_of(pointers, id);
    let at = first_index(keys(pointers), id);
    assert(pointers[at] == (id, targets.last()));
    assert forall|j: int| 0 <= j < pointers.len() && (#[trigger] pointers[j]).0 == id implies j == at by {
        assert(keys(pointers)[j] == id);
        assert(keys(pointers)[at] == id);
    }
}

/// The log `later` is the log `earlier`, possibly longer and with more
/// messages read: every earlier message is still there, unchanged but for its
/// read flag, and a message that was read is still read.
pub open spec fn extends_log(earlier: Seq<ChatMessageView>, later: Seq<ChatMessageView>) -> bool {
    &&& earlier.len() <= later.len()
    &&& forall|i: int|
        0 <= i < earlier.len() ==> {
            &&& (#[trigger] later[i]) == ChatMessageView { read: later[i].read, ..earlier[i] }
            &&& earlier[i].read ==> later[i].read
        }
}

/// Marking reported messages as read extends the log.
pub proof fn acked_extends_log(messages: Seq<ChatMessageView>, acks: Seq<ChatMessageView>)
    ensures
        extends_log(messages, acked(messages, acks)),
        acked(messages, acks).len() == messages.len(),
    decreases acks.len(),
{
    if acks.len() > 0 {
        acked_extends_log(messages, acks.drop_last());
        let mid = acked(messages, acks.drop_last());
        lemma_first_index(message_ids(mid), acks.last().id);
    }
}

/// No request ever clears a read flag or changes a stored message otherwise.
pub proof fn step_extends_log(s: ChatServerView, step: Step)
    ensures
        extends_log(s.messages, after(s, step).messages),
{
    match step {
        Step::Read(acks) => {
            acked_extends_log(s.messages, acks);
        },
        _ => {},
    }
}

/// The read flag is monotone: over any run of requests, a message that was
/// read stays read.
pub proof fn read_flag_is_monotone(s: ChatServerView, steps: Seq<Step>)
    ensures
        extends_log(s.messages, run(s, steps).messages),
    decreases steps.len(),
{
    if steps.len() > 0 {
        read_flag_is_monotone(s, steps.drop_last());
        step_extends_log(run(s, steps.drop_last()), steps.last());
    }
}

/// The message list of the room `room`; empty where there is no such room.
pub open spec fn room_log(s: ChatServerView, room: Seq<char>) -> Seq<ChatMessageView> {
    if room_ids(s.public_rooms).contains(room) {
        s.public_rooms[first_index(room_ids(s.public_rooms), room)].messages
    } else {
        Seq::empty()
    }
}

/// A request that opens no room under a taken identifier keeps every room and
/// the start of its message list.
pub proof fn step_keeps_room_log(s: ChatServerView, step: Step, room: Seq<char>)
    requires
        s.wf(),
        room_ids(s.public_rooms).contains(room),
        step matches Step::CreateRoom(_, _, id) ==> !room_ids(s.public_rooms).contains(id),
    ensures
        room_ids(after(s, step).public_rooms).contains(room),
        room_log(s, room).is_prefix_of(room_log(after(s, step), room)),
{
    let ids = room_ids(s.public_rooms);
    let next = after(s, step);
    let at = first_index(ids, room);
    lemma_first_index(ids, room);
    match step {
        Step::Join(id, target) => {
            lemma_first_index(ids, target);
            assert(room_ids(next.public_rooms) =~= ids);
        },
        Step::Submit(msg) => {
            lemma_first_index(ids, msg.receiver_id);
            assert(room_ids(next.public_rooms) =~= ids);
        },
        Step::CreateRoom(sender, name, id) => {
            assert(room_ids(next.public_rooms) =~= ids.push(id));
            assert(ids.push(id)[at] == room);
            crate::ids::lemma_first_at(ids.push(id), room, at);
        },
        _ => {},
    }
}

/// A message sent to a room is appended to the room's message list.
pub proof fn submit_reaches_room(s: ChatServerView, msg: ChatMessageView)
    requires
        s.wf(),
        room_ids(s.public_rooms).contains(msg.receiver_id),
    ensures
        room_log(s.submitted(msg).0, msg.receiver_id) == room_log(s, msg.receiver_id).push(msg),
{
    let ids = room_ids(s.public_rooms);
    lemma_first_index(ids, msg.receiver_id);
    assert(room_ids(s.submitted(msg).0.public_rooms) =~= ids);
}

/// A room's message list is visible as a whole: once a message has been sent
/// to a room, every later join to that room, by whatever session and after
/// whatever requests, returns a list that starts with the room's messages up
/// to and including that one.
pub proof fn room_log_is_visible(
    s: ChatServerView,
    msg: ChatMessageView,
    steps: Seq<Step>,
    id: Seq<char>,
)
    requires
        s.wf(),
        room_ids(s.public_rooms).contains(msg.receiver_id),
        opens_new_rooms_only(s.submitted(msg).0, steps),
    ensures
        room_log(s, msg.receiver_id).push(msg).is_prefix_of(
            run(s.submitted(msg).0, steps).joined(id, msg.receiver_id).1,
        ),
        run(s.submitted(msg).0, steps).joined(id, msg.receiver_id).1.contains(msg),
{
    let room = msg.receiver_id;
    let start = s.submitted(msg).0;
    submit_reaches_room(s, msg);
    step_keeps_wf(s, Step::Submit(msg));
    step_keeps_room_log(s, Step::Submit(msg), room);
    run_keeps_room_log(start, steps, room);
    let end = run(start, steps);
    let stored = room_log(s, room).push(msg);
    assert(end.joined(id, room).1 == room_log(end, room));
    let at = room_log(s, room).len() as int;
    assert(stored[at] == msg);
    assert(room_log(end, room)[at] == msg);
}

/// A run that opens no room under a taken identifier keeps every room and the
/// start of its message list.
pub proof fn run_keeps_room_log(s: ChatServerView, steps: Seq<Step>, room: Seq<char>)
    requires
        s.wf(),
        room_ids(s.public_rooms).contains(room),
        opens_new_rooms_only(s, steps),
    ensures
        run(s, steps).wf(),
        room_ids(run(s, steps).public_rooms).contains(room),
        room_log(s, room).is_prefix_of(room_log(run(s, steps), room)),
    decreases steps.len(),
{
    if steps.len() > 0 {
        run_keeps_room_log(s, steps.drop_last(), room);
        step_keeps_room_log(run(s, steps.drop_last()), steps.last(), room);
        step_keeps_wf(run(s, steps.drop_last()), steps.last());
    }
}

} // verus!
