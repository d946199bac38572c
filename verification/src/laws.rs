//! Properties of the hub that span several operations, stated over the
//! abstract table that the operations' contracts speak of.
use vstd::prelude::*;

use crate::message::{classify_spec, CommandView, LoginMessageView, SendMessageView};
use crate::registry::{
    frame_table, handled, has_login, ids_below, log_in_spec, successor, ActionView, UsersView,
};
use crate::relay::{relay_frame_spec, reply_body, reply_status, RelayOutcome};

verus! {

/// Once a live connection has logged in under `uuid`, a send frame for `uuid`
/// from any connection is delivered to a connection logged in under `uuid`,
/// carrying the frame's text; it is never answered with "not found".
pub proof fn lemma_login_then_send_is_delivered<S>(
    users: UsersView<S>,
    owner: usize,
    uuid: Seq<char>,
    users1: UsersView<S>,
    a1: ActionView,
    sender_id: usize,
    text: Seq<char>,
    users2: UsersView<S>,
    a2: ActionView,
)
    requires
        users.contains_key(owner),
        handled(users, owner, CommandView::Login { id: Some(uuid) }, users1, a1),
        handled(users1, sender_id, CommandView::Send { to: Some(uuid), text: Some(text) }, users2, a2),
    ensures
        a1 == (ActionView::LoggedIn { uuid }),
        a2 is Deliver,
        a2->Deliver_to == uuid,
        a2->Deliver_text == text,
        users2.contains_key(a2->Deliver_recipient),
        users2[a2->Deliver_recipient].0 == Some(uuid),
        users2 == users1,
        users1.contains_key(owner),
        users1[owner].0 == Some(uuid),
{
    assert(users1.contains_key(owner) && users1[owner].0 == Some(uuid));
    assert(has_login(users1, uuid));
}

/// A frame whose login reading carries the word `login` is a login with that
/// reading's identifier, whatever the send reading of the same frame holds.
pub proof fn lemma_login_word_makes_login(
    login: Option<LoginMessageView>,
    send: Option<SendMessageView>,
)
    requires
        login is Some,
        login->0.cmd == seq!['l', 'o', 'g', 'i', 'n'],
    ensures
        classify_spec(login, send) == (CommandView::Login { id: login->0.id }),
{
}

/// A frame that is not a login, and whose send reading carries the word
/// `send`, is a send with that reading's target and text.
pub proof fn lemma_send_word_makes_send(
    login: Option<LoginMessageView>,
    send: Option<SendMessageView>,
)
    requires
        !(login is Some && login->0.cmd == seq!['l', 'o', 'g', 'i', 'n']),
        send is Some,
        send->0.cmd == seq!['s', 'e', 'n', 'd'],
    ensures
        classify_spec(login, send) == (CommandView::Send { to: send->0.to, text: send->0.text }),
{
}

/// A frame is invalid exactly when neither reading carries its command word.
pub proof fn lemma_invalid_without_command_word(
    login: Option<LoginMessageView>,
    send: Option<SendMessageView>,
)
    ensures
        classify_spec(login, send) == CommandView::Invalid <==> !(login is Some && login->0.cmd
            == seq!['l', 'o', 'g', 'i', 'n']) && !(send is Some && send->0.cmd == seq![
            's',
            'e',
            'n',
            'd',
        ]),
{
}

/// The relay frame is the fixed opening, the whole target, the fixed middle,
/// the whole emoji and the fixed closing `"}`, in that order, with nothing cut
/// or changed, for targets and emoji of every length.
pub proof fn lemma_relay_frame_pieces(to: Seq<char>, emoji: Seq<char>)
    ensures
        ({
            let f = relay_frame_spec(to, emoji);
            let p = "{\"cmd\": \"send\", \"to\": \""@;
            let m = "\", \"text\": \""@;
            &&& f.len() == p.len() + to.len() + m.len() + emoji.len() + 2
            &&& f.subrange(0, p.len() as int) == p
            &&& f.subrange(p.len() as int, (p.len() + to.len()) as int) == to
            &&& f.subrange((p.len() + to.len()) as int, (p.len() + to.len() + m.len()) as int) == m
            &&& f.subrange(f.len() - emoji.len() - 2, f.len() - 2) == emoji
            &&& f.subrange(f.len() - 2, f.len() as int) == seq!['"', '}']
        }),
{
    reveal_strlit("\"}");
    let f = relay_frame_spec(to, emoji);
    let p = "{\"cmd\": \"send\", \"to\": \""@;
    let m = "\", \"text\": \""@;
    let e = "\"}"@;
    assert(f =~= p + to + m + emoji + e);
    assert(f.subrange(0, p.len() as int) =~= p);
    assert(f.subrange(p.len() as int, (p.len() + to.len()) as int) =~= to);
    assert(f.subrange((p.len() + to.len()) as int, (p.len() + to.len() + m.len()) as int) =~= m);
    assert(f.subrange(f.len() - emoji.len() - 2, f.len() - 2) =~= emoji);
    assert(f.subrange(f.len() - 2, f.len() as int) =~= seq!['"', '}']);
}

/// Two relay frames with targets of the same length are equal only when
/// they carry the same target and the same emoji.
pub proof fn lemma_relay_frame_determines_fields(
    to1: Seq<char>,
    emoji1: Seq<char>,
    to2: Seq<char>,
    emoji2: Seq<char>,
)
    requires
        relay_frame_spec(to1, emoji1) == relay_frame_spec(to2, emoji2),
        to1.len() == to2.len(),
    ensures
        to1 == to2,
        emoji1 == emoji2,
{
    lemma_relay_frame_pieces(to1, emoji1);
    lemma_relay_frame_pieces(to2, emoji2);
}

/// A relay request is answered 200 exactly when its frame was sent and 500
/// otherwise, with a body text that names what happened.
pub proof fn lemma_reply_follows_outcome(outcome: RelayOutcome)
    ensures
        reply_status(outcome) == 200 <==> outcome is Sent,
        !(outcome is Sent) ==> reply_status(outcome) == 500,
        outcome is ConnectFailed ==> reply_body(outcome) == "Failed to connect to WebSocket server"@,
        outcome is SendFailed ==> reply_body(outcome) == "Failed to send message over WebSocket"@,
        outcome is Sent ==> reply_body(outcome) == "Message sent successfully"@,
{
}

/// After a live connection logs in, its own entry carries the new
/// identifier and its old sender, whatever identifiers other connections
/// hold; the table has the same connections as before.
pub proof fn lemma_login_sets_own_identifier<S>(users: UsersView<S>, id: usize, uuid: Seq<char>)
    requires
        users.contains_key(id),
    ensures
        log_in_spec(users, id, uuid).contains_key(id),
        log_in_spec(users, id, uuid)[id] == (Some(uuid), users[id].1),
        log_in_spec(users, id, uuid).dom() == users.dom(),
{
    assert(log_in_spec(users, id, uuid).dom() =~= users.dom());
}

/// A login frame with an identifier from a live connection logs that very
/// connection in under the identifier and is answered `LoggedIn`, whatever
/// other connections hold.
pub proof fn lemma_login_frame_logs_sender_in<S>(
    users: UsersView<S>,
    my_id: usize,
    uuid: Seq<char>,
    users2: UsersView<S>,
    a: ActionView,
)
    requires
        users.contains_key(my_id),
        handled(users, my_id, CommandView::Login { id: Some(uuid) }, users2, a),
    ensures
        users2.contains_key(my_id),
        users2[my_id] == (Some(uuid), users[my_id].1),
        users2.dom() == users.dom(),
        a == (ActionView::LoggedIn { uuid }),
{
    lemma_login_sets_own_identifier(users, my_id, uuid);
}

/// A send frame with a target and a text leaves the table as it was; it is
/// delivered exactly when some live connection is logged in under the target,
/// and then to such a connection, carrying the target and the text; otherwise
/// it is answered "not found" with the target.
pub proof fn lemma_send_frame_outcome<S>(
    users: UsersView<S>,
    my_id: usize,
    to: Seq<char>,
    text: Seq<char>,
    users2: UsersView<S>,
    a: ActionView,
)
    requires
        handled(users, my_id, CommandView::Send { to: Some(to), text: Some(text) }, users2, a),
    ensures
        users2 == users,
        a is Deliver <==> exists|id: usize| #[trigger] users.contains_key(id) && users[id].0 == Some(to),
        a is Deliver ==> a->Deliver_to == to && a->Deliver_text == text && users.contains_key(
            a->Deliver_recipient,
        ) && users[a->Deliver_recipient].0 == Some(to),
        !(a is Deliver) ==> a == (ActionView::RecipientNotFound { to }),
{
}

/// When exactly one live connection is logged in under a target, every send
/// frame for that target is delivered to that connection.
pub proof fn lemma_sole_holder_receives<S>(
    users: UsersView<S>,
    owner: usize,
    uuid: Seq<char>,
    my_id: usize,
    text: Seq<char>,
    users2: UsersView<S>,
    a: ActionView,
)
    requires
        users.contains_key(owner),
        users[owner].0 == Some(uuid),
        forall|k: usize| k != owner && #[trigger] users.contains_key(k) ==> users[k].0 != Some(uuid),
        handled(users, my_id, CommandView::Send { to: Some(uuid), text: Some(text) }, users2, a),
    ensures
        a is Deliver,
        a->Deliver_recipient == owner,
        a->Deliver_text == text,
{
    assert(has_login(users, uuid));
}

/// Frames that are not logins with an identifier, and send frames without a
/// target or a text, are answered as such and leave the table as it was.
pub proof fn lemma_other_frames_outcome<S>(
    users: UsersView<S>,
    my_id: usize,
    cmd: CommandView,
    users2: UsersView<S>,
    a: ActionView,
)
    requires
        handled(users, my_id, cmd, users2, a),
    ensures
        cmd == (CommandView::Login { id: None }) ==> users2 == users && a
            == ActionView::LoginWithoutId,
        cmd is Send && (cmd->Send_to is None || cmd->Send_text is None) ==> users2 == users && a
            == ActionView::SendIncomplete,
        cmd == CommandView::Invalid ==> users2 == users && a == ActionView::Invalid,
{
}

/// Only a login frame that carries an identifier changes the table; every
/// other frame, refused ones included, leaves it as it was.
pub proof fn lemma_only_login_changes_table<S>(
    users: UsersView<S>,
    my_id: usize,
    cmd: CommandView,
    users2: UsersView<S>,
    a: ActionView,
)
    requires
        handled(users, my_id, cmd, users2, a),
        !(cmd matches CommandView::Login { id: Some(_) }),
    ensures
        users2 == users,
{
}

/// A login touches only the sending connection's own identifier: the set of
/// live connections, every sender, and every other connection's identifier
/// stay as they were.
pub proof fn lemma_login_touches_only_sender<S>(
    users: UsersView<S>,
    my_id: usize,
    uuid: Seq<char>,
    other: usize,
)
    ensures
        log_in_spec(users, my_id, uuid).dom() == users.dom(),
        forall|id: usize| #[trigger]
            users.contains_key(id) ==> log_in_spec(users, my_id, uuid)[id].1 == users[id].1,
        other != my_id && users.contains_key(other) ==> log_in_spec(users, my_id, uuid)[other]
            == users[other],
{
    assert(log_in_spec(users, my_id, uuid).dom() =~= users.dom());
}

/// Logging in again replaces the identifier: two logins in a row leave the
/// table as the second one alone would.
pub proof fn lemma_second_login_replaces_first<S>(
    users: UsersView<S>,
    my_id: usize,
    first: Seq<char>,
    second: Seq<char>,
)
    ensures
        log_in_spec(log_in_spec(users, my_id, first), my_id, second) == log_in_spec(
            users,
            my_id,
            second,
        ),
{
    assert(log_in_spec(log_in_spec(users, my_id, first), my_id, second) =~= log_in_spec(
        users,
        my_id,
        second,
    ));
}

/// Once a connection has left the table, no frame is delivered to it.
pub proof fn lemma_no_delivery_after_disconnect<S>(
    users: UsersView<S>,
    gone: usize,
    my_id: usize,
    cmd: CommandView,
    users2: UsersView<S>,
    a: ActionView,
)
    requires
        handled(users.remove(gone), my_id, cmd, users2, a),
        a is Deliver,
    ensures
        a->Deliver_recipient != gone,
{
}

/// The counter value after `k` allocations that started at counter value
/// `start`.
pub open spec fn counter_after(start: usize, k: nat) -> usize
    decreases k,
{
    if k == 0 {
        start
    } else {
        successor(counter_after(start, (k - 1) as nat))
    }
}

/// The ids that `k` allocations hand out, in order, when the counter starts
/// at `start`: the `i`-th allocation hands out the counter value after `i`
/// allocations.
pub open spec fn ids_handed_out(start: usize, k: nat) -> Seq<usize> {
    Seq::new(k, |i: int| counter_after(start, i as nat))
}

proof fn lemma_counter_after_from_one(k: nat)
    requires
        k < usize::MAX,
    ensures
        counter_after(1, k) == k + 1,
    decreases k,
{
    if k > 0 {
        lemma_counter_after_from_one((k - 1) as nat);
    }
}

/// From a new table (counter at 1), `k` allocations made before the counter
/// wraps hand out exactly the ids 1, 2, .., k, in that order, pairwise
/// distinct, and leave the counter at k + 1.
pub proof fn lemma_allocations_from_new_table(k: nat)
    requires
        k < usize::MAX,
    ensures
        ids_handed_out(1, k) == Seq::new(k, |i: int| (i + 1) as usize),
        forall|i: int, j: int|
            0 <= i < j < k ==> ids_handed_out(1, k)[i] != ids_handed_out(1, k)[j],
        counter_after(1, k) == k + 1,
{
    lemma_counter_after_from_one(k);
    assert forall|i: int| 0 <= i < k implies #[trigger] ids_handed_out(1, k)[i] == i + 1 by {
        lemma_counter_after_from_one(i as nat);
    }
    assert(ids_handed_out(1, k) =~= Seq::new(k, |i: int| (i + 1) as usize));
}

/// A new table satisfies the id invariant: no id in use, counter at 1.
pub proof fn lemma_new_table_ids_below<S>()
    ensures
        ids_below(Map::<usize, (Option<Seq<char>>, S)>::empty(), 1),
{
}

/// While the counter has not wrapped, the id it hands out is held by no live
/// connection, so a new connection never replaces a live one; adding the new
/// connection keeps every id below the moved-on counter.
pub proof fn lemma_connect_keeps_ids_fresh<S>(users: UsersView<S>, next: usize, sender: S)
    requires
        ids_below(users, next),
        1 <= next < usize::MAX,
    ensures
        !users.contains_key(next),
        ids_below(users.insert(next, (None, sender)), successor(next)),
{
}

/// Logins and departures keep every id below the counter.
pub proof fn lemma_login_and_remove_keep_ids_below<S>(
    users: UsersView<S>,
    next: usize,
    id: usize,
    uuid: Seq<char>,
)
    requires
        ids_below(users, next),
    ensures
        ids_below(log_in_spec(users, id, uuid), next),
        ids_below(users.remove(id), next),
{
}

/// A frame never changes which connections are live, nor any connection's
/// sender; at most it changes the sending connection's identifier.
pub proof fn lemma_frame_keeps_connections<S>(users: UsersView<S>, my_id: usize, cmd: CommandView)
    ensures
        frame_table(users, my_id, cmd).dom() == users.dom(),
        !(cmd matches CommandView::Login { id: Some(_) }) ==> frame_table(users, my_id, cmd)
            == users,
        cmd is Login && cmd->Login_id is Some && users.contains_key(my_id) ==> frame_table(
            users,
            my_id,
            cmd,
        )[my_id] == (cmd->Login_id, users[my_id].1),
        forall|id: usize| #[trigger]
            users.contains_key(id) ==> frame_table(users, my_id, cmd)[id].1 == users[id].1,
{
    if let CommandView::Login { id: Some(uuid) } = cmd {
        lemma_login_touches_only_sender(users, my_id, uuid, my_id);
    }
}

/// One step in the life of the table, as the server drives it.
pub enum Event<S> {
    /// A connection arrives: it is handed the next id and its sender is added
    /// under that id.
    Connect(S),
    /// Connection `id` sends a frame whose command is `cmd`.
    Frame(usize, CommandView),
    /// Connection `id` goes away.
    Disconnect(usize),
}

/// How many connections arrived in `events`.
pub open spec fn connect_count<S>(events: Seq<Event<S>>) -> nat
    decreases events.len(),
{
    if events.len() == 0 {
        0
    } else {
        connect_count(events.drop_last()) + if events.last() is Connect {
            1nat
        } else {
            0nat
        }
    }
}

/// The table and counter after one event, as `allocate_id` with `insert`,
/// `handle_message` and `remove` change them.
pub open spec fn step<S>(state: (UsersView<S>, usize), e: Event<S>) -> (UsersView<S>, usize) {
    match e {
        Event::Connect(sender) => (state.0.insert(state.1, (None, sender)), successor(state.1)),
        Event::Frame(id, cmd) => (frame_table(state.0, id, cmd), state.1),
        Event::Disconnect(id) => (state.0.remove(id), state.1),
    }
}

/// The table and counter after `events`, starting from a new table.
pub open spec fn run<S>(events: Seq<Event<S>>) -> (UsersView<S>, usize)
    decreases events.len(),
{
    if events.len() == 0 {
        (Map::empty(), 1)
    } else {
        step(run(events.drop_last()), events.last())
    }
}

/// Event `i` is the arrival of the connection that was handed id `k`, and no
/// departure of `k` came after it.
pub open spec fn live_connection<S>(events: Seq<Event<S>>, i: int, k: usize) -> bool {
    &&& 0 <= i < events.len()
    &&& events[i] is Connect
    &&& connect_count(events.take(i)) + 1 == k
    &&& forall|j: int|
        i < j < events.len() ==> !(#[trigger] events[j] is Disconnect && events[j]->Disconnect_0
            == k)
}

proof fn lemma_count_take_step<S>(events: Seq<Event<S>>, i: int)
    requires
        0 <= i < events.len(),
    ensures
        connect_count(events.take(i + 1)) == connect_count(events.take(i)) + if events[i] is Connect {
            1nat
        } else {
            0nat
        },
{
    assert(events.take(i + 1).drop_last() =~= events.take(i));
}

proof fn lemma_count_take_mono<S>(events: Seq<Event<S>>, i: int, j: int)
    requires
        0 <= i <= j <= events.len(),
    ensures
        connect_count(events.take(i)) <= connect_count(events.take(j)),
    decreases j - i,
{
    if i < j {
        lemma_count_take_step(events, j - 1);
        lemma_count_take_mono(events, i, j - 1);
    }
}

/// From a new table, as long as fewer than `usize::MAX` connections have
/// arrived: the counter stands one above the number of arrivals, the table
/// holds exactly the ids of the connections that arrived and have not left,
/// and each of them holds the sender that its connection brought.
pub proof fn lemma_table_holds_live_connections<S>(events: Seq<Event<S>>)
    requires
        connect_count(events) < usize::MAX,
    ensures
        run(events).1 == connect_count(events) + 1,
        forall|k: usize|
            #[trigger] run(events).0.contains_key(k) <==> exists|i: int|
                live_connection(events, i, k),
        forall|k: usize, i: int| #[trigger]
            live_connection(events, i, k) ==> run(events).0.contains_key(k) && run(events).0[k].1
                == events[i]->Connect_0,
    decreases events.len(),
{
    if events.len() == 0 {
        assert forall|k: usize| #[trigger] run(events).0.contains_key(k) <==> exists|i: int|
            live_connection(events, i, k) by {}
    } else {
        let prev = events.drop_last();
        let n = events.len() - 1;
        let e = events.last();
        lemma_table_holds_live_connections(prev);
        let c = connect_count(prev);
        let pu = run(prev).0;
        assert(events.take(n) =~= prev);
        assert(prev.take(n) =~= prev);
        assert forall|i: int, k: usize| 0 <= i < n implies (#[trigger] live_connection(
            events,
            i,
            k,
        ) <==> (live_connection(prev, i, k) && !(e is Disconnect && e->Disconnect_0 == k))) by {
            assert(events.take(i) =~= prev.take(i));
            assert(events[i] == prev[i]);
            if live_connection(prev, i, k) && !(e is Disconnect && e->Disconnect_0 == k) {
                assert forall|j: int| i < j < events.len() implies !(#[trigger] events[j] is Disconnect
                    && events[j]->Disconnect_0 == k) by {
                    if j < n {
                        assert(events[j] == prev[j]);
                    }
                }
            }
            if live_connection(events, i, k) {
                assert forall|j: int| i < j < prev.len() implies !(#[trigger] prev[j] is Disconnect
                    && prev[j]->Disconnect_0 == k) by {
                    assert(events[j] == prev[j]);
                }
                assert(events[n] == e);
            }
        }
        assert forall|i: int, k: usize| #[trigger] live_connection(prev, i, k) implies k <= c by {
            lemma_count_take_step(prev, i);
            lemma_count_take_mono(prev, i + 1, n);
        }
        match e {
            Event::Connect(sender) => {
                assert forall|k: usize| #[trigger] run(events).0.contains_key(k) <==> exists|i: int|
                    live_connection(events, i, k) by {
                    if k == c + 1 {
                        assert(live_connection(events, n, k));
                    } else {
                        if pu.contains_key(k) {
                            let i = choose|i: int| live_connection(prev, i, k);
                            assert(live_connection(events, i, k));
                        }
                        if exists|i: int| live_connection(events, i, k) {
                            let i = choose|i: int| live_connection(events, i, k);
                            if i < n {
                                assert(live_connection(prev, i, k));
                            }
                        }
                    }
                }
                assert forall|k: usize, i: int| #[trigger]
                    live_connection(events, i, k) implies run(events).0.contains_key(k)
                    && run(events).0[k].1 == events[i]->Connect_0 by {
                    if i < n {
                        assert(live_connection(prev, i, k));
                    }
                }
            },
            Event::Frame(id, cmd) => {
                lemma_frame_keeps_connections(pu, id, cmd);
                assert forall|k: usize| #[trigger] run(events).0.contains_key(k) <==> exists|i: int|
                    live_connection(events, i, k) by {
                    assert(run(events).0.contains_key(k) == pu.contains_key(k));
                    if pu.contains_key(k) {
                        let i = choose|i: int| live_connection(prev, i, k);
                        assert(live_connection(events, i, k));
                    }
                    if exists|i: int| live_connection(events, i, k) {
                        let i = choose|i: int| live_connection(events, i, k);
                        assert(live_connection(prev, i, k));
                    }
                }
                assert forall|k: usize, i: int| #[trigger]
                    live_connection(events, i, k) implies run(events).0.contains_key(k)
                    && run(events).0[k].1 == events[i]->Connect_0 by {
                    assert(live_connection(prev, i, k));
                }
            },
            Event::Disconnect(d) => {
                assert forall|k: usize| #[trigger] run(events).0.contains_key(k) <==> exists|i: int|
                    live_connection(events, i, k) by {
                    if k != d {
                        if pu.contains_key(k) {
                            let i = choose|i: int| live_connection(prev, i, k);
                            assert(live_connection(events, i, k));
                        }
                        if exists|i: int| live_connection(events, i, k) {
                            let i = choose|i: int| live_connection(events, i, k);
                            assert(live_connection(prev, i, k));
                        }
                    } else {
                        if exists|i: int| live_connection(events, i, k) {
                            let i = choose|i: int| live_connection(events, i, k);
                            assert(events[n] == e);
                        }
                    }
                }
                assert forall|k: usize, i: int| #[trigger]
                    live_connection(events, i, k) implies run(events).0.contains_key(k)
                    && run(events).0[k].1 == events[i]->Connect_0 by {
                    assert(live_connection(prev, i, k));
                }
            },
        }
    }
}

} // verus!
