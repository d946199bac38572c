//! The table of live connections: for each connection id, the identifier the
//! connection logged in under (if any) and the handle through which frames
//! reach it.
use std::collections::HashMap;
use vstd::prelude::*;

use crate::message::{
    classify, classify_spec, opt_chars, opt_login_view, opt_send_view, Command, CommandView,
    LoginMessage, SendMessage,
};

verus! {

broadcast use vstd::std_specs::hash::group_hash_axioms;

/// The abstract table: connection id to (login identifier, sender).
pub type UsersView<S> = Map<usize, (Option<Seq<char>>, S)>;

/// The counter value that follows `n`; the counter wraps around at the top.
pub open spec fn successor(n: usize) -> usize {
    if n == usize::MAX {
        0
    } else {
        (n + 1) as usize
    }
}

/// Some live connection is logged in under `uuid`.
pub open spec fn has_login<S>(users: UsersView<S>, uuid: Seq<char>) -> bool {
    exists|id: usize| #[trigger] users.contains_key(id) && users[id].0 == Some(uuid)
}

/// The table after connection `id` logged in under `uuid`: only that
/// connection's identifier changes, and nothing happens to an unknown id.
pub open spec fn log_in_spec<S>(users: UsersView<S>, id: usize, uuid: Seq<char>) -> UsersView<S> {
    if users.contains_key(id) {
        users.insert(id, (Some(uuid), users[id].1))
    } else {
        users
    }
}

/// Every id in the table is below the counter and not 0: an id that the
/// counter hands out next is not in use yet.
pub open spec fn ids_below<S>(users: UsersView<S>, next: usize) -> bool {
    forall|id: usize| #[trigger] users.contains_key(id) ==> 1 <= id < next
}

/// The table after connection `my_id` sent the command `cmd`: only a login
/// that carries an identifier changes it.
pub open spec fn frame_table<S>(users: UsersView<S>, my_id: usize, cmd: CommandView) -> UsersView<S> {
    match cmd {
        CommandView::Login { id: Some(uuid) } => log_in_spec(users, my_id, uuid),
        _ => users,
    }
}

/// What handling a frame did.
pub enum Action {
    /// The connection logged in under `uuid`.
    LoggedIn { uuid: String },
    /// A login frame without an identifier: nothing changed.
    LoginWithoutId,
    /// Pass `text` to connection `recipient`, which is logged in as `to`.
    Deliver { recipient: usize, to: String, text: String },
    /// No live connection is logged in as `to`.
    RecipientNotFound { to: String },
    /// A send frame without a target or without a text: nothing changed.
    SendIncomplete,
    /// The frame was neither a login nor a send frame.
    Invalid,
}

pub enum ActionView {
    LoggedIn { uuid: Seq<char> },
    LoginWithoutId,
    Deliver { recipient: usize, to: Seq<char>, text: Seq<char> },
    RecipientNotFound { to: Seq<char> },
    SendIncomplete,
    Invalid,
}

impl View for Action {
    type V = ActionView;

    open spec fn view(&self) -> ActionView {
        match self {
            Action::LoggedIn { uuid } => ActionView::LoggedIn { uuid: uuid@ },
            Action::LoginWithoutId => ActionView::LoginWithoutId,
            Action::Deliver { recipient, to, text } => ActionView::Deliver {
                recipient: *recipient,
                to: to@,
                text: text@,
            },
            Action::RecipientNotFound { to } => ActionView::RecipientNotFound { to: to@ },
            Action::SendIncomplete => ActionView::SendIncomplete,
            Action::Invalid => ActionView::Invalid,
        }
    }
}

/// Connection `my_id` sent the command `cmd`, and the table went from `users`
/// to `users2` with the outcome `a`. A delivery names one connection logged in
/// as the target; which one, where several are, is left open.
pub open spec fn handled<S>(
    users: UsersView<S>,
    my_id: usize,
    cmd: CommandView,
    users2: UsersView<S>,
    a: ActionView,
) -> bool {
    match cmd {
        CommandView::Login { id: Some(uuid) } => {
            &&& users2 == log_in_spec(users, my_id, uuid)
            &&& a == ActionView::LoggedIn { uuid }
        },
        CommandView::Login { id: None } => users2 == users && a == ActionView::LoginWithoutId,
        CommandView::Send { to: Some(to), text: Some(text) } => {
            &&& users2 == users
            &&& if has_login(users, to) {
                &&& a is Deliver
                &&& a->Deliver_to == to
                &&& a->Deliver_text == text
                &&& users.contains_key(a->Deliver_recipient)
                &&& users[a->Deliver_recipient].0 == Some(to)
            } else {
                a == ActionView::RecipientNotFound { to }
            }
        },
        CommandView::Send { .. } => users2 == users && a == ActionView::SendIncomplete,
        CommandView::Invalid => users2 == users && a == ActionView::Invalid,
    }
}

/// The live connections, with the counter that hands out connection ids.
pub struct Registry<S> {
    users: HashMap<usize, (Option<String>, S)>,
    next_id: usize,
}

impl<S> Registry<S> {
    /// The table of live connections.
    pub closed spec fn users(self) -> UsersView<S> {
        Map::new(
            |id: usize| self.users@.contains_key(id),
            |id: usize| (opt_chars(self.users@[id].0), self.users@[id].1),
        )
    }

    /// The id that the counter hands out next.
    pub closed spec fn next(self) -> usize {
        self.next_id
    }

    /// Every live id lies below the counter and is not 0, so the id that the
    /// counter hands out next is not in use.
    pub open spec fn ids_fresh(self) -> bool {
        ids_below(self.users(), self.next())
    }

    /// An empty table whose counter starts at 1.
    pub fn new() -> (r: Self)
        ensures
            r.users() == Map::<usize, (Option<Seq<char>>, S)>::empty(),
            r.next() == 1,
            r.ids_fresh(),
    {
        let r = Registry { users: HashMap::new(), next_id: 1 };
        assert(r.users() =~= Map::<usize, (Option<Seq<char>>, S)>::empty());
        r
    }

    /// Hands out the next connection id and moves the counter on, wrapping
    /// around at the top.
    pub fn allocate_id(&mut self) -> (id: usize)
        ensures
            id == old(self).next(),
            final(self).next() == successor(old(self).next()),
            final(self).users() == old(self).users(),
            old(self).ids_fresh() ==> !old(self).users().contains_key(id),
            old(self).ids_fresh() && old(self).next() != usize::MAX ==> final(self).ids_fresh(),
    {
        let id = self.next_id;
        self.next_id = if id == usize::MAX {
            0
        } else {
            id + 1
        };
        assert(final(self).users() =~= old(self).users());
        id
    }

    /// Adds connection `id`, not logged in, with its sender; a connection
    /// that had the same id is replaced.
    pub fn insert(&mut self, id: usize, sender: S)
        ensures
            final(self).users() == old(self).users().insert(id, (None, sender)),
            final(self).next() == old(self).next(),
            old(self).ids_fresh() && 1 <= id < old(self).next() ==> final(self).ids_fresh(),
    {
        self.users.insert(id, (None, sender));
        assert(final(self).users() =~= old(self).users().insert(id, (None::<Seq<char>>, sender)));
    }

    /// Removes connection `id`, if it is in the table.
    pub fn remove(&mut self, id: usize)
        ensures
            final(self).users() == old(self).users().remove(id),
            final(self).next() == old(self).next(),
            old(self).ids_fresh() ==> final(self).ids_fresh(),
    {
        self.users.remove(&id);
        assert(final(self).users() =~= old(self).users().remove(id));
    }

    /// Records that connection `id` logged in under `uuid`.
    pub fn log_in(&mut self, id: usize, uuid: String)
        ensures
            final(self).users() == log_in_spec(old(self).users(), id, uuid@),
            final(self).users().dom() == old(self).users().dom(),
            old(self).users().contains_key(id) ==> final(self).users()[id] == (
                Some(uuid@),
                old(self).users()[id].1,
            ),
            forall|k: usize|
                k != id && #[trigger] old(self).users().contains_key(k) ==> final(self).users()[k]
                    == old(self).users()[k],
            final(self).next() == old(self).next(),
            old(self).ids_fresh() ==> final(self).ids_fresh(),
    {
        let ghost u = uuid@;
        if let Some(entry) = self.users.remove(&id) {
            let sender = entry.1;
            self.users.insert(id, (Some(uuid), sender));
            assert(final(self).users() =~= log_in_spec(old(self).users(), id, u));
        } else {
            assert(final(self).users() =~= old(self).users());
        }
    }

    /// The sender of connection `id`, if it is in the table.
    pub fn sender(&self, id: usize) -> (r: Option<&S>)
        ensures
            match r {
                Some(s) => self.users().contains_key(id) && *s == self.users()[id].1,
                None => !self.users().contains_key(id),
            },
    {
        match self.users.get(&id) {
            Some(entry) => Some(&entry.1),
            None => None,
        }
    }

    /// A connection logged in under `uuid`, if there is one.
    pub fn find_by_uuid(&self, uuid: &String) -> (r: Option<usize>)
        ensures
            match r {
                Some(id) => self.users().contains_key(id) && self.users()[id].0 == Some(uuid@),
                None => !has_login(self.users(), uuid@),
            },
    {
        let ghost m = self.users@;
        for kv in it: self.users.iter()
            invariant
                m == self.users@,
                forall|j: int|
                    #![trigger it.seq()[j]]
                    0 <= j < it.index() ==> opt_chars(it.seq()[j].1.0) != Some(uuid@),
        {
            let (k, v) = kv;
            if let Some(u) = &v.0 {
                if *u == *uuid {
                    return Some(*k);
                }
            }
        }
        assert forall|id: usize| #[trigger]
            self.users().contains_key(id) implies self.users()[id].0 != Some(uuid@) by {
            assert(m.contains_key(id));
        }
        None
    }

    /// Carries out the command of one text frame from connection `my_id`: a
    /// login records the identifier; a send finds the connection to pass the
    /// text to. Only a login with an identifier changes the table.
    pub fn handle_command(&mut self, my_id: usize, cmd: Command) -> (a: Action)
        ensures
            handled(old(self).users(), my_id, cmd@, final(self).users(), a@),
            final(self).users() == frame_table(old(self).users(), my_id, cmd@),
            final(self).next() == old(self).next(),
            old(self).ids_fresh() ==> final(self).ids_fresh(),
    {
        match cmd {
            Command::Login { id: Some(uuid) } => {
                let logged = uuid.clone();
                self.log_in(my_id, uuid);
                Action::LoggedIn { uuid: logged }
            },
            Command::Login { id: None } => Action::LoginWithoutId,
            Command::Send { to: Some(to), text: Some(text) } => {
                match self.find_by_uuid(&to) {
                    Some(recipient) => Action::Deliver { recipient, to, text },
                    None => Action::RecipientNotFound { to },
                }
            },
            Command::Send { .. } => Action::SendIncomplete,
            Command::Invalid => Action::Invalid,
        }
    }

    /// Handles one text frame from connection `my_id`, given what the frame
    /// decoded to as a login record and as a send record.
    pub fn handle_message(
        &mut self,
        my_id: usize,
        login: Option<LoginMessage>,
        send: Option<SendMessage>,
    ) -> (a: Action)
        ensures
            handled(
                old(self).users(),
                my_id,
                classify_spec(opt_login_view(login), opt_send_view(send)),
                final(self).users(),
                a@,
            ),
            final(self).users() == frame_table(
                old(self).users(),
                my_id,
                classify_spec(opt_login_view(login), opt_send_view(send)),
            ),
            final(self).next() == old(self).next(),
            old(self).ids_fresh() ==> final(self).ids_fresh(),
    {
        let cmd = classify(login, send);
        self.handle_command(my_id, cmd)
    }
}

} // verus!
