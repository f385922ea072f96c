//! The in-memory store: accounts, the devices of each account, and the
//! tasks queued for each account.
use crate::dto::account::{Account, AccountAction, AccountQuery};
use crate::dto::device::Device;
use crate::dto::task::Task;
use crate::name_map::NameMap;
use vstd::prelude::*;

verus! {

/// The tasks queued for each account, oldest first.
pub struct TaskInner(pub NameMap<Vec<Task>>);

/// The queues of tasks of the store.
pub struct Tasks {
    pub event: TaskInner,
}

/// The in-memory store.
pub struct DB {
    pub users: NameMap<Account>,
    pub devices: NameMap<Vec<Device>>,
    pub tasks: Tasks,
}

/// The queues of the accounts that have one.
pub open spec fn task_queues(t: TaskInner) -> Map<Seq<char>, Seq<Task>> {
    t.0@.map_values(|v: Vec<Task>| v@)
}

/// The queue of an account, empty when it has none.
pub open spec fn queue_of(m: Map<Seq<char>, Seq<Task>>, name: Seq<char>) -> Seq<Task> {
    if m.contains_key(name) { m[name] } else { Seq::empty() }
}

/// The queues after a task is posted for `name`: it joins the end of the account's queue.
pub open spec fn post_task(m: Map<Seq<char>, Seq<Task>>, name: Seq<char>, task: Task) -> Map<Seq<char>, Seq<Task>> {
    m.insert(name, queue_of(m, name).push(task))
}

/// The queues after the tasks of `name` are fetched: an account with a queue
/// keeps an empty one; an account without one is left without.
pub open spec fn fetch_tasks(m: Map<Seq<char>, Seq<Task>>, name: Seq<char>) -> Map<Seq<char>, Seq<Task>> {
    if m.contains_key(name) { m.insert(name, Seq::empty()) } else { m }
}

/// What fetching the tasks of `name` gives: its queue, or nothing when it has none.
pub open spec fn fetched_tasks(m: Map<Seq<char>, Seq<Task>>, name: Seq<char>) -> Option<Seq<Task>> {
    if m.contains_key(name) { Some(m[name]) } else { None }
}

/// The accounts after a request: a creation records the account under its
/// name, in place of any account of that name; an update or a deletion
/// changes nothing.
pub open spec fn apply_account_query(users: Map<Seq<char>, Account>, q: AccountQuery) -> Map<Seq<char>, Account> {
    match q.action {
        AccountAction::Create => users.insert(q.account.username.0@, q.account),
        _ => users,
    }
}

impl DB {
    /// An empty store.
    pub fn new() -> (db: DB)
        ensures
            db.users@ == Map::<Seq<char>, Account>::empty(),
            db.devices@ == Map::<Seq<char>, Vec<Device>>::empty(),
            task_queues(db.tasks.event) == Map::<Seq<char>, Seq<Task>>::empty(),
    {
        let db = DB { users: NameMap::new(), devices: NameMap::new(), tasks: Tasks { event: TaskInner(NameMap::new()) } };
        proof {
            assert(task_queues(db.tasks.event) =~= Map::<Seq<char>, Seq<Task>>::empty());
        }
        db
    }

    /// The queued tasks of every account.
    pub fn event(&self) -> (r: &TaskInner)
        ensures
            *r == self.tasks.event,
    {
        &self.tasks.event
    }

    /// Carries out a request on the accounts; gives back its action.
    pub fn post_account(&mut self, query: AccountQuery) -> (action: AccountAction)
        ensures
            action == query.action,
            final(self).users@ == apply_account_query(old(self).users@, query),
            final(self).devices@ == old(self).devices@,
            task_queues(final(self).tasks.event) == task_queues(old(self).tasks.event),
    {
        let action = query.action;
        match action {
            AccountAction::Create => {
                let name = query.account.username.0.clone();
                self.users.insert(name, query.account);
            },
            _ => {},
        }
        action
    }

    /// Takes out the queued tasks of an account, oldest first, leaving its
    /// queue empty; nothing when the account has no queue.
    pub fn get_task(&mut self, username: &str) -> (r: Option<Vec<Task>>)
        ensures
            r matches Some(v) ==> fetched_tasks(task_queues(old(self).tasks.event), username@) == Some(v@),
            r is None ==> fetched_tasks(task_queues(old(self).tasks.event), username@) is None,
            task_queues(final(self).tasks.event) == fetch_tasks(task_queues(old(self).tasks.event), username@),
            final(self).users@ == old(self).users@,
            final(self).devices@ == old(self).devices@,
    {
        let ghost before = task_queues(self.tasks.event);
        match self.tasks.event.0.remove(username) {
            Some(queue) => {
                self.tasks.event.0.insert(username.to_string(), Vec::new());
                proof {
                    assert(task_queues(self.tasks.event) =~= fetch_tasks(before, username@));
                }
                Some(queue)
            },
            None => {
                proof {
                    assert(task_queues(self.tasks.event) =~= fetch_tasks(before, username@));
                }
                None
            },
        }
    }

    /// Queues a task for an account, after its earlier tasks.
    pub fn post_task(&mut self, username: String, task: Task)
        ensures
            task_queues(final(self).tasks.event) == post_task(task_queues(old(self).tasks.event), username@, task),
            final(self).users@ == old(self).users@,
            final(self).devices@ == old(self).devices@,
    {
        let ghost before = task_queues(self.tasks.event);
        let mut queue = match self.tasks.event.0.remove(username.as_str()) {
            Some(q) => q,
            None => Vec::new(),
        };
        proof {
            assert(queue@ == queue_of(before, username@));
        }
        queue.push(task);
        self.tasks.event.0.insert(username, queue);
        proof {
            assert(task_queues(self.tasks.event) =~= post_task(before, username@, task));
        }
    }

    /// The devices of an account, if it has any recorded.
    pub fn get_device(&self, username: &str) -> (r: Option<&Vec<Device>>)
        ensures
            match r {
                Some(d) => self.devices@.contains_key(username@) && *d == self.devices@[username@],
                None => !self.devices@.contains_key(username@),
            },
    {
        self.devices.get(username)
    }
}

/// After a message is sent to the `i`-th event session of an account: a
/// session that took it stays; one whose receiver is gone is dropped, the
/// last session taking its place.
pub fn after_sse_send<S>(senders: &mut Vec<S>, i: usize, delivered: bool)
    requires
        i < old(senders).len(),
    ensures
        delivered ==> final(senders)@ == old(senders)@,
        !delivered ==> final(senders)@ == old(senders)@.update(i as int, old(senders)@.last()).drop_last(),
{
    if !delivered {
        senders.swap_remove(i);
    }
}

/// The queues after each task, in order, is posted for `name`.
pub open spec fn post_tasks(m: Map<Seq<char>, Seq<Task>>, name: Seq<char>, tasks: Seq<Task>) -> Map<Seq<char>, Seq<Task>>
    decreases tasks.len(),
{
    if tasks.len() == 0 {
        m
    } else {
        post_task(post_tasks(m, name, tasks.drop_last()), name, tasks.last())
    }
}

/// Tasks come out in the order they were posted: fetching after posting
/// tasks for an account gives its earlier queue followed by those tasks, and
/// leaves the queues of other accounts as they were. Fetching again at once
/// gives an empty queue.
pub proof fn law_tasks_first_in_first_out(m: Map<Seq<char>, Seq<Task>>, name: Seq<char>, tasks: Seq<Task>, other: Seq<char>)
    requires
        tasks.len() > 0,
    ensures
        fetched_tasks(post_tasks(m, name, tasks), name) == Some(queue_of(m, name) + tasks),
        fetched_tasks(fetch_tasks(post_tasks(m, name, tasks), name), name) == Some(Seq::<Task>::empty()),
        other != name ==> post_tasks(m, name, tasks).get(other) == m.get(other),
    decreases tasks.len(),
{
    if tasks.len() == 1 {
        assert(tasks.drop_last() =~= Seq::<Task>::empty());
        assert(queue_of(m, name) + tasks =~= queue_of(m, name).push(tasks.last()));
    } else {
        law_tasks_first_in_first_out(m, name, tasks.drop_last(), other);
        assert(queue_of(m, name) + tasks =~= (queue_of(m, name) + tasks.drop_last()).push(tasks.last()));
    }
}

/// A created account can be found under its name, with what was sent; other
/// names keep their accounts.
pub proof fn law_created_account_is_stored(users: Map<Seq<char>, Account>, q: AccountQuery, other: Seq<char>)
    requires
        q.action == AccountAction::Create,
    ensures
        apply_account_query(users, q).contains_key(q.account.username.0@),
        apply_account_query(users, q)[q.account.username.0@] == q.account,
        other != q.account.username.0@ ==> apply_account_query(users, q).get(other) == users.get(other),
{
}

/// Only a creation changes the accounts: a request to update or delete an
/// account leaves every stored account as it was.
pub proof fn law_only_creation_changes_accounts(users: Map<Seq<char>, Account>, q: AccountQuery)
    ensures
        q.action != AccountAction::Create ==> apply_account_query(users, q) == users,
{
}

} // verus!
