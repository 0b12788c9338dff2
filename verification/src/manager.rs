//! The connection to a cluster and what runs for it.
//!
//! [`ClientManager`] knows every task that was started for the current connection,
//! by the number it was given when it was started. Each change says which tasks
//! have to be stopped: none outlives the connection that it was started for.
use crate::config_snapshots::SnapshotStore;
use crate::endpoints::capped;
use crate::lists::{
    drop_entry, lemma_drop_names_differ, lemma_named_from, lemma_put_names_differ,
    lemma_without_members, named_at, names_differ, position, put_entry, views, with_entry,
    without_entry, Named,
};
use crate::text::{copy_opt, opt_text, same, texts};
use vstd::prelude::*;
use vstd::seq_lib::lemma_seq_concat_contains_all_elements;

verus! {

/// A port forward, as the user sees it.
#[derive(Clone, Debug)]
pub struct ForwardDto {
    pub id: String,
    pub namespace: String,
    /// The pod that is reached.
    pub pod: String,
    /// The Service it was started from, if any.
    pub service: Option<String>,
    /// The port of the pod.
    pub remote_port: u16,
    /// The port of the Service, where it is another one.
    pub service_port: Option<u16>,
    pub local_port: u16,
    /// Why the last connection failed, if it did.
    pub error: Option<String>,
}

/// What a port forward is.
#[verifier::ext_equal]
pub struct ForwardView {
    pub id: Seq<char>,
    pub namespace: Seq<char>,
    pub pod: Seq<char>,
    pub service: Option<Seq<char>>,
    pub remote_port: u16,
    pub service_port: Option<u16>,
    pub local_port: u16,
    pub error: Option<Seq<char>>,
}

impl View for ForwardDto {
    type V = ForwardView;

    open spec fn view(&self) -> ForwardView {
        ForwardView {
            id: self.id@,
            namespace: self.namespace@,
            pod: self.pod@,
            service: opt_text(self.service),
            remote_port: self.remote_port,
            service_port: self.service_port,
            local_port: self.local_port,
            error: opt_text(self.error),
        }
    }
}

/// A running port forward.
pub struct ForwardEntry {
    pub task: u64,
    pub dto: ForwardDto,
}

impl Named for ForwardEntry {
    open spec fn key(&self) -> Seq<char> {
        self.dto.id@
    }

    fn key_str(&self) -> (r: &str) {
        self.dto.id.as_str()
    }
}

/// A task that is found by an id.
pub struct TaskEntry {
    pub id: String,
    pub task: u64,
}

impl Named for TaskEntry {
    open spec fn key(&self) -> Seq<char> {
        self.id@
    }

    fn key_str(&self) -> (r: &str) {
        self.id.as_str()
    }
}

/// The cluster of the current connection.
#[derive(Clone, Debug)]
pub struct ConnectionInfo {
    pub context: String,
    pub server: String,
    pub version: String,
}

/// A context that was imported from another kubeconfig file. `K` is such a file,
/// parsed.
pub struct ImportedContext<K> {
    pub path: String,
    pub cluster: String,
    /// The file as it was uploaded, where it cannot be read again.
    pub kubeconfig: Option<K>,
}

/// An imported context with its name.
pub struct ImportEntry<K> {
    pub name: String,
    pub imported: ImportedContext<K>,
}

impl<K> Named for ImportEntry<K> {
    open spec fn key(&self) -> Seq<char> {
        self.name@
    }

    fn key_str(&self) -> (r: &str) {
        self.name.as_str()
    }
}

/// What a change calls for: tasks to stop, the number of live streams to report,
/// and whether to report the port forwards.
pub struct Effect {
    pub abort: Vec<u64>,
    pub watch: Option<usize>,
    pub forwards: bool,
}

/// The connection, and what runs for it. `C` is the client of the cluster, `K` a
/// parsed kubeconfig file.
pub struct ClientManager<C, K> {
    /// The client, while connected.
    pub client: Option<C>,
    /// The cluster, while connected.
    pub connection: Option<ConnectionInfo>,
    /// Watchers and pollers.
    pub tasks: Vec<u64>,
    /// Log streams, by their ids.
    pub logs: Vec<TaskEntry>,
    /// Shells, by their ids.
    pub shells: Vec<TaskEntry>,
    pub forwards: Vec<ForwardEntry>,
    /// How many resource watchers run.
    pub watcher_count: usize,
    /// The ids of the custom kinds of the cluster, as they were discovered.
    pub custom_kinds: Vec<String>,
    /// Watchers of custom kinds, by the ids of these.
    pub custom_watchers: Vec<TaskEntry>,
    /// Scrapers of nodes, by the names of these.
    pub node_scrapers: Vec<TaskEntry>,
    /// Imported contexts. They outlive connections.
    pub imports: Vec<ImportEntry<K>>,
    /// Versions of ConfigMaps and Secrets. They outlive connections.
    pub snapshot_store: SnapshotStore,
}

/// The tasks of entries.
pub open spec fn entry_tasks(s: Seq<TaskEntry>) -> Seq<u64> {
    Seq::new(s.len(), |i: int| s[i].task)
}

/// The tasks of port forwards.
pub open spec fn forward_tasks(s: Seq<ForwardEntry>) -> Seq<u64> {
    Seq::new(s.len(), |i: int| s[i].task)
}

/// The task that an id stands for, if any.
pub open spec fn task_of(s: Seq<TaskEntry>, id: Seq<char>) -> Seq<u64> {
    match named_at(s, id) {
        Some(i) => seq![s[i].task],
        None => Seq::empty(),
    }
}

/// The task of the port forward with this id, if any.
pub open spec fn forward_task_of(s: Seq<ForwardEntry>, id: Seq<char>) -> Seq<u64> {
    match named_at(s, id) {
        Some(i) => seq![s[i].task],
        None => Seq::empty(),
    }
}

/// Every task of `before` is among those of `after`, or among those to be stopped.
pub open spec fn kept(before: Seq<u64>, after: Seq<u64>, abort: Seq<u64>) -> bool {
    forall|t: u64| #[trigger] before.contains(t) ==> after.contains(t) || abort.contains(t)
}

/// Entries with the task under this id.
pub open spec fn is_put(before: Seq<TaskEntry>, after: Seq<TaskEntry>, id: Seq<char>, task: u64) -> bool {
    exists|e: TaskEntry|
        #![trigger with_entry(before, e)]
        e.id@ == id && e.task == task && after == with_entry(before, e)
}

fn put_task(v: &mut Vec<TaskEntry>, id: &str, task: u64) -> (r: Vec<u64>)
    ensures
        is_put(old(v)@, final(v)@, id@, task),
        r@ == task_of(old(v)@, id@),
{
    let mut old_tasks: Vec<u64> = Vec::new();
    if let Some(i) = position(v, id) {
        old_tasks.push(v[i].task);
    }
    assert(old_tasks@ =~= task_of(v@, id@));
    let e = TaskEntry { id: id.to_owned(), task };
    let ghost put = e;
    let ghost before = v@;
    put_entry(v, e);
    assert(v@ == with_entry(before, put));
    old_tasks
}

fn take_task(v: &mut Vec<TaskEntry>, id: &str) -> (r: Vec<u64>)
    ensures
        final(v)@ == without_entry(old(v)@, id@),
        r@ == task_of(old(v)@, id@),
{
    let mut old_tasks: Vec<u64> = Vec::new();
    if let Some(i) = position(v, id) {
        old_tasks.push(v[i].task);
    }
    assert(old_tasks@ =~= task_of(v@, id@));
    drop_entry(v, id);
    old_tasks
}

fn add_tasks(out: &mut Vec<u64>, v: &Vec<TaskEntry>)
    ensures
        final(out)@ == old(out)@ + entry_tasks(v@),
{
    let ghost start = out@;
    let mut i: usize = 0;
    assert(out@ =~= start + entry_tasks(v@).take(0));
    while i < v.len()
        invariant
            i <= v@.len(),
            out@ == start + entry_tasks(v@).take(i as int),
        decreases v@.len() - i,
    {
        out.push(v[i].task);
        i += 1;
        assert(out@ =~= start + entry_tasks(v@).take(i as int));
    }
    assert(entry_tasks(v@).take(i as int) =~= entry_tasks(v@));
}

fn add_capped(n: usize, more: usize) -> (r: usize)
    ensures
        r == capped((n + more) as nat, usize::MAX as int),
{
    if n > usize::MAX - more {
        usize::MAX
    } else {
        n + more
    }
}

fn copy_forward(f: &ForwardDto) -> (r: ForwardDto)
    ensures
        r@ == f@,
{
    ForwardDto {
        id: f.id.clone(),
        namespace: f.namespace.clone(),
        pod: f.pod.clone(),
        service: copy_opt(&f.service),
        remote_port: f.remote_port,
        service_port: f.service_port,
        local_port: f.local_port,
        error: copy_opt(&f.error),
    }
}

/// What the user sees of port forwards.
pub open spec fn shown_forwards(s: Seq<ForwardEntry>) -> Seq<ForwardView> {
    Seq::new(s.len(), |i: int| s[i].dto@)
}

/// The last position of a text in a list.
pub open spec fn last_position(s: Seq<Seq<char>>, t: Seq<char>) -> Option<int>
    decreases s.len(),
{
    if s.len() == 0 {
        None
    } else if s.last() == t {
        Some(s.len() - 1)
    } else {
        last_position(s.drop_last(), t)
    }
}

impl<C, K> ClientManager<C, K> {
    // -----------------------------------------------------------------------
    // What runs
    // -----------------------------------------------------------------------

    /// Every task that runs for the connection.
    pub open spec fn running(self) -> Seq<u64> {
        self.tasks@ + entry_tasks(self.logs@) + entry_tasks(self.shells@) + forward_tasks(
            self.forwards@,
        ) + entry_tasks(self.custom_watchers@) + entry_tasks(self.node_scrapers@)
    }

    /// How many streams are live: watchers, log streams, shells, port forwards and
    /// scrapers.
    pub open spec fn live(self) -> nat {
        self.watcher_count as nat + self.custom_watchers@.len() + self.node_scrapers@.len()
            + self.logs@.len() + self.shells@.len() + self.forwards@.len()
    }

    /// There is one task for each id, and a client exactly while there is a
    /// connection.
    pub open spec fn well_formed(self) -> bool {
        &&& names_differ(self.logs@)
        &&& names_differ(self.shells@)
        &&& names_differ(self.forwards@)
        &&& names_differ(self.custom_watchers@)
        &&& names_differ(self.node_scrapers@)
        &&& names_differ(self.imports@)
        &&& self.client is Some <==> self.connection is Some
    }

    /// Every task that ran before a change still runs after it, or is to be stopped.
    pub open spec fn accounts_for(self, before: Self, abort: Seq<u64>) -> bool {
        kept(before.running(), self.running(), abort)
    }

    /// How many streams are live, as it is reported.
    pub fn live_count(&self) -> (r: usize)
        ensures
            r == capped(self.live(), usize::MAX as int),
    {
        let n = add_capped(self.watcher_count, self.custom_watchers.len());
        let n = add_capped(n, self.node_scrapers.len());
        let n = add_capped(n, self.logs.len());
        let n = add_capped(n, self.shells.len());
        add_capped(n, self.forwards.len())
    }

    fn report(&self, abort: Vec<u64>) -> (r: Effect)
        ensures
            r.abort == abort,
            r.watch == Some(capped(self.live(), usize::MAX as int) as usize),
            !r.forwards,
    {
        Effect { abort, watch: Some(self.live_count()), forwards: false }
    }

    /// A manager without a connection.
    pub fn new() -> (r: ClientManager<C, K>)
        ensures
            r.well_formed(),
            r.client is None,
            r.connection is None,
            r.running() == Seq::<u64>::empty(),
            r.live() == 0,
            r.custom_kinds@.len() == 0,
            r.imports@.len() == 0,
            r.snapshot_store.histories@.len() == 0,
    {
        let m = ClientManager {
            client: None,
            connection: None,
            tasks: Vec::new(),
            logs: Vec::new(),
            shells: Vec::new(),
            forwards: Vec::new(),
            watcher_count: 0,
            custom_kinds: Vec::new(),
            custom_watchers: Vec::new(),
            node_scrapers: Vec::new(),
            imports: Vec::new(),
            snapshot_store: SnapshotStore::new(),
        };
        assert(m.running() =~= Seq::<u64>::empty());
        m
    }

    // -----------------------------------------------------------------------
    // Imported contexts
    // -----------------------------------------------------------------------

    /// Takes down an imported context, in the place of an earlier one of its name.
    pub fn add_import(&mut self, name: String, imported: ImportedContext<K>)
        ensures
            final(self).imports@ == with_entry(old(self).imports@, (ImportEntry { name, imported })),
            *final(self) == (ClientManager { imports: final(self).imports, ..*old(self) }),
            old(self).well_formed() ==> final(self).well_formed(),
    {
        let e = ImportEntry { name, imported };
        let ghost put = e;
        let ghost before = self.imports@;
        put_entry(&mut self.imports, e);
        proof {
            if names_differ(before) {
                lemma_put_names_differ(before, put);
            }
        }
    }

    /// The file that a context was imported from, if it was.
    pub fn import_path(&self, context: &str) -> (r: Option<String>)
        ensures
            opt_text(r) == (match named_at(self.imports@, context@) {
                Some(i) => Some(self.imports@[i].imported.path@),
                None => None,
            }),
    {
        match position(&self.imports, context) {
            Some(i) => Some(self.imports[i].imported.path.clone()),
            None => None,
        }
    }

    /// The uploaded file that a context was imported from, if it was uploaded.
    pub fn import_kubeconfig(&self, context: &str) -> (r: Option<&K>)
        ensures
            match named_at(self.imports@, context@) {
                Some(i) => match (r, self.imports@[i].imported.kubeconfig) {
                    (Some(k), Some(l)) => *k == l,
                    (None, None) => true,
                    _ => false,
                },
                None => r is None,
            },
    {
        match position(&self.imports, context) {
            Some(i) => match &self.imports[i].imported.kubeconfig {
                Some(k) => Some(k),
                None => None,
            },
            None => None,
        }
    }

    /// All imported contexts.
    pub fn imports(&self) -> (r: &Vec<ImportEntry<K>>)
        ensures
            *r == self.imports,
    {
        &self.imports
    }

    // -----------------------------------------------------------------------
    // The connection
    // -----------------------------------------------------------------------

    /// The client, while connected.
    pub fn client(&self) -> (r: Option<&C>)
        ensures
            match (r, self.client) {
                (Some(c), Some(d)) => *c == d,
                (None, None) => true,
                _ => false,
            },
    {
        match &self.client {
            Some(c) => Some(c),
            None => None,
        }
    }

    /// The cluster, while connected.
    pub fn connection_info(&self) -> (r: Option<&ConnectionInfo>)
        ensures
            match (r, self.connection) {
                (Some(c), Some(d)) => *c == d,
                (None, None) => true,
                _ => false,
            },
    {
        match &self.connection {
            Some(c) => Some(c),
            None => None,
        }
    }

    /// How many resource watchers run.
    pub fn watcher_count(&self) -> (r: usize)
        ensures
            r == self.watcher_count,
    {
        self.watcher_count
    }

    /// Ends the connection: every task that runs for it is to be stopped. Imports
    /// and recorded versions stay.
    pub fn reset(&mut self) -> (r: Effect)
        ensures
            r.abort@ == old(self).running(),
            r.watch == Some(0usize),
            r.forwards,
            final(self).client is None,
            final(self).connection is None,
            final(self).running() == Seq::<u64>::empty(),
            final(self).live() == 0,
            final(self).custom_kinds@.len() == 0,
            final(self).imports == old(self).imports,
            final(self).snapshot_store == old(self).snapshot_store,
            old(self).well_formed() ==> final(self).well_formed(),
            final(self).accounts_for(*old(self), r.abort@),
    {
        let ghost before = *self;
        let mut abort: Vec<u64> = Vec::new();
        std::mem::swap(&mut abort, &mut self.tasks);
        add_tasks(&mut abort, &self.logs);
        add_tasks(&mut abort, &self.shells);
        let mut i: usize = 0;
        let ghost start = abort@;
        assert(abort@ =~= start + forward_tasks(self.forwards@).take(0));
        while i < self.forwards.len()
            invariant
                i <= self.forwards@.len(),
                abort@ == start + forward_tasks(self.forwards@).take(i as int),
            decreases self.forwards@.len() - i,
        {
            abort.push(self.forwards[i].task);
            i += 1;
            assert(abort@ =~= start + forward_tasks(self.forwards@).take(i as int));
        }
        assert(forward_tasks(self.forwards@).take(i as int) =~= forward_tasks(self.forwards@));
        add_tasks(&mut abort, &self.custom_watchers);
        add_tasks(&mut abort, &self.node_scrapers);
        assert(abort@ == before.running());
        self.logs = Vec::new();
        self.shells = Vec::new();
        self.forwards = Vec::new();
        self.custom_watchers = Vec::new();
        self.node_scrapers = Vec::new();
        self.custom_kinds = Vec::new();
        self.client = None;
        self.connection = None;
        self.watcher_count = 0;
        assert(self.running() =~= Seq::<u64>::empty());
        Effect { abort, watch: Some(self.live_count()), forwards: true }
    }

    /// Takes down a new connection.
    pub fn set_connected(&mut self, client: C, info: ConnectionInfo, watcher_count: usize) -> (r: Effect)
        ensures
            *final(self) == (ClientManager {
                client: Some(client),
                connection: Some(info),
                watcher_count,
                ..*old(self)
            }),
            r.abort@ == Seq::<u64>::empty(),
            r.watch == Some(capped(final(self).live(), usize::MAX as int) as usize),
            !r.forwards,
            old(self).well_formed() ==> final(self).well_formed(),
            final(self).accounts_for(*old(self), r.abort@),
    {
        self.client = Some(client);
        self.connection = Some(info);
        self.watcher_count = watcher_count;
        let abort: Vec<u64> = Vec::new();
        self.report(abort)
    }

    /// Takes down a task of the connection.
    pub fn push_task(&mut self, task: u64)
        ensures
            final(self).tasks@ == old(self).tasks@.push(task),
            *final(self) == (ClientManager { tasks: final(self).tasks, ..*old(self) }),
            old(self).well_formed() ==> final(self).well_formed(),
            final(self).accounts_for(*old(self), Seq::<u64>::empty()),
            final(self).running().contains(task),
    {
        let ghost start = *self;
        self.tasks.push(task);
        proof {
            lemma_push_keeps(start.tasks@, task);
            lemma_accounts(start, *self, Seq::<u64>::empty());
            assert(self.tasks@[start.tasks@.len() as int] == task);
            lemma_task_runs(*self, task);
        }
    }

    // -----------------------------------------------------------------------
    // Log streams and shells
    // -----------------------------------------------------------------------

    /// Takes down a log stream. An earlier one with its id is to be stopped.
    pub fn add_log(&mut self, id: &str, task: u64) -> (r: Effect)
        ensures
            is_put(old(self).logs@, final(self).logs@, id@, task),
            *final(self) == (ClientManager { logs: final(self).logs, ..*old(self) }),
            r.abort@ == task_of(old(self).logs@, id@),
            r.watch == Some(capped(final(self).live(), usize::MAX as int) as usize),
            !r.forwards,
            old(self).well_formed() ==> final(self).well_formed(),
            final(self).accounts_for(*old(self), r.abort@),
    {
        let ghost start = *self;
        let ghost before = self.logs@;
        let abort = put_task(&mut self.logs, id, task);
        proof {
            lemma_put_keeps_names(before, self.logs@, id@, task);
            lemma_put_keeps(before, self.logs@, id@, task);
            lemma_accounts(start, *self, abort@);
        }
        self.report(abort)
    }

    /// Ends a log stream, if it runs.
    pub fn remove_log(&mut self, id: &str) -> (r: Effect)
        ensures
            final(self).logs@ == without_entry(old(self).logs@, id@),
            *final(self) == (ClientManager { logs: final(self).logs, ..*old(self) }),
            r.abort@ == task_of(old(self).logs@, id@),
            r.watch == (if named_at(old(self).logs@, id@) is Some {
                Some(capped(final(self).live(), usize::MAX as int) as usize)
            } else {
                None
            }),
            !r.forwards,
            old(self).well_formed() ==> final(self).well_formed(),
            old(self).well_formed() ==> final(self).accounts_for(*old(self), r.abort@),
    {
        let ghost start = *self;
        let ghost before = self.logs@;
        let abort = take_task(&mut self.logs, id);
        proof {
            if names_differ(before) {
                lemma_drop_names_differ(before, id@);
                lemma_drop_keeps(before, id@);
                lemma_accounts(start, *self, abort@);
            }
        }
        self.report_if_any(abort)
    }

    fn report_if_any(&self, abort: Vec<u64>) -> (r: Effect)
        ensures
            r.abort == abort,
            r.watch == (if abort@.len() > 0 {
                Some(capped(self.live(), usize::MAX as int) as usize)
            } else {
                None
            }),
            !r.forwards,
    {
        if abort.len() > 0 {
            self.report(abort)
        } else {
            Effect { abort, watch: None, forwards: false }
        }
    }

    /// Takes down a shell. An earlier one with its id is to be stopped.
    pub fn add_shell(&mut self, id: &str, task: u64) -> (r: Effect)
        ensures
            is_put(old(self).shells@, final(self).shells@, id@, task),
            *final(self) == (ClientManager { shells: final(self).shells, ..*old(self) }),
            r.abort@ == task_of(old(self).shells@, id@),
            r.watch == Some(capped(final(self).live(), usize::MAX as int) as usize),
            !r.forwards,
            old(self).well_formed() ==> final(self).well_formed(),
            final(self).accounts_for(*old(self), r.abort@),
    {
        let ghost start = *self;
        let ghost before = self.shells@;
        let abort = put_task(&mut self.shells, id, task);
        proof {
            lemma_put_keeps_names(before, self.shells@, id@, task);
            lemma_put_keeps(before, self.shells@, id@, task);
            lemma_accounts(start, *self, abort@);
        }
        self.report(abort)
    }

    /// The shell that input or a new size for this id goes to, if it runs.
    pub fn shell(&self, id: &str) -> (r: Option<u64>)
        ensures
            r == (match named_at(self.shells@, id@) {
                Some(i) => Some(self.shells@[i].task),
                None => None,
            }),
    {
        match position(&self.shells, id) {
            Some(i) => Some(self.shells[i].task),
            None => None,
        }
    }

    /// Ends a shell, if it runs.
    pub fn remove_shell(&mut self, id: &str) -> (r: Effect)
        ensures
            final(self).shells@ == without_entry(old(self).shells@, id@),
            *final(self) == (ClientManager { shells: final(self).shells, ..*old(self) }),
            r.abort@ == task_of(old(self).shells@, id@),
            r.watch == (if named_at(old(self).shells@, id@) is Some {
                Some(capped(final(self).live(), usize::MAX as int) as usize)
            } else {
                None
            }),
            !r.forwards,
            old(self).well_formed() ==> final(self).well_formed(),
            old(self).well_formed() ==> final(self).accounts_for(*old(self), r.abort@),
    {
        let ghost start = *self;
        let ghost before = self.shells@;
        let abort = take_task(&mut self.shells, id);
        proof {
            if names_differ(before) {
                lemma_drop_names_differ(before, id@);
                lemma_drop_keeps(before, id@);
                lemma_accounts(start, *self, abort@);
            }
        }
        self.report_if_any(abort)
    }

    // -----------------------------------------------------------------------
    // Port forwards
    // -----------------------------------------------------------------------

    /// Takes down a port forward. An earlier one with its id is to be stopped.
    pub fn add_forward(&mut self, dto: ForwardDto, task: u64) -> (r: Effect)
        ensures
            final(self).forwards@ == with_entry(old(self).forwards@, (ForwardEntry { task, dto })),
            *final(self) == (ClientManager { forwards: final(self).forwards, ..*old(self) }),
            r.abort@ == forward_task_of(old(self).forwards@, dto.id@),
            r.watch == Some(capped(final(self).live(), usize::MAX as int) as usize),
            r.forwards,
            old(self).well_formed() ==> final(self).well_formed(),
            final(self).accounts_for(*old(self), r.abort@),
    {
        let mut abort: Vec<u64> = Vec::new();
        if let Some(i) = position(&self.forwards, dto.id.as_str()) {
            abort.push(self.forwards[i].task);
        }
        assert(abort@ =~= forward_task_of(self.forwards@, dto.id@));
        let e = ForwardEntry { task, dto };
        let ghost put = e;
        let ghost start = *self;
        let ghost before = self.forwards@;
        put_entry(&mut self.forwards, e);
        proof {
            if names_differ(before) {
                lemma_put_names_differ(before, put);
            }
            lemma_forward_put_keeps(before, put);
            lemma_accounts(start, *self, abort@);
        }
        Effect { abort, watch: Some(self.live_count()), forwards: true }
    }

    /// Ends a port forward, if it runs.
    pub fn remove_forward(&mut self, id: &str) -> (r: Effect)
        ensures
            final(self).forwards@ == without_entry(old(self).forwards@, id@),
            *final(self) == (ClientManager { forwards: final(self).forwards, ..*old(self) }),
            r.abort@ == forward_task_of(old(self).forwards@, id@),
            r.watch == (if named_at(old(self).forwards@, id@) is Some {
                Some(capped(final(self).live(), usize::MAX as int) as usize)
            } else {
                None
            }),
            r.forwards == (named_at(old(self).forwards@, id@) is Some),
            old(self).well_formed() ==> final(self).well_formed(),
            old(self).well_formed() ==> final(self).accounts_for(*old(self), r.abort@),
    {
        let mut abort: Vec<u64> = Vec::new();
        if let Some(i) = position(&self.forwards, id) {
            abort.push(self.forwards[i].task);
        }
        assert(abort@ =~= forward_task_of(self.forwards@, id@));
        let ghost start = *self;
        let ghost before = self.forwards@;
        let existed = drop_entry(&mut self.forwards, id);
        proof {
            if names_differ(before) {
                lemma_drop_names_differ(before, id@);
                lemma_forward_drop_keeps(before, id@);
                lemma_accounts(start, *self, abort@);
            }
        }
        if existed {
            Effect { abort, watch: Some(self.live_count()), forwards: true }
        } else {
            Effect { abort, watch: None, forwards: false }
        }
    }

    /// Takes down that a connection through a port forward failed. The forward goes
    /// on. The result says whether there is such a forward, and the forwards are to
    /// be reported.
    pub fn set_forward_error(&mut self, id: &str, error: String) -> (r: bool)
        ensures
            r == (named_at(old(self).forwards@, id@) is Some),
            match named_at(old(self).forwards@, id@) {
                Some(i) => {
                    let f = old(self).forwards@[i];
                    &&& forward_tasks(final(self).forwards@) == forward_tasks(old(self).forwards@)
                    &&& shown_forwards(final(self).forwards@) == shown_forwards(
                        old(self).forwards@,
                    ).update(i, (ForwardView { error: Some(error@), ..f.dto@ }))
                },
                None => final(self).forwards == old(self).forwards,
            },
            *final(self) == (ClientManager { forwards: final(self).forwards, ..*old(self) }),
            old(self).well_formed() ==> final(self).well_formed(),
    {
        match position(&self.forwards, id) {
            Some(i) => {
                let ghost before = self.forwards@;
                let mut dto = copy_forward(&self.forwards[i].dto);
                dto.error = Some(error);
                let task = self.forwards[i].task;
                let e = ForwardEntry { task, dto };
                let ghost shown = e.dto@;
                self.forwards.set(i, e);
                proof {
                    assert(forward_tasks(self.forwards@) =~= forward_tasks(before));
                    assert(shown_forwards(self.forwards@) =~= shown_forwards(before).update(
                        i as int,
                        shown,
                    ));
                    assert(self.forwards@[i as int].key() == before[i as int].key());
                    assert(names_differ(before) ==> names_differ(self.forwards@));
                }
                true
            },
            None => false,
        }
    }

    /// The port forwards, as the user sees them.
    pub fn list_forwards(&self) -> (r: Vec<ForwardDto>)
        ensures
            views(r@) == shown_forwards(self.forwards@),
    {
        let mut out: Vec<ForwardDto> = Vec::new();
        let mut i: usize = 0;
        assert(views(out@) =~= shown_forwards(self.forwards@).take(0));
        while i < self.forwards.len()
            invariant
                i <= self.forwards@.len(),
                views(out@) == shown_forwards(self.forwards@).take(i as int),
            decreases self.forwards@.len() - i,
        {
            let ghost before = views(out@);
            out.push(copy_forward(&self.forwards[i].dto));
            assert(views(out@) =~= before.push(shown_forwards(self.forwards@)[i as int]));
            i += 1;
            assert(views(out@) =~= shown_forwards(self.forwards@).take(i as int));
        }
        assert(shown_forwards(self.forwards@).take(i as int) =~= shown_forwards(self.forwards@));
        out
    }

    // -----------------------------------------------------------------------
    // Custom kinds and nodes
    // -----------------------------------------------------------------------

    /// Takes down the custom kinds that were discovered.
    pub fn set_custom_kinds(&mut self, ids: Vec<String>)
        ensures
            *final(self) == (ClientManager { custom_kinds: ids, ..*old(self) }),
            old(self).well_formed() ==> final(self).well_formed(),
    {
        self.custom_kinds = ids;
    }

    /// Which of the discovered kinds has this id: the last one, where several do.
    pub fn custom_kind(&self, id: &str) -> (r: Option<usize>)
        ensures
            match (r, last_position(texts(self.custom_kinds@), id@)) {
                (Some(i), Some(j)) => i == j && i < self.custom_kinds@.len(),
                (None, None) => true,
                _ => false,
            },
    {
        let ghost all = texts(self.custom_kinds@);
        let mut i: usize = self.custom_kinds.len();
        assert(all.take(i as int) =~= all);
        while i > 0
            invariant
                i <= self.custom_kinds@.len(),
                all == texts(self.custom_kinds@),
                last_position(all, id@) == last_position(all.take(i as int), id@),
            decreases i,
        {
            assert(all.take(i as int).last() == self.custom_kinds@[i - 1]@);
            assert(all.take(i as int).drop_last() =~= all.take(i - 1));
            if same(self.custom_kinds[i - 1].as_str(), id) {
                return Some(i - 1);
            }
            i -= 1;
        }
        None
    }

    /// Takes down a watcher of a custom kind. An earlier one of it is to be
    /// stopped.
    pub fn add_custom_watcher(&mut self, id: &str, task: u64) -> (r: Effect)
        ensures
            is_put(old(self).custom_watchers@, final(self).custom_watchers@, id@, task),
            *final(self) == (ClientManager {
                custom_watchers: final(self).custom_watchers,
                ..*old(self)
            }),
            r.abort@ == task_of(old(self).custom_watchers@, id@),
            r.watch == Some(capped(final(self).live(), usize::MAX as int) as usize),
            !r.forwards,
            old(self).well_formed() ==> final(self).well_formed(),
            final(self).accounts_for(*old(self), r.abort@),
    {
        let ghost start = *self;
        let ghost before = self.custom_watchers@;
        let abort = put_task(&mut self.custom_watchers, id, task);
        proof {
            lemma_put_keeps_names(before, self.custom_watchers@, id@, task);
            lemma_put_keeps(before, self.custom_watchers@, id@, task);
            lemma_accounts(start, *self, abort@);
        }
        self.report(abort)
    }

    /// Whether a custom kind is watched.
    pub fn has_custom_watcher(&self, id: &str) -> (r: bool)
        ensures
            r == (named_at(self.custom_watchers@, id@) is Some),
    {
        position(&self.custom_watchers, id).is_some()
    }

    /// Ends the watcher of a custom kind, if it runs.
    pub fn remove_custom_watcher(&mut self, id: &str) -> (r: Effect)
        ensures
            final(self).custom_watchers@ == without_entry(old(self).custom_watchers@, id@),
            *final(self) == (ClientManager {
                custom_watchers: final(self).custom_watchers,
                ..*old(self)
            }),
            r.abort@ == task_of(old(self).custom_watchers@, id@),
            r.watch == (if named_at(old(self).custom_watchers@, id@) is Some {
                Some(capped(final(self).live(), usize::MAX as int) as usize)
            } else {
                None
            }),
            !r.forwards,
            old(self).well_formed() ==> final(self).well_formed(),
            old(self).well_formed() ==> final(self).accounts_for(*old(self), r.abort@),
    {
        let ghost start = *self;
        let ghost before = self.custom_watchers@;
        let abort = take_task(&mut self.custom_watchers, id);
        proof {
            if names_differ(before) {
                lemma_drop_names_differ(before, id@);
                lemma_drop_keeps(before, id@);
                lemma_accounts(start, *self, abort@);
            }
        }
        self.report_if_any(abort)
    }

    /// Takes down a scraper of a node. An earlier one of it is to be stopped.
    pub fn add_node_scraper(&mut self, node: &str, task: u64) -> (r: Effect)
        ensures
            is_put(old(self).node_scrapers@, final(self).node_scrapers@, node@, task),
            *final(self) == (ClientManager {
                node_scrapers: final(self).node_scrapers,
                ..*old(self)
            }),
            r.abort@ == task_of(old(self).node_scrapers@, node@),
            r.watch == Some(capped(final(self).live(), usize::MAX as int) as usize),
            !r.forwards,
            old(self).well_formed() ==> final(self).well_formed(),
            final(self).accounts_for(*old(self), r.abort@),
    {
        let ghost start = *self;
        let ghost before = self.node_scrapers@;
        let abort = put_task(&mut self.node_scrapers, node, task);
        proof {
            lemma_put_keeps_names(before, self.node_scrapers@, node@, task);
            lemma_put_keeps(before, self.node_scrapers@, node@, task);
            lemma_accounts(start, *self, abort@);
        }
        self.report(abort)
    }

    /// Whether a node is scraped.
    pub fn has_node_scraper(&self, node: &str) -> (r: bool)
        ensures
            r == (named_at(self.node_scrapers@, node@) is Some),
    {
        position(&self.node_scrapers, node).is_some()
    }

    /// Ends the scraper of a node, if it runs.
    pub fn remove_node_scraper(&mut self, node: &str) -> (r: Effect)
        ensures
            final(self).node_scrapers@ == without_entry(old(self).node_scrapers@, node@),
            *final(self) == (ClientManager {
                node_scrapers: final(self).node_scrapers,
                ..*old(self)
            }),
            r.abort@ == task_of(old(self).node_scrapers@, node@),
            r.watch == (if named_at(old(self).node_scrapers@, node@) is Some {
                Some(capped(final(self).live(), usize::MAX as int) as usize)
            } else {
                None
            }),
            !r.forwards,
            old(self).well_formed() ==> final(self).well_formed(),
            old(self).well_formed() ==> final(self).accounts_for(*old(self), r.abort@),
    {
        let ghost start = *self;
        let ghost before = self.node_scrapers@;
        let abort = take_task(&mut self.node_scrapers, node);
        proof {
            if names_differ(before) {
                lemma_drop_names_differ(before, node@);
                lemma_drop_keeps(before, node@);
                lemma_accounts(start, *self, abort@);
            }
        }
        self.report_if_any(abort)
    }

    /// The recorded versions of ConfigMaps and Secrets.
    pub fn snapshot_store(&self) -> (r: &SnapshotStore)
        ensures
            *r == self.snapshot_store,
    {
        &self.snapshot_store
    }
}

proof fn lemma_put_keeps_names(
    before: Seq<TaskEntry>,
    after: Seq<TaskEntry>,
    id: Seq<char>,
    task: u64,
)
    requires
        is_put(before, after, id, task),
    ensures
        names_differ(before) ==> names_differ(after),
{
    let e = choose|e: TaskEntry|
        #![trigger with_entry(before, e)]
        e.id@ == id && e.task == task && after == with_entry(before, e);
    if names_differ(before) {
        lemma_put_names_differ(before, e);
    }
}

proof fn lemma_kept_both(a: Seq<u64>, b: Seq<u64>, c: Seq<u64>, d: Seq<u64>, abort: Seq<u64>)
    requires
        kept(a, c, abort),
        kept(b, d, abort),
    ensures
        kept(a + b, c + d, abort),
{
    assert forall|t: u64| #[trigger] (a + b).contains(t) implies (c + d).contains(t)
        || abort.contains(t) by {
        lemma_seq_concat_contains_all_elements(a, b, t);
        lemma_seq_concat_contains_all_elements(c, d, t);
    }
}

proof fn lemma_accounts<C, K>(a: ClientManager<C, K>, b: ClientManager<C, K>, abort: Seq<u64>)
    requires
        kept(a.tasks@, b.tasks@, abort),
        kept(entry_tasks(a.logs@), entry_tasks(b.logs@), abort),
        kept(entry_tasks(a.shells@), entry_tasks(b.shells@), abort),
        kept(forward_tasks(a.forwards@), forward_tasks(b.forwards@), abort),
        kept(entry_tasks(a.custom_watchers@), entry_tasks(b.custom_watchers@), abort),
        kept(entry_tasks(a.node_scrapers@), entry_tasks(b.node_scrapers@), abort),
    ensures
        b.accounts_for(a, abort),
{
    let (a1, b1) = (a.tasks@ + entry_tasks(a.logs@), b.tasks@ + entry_tasks(b.logs@));
    let (a2, b2) = (a1 + entry_tasks(a.shells@), b1 + entry_tasks(b.shells@));
    let (a3, b3) = (a2 + forward_tasks(a.forwards@), b2 + forward_tasks(b.forwards@));
    let (a4, b4) = (
        a3 + entry_tasks(a.custom_watchers@),
        b3 + entry_tasks(b.custom_watchers@),
    );
    lemma_kept_both(a.tasks@, entry_tasks(a.logs@), b.tasks@, entry_tasks(b.logs@), abort);
    lemma_kept_both(a1, entry_tasks(a.shells@), b1, entry_tasks(b.shells@), abort);
    lemma_kept_both(a2, forward_tasks(a.forwards@), b2, forward_tasks(b.forwards@), abort);
    lemma_kept_both(
        a3,
        entry_tasks(a.custom_watchers@),
        b3,
        entry_tasks(b.custom_watchers@),
        abort,
    );
    lemma_kept_both(a4, entry_tasks(a.node_scrapers@), b4, entry_tasks(b.node_scrapers@), abort);
}

proof fn lemma_push_keeps(s: Seq<u64>, task: u64)
    ensures
        kept(s, s.push(task), Seq::<u64>::empty()),
{
    assert forall|t: u64| #[trigger] s.contains(t) implies s.push(task).contains(t) by {
        let i = choose|i: int| 0 <= i < s.len() && s[i] == t;
        assert(s.push(task)[i] == t);
    }
}

proof fn lemma_task_runs<C, K>(m: ClientManager<C, K>, task: u64)
    requires
        m.tasks@.contains(task),
    ensures
        m.running().contains(task),
{
    let i = choose|i: int| 0 <= i < m.tasks@.len() && m.tasks@[i] == task;
    assert(m.running()[i] == task);
}

proof fn lemma_put_keeps(before: Seq<TaskEntry>, after: Seq<TaskEntry>, id: Seq<char>, task: u64)
    requires
        is_put(before, after, id, task),
    ensures
        kept(entry_tasks(before), entry_tasks(after), task_of(before, id)),
{
    assert forall|t: u64| #[trigger] entry_tasks(before).contains(t) implies entry_tasks(
        after,
    ).contains(t) || task_of(before, id).contains(t) by {
        law_put_forgets_no_task(before, after, id, task, t);
    }
}

proof fn lemma_drop_keeps(before: Seq<TaskEntry>, id: Seq<char>)
    requires
        names_differ(before),
    ensures
        kept(entry_tasks(before), entry_tasks(without_entry(before, id)), task_of(before, id)),
{
    assert forall|t: u64| #[trigger] entry_tasks(before).contains(t) implies entry_tasks(
        without_entry(before, id),
    ).contains(t) || task_of(before, id).contains(t) by {
        law_drop_forgets_no_task(before, id, t);
    }
}

proof fn lemma_forward_put_keeps(before: Seq<ForwardEntry>, e: ForwardEntry)
    ensures
        kept(
            forward_tasks(before),
            forward_tasks(with_entry(before, e)),
            forward_task_of(before, e.dto.id@),
        ),
{
    assert forall|t: u64| #[trigger] forward_tasks(before).contains(t) implies forward_tasks(
        with_entry(before, e),
    ).contains(t) || forward_task_of(before, e.dto.id@).contains(t) by {
        law_put_forgets_no_forward(before, e, t);
    }
}

proof fn lemma_forward_drop_keeps(before: Seq<ForwardEntry>, id: Seq<char>)
    requires
        names_differ(before),
    ensures
        kept(
            forward_tasks(before),
            forward_tasks(without_entry(before, id)),
            forward_task_of(before, id),
        ),
{
    assert forall|t: u64| #[trigger] forward_tasks(before).contains(t) implies forward_tasks(
        without_entry(before, id),
    ).contains(t) || forward_task_of(before, id).contains(t) by {
        law_drop_forgets_no_forward(before, id, t);
    }
}

// ---------------------------------------------------------------------------
// Laws
// ---------------------------------------------------------------------------

/// No task is forgotten when one is taken down under an id: each that ran still
/// runs, or is to be stopped; and the new one runs.
pub proof fn law_put_forgets_no_task(
    before: Seq<TaskEntry>,
    after: Seq<TaskEntry>,
    id: Seq<char>,
    task: u64,
    t: u64,
)
    requires
        is_put(before, after, id, task),
    ensures
        entry_tasks(before).contains(t) ==> entry_tasks(after).contains(t) || task_of(
            before,
            id,
        ).contains(t),
        entry_tasks(after).contains(task),
{
    let e = choose|e: TaskEntry|
        #![trigger with_entry(before, e)]
        e.id@ == id && e.task == task && after == with_entry(before, e);
    lemma_named_from(before, id, 0);
    match named_at(before, id) {
        Some(i) => {
            assert(entry_tasks(after)[i] == task);
            assert(task_of(before, id)[0] == before[i].task);
        },
        None => {
            assert(entry_tasks(after)[before.len() as int] == task);
        },
    }
    if entry_tasks(before).contains(t) {
        let k = choose|k: int| 0 <= k < before.len() && entry_tasks(before)[k] == t;
        match named_at(before, id) {
            Some(i) => {
                if k != i {
                    assert(entry_tasks(after)[k] == t);
                }
            },
            None => {
                assert(entry_tasks(after)[k] == t);
            },
        }
    }
}

/// No task is forgotten when an id is given up: each that ran still runs, or is to
/// be stopped.
pub proof fn law_drop_forgets_no_task(before: Seq<TaskEntry>, id: Seq<char>, t: u64)
    requires
        names_differ(before),
    ensures
        entry_tasks(before).contains(t) ==> entry_tasks(without_entry(before, id)).contains(t)
            || task_of(before, id).contains(t),
{
    lemma_named_from(before, id, 0);
    lemma_without_members(before, id);
    let after = without_entry(before, id);
    if entry_tasks(before).contains(t) {
        let k = choose|k: int| 0 <= k < before.len() && entry_tasks(before)[k] == t;
        if before[k].key() == id {
            let i = named_at(before, id)->0;
            assert(i == k);
            assert(task_of(before, id)[0] == t);
        } else {
            assert(after.contains(before[k]));
            let j = choose|j: int| 0 <= j < after.len() && after[j] == before[k];
            assert(entry_tasks(after)[j] == t);
        }
    }
}

/// The same for port forwards: taking one down forgets no task.
pub proof fn law_put_forgets_no_forward(before: Seq<ForwardEntry>, e: ForwardEntry, t: u64)
    requires
        forward_tasks(before).contains(t),
    ensures
        forward_tasks(with_entry(before, e)).contains(t) || forward_task_of(
            before,
            e.dto.id@,
        ).contains(t),
{
    let k = choose|k: int| 0 <= k < before.len() && forward_tasks(before)[k] == t;
    lemma_named_from(before, e.dto.id@, 0);
    let put = with_entry(before, e);
    match named_at(before, e.dto.id@) {
        Some(i) => {
            if k != i {
                assert(forward_tasks(put)[k] == t);
            } else {
                assert(forward_task_of(before, e.dto.id@)[0] == t);
            }
        },
        None => {
            assert(forward_tasks(put)[k] == t);
        },
    }
}

/// Nor does giving up a port forward forget one.
pub proof fn law_drop_forgets_no_forward(before: Seq<ForwardEntry>, id: Seq<char>, t: u64)
    requires
        names_differ(before),
        forward_tasks(before).contains(t),
    ensures
        forward_tasks(without_entry(before, id)).contains(t) || forward_task_of(
            before,
            id,
        ).contains(t),
{
    let k = choose|k: int| 0 <= k < before.len() && forward_tasks(before)[k] == t;
    lemma_named_from(before, id, 0);
    lemma_without_members(before, id);
    let after = without_entry(before, id);
    if before[k].key() == id {
        let i = named_at(before, id)->0;
        assert(i == k);
        assert(forward_task_of(before, id)[0] == t);
    } else {
        let j = choose|j: int| 0 <= j < after.len() && after[j] == before[k];
        assert(forward_tasks(after)[j] == t);
    }
}

/// No task outlives the connection that it was started for: over any two changes in a
/// row, each of which accounts for what ran before it, a task that ran at the start is
/// still running or was to be stopped; so once nothing runs, all were stopped.
pub proof fn law_no_task_outlives_its_connection<C, K>(
    first: ClientManager<C, K>,
    next: ClientManager<C, K>,
    last: ClientManager<C, K>,
    stopped: Seq<u64>,
    stopped_next: Seq<u64>,
    t: u64,
)
    requires
        next.accounts_for(first, stopped),
        last.accounts_for(next, stopped_next),
        first.running().contains(t),
    ensures
        last.accounts_for(first, stopped + stopped_next),
        last.running() == Seq::<u64>::empty() ==> (stopped + stopped_next).contains(t),
{
    assert forall|u: u64| #[trigger] first.running().contains(u) implies last.running().contains(u)
        || (stopped + stopped_next).contains(u) by {
        lemma_seq_concat_contains_all_elements(stopped, stopped_next, u);
        assert(next.running().contains(u) || stopped.contains(u));
    }
}

/// What is reported as live is every watcher, log stream, shell, port forward and scraper.
pub proof fn law_live_streams_add_up<C, K>(m: ClientManager<C, K>, r: usize)
    requires
        call_ensures(ClientManager::<C, K>::live_count, (&m,), r),
        m.watcher_count + m.custom_watchers@.len() + m.node_scrapers@.len() + m.logs@.len()
            + m.shells@.len() + m.forwards@.len() <= usize::MAX,
    ensures
        r == m.watcher_count + m.custom_watchers@.len() + m.node_scrapers@.len() + m.logs@.len()
            + m.shells@.len() + m.forwards@.len(),
{
}

/// What runs for a connection is what every one of the lists holds, and nothing else; so ending
/// the connection stops all of it.
pub proof fn law_every_list_is_part_of_what_runs<C, K>(m: ClientManager<C, K>, t: u64)
    ensures
        m.running().contains(t) <==> {
            ||| exists|i: int| 0 <= i < m.tasks@.len() && #[trigger] m.tasks@[i] == t
            ||| exists|i: int| 0 <= i < m.logs@.len() && (#[trigger] m.logs@[i]).task == t
            ||| exists|i: int| 0 <= i < m.shells@.len() && (#[trigger] m.shells@[i]).task == t
            ||| exists|i: int| 0 <= i < m.forwards@.len() && (#[trigger] m.forwards@[i]).task == t
            ||| exists|i: int|
                0 <= i < m.custom_watchers@.len() && (#[trigger] m.custom_watchers@[i]).task == t
            ||| exists|i: int|
                0 <= i < m.node_scrapers@.len() && (#[trigger] m.node_scrapers@[i]).task == t
        },
        m.running().len() == m.tasks@.len() + m.logs@.len() + m.shells@.len() + m.forwards@.len()
            + m.custom_watchers@.len() + m.node_scrapers@.len(),
{
    broadcast use lemma_seq_concat_contains_all_elements;

    lemma_entry_tasks(m.logs@, t);
    lemma_entry_tasks(m.shells@, t);
    lemma_entry_tasks(m.custom_watchers@, t);
    lemma_entry_tasks(m.node_scrapers@, t);
    let f = forward_tasks(m.forwards@);
    assert(f.contains(t) <==> exists|i: int|
        0 <= i < m.forwards@.len() && (#[trigger] m.forwards@[i]).task == t) by {
        if f.contains(t) {
            let i = choose|i: int| 0 <= i < f.len() && f[i] == t;
            assert(m.forwards@[i].task == t);
        }
        if exists|i: int| 0 <= i < m.forwards@.len() && (#[trigger] m.forwards@[i]).task == t {
            let i = choose|i: int|
                0 <= i < m.forwards@.len() && (#[trigger] m.forwards@[i]).task == t;
            assert(f[i] == t);
        }
    }
}

proof fn lemma_entry_tasks(s: Seq<TaskEntry>, t: u64)
    ensures
        entry_tasks(s).contains(t) <==> exists|i: int|
            0 <= i < s.len() && (#[trigger] s[i]).task == t,
{
    let f = entry_tasks(s);
    if f.contains(t) {
        let i = choose|i: int| 0 <= i < f.len() && f[i] == t;
        assert(s[i].task == t);
    }
    if exists|i: int| 0 <= i < s.len() && (#[trigger] s[i]).task == t {
        let i = choose|i: int| 0 <= i < s.len() && (#[trigger] s[i]).task == t;
        assert(f[i] == t);
    }
}

/// What is stopped when an id is taken over or given up is the task that had it, and nothing
/// where none had.
pub proof fn law_the_task_of_an_id_is_stopped(s: Seq<TaskEntry>, id: Seq<char>, i: int)
    requires
        names_differ(s),
    ensures
        0 <= i < s.len() && s[i].id@ == id ==> task_of(s, id) == seq![s[i].task],
        (forall|k: int| 0 <= k < s.len() ==> (#[trigger] s[k]).id@ != id) ==> task_of(s, id).len()
            == 0,
{
    lemma_named_from(s, id, 0);
    if 0 <= i < s.len() && s[i].id@ == id {
        assert(s[i].key() == id);
        let n = named_at(s, id)->0;
        assert(s[n].key() == id);
        if n < i {
            assert(s[n].key() != s[i].key());
        }
        if i < n {
            assert(s[i].key() != s[n].key());
        }
    }
    if forall|k: int| 0 <= k < s.len() ==> (#[trigger] s[k]).id@ != id {
        if let Some(n) = named_at(s, id) {
            assert(s[n].key() == id);
            assert(s[n].id@ != id);
        }
    }
}

/// The same for port forwards.
pub proof fn law_the_task_of_a_forward_is_stopped(s: Seq<ForwardEntry>, id: Seq<char>, i: int)
    requires
        names_differ(s),
    ensures
        0 <= i < s.len() && s[i].dto.id@ == id ==> forward_task_of(s, id) == seq![s[i].task],
        (forall|k: int| 0 <= k < s.len() ==> (#[trigger] s[k]).dto.id@ != id) ==> forward_task_of(
            s,
            id,
        ).len() == 0,
{
    lemma_named_from(s, id, 0);
    if 0 <= i < s.len() && s[i].dto.id@ == id {
        assert(s[i].key() == id);
        let n = named_at(s, id)->0;
        assert(s[n].key() == id);
        if n < i {
            assert(s[n].key() != s[i].key());
        }
        if i < n {
            assert(s[i].key() != s[n].key());
        }
    }
    if forall|k: int| 0 <= k < s.len() ==> (#[trigger] s[k]).dto.id@ != id {
        if let Some(n) = named_at(s, id) {
            assert(s[n].key() == id);
            assert(s[n].dto.id@ != id);
        }
    }
}

/// A shell is reached under its id, a kind or a node is known to be watched exactly while one
/// of the entries has its id, and a context goes back to the file it was imported from.
pub proof fn law_entries_are_found_by_their_ids<C, K>(
    m: ClientManager<C, K>,
    id: &str,
    i: int,
    shell: Option<u64>,
    watched: bool,
    scraped: bool,
    path: Option<String>,
)
    requires
        m.well_formed(),
        call_ensures(ClientManager::<C, K>::shell, (&m, id), shell),
        call_ensures(ClientManager::<C, K>::has_custom_watcher, (&m, id), watched),
        call_ensures(ClientManager::<C, K>::has_node_scraper, (&m, id), scraped),
        call_ensures(ClientManager::<C, K>::import_path, (&m, id), path),
    ensures
        0 <= i < m.shells@.len() && m.shells@[i].id@ == id@ ==> shell == Some(m.shells@[i].task),
        watched <==> exists|k: int|
            0 <= k < m.custom_watchers@.len() && (#[trigger] m.custom_watchers@[k]).id@ == id@,
        scraped <==> exists|k: int|
            0 <= k < m.node_scrapers@.len() && (#[trigger] m.node_scrapers@[k]).id@ == id@,
        0 <= i < m.imports@.len() && m.imports@[i].name@ == id@ ==> opt_text(path) == Some(
            m.imports@[i].imported.path@,
        ),
{
    law_the_task_of_an_id_is_stopped(m.shells@, id@, i);
    if 0 <= i < m.shells@.len() && m.shells@[i].id@ == id@ {
        let t = task_of(m.shells@, id@);
        assert(t.len() == 1);
        assert(t[0] == m.shells@[i].task);
    }
    lemma_found(m.custom_watchers@, id@);
    lemma_found(m.node_scrapers@, id@);
    if 0 <= i < m.imports@.len() && m.imports@[i].name@ == id@ {
        lemma_named_from(m.imports@, id@, 0);
        assert(m.imports@[i].key() == id@);
        let n = named_at(m.imports@, id@)->0;
        assert(m.imports@[n].key() == id@);
        if n < i {
            assert(m.imports@[n].key() != m.imports@[i].key());
        }
        if i < n {
            assert(m.imports@[i].key() != m.imports@[n].key());
        }
    }
}

proof fn lemma_found(s: Seq<TaskEntry>, id: Seq<char>)
    ensures
        named_at(s, id) is Some <==> exists|k: int| 0 <= k < s.len() && (#[trigger] s[k]).id@ == id,
{
    lemma_named_from(s, id, 0);
    if let Some(n) = named_at(s, id) {
        assert(s[n].key() == id);
        assert(s[n].id@ == id);
    }
    if exists|k: int| 0 <= k < s.len() && (#[trigger] s[k]).id@ == id {
        let k = choose|k: int| 0 <= k < s.len() && (#[trigger] s[k]).id@ == id;
        assert(s[k].key() == id);
    }
}

proof fn lemma_last_position(s: Seq<Seq<char>>, t: Seq<char>)
    ensures
        match last_position(s, t) {
            Some(i) => 0 <= i < s.len() && s[i] == t && forall|k: int|
                i < k < s.len() ==> #[trigger] s[k] != t,
            None => forall|k: int| 0 <= k < s.len() ==> #[trigger] s[k] != t,
        },
    decreases s.len(),
{
    if s.len() > 0 && s.last() != t {
        lemma_last_position(s.drop_last(), t);
        assert forall|k: int| 0 <= k < s.len() - 1 implies s.drop_last()[k] == s[k] by {}
    }
}

/// A custom kind is found by its id: the last one that was discovered with it.
pub proof fn law_kinds_are_found_by_their_ids<C, K>(
    m: ClientManager<C, K>,
    id: &str,
    r: Option<usize>,
)
    requires
        call_ensures(ClientManager::<C, K>::custom_kind, (&m, id), r),
    ensures
        r matches Some(i) ==> i < m.custom_kinds@.len() && m.custom_kinds@[i as int]@ == id@ && (
        forall|k: int| i < k < m.custom_kinds@.len() ==> (#[trigger] m.custom_kinds@[k])@ != id@),
        r is None ==> forall|k: int|
            0 <= k < m.custom_kinds@.len() ==> (#[trigger] m.custom_kinds@[k])@ != id@,
{
    let t = texts(m.custom_kinds@);
    lemma_last_position(t, id@);
    assert(t.len() == m.custom_kinds@.len());
    assert forall|k: int| 0 <= k < t.len() implies t[k] == (#[trigger] m.custom_kinds@[k])@ by {}
}

/// The forwards are listed as they are, each in its place.
pub proof fn law_every_forward_is_listed<C, K>(
    m: ClientManager<C, K>,
    r: Vec<ForwardDto>,
    i: int,
)
    requires
        call_ensures(ClientManager::<C, K>::list_forwards, (&m,), r),
        0 <= i < m.forwards@.len(),
    ensures
        r@.len() == m.forwards@.len(),
        r@[i].id@ == m.forwards@[i].dto.id@,
        r@[i].namespace@ == m.forwards@[i].dto.namespace@,
        r@[i].pod@ == m.forwards@[i].dto.pod@,
        r@[i].remote_port == m.forwards@[i].dto.remote_port,
        r@[i].local_port == m.forwards@[i].dto.local_port,
        r@[i].service_port == m.forwards@[i].dto.service_port,
        opt_text(r@[i].service) == opt_text(m.forwards@[i].dto.service),
        opt_text(r@[i].error) == opt_text(m.forwards@[i].dto.error),
{
    let v = views(r@);
    assert(v.len() == r@.len());
    assert(v[i] == r@[i]@);
    assert(v[i] == m.forwards@[i].dto@);
}

} // verus!
