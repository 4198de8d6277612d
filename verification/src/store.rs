//! The record store: the logical table of application records together
//! with the schema bootstrap, enforcing validated names, name and id
//! uniqueness, ordered listing and delete semantics.

use vstd::prelude::*;
use vstd::string::StringExecFns;

use crate::error::DbError;
use crate::models::Application;
use crate::text::{lemma_lex_lt_transitive, lemma_lex_total, lex_le, str_eq, str_le};
use crate::validation::{valid_app_name, validate_app_name, name_rejection};

verus! {

/// Connection-pool configuration for a storage engine backing the store.
#[derive(Debug, Clone)]
pub struct DatabaseConfig {
    /// Maximum number of connections in the pool.
    pub max_connections: u32,
    /// Whether to enable write-ahead logging for better concurrency.
    pub enable_wal: bool,
}

impl Default for DatabaseConfig {
    /// Five pooled connections, write-ahead logging enabled.
    fn default() -> (r: DatabaseConfig)
        ensures
            r.max_connections == 5,
            r.enable_wal,
    {
        DatabaseConfig { max_connections: 5, enable_wal: true }
    }
}

/// One applied migration, as recorded in the schema metadata.
#[derive(Debug, Clone)]
pub struct MigrationRecord {
    /// The migration's unique name.
    pub name: String,
    /// When it was applied, in milliseconds since the epoch.
    pub applied_at: i64,
}

/// The name of the single schema migration.
pub open spec fn initial_migration_name() -> Seq<char> {
    "001_initial_schema"@
}

/// The logical state of the store: the applied migrations and the table of
/// application records.
pub struct StoreModel {
    pub migrations: Seq<MigrationRecord>,
    pub apps: Seq<Application>,
}

/// Whether some record carries the given id.
pub open spec fn has_app_id(apps: Seq<Application>, id: Seq<char>) -> bool {
    exists|i: int| 0 <= i < apps.len() && #[trigger] apps[i].id@ == id
}

/// Whether some record carries the given name.
pub open spec fn has_app_name(apps: Seq<Application>, name: Seq<char>) -> bool {
    exists|i: int| 0 <= i < apps.len() && #[trigger] apps[i].name@ == name
}

/// Whether a migration of the given name has been applied.
pub open spec fn has_migration(migrations: Seq<MigrationRecord>, name: Seq<char>) -> bool {
    exists|i: int| 0 <= i < migrations.len() && #[trigger] migrations[i].name@ == name
}

/// Whether the schema bootstrap has run.
pub open spec fn migrated(m: StoreModel) -> bool {
    has_migration(m.migrations, initial_migration_name())
}

/// Well-formedness of the table: ids unique, names unique, and every name
/// valid at the time of insertion.
pub open spec fn store_wf(m: StoreModel) -> bool {
    &&& forall|i: int, j: int|
        0 <= i < j < m.apps.len() ==> #[trigger] m.apps[i].id@ != #[trigger] m.apps[j].id@
    &&& forall|i: int, j: int|
        0 <= i < j < m.apps.len() ==> #[trigger] m.apps[i].name@ != #[trigger] m.apps[j].name@
    &&& forall|i: int| 0 <= i < m.apps.len() ==> valid_app_name(#[trigger] m.apps[i].name@)
}

/// The transition of one bootstrap call: a no-op when the migration is
/// already recorded, otherwise the migration is recorded (at some time) and
/// the table is untouched.
pub open spec fn migrate_post(pre: StoreModel, post: StoreModel) -> bool {
    &&& post.apps == pre.apps
    &&& if migrated(pre) {
        post.migrations == pre.migrations
    } else {
        &&& post.migrations.len() == pre.migrations.len() + 1
        &&& post.migrations.take(pre.migrations.len() as int) == pre.migrations
        &&& post.migrations.last().name@ == initial_migration_name()
    }
}

/// The transition of one `create` call: a valid, untaken name appends one
/// freshly identified record and returns it; a rejected name reports why;
/// a taken name is refused. The only other outcome is a storage error for
/// a collision of the freshly drawn id, which demands a colliding record
/// in the store — so on a store with no records, a valid name is owed
/// success. Every failure leaves the store unchanged.
pub open spec fn create_post(
    pre: StoreModel,
    post: StoreModel,
    name: Seq<char>,
    r: Result<Application, DbError>,
) -> bool {
    &&& post.migrations == pre.migrations
    &&& (pre.apps.len() == 0 && valid_app_name(name) ==> r is Ok)
    &&& match r {
        Ok(app) => {
            &&& valid_app_name(name)
            &&& !has_app_name(pre.apps, name)
            &&& app.name@ == name
            &&& app.id@.len() == 36
            &&& !has_app_id(pre.apps, app.id@)
            &&& post.apps == pre.apps.push(app)
        },
        Err(e) => post == pre && match e {
            DbError::InvalidName(m) => !valid_app_name(name) && name_rejection(name) == Some(m@),
            DbError::DuplicateName(m) => valid_app_name(name) && has_app_name(pre.apps, name)
                && m@ == name,
            DbError::DatabaseError(m) => {
                &&& valid_app_name(name)
                &&& !has_app_name(pre.apps, name)
                &&& m@ == "UNIQUE constraint failed: applications.id"@
                &&& exists|i: int|
                    0 <= i < pre.apps.len() && #[trigger] pre.apps[i].id@.len() == 36
            },
            _ => false,
        },
    }
}

/// What one `get` call returns: the record carrying the id, or an explicit
/// absence; never an error.
pub open spec fn get_post(m: StoreModel, id: Seq<char>, r: Result<
    Option<Application>,
    DbError,
>) -> bool {
    match r {
        Ok(Some(app)) => has_app_id(m.apps, id) && app.id@ == id && exists|i: int|
            0 <= i < m.apps.len() && m.apps[i] == app,
        Ok(None) => !has_app_id(m.apps, id),
        Err(_) => false,
    }
}

/// What one `get_by_name` call returns: the record carrying the name, or
/// an explicit absence; never an error.
pub open spec fn get_by_name_post(m: StoreModel, name: Seq<char>, r: Result<
    Option<Application>,
    DbError,
>) -> bool {
    match r {
        Ok(Some(app)) => has_app_name(m.apps, name) && app.name@ == name && exists|i: int|
            0 <= i < m.apps.len() && m.apps[i] == app,
        Ok(None) => !has_app_name(m.apps, name),
        Err(_) => false,
    }
}

/// What one `list` call returns: exactly the table's records, in the
/// listing order; never an error.
pub open spec fn list_post(m: StoreModel, r: Result<Vec<Application>, DbError>) -> bool {
    match r {
        Ok(out) => {
            &&& out@.to_multiset() == m.apps.to_multiset()
            &&& out@.len() == m.apps.len()
            &&& apps_sorted(out@)
        },
        Err(_) => false,
    }
}

/// The transition of one `delete` call: a present id removes its record
/// and reports `true`; a missing id changes nothing and reports `false`;
/// never an error.
pub open spec fn delete_post(
    pre: StoreModel,
    post: StoreModel,
    id: Seq<char>,
    r: Result<bool, DbError>,
) -> bool {
    &&& post.migrations == pre.migrations
    &&& match r {
        Ok(true) => has_app_id(pre.apps, id) && exists|i: int|
            0 <= i < pre.apps.len() && #[trigger] pre.apps[i].id@ == id && post.apps
                == pre.apps.remove(i),
        Ok(false) => !has_app_id(pre.apps, id) && post == pre,
        Err(_) => false,
    }
}

/// Relies on `uuid::Uuid::new_v4` and its `Display` form: a fresh random
/// 128-bit identifier rendered as 36 characters (five hyphen-separated
/// groups of lowercase hexadecimal). Randomness permits no promise beyond
/// the shape.
#[verifier::external_body]
fn fresh_id() -> (r: String)
    ensures
        r@.len() == 36,
{
    uuid::Uuid::new_v4().to_string()
}

/// Relies on `chrono::Utc::now().timestamp_millis`: the current wall-clock
/// time in milliseconds since the epoch. Nothing can be promised of the
/// value.
#[verifier::external_body]
fn now_millis() -> i64 {
    chrono::Utc::now().timestamp_millis()
}

/// The listing order: by creation time, newest first; names ascending
/// among records created at the identical timestamp.
pub open spec fn app_le(a: Application, b: Application) -> bool {
    a.created_at > b.created_at || (a.created_at == b.created_at && lex_le(a.name@, b.name@))
}

/// Whether a sequence of records is in listing order.
pub open spec fn apps_sorted(s: Seq<Application>) -> bool {
    forall|i: int, j: int| 0 <= i < j < s.len() ==> app_le(#[trigger] s[i], #[trigger] s[j])
}

/// Any two records are comparable in the listing order.
pub proof fn lemma_app_le_total(a: Application, b: Application)
    ensures
        app_le(a, b) || app_le(b, a),
{
    if a.created_at == b.created_at {
        lemma_lex_total(a.name@, b.name@);
    }
}

/// The listing order carries across a middle record.
pub proof fn lemma_app_le_transitive(a: Application, b: Application, c: Application)
    requires
        app_le(a, b),
        app_le(b, c),
    ensures
        app_le(a, c),
{
    if a.created_at == b.created_at && b.created_at == c.created_at {
        if a.name@ != b.name@ && b.name@ != c.name@ {
            lemma_lex_lt_transitive(a.name@, b.name@, c.name@);
        }
    }
}

/// Compares two records in the listing order.
fn app_le_exec(a: &Application, b: &Application) -> (r: bool)
    ensures
        r == app_le(*a, *b),
{
    if a.created_at > b.created_at {
        true
    } else if a.created_at == b.created_at {
        str_le(a.name.as_str(), b.name.as_str())
    } else {
        false
    }
}

/// The position where a record belongs in an ordered sequence: the first
/// index whose record does not come before it.
fn insert_position(out: &Vec<Application>, x: &Application) -> (p: usize)
    ensures
        p <= out@.len(),
        forall|i: int| 0 <= i < p ==> app_le(#[trigger] out@[i], *x),
        p < out@.len() ==> !app_le(out@[p as int], *x),
{
    let n = out.len();
    let mut p: usize = 0;
    while p < n
        invariant
            n == out@.len(),
            p <= n,
            forall|i: int| 0 <= i < p ==> app_le(#[trigger] out@[i], *x),
        decreases n - p,
    {
        if !app_le_exec(&out[p], x) {
            return p;
        }
        p = p + 1;
    }
    p
}

/// Sorts records into the listing order: creation time descending, names
/// ascending among equal timestamps. The records themselves are kept:
/// the result is a permutation of the input.
pub fn sort_applications(v: &mut Vec<Application>)
    ensures
        final(v)@.to_multiset() == old(v)@.to_multiset(),
        final(v)@.len() == old(v)@.len(),
        apps_sorted(final(v)@),
{
    broadcast use vstd::seq_lib::group_to_multiset_ensures;

    let n = v.len();
    let mut out: Vec<Application> = Vec::new();
    let mut k: usize = 0;
    proof {
        assert(v@.take(0) =~= Seq::<Application>::empty());
        assert(out@.to_multiset() =~= v@.take(0).to_multiset());
    }
    while k < n
        invariant
            n == v@.len(),
            k <= n,
            out@.len() == k,
            out@.to_multiset() == v@.take(k as int).to_multiset(),
            apps_sorted(out@),
        decreases n - k,
    {
        let x = v[k].duplicate();
        let p = insert_position(&out, &x);
        proof {
            let pre = out@;
            if (p as int) < pre.len() {
                lemma_app_le_total(pre[p as int], x);
            }
            let post = pre.insert(p as int, x);
            assert forall|i: int, j: int|
                0 <= i < j < post.len() implies app_le(#[trigger] post[i], #[trigger] post[j]) by {
                if i < p {
                    assert(post[i] == pre[i]);
                } else if i == p {
                    assert(post[i] == x);
                } else {
                    assert(post[i] == pre[i - 1]);
                }
                if j < p {
                    assert(post[j] == pre[j]);
                } else if j == p {
                    assert(post[j] == x);
                } else {
                    assert(post[j] == pre[j - 1]);
                }
                if j == p {
                    // post[i] == pre[i] with i < p: ordered before x.
                } else if i == p {
                    // x against records that sat at or after the insertion point.
                    if p < j - 1 {
                        lemma_app_le_transitive(x, pre[p as int], pre[j - 1]);
                    }
                } else if i < p && j > p {
                    if p < j - 1 {
                        lemma_app_le_transitive(pre[i], pre[p as int], pre[j - 1]);
                    }
                }
            }
            vstd::seq_lib::to_multiset_insert::<Application>(pre, p as int, x);
            assert(post.to_multiset() == pre.to_multiset().insert(x));
            assert(v@.take(k + 1) =~= v@.take(k as int).push(v@[k as int]));
            vstd::seq_lib::to_multiset_build::<Application>(v@.take(k as int), v@[k as int]);
            assert(v@.take(k as int).push(v@[k as int]).to_multiset() == v@.take(
                k as int,
            ).to_multiset().insert(v@[k as int]));
        }
        out.insert(p, x);
        k = k + 1;
    }
    proof {
        assert(v@.take(n as int) =~= v@);
    }
    *v = out;
}

/// The record store over the logical application table. It owns the schema
/// lifecycle and the validated, uniqueness-preserving operations.
pub struct Database {
    migrations: Vec<MigrationRecord>,
    apps: Vec<Application>,
}

impl View for Database {
    type V = StoreModel;

    closed spec fn view(&self) -> StoreModel {
        StoreModel { migrations: self.migrations@, apps: self.apps@ }
    }
}

/// The first index holding the given id, scanning from the front.
fn find_index_by_id(apps: &Vec<Application>, id: &str) -> (r: Option<usize>)
    ensures
        match r {
            Some(i) => i < apps@.len() && apps@[i as int].id@ == id@,
            None => !has_app_id(apps@, id@),
        },
{
    let n = apps.len();
    let mut i: usize = 0;
    while i < n
        invariant
            n == apps@.len(),
            i <= n,
            forall|j: int| 0 <= j < i ==> #[trigger] apps@[j].id@ != id@,
        decreases n - i,
    {
        if str_eq(apps[i].id.as_str(), id) {
            return Some(i);
        }
        i = i + 1;
    }
    None
}

/// The first index holding the given name, scanning from the front.
fn find_index_by_name(apps: &Vec<Application>, name: &str) -> (r: Option<usize>)
    ensures
        match r {
            Some(i) => i < apps@.len() && apps@[i as int].name@ == name@,
            None => !has_app_name(apps@, name@),
        },
{
    let n = apps.len();
    let mut i: usize = 0;
    while i < n
        invariant
            n == apps@.len(),
            i <= n,
            forall|j: int| 0 <= j < i ==> #[trigger] apps@[j].name@ != name@,
        decreases n - i,
    {
        if str_eq(apps[i].name.as_str(), name) {
            return Some(i);
        }
        i = i + 1;
    }
    None
}

impl Database {
    /// A store with nothing applied and no records.
    pub fn new() -> (r: Database)
        ensures
            r@.migrations.len() == 0,
            r@.apps.len() == 0,
            store_wf(r@),
    {
        Database { migrations: Vec::new(), apps: Vec::new() }
    }

    /// Ensures the schema is current by applying the initial migration at
    /// most once: the first call records it, every later call changes
    /// nothing, and no call fails.
    pub fn migrate(&mut self) -> (r: Result<(), DbError>)
        ensures
            r is Ok,
            migrate_post(old(self)@, final(self)@),
            migrated(final(self)@),
            store_wf(old(self)@) ==> store_wf(final(self)@),
    {
        let n = self.migrations.len();
        let mut i: usize = 0;
        while i < n
            invariant
                n == self@.migrations.len(),
                i <= n,
                forall|j: int| 0 <= j < i ==> #[trigger] self@.migrations[j].name@
                    != initial_migration_name(),
        decreases n - i,
        {
            if str_eq(self.migrations[i].name.as_str(), "001_initial_schema") {
                proof {
                    assert(has_migration(self@.migrations, initial_migration_name())) by {
                        assert(self@.migrations[i as int].name@ == initial_migration_name());
                    }
                }
                return Ok(());
            }
            i = i + 1;
        }
        let record = MigrationRecord {
            name: String::from_str("001_initial_schema"),
            applied_at: now_millis(),
        };
        self.migrations.push(record);
        proof {
            assert(self@.migrations[self@.migrations.len() - 1].name@ == initial_migration_name());
            assert(self@.migrations.take(old(self)@.migrations.len() as int) =~= old(
                self,
            )@.migrations);
            assert(self@.apps == old(self)@.apps);
            if store_wf(old(self)@) {
                assert(store_wf(self@));
            }
        }
        Ok(())
    }

    /// Creates a new application: validates the name, rejects a taken name,
    /// generates the id and timestamp, and appends the persisted record,
    /// which is returned. Only a collision of the generated id — odds
    /// treated as zero, but guarded nonetheless — yields a storage error.
    pub fn create(&mut self, name: &str) -> (r: Result<Application, DbError>)
        requires
            store_wf(old(self)@),
            migrated(old(self)@),
        ensures
            store_wf(final(self)@),
            migrated(final(self)@),
            create_post(old(self)@, final(self)@, name@, r),
    {
        if let Err(e) = validate_app_name(name) {
            return Err(e);
        }
        if find_index_by_name(&self.apps, name).is_some() {
            return Err(DbError::DuplicateName(String::from_str(name)));
        }
        let id = fresh_id();
        if let Some(i) = find_index_by_id(&self.apps, id.as_str()) {
            proof {
                assert(old(self)@.apps[i as int].id@.len() == 36);
            }
            return Err(
                DbError::DatabaseError(
                    String::from_str("UNIQUE constraint failed: applications.id"),
                ),
            );
        }
        let created_at = now_millis();
        let app = Application { id, name: String::from_str(name), created_at };
        self.apps.push(app.duplicate());
        proof {
            let pre = old(self)@.apps;
            let post = self@.apps;
            assert(post == pre.push(app));
            assert forall|i: int, j: int|
                0 <= i < j < post.len() implies #[trigger] post[i].id@ != #[trigger] post[j].id@ by {
                if j == post.len() - 1 {
                    assert(!has_app_id(pre, app.id@));
                    assert(pre[i].id@ != app.id@);
                }
            }
            assert forall|i: int, j: int|
                0 <= i < j < post.len() implies #[trigger] post[i].name@
                != #[trigger] post[j].name@ by {
                if j == post.len() - 1 {
                    assert(!has_app_name(pre, app.name@));
                    assert(pre[i].name@ != app.name@);
                }
            }
            assert forall|i: int| 0 <= i < post.len() implies valid_app_name(
                #[trigger] post[i].name@,
            ) by {
                if i == post.len() - 1 {
                    assert(app.name@ == name@);
                }
            }
        }
        Ok(app)
    }

    /// Looks a record up by id; absence is a value, not an error.
    pub fn get(&self, id: &str) -> (r: Result<Option<Application>, DbError>)
        requires
            store_wf(self@),
            migrated(self@),
        ensures
            get_post(self@, id@, r),
    {
        match find_index_by_id(&self.apps, id) {
            Some(i) => {
                let app = self.apps[i].duplicate();
                proof {
                    assert(has_app_id(self@.apps, id@)) by {
                        assert(self@.apps[i as int].id@ == id@);
                    }
                    assert(self@.apps[i as int] == app);
                }
                Ok(Some(app))
            },
            None => Ok(None),
        }
    }

    /// Looks a record up by name; absence is a value, not an error.
    pub fn get_by_name(&self, name: &str) -> (r: Result<Option<Application>, DbError>)
        requires
            store_wf(self@),
            migrated(self@),
        ensures
            get_by_name_post(self@, name@, r),
    {
        match find_index_by_name(&self.apps, name) {
            Some(i) => {
                let app = self.apps[i].duplicate();
                proof {
                    assert(has_app_name(self@.apps, name@)) by {
                        assert(self@.apps[i as int].name@ == name@);
                    }
                    assert(self@.apps[i as int] == app);
                }
                Ok(Some(app))
            },
            None => Ok(None),
        }
    }

    /// Lists all records in the listing order: creation time descending,
    /// names ascending among equal timestamps. The result holds exactly
    /// the records of the table.
    pub fn list(&self) -> (r: Result<Vec<Application>, DbError>)
        requires
            store_wf(self@),
            migrated(self@),
        ensures
            list_post(self@, r),
    {
        let n = self.apps.len();
        let mut out: Vec<Application> = Vec::new();
        let mut i: usize = 0;
        while i < n
            invariant
                n == self@.apps.len(),
                i <= n,
                out@ == self@.apps.take(i as int),
            decreases n - i,
        {
            let app = self.apps[i].duplicate();
            out.push(app);
            proof {
                assert(out@ =~= self@.apps.take(i + 1));
            }
            i = i + 1;
        }
        proof {
            assert(self@.apps.take(n as int) =~= self@.apps);
        }
        sort_applications(&mut out);
        Ok(out)
    }

    /// Removes the record with the given id if present, reporting whether a
    /// record was actually removed; a missing id is not an error.
    pub fn delete(&mut self, id: &str) -> (r: Result<bool, DbError>)
        requires
            store_wf(old(self)@),
            migrated(old(self)@),
        ensures
            store_wf(final(self)@),
            migrated(final(self)@),
            delete_post(old(self)@, final(self)@, id@, r),
    {
        match find_index_by_id(&self.apps, id) {
            Some(i) => {
                self.apps.remove(i);
                proof {
                    let pre = old(self)@.apps;
                    let post = self@.apps;
                    assert(pre[i as int].id@ == id@);
                    assert(post == pre.remove(i as int));
                    assert forall|x: int, y: int|
                        0 <= x < y < post.len() implies #[trigger] post[x].id@
                        != #[trigger] post[y].id@ by {
                        lemma_remove_preserves_distinct_ids(pre, i as int, x, y);
                    }
                    assert forall|x: int, y: int|
                        0 <= x < y < post.len() implies #[trigger] post[x].name@
                        != #[trigger] post[y].name@ by {
                        lemma_remove_preserves_distinct_names(pre, i as int, x, y);
                    }
                    assert forall|x: int| 0 <= x < post.len() implies valid_app_name(
                        #[trigger] post[x].name@,
                    ) by {
                        if x < i {
                            assert(post[x] == pre[x]);
                        } else {
                            assert(post[x] == pre[x + 1]);
                        }
                    }
                }
                Ok(true)
            },
            None => Ok(false),
        }
    }
}

/// After removing one record, ids at two remaining positions still differ.
proof fn lemma_remove_preserves_distinct_ids(pre: Seq<Application>, i: int, x: int, y: int)
    requires
        0 <= i < pre.len(),
        forall|a: int, b: int|
            0 <= a < b < pre.len() ==> #[trigger] pre[a].id@ != #[trigger] pre[b].id@,
        0 <= x < y < pre.remove(i).len(),
    ensures
        pre.remove(i)[x].id@ != pre.remove(i)[y].id@,
{
    let post = pre.remove(i);
    let xo: int = if x < i { x } else { x + 1 };
    let yo: int = if y < i { y } else { y + 1 };
    assert(post[x] == pre[xo]);
    assert(post[y] == pre[yo]);
    assert(pre[xo].id@ != pre[yo].id@);
}

/// After removing one record, names at two remaining positions still differ.
proof fn lemma_remove_preserves_distinct_names(pre: Seq<Application>, i: int, x: int, y: int)
    requires
        0 <= i < pre.len(),
        forall|a: int, b: int|
            0 <= a < b < pre.len() ==> #[trigger] pre[a].name@ != #[trigger] pre[b].name@,
        0 <= x < y < pre.remove(i).len(),
    ensures
        pre.remove(i)[x].name@ != pre.remove(i)[y].name@,
{
    let post = pre.remove(i);
    let xo: int = if x < i { x } else { x + 1 };
    let yo: int = if y < i { y } else { y + 1 };
    assert(post[x] == pre[xo]);
    assert(post[y] == pre[yo]);
    assert(pre[xo].name@ != pre[yo].name@);
}

} // verus!
