//! The store's cross-operation guarantees, stated and proved over the
//! transition contracts of its operations.

use vstd::prelude::*;

use crate::error::DbError;
use crate::models::Application;
use crate::store::{app_le, apps_sorted, create_post, delete_post, get_by_name_post, get_post,
    has_app_id, has_app_name, initial_migration_name, migrate_post, migrated, store_wf,
    StoreModel};
use crate::text::lemma_lex_lt_asymmetric;
use crate::validation::{lemma_valid_iff_no_rejection, valid_app_name};

verus! {

/// Two records ordered both ways carry the same name.
proof fn lemma_app_le_antisymmetric_names(a: Application, b: Application)
    requires
        app_le(a, b),
        app_le(b, a),
    ensures
        a.name@ == b.name@,
{
    if a.name@ != b.name@ {
        lemma_lex_lt_asymmetric(a.name@, b.name@);
    }
}

/// The listing order is deterministic: with all names distinct, a
/// collection of records admits exactly one sorted arrangement, so the
/// contract of `list` pins its output completely.
pub proof fn lemma_listing_deterministic(s1: Seq<Application>, s2: Seq<Application>)
    requires
        apps_sorted(s1),
        apps_sorted(s2),
        s1.to_multiset() == s2.to_multiset(),
        forall|i: int, j: int|
            0 <= i < j < s1.len() ==> #[trigger] s1[i].name@ != #[trigger] s1[j].name@,
    ensures
        s1 == s2,
    decreases s1.len(),
{
    broadcast use vstd::seq_lib::group_to_multiset_ensures;

    assert(s1.len() == s2.len()) by {
        assert(s1.len() == s1.to_multiset().len());
        assert(s2.len() == s2.to_multiset().len());
    }
    if s1.len() == 0 {
        assert(s1 =~= s2);
    } else {
        // each head occurs in the other sequence
        assert(s2.contains(s2[0]));
        assert(s1.to_multiset().count(s2[0]) > 0);
        assert(s1.contains(s2[0]));
        let j = choose|j: int| 0 <= j < s1.len() && s1[j] == s2[0];
        assert(s1.contains(s1[0]));
        assert(s2.to_multiset().count(s1[0]) > 0);
        assert(s2.contains(s1[0]));
        let k = choose|k: int| 0 <= k < s2.len() && s2[k] == s1[0];
        // the heads are ordered both ways, so they carry one name
        assert(app_le(s1[0], s2[0])) by {
            if j > 0 {
                assert(app_le(s1[0], s1[j]));
            }
        }
        assert(app_le(s2[0], s1[0])) by {
            if k > 0 {
                assert(app_le(s2[0], s2[k]));
            }
        }
        lemma_app_le_antisymmetric_names(s1[0], s2[0]);
        // with distinct names, one name means one record
        assert(s1[j].name@ == s1[0].name@);
        assert(j == 0);
        assert(s1[0] == s2[0]);
        // the tails agree by induction
        let t1 = s1.drop_first();
        let t2 = s2.drop_first();
        assert(t1 =~= s1.remove(0));
        assert(t2 =~= s2.remove(0));
        assert(t1.to_multiset() == s1.to_multiset().remove(s1[0])) by {
            assert(s1.remove(0).to_multiset() == s1.to_multiset().remove(s1[0]));
        }
        assert(t2.to_multiset() == s2.to_multiset().remove(s2[0])) by {
            assert(s2.remove(0).to_multiset() == s2.to_multiset().remove(s2[0]));
        }
        assert(t1.to_multiset() == t2.to_multiset());
        assert(apps_sorted(t1)) by {
            assert(forall|x: int, y: int|
                0 <= x < y < t1.len() ==> app_le(#[trigger] t1[x], #[trigger] t1[y]) && t1[x]
                    == s1[x + 1] && t1[y] == s1[y + 1]);
        }
        assert(apps_sorted(t2)) by {
            assert(forall|x: int, y: int|
                0 <= x < y < t2.len() ==> app_le(#[trigger] t2[x], #[trigger] t2[y]) && t2[x]
                    == s2[x + 1] && t2[y] == s2[y + 1]);
        }
        assert(forall|x: int, y: int|
            0 <= x < y < t1.len() ==> #[trigger] t1[x].name@ != #[trigger] t1[y].name@) by {
            assert(forall|x: int, y: int|
                0 <= x < y < t1.len() ==> t1[x] == s1[x + 1] && t1[y] == s1[y + 1] && #[trigger] t1[
                    x
                ].name@ == s1[x + 1].name@ && #[trigger] t1[y].name@ == s1[y + 1].name@);
        }
        lemma_listing_deterministic(t1, t2);
        assert(s1 =~= s2) by {
            assert(forall|i: int|
                1 <= i < s1.len() ==> #[trigger] s1[i] == t1[i - 1] && #[trigger] s2[i] == t2[i
                    - 1]);
        }
    }
}

/// A record just created is returned, unchanged, both by a lookup of its
/// id and by a lookup of its name.
pub proof fn lemma_create_round_trip(
    pre: StoreModel,
    post: StoreModel,
    name: Seq<char>,
    app: Application,
    r_id: Result<Option<Application>, DbError>,
    r_name: Result<Option<Application>, DbError>,
)
    requires
        store_wf(pre),
        create_post(pre, post, name, Ok(app)),
        get_post(post, app.id@, r_id),
        get_by_name_post(post, name, r_name),
    ensures
        r_id == Ok::<Option<Application>, DbError>(Some(app)),
        r_name == Ok::<Option<Application>, DbError>(Some(app)),
{
    let apps = post.apps;
    let n = apps.len() as int;
    assert(apps[n - 1] == app);
    assert(has_app_id(apps, app.id@)) by {
        assert(apps[n - 1].id@ == app.id@);
    }
    assert(has_app_name(apps, name)) by {
        assert(apps[n - 1].name@ == name);
    }
    match r_id {
        Ok(Some(a)) => {
            let i = choose|i: int| 0 <= i < apps.len() && apps[i] == a;
            if i < n - 1 {
                assert(pre.apps[i] == apps[i]);
                assert(pre.apps[i].id@ != app.id@);
                assert(false);
            }
            assert(a == app);
        },
        Ok(None) => {
            assert(false);
        },
        Err(_) => {
            assert(false);
        },
    }
    match r_name {
        Ok(Some(a)) => {
            let i = choose|i: int| 0 <= i < apps.len() && apps[i] == a;
            if i < n - 1 {
                assert(pre.apps[i] == apps[i]);
                assert(pre.apps[i].name@ != name);
                assert(false);
            }
            assert(a == app);
        },
        Ok(None) => {
            assert(false);
        },
        Err(_) => {
            assert(false);
        },
    }
}

/// After `k` serialized create calls of one valid, initially fresh name,
/// the name is taken.
proof fn lemma_race_name_taken(
    states: Seq<StoreModel>,
    results: Seq<Result<Application, DbError>>,
    name: Seq<char>,
    k: int,
)
    requires
        states.len() == results.len() + 1,
        valid_app_name(name),
        !has_app_name(states[0].apps, name),
        forall|j: int|
            0 <= j < results.len() ==> create_post(#[trigger] states[j], states[j + 1], name, results[j]),
        forall|j: int|
            0 <= j < results.len() ==> !(#[trigger] results[j] matches Err(
                DbError::DatabaseError(_),
            )),
        1 <= k <= results.len(),
    ensures
        has_app_name(states[k].apps, name),
    decreases k,
{
    lemma_valid_iff_no_rejection(name);
    if k == 1 {
        assert(create_post(states[0], states[1], name, results[0]));
        match results[0] {
            Ok(app) => {
                let apps = states[1].apps;
                assert(apps[apps.len() - 1] == app);
                assert(has_app_name(apps, name)) by {
                    assert(apps[apps.len() - 1].name@ == name);
                }
            },
            Err(e) => {
                match e {
                    DbError::InvalidName(_) => {
                        assert(false);
                    },
                    DbError::DuplicateName(_) => {
                        assert(false);
                    },
                    DbError::DatabaseError(_) => {
                        assert(!(results[0] matches Err(DbError::DatabaseError(_))));
                        assert(false);
                    },
                    _ => {
                        assert(false);
                    },
                }
            },
        }
    } else {
        lemma_race_name_taken(states, results, name, k - 1);
        assert(create_post(states[k - 1], states[k], name, results[k - 1]));
        match results[k - 1] {
            Ok(_) => {
                assert(false);
            },
            Err(_) => {
                assert(states[k] == states[k - 1]);
            },
        }
    }
}

/// Serialized concurrent creates of one valid, initially fresh name: the
/// first call succeeds and every later call is refused as a duplicate of
/// that very name — exactly one success, however many callers raced.
/// Storage faults (for this store, a collision of the generated random
/// id) are assumed away, as the odds say.
pub proof fn lemma_unique_under_race(
    states: Seq<StoreModel>,
    results: Seq<Result<Application, DbError>>,
    name: Seq<char>,
)
    requires
        states.len() == results.len() + 1,
        results.len() >= 1,
        valid_app_name(name),
        !has_app_name(states[0].apps, name),
        forall|j: int|
            0 <= j < results.len() ==> create_post(#[trigger] states[j], states[j + 1], name, results[j]),
        forall|j: int|
            0 <= j < results.len() ==> !(#[trigger] results[j] matches Err(
                DbError::DatabaseError(_),
            )),
    ensures
        results[0] is Ok,
        forall|k: int|
            1 <= k < results.len() ==> (#[trigger] results[k] matches Err(DbError::DuplicateName(
                m,
            )) && m@ == name),
{
    lemma_valid_iff_no_rejection(name);
    assert(create_post(states[0], states[1], name, results[0]));
    match results[0] {
        Ok(_) => {
        },
        Err(e) => {
            match e {
                DbError::DatabaseError(_) => {
                    assert(!(results[0] matches Err(DbError::DatabaseError(_))));
                    assert(false);
                },
                _ => {
                    assert(false);
                },
            }
        },
    }
    assert forall|k: int|
        1 <= k < results.len() implies (#[trigger] results[k] matches Err(DbError::DuplicateName(
        m,
    )) && m@ == name) by {
        lemma_race_name_taken(states, results, name, k);
        assert(create_post(states[k], states[k + 1], name, results[k]));
        match results[k] {
            Ok(_) => {
                assert(false);
            },
            Err(e) => {
                match e {
                    DbError::InvalidName(_) => {
                        assert(false);
                    },
                    DbError::DuplicateName(_) => {
                    },
                    DbError::DatabaseError(_) => {
                        assert(!(results[k] matches Err(DbError::DatabaseError(_))));
                        assert(false);
                    },
                    _ => {
                        assert(false);
                    },
                }
            },
        }
    }
}

/// Bootstrap is idempotent: a second run, from any state a first run
/// produced, changes nothing.
pub proof fn lemma_bootstrap_idempotent(s0: StoreModel, s1: StoreModel, s2: StoreModel)
    requires
        migrate_post(s0, s1),
        migrate_post(s1, s2),
    ensures
        s2 == s1,
{
    if !migrated(s0) {
        let n = s1.migrations.len() as int;
        assert(migrated(s1)) by {
            assert(s1.migrations[n - 1].name@ == initial_migration_name());
        }
    }
    assert(migrated(s1));
    assert(s2.migrations == s1.migrations && s2.apps == s1.apps);
}

/// However often bootstrap runs in sequence, every state after the first
/// run equals the state the first run produced, and none of the runs has
/// touched the table.
pub proof fn lemma_bootstrap_idempotent_chain(states: Seq<StoreModel>, k: int)
    requires
        states.len() >= 2,
        forall|j: int|
            0 <= j < states.len() - 1 ==> migrate_post(#[trigger] states[j], states[j + 1]),
        1 <= k < states.len(),
    ensures
        states[k] == states[1],
        states[k].apps == states[0].apps,
    decreases k,
{
    if k >= 2 {
        lemma_bootstrap_idempotent_chain(states, k - 1);
        lemma_bootstrap_idempotent(states[k - 2], states[k - 1], states[k]);
        assert(states[k - 1] == states[1]);
    }
}

/// Deleting an existing id removes exactly that record: a subsequent
/// lookup of the id reports absence.
pub proof fn lemma_delete_then_get(
    pre: StoreModel,
    post: StoreModel,
    id: Seq<char>,
    r_get: Result<Option<Application>, DbError>,
)
    requires
        store_wf(pre),
        delete_post(pre, post, id, Ok(true)),
        get_post(post, id, r_get),
    ensures
        r_get == Ok::<Option<Application>, DbError>(None),
{
    let i = choose|i: int|
        0 <= i < pre.apps.len() && #[trigger] pre.apps[i].id@ == id && post.apps == pre.apps.remove(
            i,
        );
    assert(!has_app_id(post.apps, id)) by {
        if has_app_id(post.apps, id) {
            let j = choose|j: int| 0 <= j < post.apps.len() && #[trigger] post.apps[j].id@ == id;
            let jo: int = if j < i {
                j
            } else {
                j + 1
            };
            assert(post.apps[j] == pre.apps[jo]);
            assert(pre.apps[jo].id@ == id);
            assert(jo != i);
            assert(false);
        }
    }
    match r_get {
        Ok(Some(_)) => {
            assert(false);
        },
        Ok(None) => {
        },
        Err(_) => {
            assert(false);
        },
    }
}

} // verus!
