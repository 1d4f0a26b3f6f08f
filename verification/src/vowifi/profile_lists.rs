//! Which profiles are published, and for whom.

use crate::vowifi::profile_store;
use crate::vowifi::profile_store::{Checked, Listed, Matched, ProfileOrigin, ResolvedProfile, Row};
use vstd::prelude::*;

verus! {

/// A profile stands under its id in a list that it was put into, in place of what stood there,
/// and every other id keeps its profile.
pub proof fn law_listed_profile_is_found(list: Seq<Listed>, p: Listed, id: Seq<char>)
    ensures
        profile_store::found(profile_store::with_profile(list, p), p.id) == Some(p),
        id != p.id ==> profile_store::found(profile_store::with_profile(list, p), id)
            == profile_store::found(list, id),
{
    let after = profile_store::with_profile(list, p);
    lemma_index(list, p.id, 0);
    lemma_index(list, id, 0);
    lemma_index(after, p.id, 0);
    lemma_index(after, id, 0);
    lemma_place(list, p.id, 0);
    let at = profile_store::index_from(list, p.id, 0);
    let place = profile_store::place_from(list, p.id, 0);
    let before = profile_store::index_from(list, id, 0);
    match at {
        Some(i) => {
            assert(after[i] == p);
            assert forall|j: int| 0 <= j < list.len() && j != i implies after[j] == list[j] by {}
            if id != p.id {
                if before is Some {
                    assert(after[before->0].id == id);
                }
                let now = profile_store::index_from(after, id, 0);
                if now is Some {
                    assert(list[now->0].id == id);
                }
            }
        },
        None => {
            assert(after[place] == p);
            assert forall|j: int| 0 <= j < place implies after[j] == list[j] by {}
            assert forall|j: int| place < j < after.len() implies after[j] == list[j - 1] by {}
            let own = profile_store::index_from(after, p.id, 0);
            if own is Some && own->0 != place {
                let k = own->0;
                if k < place {
                    assert(list[k].id == p.id);
                } else {
                    assert(list[k - 1].id == p.id);
                }
            }
            if id != p.id {
                let now = profile_store::index_from(after, id, 0);
                if before is Some {
                    let b = before->0;
                    if b < place {
                        assert(after[b].id == id);
                    } else {
                        assert(after[b + 1].id == id);
                    }
                }
                if now is Some {
                    let k = now->0;
                    if k < place {
                        assert(list[k].id == id);
                    } else {
                        assert(list[k - 1].id == id);
                    }
                    let b = before->0;
                    if b < place {
                        assert(after[b].id == id);
                        assert(k == b);
                    } else {
                        assert(after[b + 1].id == id);
                        if k < place {
                            assert(list[k].id == id);
                        } else {
                            assert(list[k - 1].id == id);
                            assert(k == b + 1);
                        }
                    }
                }
            }
        },
    }
}

proof fn lemma_index(list: Seq<Listed>, id: Seq<char>, i: int)
    requires
        0 <= i <= list.len(),
    ensures
        match profile_store::index_from(list, id, i) {
            Some(k) => i <= k < list.len() && list[k].id == id && forall|j: int|
                i <= j < k ==> (#[trigger] list[j]).id != id,
            None => forall|j: int| i <= j < list.len() ==> (#[trigger] list[j]).id != id,
        },
    decreases list.len() - i,
{
    if i < list.len() && list[i].id != id {
        lemma_index(list, id, i + 1);
    }
}

proof fn lemma_place(list: Seq<Listed>, id: Seq<char>, i: int)
    requires
        0 <= i <= list.len(),
    ensures
        i <= profile_store::place_from(list, id, i) <= list.len(),
    decreases list.len() - i,
{
    if i < list.len() {
        lemma_place(list, id, i + 1);
    }
}

proof fn lemma_error(list: Seq<Checked>, i: int)
    requires
        0 <= i <= list.len(),
    ensures
        match profile_store::first_error(list, i) {
            Some(e) => exists|k: int|
                i <= k < list.len() && (#[trigger] list[k]).error == Some(e) && forall|j: int|
                    i <= j < k ==> (#[trigger] list[j]).error is None,
            None => forall|j: int| i <= j < list.len() ==> (#[trigger] list[j]).error is None,
        },
    decreases list.len() - i,
{
    if i < list.len() && list[i].error is None {
        lemma_error(list, i + 1);
    }
}

/// A catalog is published only where nothing is wrong with any of its profiles; otherwise the
/// first thing that is wrong is told.
pub proof fn law_faulty_catalog_is_not_published(
    catalog: Seq<Checked>,
    matches: Seq<Matched>,
    local: Seq<Checked>,
    ambiguous: Seq<Seq<char>>,
)
    ensures
        ({
            let r = profile_store::published(catalog, matches, local, ambiguous);
            &&& r is Ok <==> forall|i: int|
                0 <= i < catalog.len() ==> (#[trigger] catalog[i]).error is None
            &&& r is Err ==> exists|k: int|
                0 <= k < catalog.len() && (#[trigger] catalog[k]).error == Some(r->Err_0)
                    && forall|j: int| 0 <= j < k ==> (#[trigger] catalog[j]).error is None
            &&& r is Ok ==> r->Ok_0.ambiguous == ambiguous
        }),
{
    lemma_error(catalog, 0);
}

proof fn lemma_valid(list: Seq<Checked>, n: int, p: Listed)
    requires
        0 <= n <= list.len(),
    ensures
        profile_store::valid_upto(list, n).contains(p) <==> exists|i: int|
            0 <= i < n && (#[trigger] list[i]).profile == p && list[i].error is None,
    decreases n,
{
    if n > 0 {
        lemma_valid(list, n - 1, p);
        let before = profile_store::valid_upto(list, n - 1);
        let now = profile_store::valid_upto(list, n);
        if before.contains(p) {
            let i = choose|i: int| 0 <= i < before.len() && before[i] == p;
            assert(now[i] == p);
        }
        if list[n - 1].error is None {
            assert(now[before.len() as int] == list[n - 1].profile);
        }
        if now.contains(p) {
            let i = choose|i: int| 0 <= i < now.len() && now[i] == p;
            if i < before.len() {
                assert(before[i] == p);
            } else {
                assert(list[n - 1].profile == p);
            }
        }
        if exists|i: int| 0 <= i < n && (#[trigger] list[i]).profile == p && list[i].error is None {
            let i = choose|i: int|
                0 <= i < n && (#[trigger] list[i]).profile == p && list[i].error is None;
            if i < n - 1 {
                assert(before.contains(p));
            }
        }
    }
}

proof fn lemma_kept(
    catalog: Seq<Listed>,
    local: Seq<Listed>,
    matches: Seq<Matched>,
    n: int,
    k: int,
)
    requires
        0 <= n <= matches.len(),
    ensures
        0 <= k < n ==> {
            let m = profile_store::catalog_match(catalog, matches[k]);
            !profile_store::has_id(local, m.profile.id) && !profile_store::has_plmn(
                local,
                m.profile.plmn,
            ) ==> profile_store::kept_matches(catalog, local, matches, n).contains(m)
        },
        forall|i: int|
            0 <= i < profile_store::kept_matches(catalog, local, matches, n).len() ==> {
                let m = #[trigger] profile_store::kept_matches(catalog, local, matches, n)[i];
                !profile_store::has_id(local, m.profile.id) && !profile_store::has_plmn(
                    local,
                    m.profile.plmn,
                )
            },
    decreases n,
{
    if n > 0 {
        lemma_kept(catalog, local, matches, n - 1, k);
        let before = profile_store::kept_matches(catalog, local, matches, n - 1);
        let now = profile_store::kept_matches(catalog, local, matches, n);
        assert forall|i: int| 0 <= i < now.len() implies {
            let m = #[trigger] now[i];
            !profile_store::has_id(local, m.profile.id) && !profile_store::has_plmn(
                local,
                m.profile.plmn,
            )
        } by {
            if i < before.len() {
                assert(now[i] == before[i]);
            }
        }
        if 0 <= k < n {
            let m = profile_store::catalog_match(catalog, matches[k]);
            if !profile_store::has_id(local, m.profile.id) && !profile_store::has_plmn(
                local,
                m.profile.plmn,
            ) {
                if k < n - 1 {
                    let i = choose|i: int| 0 <= i < before.len() && before[i] == m;
                    assert(now[i] == m);
                } else {
                    assert(now[before.len() as int] == m);
                }
            }
        }
    }
}

/// Every usable profile of the database is published for its own network, and none that is not
/// usable; a match of the catalog stays just where no profile of the database has its id or its
/// network.
pub proof fn law_own_profiles_stand_against_the_catalog(
    catalog: Seq<Checked>,
    matches: Seq<Matched>,
    local: Seq<Checked>,
    ambiguous: Seq<Seq<char>>,
    k: int,
)
    requires
        profile_store::published(catalog, matches, local, ambiguous) is Ok,
    ensures
        ({
            let r = profile_store::published(catalog, matches, local, ambiguous)->Ok_0;
            &&& 0 <= k < local.len() && local[k].error is None ==> r.matches.contains(
                Matched { prefix: local[k].profile.plmn, profile: local[k].profile },
            )
            &&& forall|i: int|
                0 <= i < r.matches.len() ==> {
                    let m = #[trigger] r.matches[i];
                    ||| usable(local, m.profile) && m.prefix == m.profile.plmn
                    ||| !shadowed(local, m.profile)
                }
        }),
{
    let own = profile_store::valid_upto(local, local.len() as int);
    let listed = profile_store::with_profiles(
        seq![],
        profile_store::profiles_in(catalog),
        catalog.len() as int,
    );
    let r = profile_store::published(catalog, matches, local, ambiguous)->Ok_0;
    let first = profile_store::local_matches(own);
    let rest = profile_store::kept_matches(listed, own, matches, matches.len() as int);
    if 0 <= k < local.len() && local[k].error is None {
        let p = local[k].profile;
        lemma_valid(local, local.len() as int, p);
        assert(own.contains(p));
        let i = choose|i: int| 0 <= i < own.len() && own[i] == p;
        assert(first[i] == Matched { prefix: p.plmn, profile: p });
        assert(r.matches[i] == first[i]);
    }
    assert forall|i: int| 0 <= i < r.matches.len() implies {
        let m = #[trigger] r.matches[i];
        ||| usable(local, m.profile) && m.prefix == m.profile.plmn
        ||| !shadowed(local, m.profile)
    } by {
        let m = r.matches[i];
        if i < first.len() {
            assert(m == first[i]);
            lemma_valid(local, local.len() as int, own[i]);
            assert(own.contains(own[i]));
        } else {
            assert(m == rest[i - first.len()]);
            lemma_kept(listed, own, matches, matches.len() as int, 0);
            if shadowed(local, m.profile) {
                let j = choose|j: int|
                    0 <= j < local.len() && (#[trigger] local[j]).error is None && (
                    local[j].profile.id == m.profile.id || local[j].profile.plmn == m.profile.plmn);
                let p = local[j].profile;
                lemma_valid(local, local.len() as int, p);
                assert(own.contains(p));
                let x = choose|x: int| 0 <= x < own.len() && own[x] == p;
                assert(own[x].id == m.profile.id || own[x].plmn == m.profile.plmn);
            }
        }
    }
}

/// One of the rows is this profile, with nothing wrong in it.
pub open spec fn usable(local: Seq<Checked>, p: Listed) -> bool {
    exists|i: int| 0 <= i < local.len() && (#[trigger] local[i]).profile == p && local[i].error
        is None
}

/// A usable row has the id or the network of this profile.
pub open spec fn shadowed(local: Seq<Checked>, p: Listed) -> bool {
    exists|i: int|
        0 <= i < local.len() && (#[trigger] local[i]).error is None && (local[i].profile.id == p.id
            || local[i].profile.plmn == p.plmn)
}

/// A network is served from the database where its row can be read and used over Wi-Fi, and
/// else from the catalog; without either it is not served.
pub proof fn law_database_serves_a_network_first(row: Row, catalog: Option<u64>)
    ensures
        ({
            let good = row.unreadable is None && row.wifi_error is None;
            let r = profile_store::resolved_by_plmn(Some(row), catalog);
            &&& good ==> r == Some(
                ResolvedProfile { profile: row.profile, origin: ProfileOrigin::Database },
            )
            &&& !good ==> r == profile_store::resolved_by_plmn(None, catalog)
        }),
        match catalog {
            Some(profile) => profile_store::resolved_by_plmn(None, catalog) == Some(
                ResolvedProfile { profile, origin: ProfileOrigin::Catalog },
            ),
            None => profile_store::resolved_by_plmn(None, catalog) is None,
        },
{
}

} // verus!
