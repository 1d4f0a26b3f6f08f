//! Which carrier profile a line gets.

use crate::text;
use crate::vowifi::profile_store;
use crate::vowifi::profile_store::{CatalogAccessKind, Facts, ProfileOrigin, ResolvedProfile, Row};
use vstd::prelude::*;

verus! {

/// Is `plmn` the home network of an identity: five or six digits that the identity begins
/// with?
pub open spec fn is_home(imsi: Seq<char>, plmn: Seq<char>) -> bool {
    let digits = text::trim(imsi);
    &&& plmn.len() == 5 || plmn.len() == 6
    &&& forall|i: int| 0 <= i < plmn.len() ==> '0' <= (#[trigger] plmn[i]) <= '9'
    &&& digits.len() >= plmn.len()
    &&& forall|i: int| 0 <= i < plmn.len() ==> digits[i] == #[trigger] plmn[i]
}

/// The home network of a line, where the one that is known is that of its identity.
pub open spec fn known_home(imsi: Seq<char>, home: Option<Seq<char>>) -> Option<Seq<char>> {
    match home {
        Some(value) => if is_home(imsi, text::trim(value)) {
            Some(text::trim(value))
        } else {
            None
        },
        None => None,
    }
}

/// Is a row for a line: it can be read, nothing is wrong with it for the access, and its
/// network is the home network or, where that is not known, what the identity begins with?
pub open spec fn is_for(
    r: Row,
    imsi: Seq<char>,
    home: Option<Seq<char>>,
    access: CatalogAccessKind,
) -> bool {
    let digits = text::trim(imsi);
    &&& r.unreadable is None
    &&& access is WifiEpdg ==> r.wifi_error is None
    &&& access is LteEpc ==> r.ims_error is None
    &&& match known_home(imsi, home) {
        Some(plmn) => r.record_plmn == plmn,
        None => r.record_plmn.len() <= digits.len() && forall|i: int|
            0 <= i < r.record_plmn.len() ==> digits[i] == #[trigger] r.record_plmn[i],
    }
}

proof fn lemma_home(imsi: Seq<char>, home: Option<Seq<char>>)
    ensures
        profile_store::home_of(text::trim(imsi), home) == known_home(imsi, home),
{
    match home {
        Some(value) => {
            let digits = text::trim(imsi);
            let plmn = text::trim(value);
            if is_home(imsi, plmn) {
                assert(digits.subrange(0, plmn.len() as int) =~= plmn);
                assert(text::all_digits(plmn));
            } else if profile_store::home_of(digits, home) is Some {
                assert forall|i: int| 0 <= i < plmn.len() implies digits[i] == #[trigger] plmn[i] by {
                    assert(digits.subrange(0, plmn.len() as int)[i] == plmn[i]);
                }
                assert forall|i: int| 0 <= i < plmn.len() implies '0' <= (#[trigger] plmn[i])
                    <= '9' by {
                    assert(text::digit(plmn[i]));
                }
            }
        },
        None => {},
    }
}

proof fn lemma_fits(r: Row, imsi: Seq<char>, home: Option<Seq<char>>, access: CatalogAccessKind)
    ensures
        profile_store::row_fits(r, text::trim(imsi), known_home(imsi, home), access) == is_for(
            r,
            imsi,
            home,
            access,
        ),
{
    let digits = text::trim(imsi);
    let plmn = r.record_plmn;
    if known_home(imsi, home) is None {
        if text::starts(digits, plmn) {
            assert forall|i: int| 0 <= i < plmn.len() implies digits[i] == #[trigger] plmn[i] by {
                assert(digits.subrange(0, plmn.len() as int)[i] == plmn[i]);
            }
        } else if plmn.len() <= digits.len() && forall|i: int|
            0 <= i < plmn.len() ==> digits[i] == #[trigger] plmn[i] {
            assert(digits.subrange(0, plmn.len() as int) =~= plmn);
        }
    }
}

proof fn lemma_best(
    rows: Seq<Row>,
    imsi: Seq<char>,
    home: Option<Seq<char>>,
    access: CatalogAccessKind,
    n: int,
)
    requires
        0 <= n <= rows.len(),
    ensures
        match profile_store::best_row(rows, text::trim(imsi), known_home(imsi, home), access, n) {
            Some(k) => {
                &&& 0 <= k < n
                &&& is_for(rows[k], imsi, home, access)
                &&& forall|j: int|
                    0 <= j < n && is_for(#[trigger] rows[j], imsi, home, access)
                        ==> rows[j].record_plmn.len() <= rows[k].record_plmn.len() && (
                    rows[j].record_plmn.len() == rows[k].record_plmn.len() ==> j <= k)
            },
            None => forall|j: int| 0 <= j < n ==> !is_for(#[trigger] rows[j], imsi, home, access),
        },
    decreases n,
{
    if n > 0 {
        lemma_best(rows, imsi, home, access, n - 1);
        lemma_fits(rows[n - 1], imsi, home, access);
    }
}

/// A line that is not pinned, and whose network is not in doubt, gets a profile of the
/// database just where a row is for it. Of several it is the one with the longest
/// network, and of those the last.
pub proof fn law_longest_network_wins(
    imsi: Seq<char>,
    home: Option<Seq<char>>,
    access: CatalogAccessKind,
    rows: Seq<Row>,
    facts: Option<Facts>,
    k: int,
)
    requires
        known_home(imsi, home) is Some || facts is None || facts->0.ambiguous == Ok::<
            bool,
            Seq<char>,
        >(false),
        0 <= k < rows.len(),
        is_for(rows[k], imsi, home, access),
        forall|j: int|
            0 <= j < rows.len() && is_for(#[trigger] rows[j], imsi, home, access)
                ==> rows[j].record_plmn.len() <= rows[k].record_plmn.len() && (
            rows[j].record_plmn.len() == rows[k].record_plmn.len() ==> j <= k),
    ensures
        profile_store::resolved_for(None, imsi, home, access, rows, facts) == Ok::<_, Seq<char>>(
            Some(ResolvedProfile { profile: rows[k].profile, origin: ProfileOrigin::Database }),
        ),
{
    lemma_home(imsi, home);
    lemma_best(rows, imsi, home, access, rows.len() as int);
}

/// Without a row for it, such a line gets what the catalog has for its identity, and
/// without a catalog nothing.
pub proof fn law_catalog_stands_behind_the_rows(
    imsi: Seq<char>,
    home: Option<Seq<char>>,
    access: CatalogAccessKind,
    rows: Seq<Row>,
    facts: Option<Facts>,
)
    requires
        known_home(imsi, home) is Some || facts is None || facts->0.ambiguous == Ok::<
            bool,
            Seq<char>,
        >(false),
        forall|j: int| 0 <= j < rows.len() ==> !is_for(#[trigger] rows[j], imsi, home, access),
    ensures
        ({
            let r = profile_store::resolved_for(None, imsi, home, access, rows, facts);
            match facts {
                None => r == Ok::<_, Seq<char>>(None::<ResolvedProfile>),
                Some(f) => match f.resolved {
                    Err(e) => r == Err::<Option<ResolvedProfile>, _>(e),
                    Ok(None) => r == Ok::<_, Seq<char>>(None::<ResolvedProfile>),
                    Ok(Some(profile)) => r == Ok::<_, Seq<char>>(
                        Some(ResolvedProfile { profile, origin: ProfileOrigin::Catalog }),
                    ),
                },
            }
        }),
{
    lemma_home(imsi, home);
    lemma_best(rows, imsi, home, access, rows.len() as int);
}

/// An identity that may be of several networks gets no profile, whatever rows there are,
/// unless its home network is known.
pub proof fn law_doubtful_identity_gets_nothing(
    imsi: Seq<char>,
    home: Option<Seq<char>>,
    access: CatalogAccessKind,
    rows: Seq<Row>,
    facts: Facts,
)
    requires
        known_home(imsi, home) is None,
    ensures
        facts.ambiguous == Ok::<bool, Seq<char>>(true) ==> profile_store::resolved_for(
            None,
            imsi,
            home,
            access,
            rows,
            Some(facts),
        ) == Ok::<_, Seq<char>>(None::<ResolvedProfile>),
        facts.ambiguous matches Err(e) ==> profile_store::resolved_for(
            None,
            imsi,
            home,
            access,
            rows,
            Some(facts),
        ) == Err::<Option<ResolvedProfile>, _>(e),
{
    lemma_home(imsi, home);
}

proof fn lemma_row(rows: Seq<Row>, id: Seq<char>, i: int, k: int)
    requires
        0 <= i <= k < rows.len(),
        rows[k].id == id,
        forall|j: int| 0 <= j < k ==> (#[trigger] rows[j]).id != id,
    ensures
        profile_store::row_from(rows, id, i) == Some(k),
    decreases k - i,
{
    if i < k {
        lemma_row(rows, id, i + 1, k);
    }
}

proof fn lemma_no_row(rows: Seq<Row>, id: Seq<char>, i: int)
    requires
        0 <= i <= rows.len(),
        forall|j: int| 0 <= j < rows.len() ==> (#[trigger] rows[j]).id != id,
    ensures
        profile_store::row_from(rows, id, i) is None,
    decreases rows.len() - i,
{
    if i < rows.len() {
        lemma_no_row(rows, id, i + 1);
    }
}

/// A line that is pinned gets the row under that id, where there is one: its profile, or
/// what is wrong with it for the access. The identity of the line has no say.
pub proof fn law_pinned_line_gets_its_row(
    pinned: Seq<char>,
    imsi: Seq<char>,
    home: Option<Seq<char>>,
    access: CatalogAccessKind,
    rows: Seq<Row>,
    facts: Option<Facts>,
    k: int,
)
    requires
        text::trim(pinned).len() > 0,
        0 <= k < rows.len(),
        rows[k].id == text::trim(pinned),
        forall|j: int| 0 <= j < k ==> (#[trigger] rows[j]).id != text::trim(pinned),
        rows[k].unreadable is None,
    ensures
        ({
            let r = profile_store::resolved_for(Some(pinned), imsi, home, access, rows, facts);
            let wrong = if access is WifiEpdg {
                rows[k].wifi_error
            } else {
                rows[k].ims_error
            };
            &&& wrong is None ==> r == Ok::<_, Seq<char>>(
                Some(ResolvedProfile { profile: rows[k].profile, origin: ProfileOrigin::Database }),
            )
            &&& wrong matches Some(e) ==> r == Err::<Option<ResolvedProfile>, _>(e)
        }),
{
    lemma_row(rows, text::trim(pinned), 0, k);
}

/// A line that is pinned to what no row has gets it from the catalog, or an error; it
/// never goes without.
pub proof fn law_pinned_line_gets_the_catalog(
    pinned: Seq<char>,
    imsi: Seq<char>,
    home: Option<Seq<char>>,
    access: CatalogAccessKind,
    rows: Seq<Row>,
    facts: Option<Facts>,
)
    requires
        text::trim(pinned).len() > 0,
        forall|j: int| 0 <= j < rows.len() ==> (#[trigger] rows[j]).id != text::trim(pinned),
    ensures
        ({
            let r = profile_store::resolved_for(Some(pinned), imsi, home, access, rows, facts);
            match facts {
                Some(f) => match f.pinned {
                    Ok(Some(profile)) => r == Ok::<_, Seq<char>>(
                        Some(ResolvedProfile { profile, origin: ProfileOrigin::Catalog }),
                    ),
                    Ok(None) => r is Err,
                    Err(e) => r == Err::<Option<ResolvedProfile>, _>(e),
                },
                None => r is Err,
            }
        }),
{
    lemma_no_row(rows, text::trim(pinned), 0);
}

} // verus!
