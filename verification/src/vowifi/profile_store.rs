//! Carrier profiles: which one a SIM gets.
//!
//! The defaults come from a read-only carrier catalog. The local database holds
//! what the operator overrides, and an override wins. There is no answer that
//! neither of the two holds.

use crate::order::is_less;
use crate::sdp::{copy_str, copy_text};
use crate::{order, text};
use vstd::prelude::*;

verus! {

/// Where a profile came from.
#[derive(Debug, Clone, Copy, PartialEq, Eq, Structural)]
pub enum ProfileOrigin {
    Database,
    Catalog,
}

impl ProfileOrigin {
    pub fn as_str(self) -> (r: &'static str)
        ensures
            r@ == match self {
                ProfileOrigin::Database => "database"@,
                ProfileOrigin::Catalog => "carrier_catalog"@,
            },
    {
        match self {
            ProfileOrigin::Database => "database",
            ProfileOrigin::Catalog => "carrier_catalog",
        }
    }
}

/// Which access a profile is for.
#[derive(Debug, Clone, Copy, PartialEq, Eq, Structural)]
pub enum CatalogAccessKind {
    WifiEpdg,
    LteEpc,
}

pub open spec fn access_name(a: CatalogAccessKind) -> Seq<char> {
    match a {
        CatalogAccessKind::WifiEpdg => "wifi_epdg"@,
        CatalogAccessKind::LteEpc => "lte_epc"@,
    }
}

impl CatalogAccessKind {
    pub fn as_str(self) -> (r: &'static str)
        ensures
            r@ == access_name(self),
    {
        match self {
            CatalogAccessKind::WifiEpdg => "wifi_epdg",
            CatalogAccessKind::LteEpc => "lte_epc",
        }
    }
}

/// A profile that was chosen, by its number.
#[derive(Debug, Clone, Copy, PartialEq, Eq, Structural)]
pub struct ResolvedProfile {
    pub profile: u64,
    pub origin: ProfileOrigin,
}

// -------------------------------------------------------------- a list by its ids

/// A profile with the id that it is listed under.
#[derive(Debug, PartialEq, Eq)]
pub struct StoredProfile {
    pub profile_id: String,
    pub plmn: String,
    /// Where it came from: a release of the catalog, or who put it into the database.
    pub source: String,
    pub updated_at: String,
    pub profile: u64,
}

#[verifier::ext_equal]
pub struct Listed {
    pub id: Seq<char>,
    pub plmn: Seq<char>,
    pub source: Seq<char>,
    pub updated_at: Seq<char>,
    pub profile: u64,
}

impl View for StoredProfile {
    type V = Listed;

    open spec fn view(&self) -> Listed {
        Listed {
            id: self.profile_id@,
            plmn: self.plmn@,
            source: self.source@,
            updated_at: self.updated_at@,
            profile: self.profile,
        }
    }
}

/// Where a profile of the catalog came from.
pub fn catalog_source(release_id: &str) -> (r: String)
    ensures
        r@ == "carrier_catalog:"@ + release_id@,
{
    let mut out = text::chars_of("carrier_catalog:");
    text::push_str(&mut out, release_id);
    text::string_of(out.as_slice())
}

pub open spec fn listed(list: Seq<StoredProfile>) -> Seq<Listed> {
    list.map_values(|p: StoredProfile| p@)
}

pub open spec fn index_from(list: Seq<Listed>, id: Seq<char>, i: int) -> Option<int>
    decreases list.len() - i,
{
    if i < 0 || i >= list.len() {
        None
    } else if list[i].id == id {
        Some(i)
    } else {
        index_from(list, id, i + 1)
    }
}

pub open spec fn place_from(list: Seq<Listed>, id: Seq<char>, i: int) -> int
    decreases list.len() - i,
{
    if i < 0 || i >= list.len() {
        list.len() as int
    } else if order::less(list[i].id, id) {
        place_from(list, id, i + 1)
    } else {
        i
    }
}

/// A list with one more profile: under an id that is there it replaces what was
/// there, and else it stands where its id belongs.
pub open spec fn with_profile(list: Seq<Listed>, p: Listed) -> Seq<Listed> {
    match index_from(list, p.id, 0) {
        Some(i) => list.update(i, p),
        None => list.insert(place_from(list, p.id, 0), p),
    }
}

pub open spec fn with_profiles(list: Seq<Listed>, more: Seq<Listed>, n: int) -> Seq<Listed>
    decreases n,
{
    if n <= 0 {
        list
    } else {
        with_profile(with_profiles(list, more, n - 1), more[n - 1])
    }
}

/// The profiles of the catalog and of the database by their ids: the database wins.
pub open spec fn merged(catalog: Seq<Listed>, local: Seq<Listed>) -> Seq<Listed> {
    with_profiles(
        with_profiles(seq![], catalog, catalog.len() as int),
        local,
        local.len() as int,
    )
}

/// Every id once, in order.
pub open spec fn sorted(list: Seq<Listed>) -> bool {
    forall|i: int, j: int|
        0 <= i < j < list.len() ==> order::less((#[trigger] list[i]).id, (#[trigger] list[j]).id)
}

pub open spec fn found(list: Seq<Listed>, id: Seq<char>) -> Option<Listed> {
    match index_from(list, id, 0) {
        Some(i) => Some(list[i]),
        None => None,
    }
}

fn find(list: &Vec<StoredProfile>, id: &str) -> (r: Option<usize>)
    ensures
        match r {
            Some(i) => index_from(listed(list@), id@, 0) == Some(i as int) && i < list@.len(),
            None => index_from(listed(list@), id@, 0) is None,
        },
{
    let ghost all = listed(list@);
    let mut i: usize = 0;
    while i < list.len()
        invariant
            i <= list@.len(),
            all == listed(list@),
            index_from(all, id@, 0) == index_from(all, id@, i as int),
        decreases list@.len() - i,
    {
        assert(all[i as int] == list@[i as int]@);
        if text::str_same(list[i].profile_id.as_str(), id) {
            return Some(i);
        }
        i += 1;
    }
    None
}

fn place(list: &Vec<StoredProfile>, id: &str) -> (r: usize)
    ensures
        r == place_from(listed(list@), id@, 0),
        r <= list@.len(),
{
    let ghost all = listed(list@);
    let id_chars = text::chars_of(id);
    let mut i: usize = 0;
    while i < list.len()
        invariant
            i <= list@.len(),
            all == listed(list@),
            id_chars@ == id@,
            place_from(all, id@, 0) == place_from(all, id@, i as int),
        decreases list@.len() - i,
    {
        assert(all[i as int] == list@[i as int]@);
        let own = text::chars_of(list[i].profile_id.as_str());
        if !is_less(own.as_slice(), id_chars.as_slice()) {
            return i;
        }
        i += 1;
    }
    i
}

impl StoredProfile {
    pub fn copy(&self) -> (r: Self)
        ensures
            r@ == self@,
    {
        StoredProfile {
            profile_id: copy_str(self.profile_id.as_str()),
            plmn: copy_str(self.plmn.as_str()),
            source: copy_str(self.source.as_str()),
            updated_at: copy_str(self.updated_at.as_str()),
            profile: self.profile,
        }
    }
}

fn put(list: &mut Vec<StoredProfile>, p: StoredProfile)
    ensures
        listed(final(list)@) == with_profile(listed(old(list)@), p@),
{
    let ghost before = listed(list@);
    match find(list, p.profile_id.as_str()) {
        Some(i) => {
            let ghost item = p@;
            list.set(i, p);
            assert(listed(list@) =~= before.update(i as int, item));
        },
        None => {
            let ghost item = p@;
            let at: usize = place(list, p.profile_id.as_str());
            list.insert(at, p);
            assert(listed(list@) =~= before.insert(at as int, item));
        },
    }
}

fn put_all(list: &mut Vec<StoredProfile>, more: &Vec<StoredProfile>)
    ensures
        listed(final(list)@) == with_profiles(
            listed(old(list)@),
            listed(more@),
            more@.len() as int,
        ),
{
    let ghost start = listed(list@);
    let ghost all = listed(more@);
    let mut i: usize = 0;
    while i < more.len()
        invariant
            i <= more@.len(),
            all == listed(more@),
            listed(list@) == with_profiles(start, all, i as int),
        decreases more@.len() - i,
    {
        assert(all[i as int] == more@[i as int]@);
        put(list, more[i].copy());
        i += 1;
    }
}

/// All profiles, in the order of their ids.
pub fn list_profiles(catalog: &Vec<StoredProfile>, local: &Vec<StoredProfile>) -> (r: Vec<
    StoredProfile,
>)
    ensures
        listed(r@) == merged(listed(catalog@), listed(local@)),
{
    let mut out: Vec<StoredProfile> = Vec::new();
    assert(listed(out@) =~= seq![]);
    put_all(&mut out, catalog);
    put_all(&mut out, local);
    out
}

// --------------------------------------------------------------------- publishing

/// A profile of the catalog or of the database, and what is wrong with it.
#[derive(Debug)]
pub struct CheckedProfile {
    pub profile: StoredProfile,
    pub error: Option<String>,
}

#[verifier::ext_equal]
pub struct Checked {
    pub profile: Listed,
    pub error: Option<Seq<char>>,
}

impl View for CheckedProfile {
    type V = Checked;

    open spec fn view(&self) -> Checked {
        Checked { profile: self.profile@, error: text::opt_text(self.error) }
    }
}

pub open spec fn checked(list: Seq<CheckedProfile>) -> Seq<Checked> {
    list.map_values(|c: CheckedProfile| c@)
}

/// A profile with the prefix of the identities that it is for.
#[derive(Debug)]
pub struct MatchedProfile {
    pub prefix: String,
    pub profile: StoredProfile,
}

#[verifier::ext_equal]
pub struct Matched {
    pub prefix: Seq<char>,
    pub profile: Listed,
}

impl View for MatchedProfile {
    type V = Matched;

    open spec fn view(&self) -> Matched {
        Matched { prefix: self.prefix@, profile: self.profile@ }
    }
}

pub open spec fn matches_of(list: Seq<MatchedProfile>) -> Seq<Matched> {
    list.map_values(|m: MatchedProfile| m@)
}

/// The first thing that is wrong with a catalog.
pub open spec fn first_error(list: Seq<Checked>, i: int) -> Option<Seq<char>>
    decreases list.len() - i,
{
    if i < 0 || i >= list.len() {
        None
    } else if list[i].error is Some {
        list[i].error
    } else {
        first_error(list, i + 1)
    }
}

pub open spec fn profiles_in(list: Seq<Checked>) -> Seq<Listed> {
    list.map_values(|c: Checked| c.profile)
}

/// The profiles of the database that can be used.
pub open spec fn valid_upto(list: Seq<Checked>, n: int) -> Seq<Listed>
    decreases n,
{
    if n <= 0 {
        seq![]
    } else if list[n - 1].error is None {
        valid_upto(list, n - 1).push(list[n - 1].profile)
    } else {
        valid_upto(list, n - 1)
    }
}

pub open spec fn has_id(list: Seq<Listed>, id: Seq<char>) -> bool {
    exists|i: int| 0 <= i < list.len() && (#[trigger] list[i]).id == id
}

pub open spec fn has_plmn(list: Seq<Listed>, plmn: Seq<char>) -> bool {
    exists|i: int| 0 <= i < list.len() && (#[trigger] list[i]).plmn == plmn
}

pub open spec fn catalog_match(catalog: Seq<Listed>, m: Matched) -> Matched {
    match found(catalog, m.profile.id) {
        Some(p) => Matched { profile: p, ..m },
        None => m,
    }
}

/// The matches of the catalog that no profile of the database stands against.
pub open spec fn kept_matches(
    catalog: Seq<Listed>,
    local: Seq<Listed>,
    matches: Seq<Matched>,
    n: int,
) -> Seq<Matched>
    decreases n,
{
    if n <= 0 {
        seq![]
    } else {
        let before = kept_matches(catalog, local, matches, n - 1);
        let m = catalog_match(catalog, matches[n - 1]);
        if has_id(local, m.profile.id) || has_plmn(local, m.profile.plmn) {
            before
        } else {
            before.push(m)
        }
    }
}

pub open spec fn local_matches(local: Seq<Listed>) -> Seq<Matched> {
    local.map_values(|p: Listed| Matched { prefix: p.plmn, profile: p })
}

/// What the resolver works with.
#[verifier::ext_equal]
pub struct Published {
    pub profiles: Seq<Listed>,
    pub matches: Seq<Matched>,
    /// The prefixes that may be of several networks.
    pub ambiguous: Seq<Seq<char>>,
}

/// What reading the ambiguous prefixes of a catalog came to; none where there is no
/// catalog.
pub type PrefixAnswer = Option<Result<Vec<String>, String>>;

/// The ambiguous prefixes that are published: those of the catalog, and none where
/// they cannot be read or there is no catalog.
pub open spec fn prefixes_in(answer: PrefixAnswer) -> Seq<Seq<char>> {
    match answer {
        Some(Ok(list)) => text::texts(list@),
        _ => seq![],
    }
}

/// The ambiguous prefixes that are published.
pub fn ambiguous_prefixes(answer: PrefixAnswer) -> (r: Vec<String>)
    ensures
        text::texts(r@) == prefixes_in(answer),
{
    match answer {
        Some(Ok(list)) => list,
        _ => {
            let none: Vec<String> = Vec::new();
            assert(text::texts(none@) =~= seq![]);
            none
        },
    }
}

/// What is published: all profiles by their ids, whom each is for, and which prefixes
/// are ambiguous. A catalog with something wrong in it is not published at all; a
/// local profile that is invalid is left out.
pub open spec fn published(
    catalog: Seq<Checked>,
    matches: Seq<Matched>,
    local: Seq<Checked>,
    ambiguous: Seq<Seq<char>>,
) -> Result<Published, Seq<char>> {
    match first_error(catalog, 0) {
        Some(e) => Err(e),
        None => {
            let from_catalog = with_profiles(
                seq![],
                profiles_in(catalog),
                catalog.len() as int,
            );
            let own = valid_upto(local, local.len() as int);
            Ok(
                Published {
                    profiles: with_profiles(from_catalog, own, own.len() as int),
                    matches: local_matches(own) + kept_matches(
                        from_catalog,
                        own,
                        matches,
                        matches.len() as int,
                    ),
                    ambiguous,
                },
            )
        },
    }
}

/// What the resolver works with.
#[derive(Debug)]
pub struct PublishedProfiles {
    pub profiles: Vec<StoredProfile>,
    pub matches: Vec<MatchedProfile>,
    pub ambiguous: Vec<String>,
}

impl View for PublishedProfiles {
    type V = Published;

    open spec fn view(&self) -> Published {
        Published {
            profiles: listed(self.profiles@),
            matches: matches_of(self.matches@),
            ambiguous: text::texts(self.ambiguous@),
        }
    }
}

fn find_error(list: &Vec<CheckedProfile>) -> (r: Option<String>)
    ensures
        text::opt_text(r) == first_error(checked(list@), 0),
{
    let ghost all = checked(list@);
    let mut i: usize = 0;
    while i < list.len()
        invariant
            i <= list@.len(),
            all == checked(list@),
            first_error(all, 0) == first_error(all, i as int),
        decreases list@.len() - i,
    {
        assert(all[i as int] == list@[i as int]@);
        if list[i].error.is_some() {
            return copy_text(&list[i].error);
        }
        i += 1;
    }
    None
}

fn catalog_profiles(list: &Vec<CheckedProfile>) -> (r: Vec<StoredProfile>)
    ensures
        listed(r@) == with_profiles(
            seq![],
            profiles_in(checked(list@)),
            list@.len() as int,
        ),
{
    let ghost all = profiles_in(checked(list@));
    let mut out: Vec<StoredProfile> = Vec::new();
    assert(listed(out@) =~= seq![]);
    let mut i: usize = 0;
    while i < list.len()
        invariant
            i <= list@.len(),
            all == profiles_in(checked(list@)),
            listed(out@) == with_profiles(seq![], all, i as int),
        decreases list@.len() - i,
    {
        assert(checked(list@)[i as int] == list@[i as int]@);
        assert(all[i as int] == list@[i as int].profile@);
        put(&mut out, list[i].profile.copy());
        i += 1;
    }
    out
}

fn valid_profiles(list: &Vec<CheckedProfile>) -> (r: Vec<StoredProfile>)
    ensures
        listed(r@) == valid_upto(checked(list@), list@.len() as int),
{
    let ghost all = checked(list@);
    let mut out: Vec<StoredProfile> = Vec::new();
    assert(listed(out@) =~= valid_upto(all, 0));
    let mut i: usize = 0;
    while i < list.len()
        invariant
            i <= list@.len(),
            all == checked(list@),
            listed(out@) == valid_upto(all, i as int),
        decreases list@.len() - i,
    {
        assert(all[i as int] == list@[i as int]@);
        if list[i].error.is_none() {
            let ghost before = listed(out@);
            let p = list[i].profile.copy();
            out.push(p);
            assert(listed(out@) =~= before.push(all[i as int].profile));
        }
        i += 1;
    }
    out
}

fn stands_against(local: &Vec<StoredProfile>, p: &StoredProfile) -> (r: bool)
    ensures
        r == (has_id(listed(local@), p@.id) || has_plmn(listed(local@), p@.plmn)),
{
    let ghost all = listed(local@);
    let mut i: usize = 0;
    while i < local.len()
        invariant
            i <= local@.len(),
            all == listed(local@),
            forall|j: int|
                0 <= j < i ==> (#[trigger] all[j]).id != p@.id && all[j].plmn != p@.plmn,
        decreases local@.len() - i,
    {
        assert(all[i as int] == local@[i as int]@);
        if text::str_same(local[i].profile_id.as_str(), p.profile_id.as_str()) || text::str_same(
            local[i].plmn.as_str(),
            p.plmn.as_str(),
        ) {
            return true;
        }
        i += 1;
    }
    false
}

fn match_in(catalog: &Vec<StoredProfile>, m: &MatchedProfile) -> (r: MatchedProfile)
    ensures
        r@ == catalog_match(listed(catalog@), m@),
{
    let profile = match find(catalog, m.profile.profile_id.as_str()) {
        Some(i) => {
            assert(listed(catalog@)[i as int] == catalog@[i as int]@);
            catalog[i].copy()
        },
        None => m.profile.copy(),
    };
    MatchedProfile { prefix: copy_str(m.prefix.as_str()), profile }
}

impl ProfileStore {
    /// Builds what the resolver works with. Each profile stands under the id and the
    /// network that its record holds.
    pub fn publish(
        catalog: &Vec<CheckedProfile>,
        matches: &Vec<MatchedProfile>,
        local: &Vec<CheckedProfile>,
        ambiguous: PrefixAnswer,
    ) -> (r: Result<PublishedProfiles, String>)
        ensures
            ({
                let want = published(
                    checked(catalog@),
                    matches_of(matches@),
                    checked(local@),
                    prefixes_in(ambiguous),
                );
                match r {
                    Ok(p) => want == Ok::<_, Seq<char>>(p@),
                    Err(e) => want == Err::<Published, _>(e@),
                }
            }),
    {
        if let Some(error) = find_error(catalog) {
            return Err(error);
        }
        let from_catalog = catalog_profiles(catalog);
        let own = valid_profiles(local);
        let ghost catalog_view = listed(from_catalog@);
        let ghost own_view = listed(own@);
        let ghost all_matches = matches_of(matches@);
        let mut out: Vec<MatchedProfile> = Vec::new();
        let mut i: usize = 0;
        while i < own.len()
            invariant
                i <= own@.len(),
                own_view == listed(own@),
                matches_of(out@) == local_matches(own_view).subrange(0, i as int),
            decreases own@.len() - i,
        {
            assert(own_view[i as int] == own@[i as int]@);
            let ghost before = matches_of(out@);
            let m = MatchedProfile { prefix: copy_str(own[i].plmn.as_str()), profile: own[i].copy() };
            let ghost item = m@;
            out.push(m);
            i += 1;
            assert(matches_of(out@) =~= before.push(item));
            assert(local_matches(own_view)[i - 1] == item);
            assert(matches_of(out@) =~= local_matches(own_view).subrange(0, i as int));
        }
        assert(own@.len() == own_view.len());
        assert(matches_of(out@) =~= local_matches(own_view) + kept_matches(
            catalog_view,
            own_view,
            all_matches,
            0,
        ));
        let mut k: usize = 0;
        while k < matches.len()
            invariant
                k <= matches@.len(),
                all_matches == matches_of(matches@),
                catalog_view == listed(from_catalog@),
                own_view == listed(own@),
                matches_of(out@) == local_matches(own_view) + kept_matches(
                    catalog_view,
                    own_view,
                    all_matches,
                    k as int,
                ),
            decreases matches@.len() - k,
        {
            assert(all_matches[k as int] == matches@[k as int]@);
            let m = match_in(&from_catalog, &matches[k]);
            if !stands_against(&own, &m.profile) {
                let ghost before = matches_of(out@);
                let ghost item = m@;
                out.push(m);
                assert(matches_of(out@) =~= before.push(item));
                assert(matches_of(out@) =~= local_matches(own_view) + kept_matches(
                    catalog_view,
                    own_view,
                    all_matches,
                    k + 1,
                ));
            }
            k += 1;
        }
        let mut profiles = from_catalog;
        put_all(&mut profiles, &own);
        assert(profiles_in(checked(catalog@)).len() == catalog@.len());
        Ok(PublishedProfiles { profiles, matches: out, ambiguous: ambiguous_prefixes(ambiguous) })
    }
}

// ---------------------------------------------------------------------- resolving

/// A row of the database: its columns, the record in it, if it could be read, and
/// what is wrong with that for either access.
#[derive(Debug)]
pub struct LocalRow {
    /// The column by which the row is found and listed.
    pub profile_id: String,
    /// The column that is listed.
    pub plmn: String,
    pub source: String,
    pub updated_at: String,
    pub profile: u64,
    /// The id that the record itself holds.
    pub record_id: String,
    /// The network that the record itself holds: identities are matched by it.
    pub record_plmn: String,
    /// Why the row could not be read.
    pub unreadable: Option<String>,
    pub wifi_error: Option<String>,
    pub ims_error: Option<String>,
}

#[verifier::ext_equal]
pub struct Row {
    pub id: Seq<char>,
    pub plmn: Seq<char>,
    pub source: Seq<char>,
    pub updated_at: Seq<char>,
    pub profile: u64,
    pub record_id: Seq<char>,
    pub record_plmn: Seq<char>,
    pub unreadable: Option<Seq<char>>,
    pub wifi_error: Option<Seq<char>>,
    pub ims_error: Option<Seq<char>>,
}

impl View for LocalRow {
    type V = Row;

    open spec fn view(&self) -> Row {
        Row {
            id: self.profile_id@,
            plmn: self.plmn@,
            source: self.source@,
            updated_at: self.updated_at@,
            profile: self.profile,
            record_id: self.record_id@,
            record_plmn: self.record_plmn@,
            unreadable: text::opt_text(self.unreadable),
            wifi_error: text::opt_text(self.wifi_error),
            ims_error: text::opt_text(self.ims_error),
        }
    }
}

pub open spec fn rows_of(list: Seq<LocalRow>) -> Seq<Row> {
    list.map_values(|r: LocalRow| r@)
}

pub open spec fn access_error(r: Row, access: CatalogAccessKind) -> Option<Seq<char>> {
    match access {
        CatalogAccessKind::WifiEpdg => r.wifi_error,
        CatalogAccessKind::LteEpc => r.ims_error,
    }
}

/// What a lookup in the catalog gave: a profile, none, or an error.
pub type CatalogAnswer = Result<Option<u64>, String>;

pub open spec fn answer_value(a: CatalogAnswer) -> Result<Option<u64>, Seq<char>> {
    match a {
        Ok(p) => Ok(p),
        Err(e) => Err(e@),
    }
}

pub open spec fn text_value<T>(r: Result<T, String>) -> Result<T, Seq<char>> {
    match r {
        Ok(v) => Ok(v),
        Err(e) => Err(e@),
    }
}

/// The profile for a PLMN: a row of the database that is usable, or else what the
/// catalog holds.
pub open spec fn resolved_by_plmn(row: Option<Row>, catalog: Option<u64>) -> Option<
    ResolvedProfile,
> {
    if row matches Some(r) && r.unreadable is None && r.wifi_error is None {
        Some(ResolvedProfile { profile: row->0.profile, origin: ProfileOrigin::Database })
    } else {
        match catalog {
            Some(profile) => Some(ResolvedProfile { profile, origin: ProfileOrigin::Catalog }),
            None => None,
        }
    }
}

pub open spec fn opt_row(r: Option<LocalRow>) -> Option<Row> {
    match r {
        Some(r) => Some(r@),
        None => None,
    }
}

impl ProfileStore {
    pub fn resolve_by_plmn(row: &Option<LocalRow>, catalog: Option<u64>) -> (r: Option<ResolvedProfile>)
        ensures
            r == resolved_by_plmn(opt_row(*row), catalog),
    {
        if let Some(row) = row {
            if row.unreadable.is_none() && row.wifi_error.is_none() {
                return Some(
                    ResolvedProfile { profile: row.profile, origin: ProfileOrigin::Database },
                );
            }
        }
        match catalog {
            Some(profile) => Some(ResolvedProfile { profile, origin: ProfileOrigin::Catalog }),
            None => None,
        }
    }
}

/// The name that a line is pinned to, if it is.
pub open spec fn pinned_id(pinned: Option<Seq<char>>) -> Option<Seq<char>> {
    match pinned {
        Some(id) => if text::trim(id).len() > 0 {
            Some(text::trim(id))
        } else {
            None
        },
        None => None,
    }
}

/// The home network, where it is one and the identity is of it.
pub open spec fn home_of(digits: Seq<char>, home_plmn: Option<Seq<char>>) -> Option<Seq<char>> {
    match home_plmn {
        Some(value) => {
            let plmn = text::trim(value);
            if (plmn.len() == 5 || plmn.len() == 6) && text::all_digits(plmn) && text::starts(
                digits,
                plmn,
            ) {
                Some(plmn)
            } else {
                None
            }
        },
        None => None,
    }
}

/// The row that a line is pinned to.
pub open spec fn row_from(rows: Seq<Row>, id: Seq<char>, i: int) -> Option<int>
    decreases rows.len() - i,
{
    if i < 0 || i >= rows.len() {
        None
    } else if rows[i].id == id {
        Some(i)
    } else {
        row_from(rows, id, i + 1)
    }
}

/// Is a row for an identity?
pub open spec fn row_fits(
    r: Row,
    digits: Seq<char>,
    home: Option<Seq<char>>,
    access: CatalogAccessKind,
) -> bool {
    &&& r.unreadable is None
    &&& match home {
        Some(plmn) => r.record_plmn == plmn,
        None => text::starts(digits, r.record_plmn),
    }
    &&& access_error(r, access) is None
}

/// The row that is most to the point; of several, the last.
pub open spec fn best_row(
    rows: Seq<Row>,
    digits: Seq<char>,
    home: Option<Seq<char>>,
    access: CatalogAccessKind,
    n: int,
) -> Option<int>
    decreases n,
{
    if n <= 0 {
        None
    } else {
        let before = best_row(rows, digits, home, access, n - 1);
        if !row_fits(rows[n - 1], digits, home, access) {
            before
        } else {
            match before {
                Some(i) => if rows[i].record_plmn.len() > rows[n - 1].record_plmn.len() {
                    before
                } else {
                    Some(n - 1)
                },
                None => Some(n - 1),
            }
        }
    }
}

/// What a catalog says of a query: nothing where there is no catalog.
#[derive(Debug)]
pub struct CatalogFacts {
    /// The profile that the line is pinned to.
    pub pinned: CatalogAnswer,
    /// May the identity be of several networks?
    pub ambiguous: Result<bool, String>,
    /// The profile for the identity.
    pub resolved: CatalogAnswer,
}

pub struct Facts {
    pub pinned: Result<Option<u64>, Seq<char>>,
    pub ambiguous: Result<bool, Seq<char>>,
    pub resolved: Result<Option<u64>, Seq<char>>,
}

pub open spec fn facts_of(f: Option<CatalogFacts>) -> Option<Facts> {
    match f {
        Some(f) => Some(
            Facts {
                pinned: answer_value(f.pinned),
                ambiguous: text_value(f.ambiguous),
                resolved: answer_value(f.resolved),
            },
        ),
        None => None,
    }
}

pub open spec fn from_database(profile: u64) -> Result<Option<ResolvedProfile>, Seq<char>> {
    Ok(Some(ResolvedProfile { profile, origin: ProfileOrigin::Database }))
}

pub open spec fn from_catalog(profile: Option<u64>) -> Result<Option<ResolvedProfile>, Seq<char>> {
    Ok(
        match profile {
            Some(profile) => Some(ResolvedProfile { profile, origin: ProfileOrigin::Catalog }),
            None => None,
        },
    )
}

/// A line that is pinned gets that profile or an error, and never another one.
pub open spec fn resolved_pinned(
    id: Seq<char>,
    access: CatalogAccessKind,
    rows: Seq<Row>,
    facts: Option<Facts>,
) -> Result<Option<ResolvedProfile>, Seq<char>> {
    match row_from(rows, id, 0) {
        Some(i) => {
            let row = rows[i];
            match row.unreadable {
                Some(error) => Err("local_carrier_profile_invalid:"@ + id + ":"@ + error),
                None => match access_error(row, access) {
                    Some(error) => Err(error),
                    None => from_database(row.profile),
                },
            }
        },
        None => match facts {
            Some(f) => match f.pinned {
                Err(error) => Err(error),
                Ok(Some(profile)) => from_catalog(Some(profile)),
                Ok(None) => Err(
                    "carrier_catalog_profile_not_found:"@ + id + ":"@ + access_name(access),
                ),
            },
            None => Err("carrier_profile_not_found:"@ + id + ":"@ + access_name(access)),
        },
    }
}

/// A line that is not pinned gets the profile of its identity: none where the
/// identity may be of several networks and no home network tells which.
pub open spec fn resolved_auto(
    imsi: Seq<char>,
    home_plmn: Option<Seq<char>>,
    access: CatalogAccessKind,
    rows: Seq<Row>,
    facts: Option<Facts>,
) -> Result<Option<ResolvedProfile>, Seq<char>> {
    let digits = text::trim(imsi);
    let home = home_of(digits, home_plmn);
    if home is None && facts is Some && facts->0.ambiguous is Err {
        Err(facts->0.ambiguous->Err_0)
    } else if home is None && facts is Some && facts->0.ambiguous->Ok_0 {
        Ok(None)
    } else {
        match best_row(rows, digits, home, access, rows.len() as int) {
            Some(i) => from_database(rows[i].profile),
            None => match facts {
                Some(f) => match f.resolved {
                    Err(error) => Err(error),
                    Ok(profile) => from_catalog(profile),
                },
                None => Ok(None),
            },
        }
    }
}

pub open spec fn resolved_for(
    pinned: Option<Seq<char>>,
    imsi: Seq<char>,
    home_plmn: Option<Seq<char>>,
    access: CatalogAccessKind,
    rows: Seq<Row>,
    facts: Option<Facts>,
) -> Result<Option<ResolvedProfile>, Seq<char>> {
    match pinned_id(pinned) {
        Some(id) => resolved_pinned(id, access, rows, facts),
        None => resolved_auto(imsi, home_plmn, access, rows, facts),
    }
}

fn joined4(a: &str, b: &str, c: &str, d: &str) -> (r: String)
    ensures
        r@ == a@ + b@ + c@ + d@,
{
    let mut out = text::chars_of(a);
    text::push_str(&mut out, b);
    text::push_str(&mut out, c);
    text::push_str(&mut out, d);
    text::string_of(out.as_slice())
}

fn row_error(row: &LocalRow, access: CatalogAccessKind) -> (r: Option<String>)
    ensures
        text::opt_text(r) == access_error(row@, access),
{
    match access {
        CatalogAccessKind::WifiEpdg => copy_text(&row.wifi_error),
        CatalogAccessKind::LteEpc => copy_text(&row.ims_error),
    }
}

fn find_row(rows: &Vec<LocalRow>, id: &str) -> (r: Option<usize>)
    ensures
        match r {
            Some(i) => row_from(rows_of(rows@), id@, 0) == Some(i as int) && i < rows@.len(),
            None => row_from(rows_of(rows@), id@, 0) is None,
        },
{
    let ghost all = rows_of(rows@);
    let mut i: usize = 0;
    while i < rows.len()
        invariant
            i <= rows@.len(),
            all == rows_of(rows@),
            row_from(all, id@, 0) == row_from(all, id@, i as int),
        decreases rows@.len() - i,
    {
        assert(all[i as int] == rows@[i as int]@);
        if text::str_same(rows[i].profile_id.as_str(), id) {
            return Some(i);
        }
        i += 1;
    }
    None
}

fn catalog_profile(profile: Option<u64>) -> (r: Option<ResolvedProfile>)
    ensures
        Ok::<_, Seq<char>>(r) == from_catalog(profile),
{
    match profile {
        Some(profile) => Some(ResolvedProfile { profile, origin: ProfileOrigin::Catalog }),
        None => None,
    }
}

fn resolve_pinned(
    id: &str,
    access: CatalogAccessKind,
    rows: &Vec<LocalRow>,
    facts: &Option<CatalogFacts>,
) -> (r: Result<Option<ResolvedProfile>, String>)
    ensures
        text_value(r) == resolved_pinned(id@, access, rows_of(rows@), facts_of(*facts)),
{
    if let Some(i) = find_row(rows, id) {
        let row = &rows[i];
        assert(rows_of(rows@)[i as int] == row@);
        if let Some(error) = &row.unreadable {
            return Err(joined4("local_carrier_profile_invalid:", id, ":", error.as_str()));
        }
        if let Some(error) = row_error(row, access) {
            return Err(error);
        }
        return Ok(
            Some(ResolvedProfile { profile: row.profile, origin: ProfileOrigin::Database }),
        );
    }
    match facts {
        Some(f) => match &f.pinned {
            Err(error) => Err(copy_str(error.as_str())),
            Ok(Some(profile)) => Ok(catalog_profile(Some(*profile))),
            Ok(None) => Err(
                joined4("carrier_catalog_profile_not_found:", id, ":", access.as_str()),
            ),
        },
        None => Err(joined4("carrier_profile_not_found:", id, ":", access.as_str())),
    }
}

fn only_digits(s: &[char]) -> (r: bool)
    ensures
        r == text::all_digits(s@),
{
    let mut i: usize = 0;
    while i < s.len()
        invariant
            i <= s@.len(),
            forall|j: int| 0 <= j < i ==> text::digit(#[trigger] s@[j]),
        decreases s@.len() - i,
    {
        if !text::is_digit(s[i]) {
            return false;
        }
        i += 1;
    }
    true
}

fn home_network(digits: &[char], home_plmn: Option<&str>) -> (r: Option<String>)
    ensures
        text::opt_text(r) == home_of(
            digits@,
            match home_plmn {
                Some(v) => Some(v@),
                None => None,
            },
        ),
{
    match home_plmn {
        Some(value) => {
            let chars = text::chars_of(value);
            let plmn = text::trimmed(chars.as_slice());
            if (plmn.len() == 5 || plmn.len() == 6) && only_digits(plmn) && text::is_at(
                digits,
                plmn,
                0,
            ) {
                Some(text::string_of(plmn))
            } else {
                None
            }
        },
        None => None,
    }
}

fn fits(
    row: &LocalRow,
    digits: &[char],
    home: &Option<String>,
    access: CatalogAccessKind,
) -> (r: bool)
    ensures
        r == row_fits(row@, digits@, text::opt_text(*home), access),
{
    if row.unreadable.is_some() {
        return false;
    }
    let own = match home {
        Some(plmn) => text::str_same(row.record_plmn.as_str(), plmn.as_str()),
        None => text::has_prefix(digits, row.record_plmn.as_str()),
    };
    own && row_error(row, access).is_none()
}

fn find_best(
    rows: &Vec<LocalRow>,
    digits: &[char],
    home: &Option<String>,
    access: CatalogAccessKind,
) -> (r: Option<usize>)
    ensures
        match r {
            Some(i) => best_row(
                rows_of(rows@),
                digits@,
                text::opt_text(*home),
                access,
                rows@.len() as int,
            ) == Some(i as int) && i < rows@.len(),
            None => best_row(
                rows_of(rows@),
                digits@,
                text::opt_text(*home),
                access,
                rows@.len() as int,
            ) is None,
        },
{
    let ghost all = rows_of(rows@);
    let ghost home_view = text::opt_text(*home);
    let mut best: Option<usize> = None;
    let mut best_len: usize = 0;
    let mut i: usize = 0;
    while i < rows.len()
        invariant
            i <= rows@.len(),
            all == rows_of(rows@),
            home_view == text::opt_text(*home),
            match best {
                Some(k) => k < i && best_row(all, digits@, home_view, access, i as int) == Some(
                    k as int,
                ) && best_len == all[k as int].record_plmn.len(),
                None => best_row(all, digits@, home_view, access, i as int) is None,
            },
        decreases rows@.len() - i,
    {
        assert(all[i as int] == rows@[i as int]@);
        if fits(&rows[i], digits, home, access) {
            let plmn = text::chars_of(rows[i].record_plmn.as_str());
            let keep = best.is_some() && best_len > plmn.len();
            if !keep {
                best = Some(i);
                best_len = plmn.len();
            }
        }
        i += 1;
    }
    best
}

impl ProfileStore {
    /// The profile of one registration. The catalog is asked as far as there is one:
    /// what it says stands in `facts`.
    pub fn resolve_for_imsi_access(
        &self,
        pinned_profile_id: Option<&str>,
        imsi: &str,
        home_plmn: Option<&str>,
        access: CatalogAccessKind,
        facts: &Option<CatalogFacts>,
    ) -> (r: Result<Option<ResolvedProfile>, String>)
        ensures
            text_value(r) == resolved_for(
                match pinned_profile_id {
                    Some(v) => Some(v@),
                    None => None,
                },
                imsi@,
                match home_plmn {
                    Some(v) => Some(v@),
                    None => None,
                },
                access,
                self@.rows,
                facts_of(*facts),
            ),
    {
        if let Some(value) = pinned_profile_id {
            let chars = text::chars_of(value);
            let id = text::trimmed(chars.as_slice());
            if id.len() > 0 {
                let id = text::string_of(id);
                return resolve_pinned(id.as_str(), access, &self.rows, facts);
            }
        }
        let imsi_chars = text::chars_of(imsi);
        let digits = text::trimmed(imsi_chars.as_slice());
        let home = home_network(digits, home_plmn);
        if home.is_none() {
            if let Some(f) = facts {
                match &f.ambiguous {
                    Err(error) => {
                        return Err(copy_str(error.as_str()));
                    },
                    Ok(ambiguous) => {
                        if *ambiguous {
                            return Ok(None);
                        }
                    },
                }
            }
        }
        if let Some(i) = find_best(&self.rows, digits, &home, access) {
            assert(self@.rows[i as int] == self.rows@[i as int]@);
            return Ok(
                Some(ResolvedProfile { profile: self.rows[i].profile, origin: ProfileOrigin::Database }),
            );
        }
        match facts {
            Some(f) => match &f.resolved {
                Err(error) => Err(copy_str(error.as_str())),
                Ok(profile) => Ok(catalog_profile(*profile)),
            },
            None => Ok(None),
        }
    }
}

// -------------------------------------------------------------------------- store

/// A row as it is listed: by its columns.
pub open spec fn row_listed(r: Row) -> Listed {
    Listed {
        id: r.id,
        plmn: r.plmn,
        source: r.source,
        updated_at: r.updated_at,
        profile: r.profile,
    }
}

/// The rows that can be read, as they are listed: one that cannot must not take
/// the whole list down.
pub open spec fn readable_upto(rows: Seq<Row>, n: int) -> Seq<Listed>
    decreases n,
{
    if n <= 0 {
        seq![]
    } else if rows[n - 1].unreadable is None {
        readable_upto(rows, n - 1).push(row_listed(rows[n - 1]))
    } else {
        readable_upto(rows, n - 1)
    }
}

pub open spec fn readable(rows: Seq<Row>) -> Seq<Listed> {
    readable_upto(rows, rows.len() as int)
}

/// A row as it is published: by what its record holds, and with what is wrong with
/// it.
pub open spec fn row_checked(r: Row) -> Checked {
    Checked {
        profile: Listed {
            id: r.record_id,
            plmn: r.record_plmn,
            source: r.source,
            updated_at: r.updated_at,
            profile: r.profile,
        },
        error: r.wifi_error,
    }
}

/// The rows that can be read, as they are published.
pub open spec fn publishable_upto(rows: Seq<Row>, n: int) -> Seq<Checked>
    decreases n,
{
    if n <= 0 {
        seq![]
    } else if rows[n - 1].unreadable is None {
        publishable_upto(rows, n - 1).push(row_checked(rows[n - 1]))
    } else {
        publishable_upto(rows, n - 1)
    }
}

pub open spec fn publishable(rows: Seq<Row>) -> Seq<Checked> {
    publishable_upto(rows, rows.len() as int)
}

/// A row as it is written: its columns are those that its record holds.
pub open spec fn filed(r: Row) -> Row {
    Row { id: r.record_id, plmn: r.record_plmn, ..r }
}

/// The rows under other ids.
pub open spec fn others_upto(rows: Seq<Row>, id: Seq<char>, n: int) -> Seq<Row>
    decreases n,
{
    if n <= 0 {
        seq![]
    } else if rows[n - 1].id == id {
        others_upto(rows, id, n - 1)
    } else {
        others_upto(rows, id, n - 1).push(rows[n - 1])
    }
}

pub open spec fn others(rows: Seq<Row>, id: Seq<char>) -> Seq<Row> {
    others_upto(rows, id, rows.len() as int)
}

/// The rows with one inserted, or put in the place of the one under its id.
pub open spec fn saved(rows: Seq<Row>, row: Row) -> Seq<Row> {
    others(rows, row.id).push(row)
}

/// The carrier profiles that are known: the rows of the database, and the profiles
/// of the catalog, as they were read.
#[derive(Debug)]
pub struct ProfileStore {
    pub rows: Vec<LocalRow>,
    /// The catalog, or why it could not be read.
    pub catalog: Result<Vec<StoredProfile>, String>,
}

/// A store as a value.
#[verifier::ext_equal]
pub struct Store {
    pub rows: Seq<Row>,
    pub catalog: Result<Seq<Listed>, Seq<char>>,
}

impl View for ProfileStore {
    type V = Store;

    open spec fn view(&self) -> Store {
        Store {
            rows: rows_of(self.rows@),
            catalog: match self.catalog {
                Ok(list) => Ok(listed(list@)),
                Err(e) => Err(e@),
            },
        }
    }
}

pub open spec fn store_list(s: Store) -> Result<Seq<Listed>, Seq<char>> {
    match s.catalog {
        Ok(catalog) => Ok(merged(catalog, readable(s.rows))),
        Err(e) => Err(e),
    }
}

impl ProfileStore {
    pub fn with_catalog(rows: Vec<LocalRow>, catalog: Result<Vec<StoredProfile>, String>) -> (r:
        Self)
        ensures
            r.rows == rows,
            r.catalog == catalog,
    {
        ProfileStore { rows, catalog }
    }

    fn local_list(&self) -> (r: Vec<StoredProfile>)
        ensures
            listed(r@) == readable(self@.rows),
    {
        let ghost all = rows_of(self.rows@);
        let mut out: Vec<StoredProfile> = Vec::new();
        assert(listed(out@) =~= seq![]);
        let mut i: usize = 0;
        while i < self.rows.len()
            invariant
                i <= self.rows@.len(),
                all == rows_of(self.rows@),
                listed(out@) == readable_upto(all, i as int),
            decreases self.rows@.len() - i,
        {
            assert(all[i as int] == self.rows@[i as int]@);
            let row = &self.rows[i];
            if row.unreadable.is_none() {
                let p = StoredProfile {
                    profile_id: copy_str(row.profile_id.as_str()),
                    plmn: copy_str(row.plmn.as_str()),
                    source: copy_str(row.source.as_str()),
                    updated_at: copy_str(row.updated_at.as_str()),
                    profile: row.profile,
                };
                let ghost before = listed(out@);
                let ghost item = p@;
                out.push(p);
                assert(listed(out@) =~= before.push(item));
            }
            i += 1;
        }
        out
    }

    /// The rows that can be read, each under the id and the network of its record, as
    /// `publish` takes them.
    pub fn local_records(&self) -> (r: Vec<CheckedProfile>)
        ensures
            checked(r@) == publishable(self@.rows),
    {
        let ghost all = rows_of(self.rows@);
        let mut out: Vec<CheckedProfile> = Vec::new();
        assert(checked(out@) =~= seq![]);
        let mut i: usize = 0;
        while i < self.rows.len()
            invariant
                i <= self.rows@.len(),
                all == rows_of(self.rows@),
                checked(out@) == publishable_upto(all, i as int),
            decreases self.rows@.len() - i,
        {
            assert(all[i as int] == self.rows@[i as int]@);
            let row = &self.rows[i];
            if row.unreadable.is_none() {
                let c = CheckedProfile {
                    profile: StoredProfile {
                        profile_id: copy_str(row.record_id.as_str()),
                        plmn: copy_str(row.record_plmn.as_str()),
                        source: copy_str(row.source.as_str()),
                        updated_at: copy_str(row.updated_at.as_str()),
                        profile: row.profile,
                    },
                    error: copy_text(&row.wifi_error),
                };
                let ghost before = checked(out@);
                let ghost item = c@;
                out.push(c);
                assert(item =~= row_checked(all[i as int]));
                assert(checked(out@) =~= before.push(item));
            }
            i += 1;
        }
        out
    }

    /// All profiles, in the order of their ids.
    pub fn list(&self) -> (r: Result<Vec<StoredProfile>, String>)
        ensures
            match r {
                Ok(list) => store_list(self@) == Ok::<_, Seq<char>>(listed(list@)),
                Err(e) => store_list(self@) == Err::<Seq<Listed>, _>(e@),
            },
    {
        match &self.catalog {
            Ok(catalog) => Ok(list_profiles(catalog, &self.local_list())),
            Err(e) => Err(copy_str(e.as_str())),
        }
    }

    fn remove_rows(&mut self, profile_id: &str) -> (r: bool)
        ensures
            final(self)@ == (Store { rows: others(old(self)@.rows, profile_id@), ..old(self)@ }),
            r == (row_from(old(self)@.rows, profile_id@, 0) is Some),
    {
        let ghost start = self@;
        let ghost all = start.rows;
        let mut rest: Vec<LocalRow> = Vec::new();
        std::mem::swap(&mut rest, &mut self.rows);
        let ghost every = rest@;
        let mut kept: Vec<LocalRow> = Vec::new();
        let mut removed: bool = false;
        let total: usize = rest.len();
        let mut i: usize = 0;
        assert(rows_of(kept@) =~= seq![]);
        assert(rest@ =~= every.subrange(0, every.len() as int));
        while i < total
            invariant
                i <= total,
                total == every.len(),
                all == rows_of(every),
                rest@ == every.subrange(i as int, every.len() as int),
                rows_of(kept@) == others_upto(all, profile_id@, i as int),
                removed ==> row_from(all, profile_id@, 0) is Some,
                !removed ==> row_from(all, profile_id@, 0) == row_from(all, profile_id@, i as int),
            decreases total - i,
        {
            let row = rest.remove(0);
            assert(row == every[i as int]);
            assert(all[i as int] == row@);
            let ghost before = rows_of(kept@);
            let ghost item = row@;
            if text::str_same(row.profile_id.as_str(), profile_id) {
                removed = true;
            } else {
                kept.push(row);
                assert(rows_of(kept@) =~= before.push(item));
            }
            i += 1;
            assert(rest@ =~= every.subrange(i as int, every.len() as int));
        }
        self.rows = kept;
        assert(self@ =~= (Store { rows: others(all, profile_id@), ..start }));
        removed
    }

    /// Takes the override under an id away; tells whether there was one.
    pub fn delete(&mut self, profile_id: &str) -> (r: bool)
        ensures
            final(self)@ == (Store { rows: others(old(self)@.rows, profile_id@), ..old(self)@ }),
            r == (row_from(old(self)@.rows, profile_id@, 0) is Some),
    {
        self.remove_rows(profile_id)
    }

    /// Inserts an override under the id that its record holds, or replaces the one
    /// there. One with something wrong in it is refused.
    pub fn save(&mut self, row: LocalRow) -> (r: Result<(), String>)
        ensures
            match r {
                Ok(_) => row@.wifi_error is None && final(self)@ == (Store {
                    rows: saved(old(self)@.rows, filed(row@)),
                    ..old(self)@
                }),
                Err(e) => row@.wifi_error == Some(e@) && final(self)@ == old(self)@,
            },
    {
        if let Some(error) = &row.wifi_error {
            return Err(copy_str(error.as_str()));
        }
        let row = LocalRow {
            profile_id: copy_str(row.record_id.as_str()),
            plmn: copy_str(row.record_plmn.as_str()),
            ..row
        };
        let ghost item = row@;
        self.remove_rows(row.profile_id.as_str());
        let ghost before = self@;
        self.rows.push(row);
        assert(self@.rows =~= before.rows.push(item));
        Ok(())
    }
}

// ------------------------------------------------------------------------ records

/// A full carrier profile: what is edited here, and the number of the rest.
#[derive(Debug)]
pub struct CarrierProfileRecord {
    pub profile_id: String,
    pub mcc: String,
    pub mnc: String,
    pub plmn: String,
    pub source_refs: Vec<String>,
    pub epdg_host: String,
    pub epdg_port: u16,
    pub ip_stack: String,
    pub apn: Option<String>,
    pub dns_servers: Vec<String>,
    pub dns_server: Option<String>,
    pub policy: u64,
}

#[verifier::ext_equal]
pub struct Record {
    pub profile_id: Seq<char>,
    pub mcc: Seq<char>,
    pub mnc: Seq<char>,
    pub plmn: Seq<char>,
    pub source_refs: Seq<Seq<char>>,
    pub epdg_host: Seq<char>,
    pub epdg_port: u16,
    pub ip_stack: Seq<char>,
    pub apn: Option<Seq<char>>,
    pub dns_servers: Seq<Seq<char>>,
    pub dns_server: Option<Seq<char>>,
    pub policy: u64,
}

impl View for CarrierProfileRecord {
    type V = Record;

    open spec fn view(&self) -> Record {
        Record {
            profile_id: self.profile_id@,
            mcc: self.mcc@,
            mnc: self.mnc@,
            plmn: self.plmn@,
            source_refs: text::texts(self.source_refs@),
            epdg_host: self.epdg_host@,
            epdg_port: self.epdg_port,
            ip_stack: self.ip_stack@,
            apn: text::opt_text(self.apn),
            dns_servers: text::texts(self.dns_servers@),
            dns_server: text::opt_text(self.dns_server),
            policy: self.policy,
        }
    }
}

/// The older shape of a profile: its ePDG alone.
#[derive(Debug, PartialEq, Eq)]
pub struct ExternalVowifiProfile {
    pub profile_id: String,
    pub mcc: String,
    pub mnc: String,
    pub epdg_host: String,
    pub epdg_port: u16,
    pub ip_stack: String,
    pub apn: Option<String>,
    pub dns_server: Option<String>,
}

#[verifier::ext_equal]
pub struct External {
    pub profile_id: Seq<char>,
    pub mcc: Seq<char>,
    pub mnc: Seq<char>,
    pub epdg_host: Seq<char>,
    pub epdg_port: u16,
    pub ip_stack: Seq<char>,
    pub apn: Option<Seq<char>>,
    pub dns_server: Option<Seq<char>>,
}

impl View for ExternalVowifiProfile {
    type V = External;

    open spec fn view(&self) -> External {
        External {
            profile_id: self.profile_id@,
            mcc: self.mcc@,
            mnc: self.mnc@,
            epdg_host: self.epdg_host@,
            epdg_port: self.epdg_port,
            ip_stack: self.ip_stack@,
            apn: text::opt_text(self.apn),
            dns_server: text::opt_text(self.dns_server),
        }
    }
}

pub open spec fn externals(list: Seq<ExternalVowifiProfile>) -> Seq<External> {
    list.map_values(|e: ExternalVowifiProfile| e@)
}

pub open spec fn records(list: Seq<CarrierProfileRecord>) -> Seq<Record> {
    list.map_values(|r: CarrierProfileRecord| r@)
}

/// A record in the older shape.
pub open spec fn external_of(r: Record) -> External {
    External {
        profile_id: r.profile_id,
        mcc: r.mcc,
        mnc: r.mnc,
        epdg_host: r.epdg_host,
        epdg_port: r.epdg_port,
        ip_stack: r.ip_stack,
        apn: r.apn,
        dns_server: if r.dns_servers.len() > 0 {
            Some(r.dns_servers[0])
        } else {
            r.dns_server
        },
    }
}

pub open spec fn known_stack(value: Seq<char>) -> bool {
    value == "ipv4"@ || value == "ipv6"@ || value == "ipv4v6"@
}

/// A value that is not blank.
pub open spec fn filled(value: Option<Seq<char>>) -> Option<Seq<char>> {
    match value {
        Some(v) => if text::trim(v).len() > 0 {
            Some(v)
        } else {
            None
        },
        None => None,
    }
}

/// A record with the ePDG of an older shape. Whatever that shape does not hold
/// stays.
pub open spec fn with_epdg(r: Record, e: External) -> Record {
    Record {
        profile_id: e.profile_id,
        epdg_host: e.epdg_host,
        epdg_port: e.epdg_port,
        ip_stack: if known_stack(e.ip_stack) {
            e.ip_stack
        } else {
            r.ip_stack
        },
        ..r
    }
}

pub open spec fn with_dns(r: Record, dns: Seq<char>) -> Record {
    Record { dns_servers: seq![dns], dns_server: Some(dns), ..r }
}

/// A record edited through the older shape.
pub open spec fn edited(r: Record, e: External) -> Record {
    let base = with_epdg(r, e);
    let named = match filled(e.apn) {
        Some(apn) => Record { apn: Some(apn), ..base },
        None => base,
    };
    match filled(e.dns_server) {
        Some(dns) => with_dns(named, dns),
        None => Record { dns_servers: seq![], dns_server: None, ..named },
    }
}

/// A record migrated from the older shape: `r` is the baseline of the catalog with
/// the PLMN and access point of the entry in it.
pub open spec fn migrated(r: Record, e: External) -> Record {
    let base = Record { source_refs: seq!["migrated:vowifi-profiles.conf"@], ..with_epdg(r, e) };
    match filled(e.dns_server) {
        Some(dns) => with_dns(base, dns),
        None => base,
    }
}

fn to_external(r: &CarrierProfileRecord) -> (e: ExternalVowifiProfile)
    ensures
        e@ == external_of(r@),
{
    let dns_server = if r.dns_servers.len() > 0 {
        assert(text::texts(r.dns_servers@)[0] == r.dns_servers@[0]@);
        Some(copy_str(r.dns_servers[0].as_str()))
    } else {
        copy_text(&r.dns_server)
    };
    assert(text::texts(r.dns_servers@).len() == r.dns_servers@.len());
    ExternalVowifiProfile {
        profile_id: copy_str(r.profile_id.as_str()),
        mcc: copy_str(r.mcc.as_str()),
        mnc: copy_str(r.mnc.as_str()),
        epdg_host: copy_str(r.epdg_host.as_str()),
        epdg_port: r.epdg_port,
        ip_stack: copy_str(r.ip_stack.as_str()),
        apn: copy_text(&r.apn),
        dns_server,
    }
}

fn take_filled(value: &Option<String>) -> (r: Option<String>)
    ensures
        text::opt_text(r) == filled(text::opt_text(*value)),
{
    match value {
        Some(v) => {
            let chars = text::chars_of(v.as_str());
            if text::trimmed(chars.as_slice()).len() > 0 {
                Some(copy_str(v.as_str()))
            } else {
                None
            }
        },
        None => None,
    }
}

fn set_epdg(r: &mut CarrierProfileRecord, e: &ExternalVowifiProfile)
    ensures
        final(r)@ == with_epdg(old(r)@, e@),
{
    r.profile_id = copy_str(e.profile_id.as_str());
    r.epdg_host = copy_str(e.epdg_host.as_str());
    r.epdg_port = e.epdg_port;
    let stack = e.ip_stack.as_str();
    if text::str_same(stack, "ipv4") || text::str_same(stack, "ipv6") || text::str_same(
        stack,
        "ipv4v6",
    ) {
        r.ip_stack = copy_str(stack);
    }
}

fn set_dns(r: &mut CarrierProfileRecord, dns: String)
    ensures
        final(r)@ == with_dns(old(r)@, dns@),
{
    r.dns_servers = vec![copy_str(dns.as_str())];
    r.dns_server = Some(dns);
    assert(text::texts(r.dns_servers@) =~= seq![dns@]);
}

impl ProfileStore {
    /// Edits a profile through the older shape. There has to be one: a full profile is
    /// not made up.
    pub fn save_external(existing: Option<CarrierProfileRecord>, entry: &ExternalVowifiProfile) -> (r:
        Result<CarrierProfileRecord, String>)
        ensures
            match existing {
                Some(record) => r matches Ok(after) && after@ == edited(record@, entry@),
                None => r matches Err(e) && e@ == "full_carrier_profile_required"@,
            },
    {
        match existing {
            None => Err(copy_str("full_carrier_profile_required")),
            Some(record) => {
                let mut record = record;
                set_epdg(&mut record, entry);
                if let Some(apn) = take_filled(&entry.apn) {
                    record.apn = Some(apn);
                }
                match take_filled(&entry.dns_server) {
                    Some(dns) => set_dns(&mut record, dns),
                    None => {
                        record.dns_servers = Vec::new();
                        record.dns_server = None;
                        assert(text::texts(record.dns_servers@) =~= seq![]);
                    },
                }
                Ok(record)
            },
        }
    }
}

/// Takes an entry of the older shape over into a record.
pub fn migrate_legacy_profile(base: CarrierProfileRecord, entry: &ExternalVowifiProfile) -> (r:
    CarrierProfileRecord)
    ensures
        r@ == migrated(base@, entry@),
{
    let mut record = base;
    set_epdg(&mut record, entry);
    if let Some(dns) = take_filled(&entry.dns_server) {
        set_dns(&mut record, dns);
    }
    record.source_refs = vec![copy_str("migrated:vowifi-profiles.conf")];
    assert(text::texts(record.source_refs@) =~= seq!["migrated:vowifi-profiles.conf"@]);
    assert(record@ =~= migrated(base@, entry@));
    record
}

/// Behind every entry whose id is not greater.
pub open spec fn behind_from(list: Seq<External>, id: Seq<char>, i: int) -> int
    decreases list.len() - i,
{
    if i < 0 || i >= list.len() {
        list.len() as int
    } else if order::less(id, list[i].profile_id) {
        i
    } else {
        behind_from(list, id, i + 1)
    }
}

/// The entries in the order of their ids; those with the same id stay in order.
pub open spec fn ordered_upto(items: Seq<External>, n: int) -> Seq<External>
    decreases n,
{
    if n <= 0 {
        seq![]
    } else {
        let before = ordered_upto(items, n - 1);
        before.insert(behind_from(before, items[n - 1].profile_id, 0), items[n - 1])
    }
}

pub open spec fn external_list(list: Seq<Record>) -> Seq<External> {
    ordered_upto(list.map_values(|r: Record| external_of(r)), list.len() as int)
}

fn behind(list: &Vec<ExternalVowifiProfile>, id: &str) -> (r: usize)
    ensures
        r == behind_from(externals(list@), id@, 0),
        r <= list@.len(),
{
    let ghost all = externals(list@);
    let id_chars = text::chars_of(id);
    let mut i: usize = 0;
    while i < list.len()
        invariant
            i <= list@.len(),
            all == externals(list@),
            id_chars@ == id@,
            behind_from(all, id@, 0) == behind_from(all, id@, i as int),
        decreases list@.len() - i,
    {
        assert(all[i as int] == list@[i as int]@);
        let own = text::chars_of(list[i].profile_id.as_str());
        if is_less(id_chars.as_slice(), own.as_slice()) {
            return i;
        }
        i += 1;
    }
    i
}

impl ProfileStore {
    /// The stored profiles in the older shape.
    pub fn list_as_external(list: &Vec<CarrierProfileRecord>) -> (r: Vec<ExternalVowifiProfile>)
        ensures
            externals(r@) == external_list(records(list@)),
    {
        let ghost all = records(list@).map_values(|r: Record| external_of(r));
        let mut out: Vec<ExternalVowifiProfile> = Vec::new();
        assert(externals(out@) =~= seq![]);
        let mut i: usize = 0;
        while i < list.len()
            invariant
                i <= list@.len(),
                all == records(list@).map_values(|r: Record| external_of(r)),
                externals(out@) == ordered_upto(all, i as int),
            decreases list@.len() - i,
        {
            assert(records(list@)[i as int] == list@[i as int]@);
            assert(all[i as int] == external_of(list@[i as int]@));
            let e = to_external(&list[i]);
            let ghost item = e@;
            let ghost before = externals(out@);
            let at: usize = behind(&out, e.profile_id.as_str());
            out.insert(at, e);
            assert(externals(out@) =~= before.insert(at as int, item));
            i += 1;
        }
        out
    }
}

impl ProfileStore {
    /// A profile by its id: the row of the database where there is one, or else what
    /// the catalog holds.
    pub fn get(
        local: Option<Result<CarrierProfileRecord, String>>,
        catalog: Option<Result<Option<CarrierProfileRecord>, String>>,
    ) -> (r: Result<Option<CarrierProfileRecord>, String>)
        ensures
            match local {
                Some(Ok(record)) => r == Ok::<_, String>(Some(record)),
                Some(Err(e)) => r == Err::<Option<CarrierProfileRecord>, _>(e),
                None => match catalog {
                    Some(answer) => r == answer,
                    None => r == Ok::<_, String>(None::<CarrierProfileRecord>),
                },
            },
    {
        match local {
            Some(Ok(record)) => Ok(Some(record)),
            Some(Err(error)) => Err(error),
            None => match catalog {
                Some(answer) => answer,
                None => Ok(None),
            },
        }
    }
}

// ----------------------------------------------------------------- older files

/// A line that is a comment: the first character that is not white is a `#`.
pub open spec fn comment_line(line: Seq<char>) -> bool {
    let i = text::skip_white(line, 0);
    i < line.len() && line[i] == '#'
}

/// The lines before `n` that are no comments.
pub open spec fn plain_lines(lines: Seq<Seq<char>>, n: int) -> Seq<Seq<char>>
    decreases n,
{
    if n <= 0 {
        seq![]
    } else if comment_line(lines[n - 1]) {
        plain_lines(lines, n - 1)
    } else {
        plain_lines(lines, n - 1).push(lines[n - 1])
    }
}

/// Lines with a line feed between each and the next.
pub open spec fn joined_lines(lines: Seq<Seq<char>>) -> Seq<char>
    decreases lines.len(),
{
    if lines.len() == 0 {
        seq![]
    } else if lines.len() == 1 {
        lines[0]
    } else {
        joined_lines(lines.drop_last()).push('\n') + lines.last()
    }
}

fn is_comment_line(line: &[char]) -> (r: bool)
    ensures
        r == comment_line(line@),
{
    let mut i: usize = 0;
    while i < line.len() && text::is_white(line[i])
        invariant
            i <= line@.len(),
            text::skip_white(line@, 0) == text::skip_white(line@, i as int),
        decreases line@.len() - i,
    {
        i += 1;
    }
    i < line.len() && line[i] == '#'
}

/// A text without its lines that are comments.
pub fn without_comment_lines(content: &str) -> (r: String)
    ensures
        r@ == joined_lines(
            plain_lines(text::lines(content@), text::lines(content@).len() as int),
        ),
{
    let chars = text::chars_of(content);
    let lines = text::lines_of(chars.as_slice());
    let ghost all = text::lines(content@);
    let ghost mut kept: Seq<Seq<char>> = seq![];
    let mut out: Vec<char> = Vec::new();
    let mut first: bool = true;
    let mut i: usize = 0;
    assert(out@ =~= joined_lines(kept));
    while i < lines.len()
        invariant
            i <= lines@.len(),
            all == text::lines(content@),
            text::views(lines@) == all,
            kept == plain_lines(all, i as int),
            out@ == joined_lines(kept),
            first == (kept.len() == 0),
        decreases lines@.len() - i,
    {
        assert(all[i as int] == lines@[i as int]@);
        if !is_comment_line(lines[i]) {
            let ghost before = kept;
            proof {
                kept = kept.push(all[i as int]);
                assert(kept.drop_last() =~= before);
            }
            if !first {
                out.push('\n');
            }
            text::push_slice(&mut out, lines[i]);
            assert(out@ =~= joined_lines(kept));
            first = false;
        }
        i += 1;
    }
    text::string_of(out.as_slice())
}

// -------------------------------------------------------------------------- laws

proof fn lemma_index(list: Seq<Listed>, id: Seq<char>, i: int)
    requires
        0 <= i,
    ensures
        match index_from(list, id, i) {
            Some(k) => i <= k < list.len() && list[k].id == id,
            None => forall|k: int| i <= k < list.len() ==> (#[trigger] list[k]).id != id,
        },
    decreases list.len() - i,
{
    if i < list.len() && list[i].id != id {
        lemma_index(list, id, i + 1);
    }
}

proof fn lemma_place(list: Seq<Listed>, id: Seq<char>, i: int)
    requires
        0 <= i <= list.len(),
    ensures
        i <= place_from(list, id, i) <= list.len(),
        forall|k: int|
            i <= k < place_from(list, id, i) ==> order::less((#[trigger] list[k]).id, id),
        place_from(list, id, i) < list.len() ==> !order::less(
            list[place_from(list, id, i)].id,
            id,
        ),
    decreases list.len() - i,
{
    if i < list.len() && order::less(list[i].id, id) {
        lemma_place(list, id, i + 1);
    }
}

proof fn lemma_found(list: Seq<Listed>, k: int)
    requires
        sorted(list),
        0 <= k < list.len(),
    ensures
        found(list, list[k].id) == Some(list[k]),
{
    lemma_index(list, list[k].id, 0);
    let m = index_from(list, list[k].id, 0)->0;
    if m != k {
        order::lemma_less_irreflexive(list[k].id, 0);
    }
}

/// A profile that is listed is found under its id, the ids stay in order, and what
/// stood under another id still does.
pub proof fn law_listing_replaces_one_id(list: Seq<Listed>, p: Listed, id: Seq<char>)
    requires
        sorted(list),
    ensures
        sorted(with_profile(list, p)),
        found(with_profile(list, p), p.id) == Some(p),
        id != p.id ==> found(with_profile(list, p), id) == found(list, id),
{
    let after = with_profile(list, p);
    lemma_index(list, p.id, 0);
    match index_from(list, p.id, 0) {
        Some(k) => {
            assert forall|i: int, j: int| 0 <= i < j < after.len() implies order::less(
                (#[trigger] after[i]).id,
                (#[trigger] after[j]).id,
            ) by {
                assert(after[i].id == list[i].id);
                assert(after[j].id == list[j].id);
            }
            assert(after[k] == p);
            lemma_found(after, k);
            if id != p.id {
                lemma_index(list, id, 0);
                lemma_index(after, id, 0);
                match index_from(list, id, 0) {
                    Some(m) => {
                        assert(after[m] == list[m]);
                        lemma_found(after, m);
                    },
                    None => {
                        if index_from(after, id, 0) is Some {
                            let m = index_from(after, id, 0)->0;
                            assert(after[m].id == list[m].id);
                        }
                    },
                }
            }
        },
        None => {
            let at = place_from(list, p.id, 0);
            lemma_place(list, p.id, 0);
            if at < list.len() {
                order::lemma_less_total(list[at].id, p.id, 0);
            }
            assert forall|i: int, j: int| 0 <= i < j < after.len() implies order::less(
                (#[trigger] after[i]).id,
                (#[trigger] after[j]).id,
            ) by {
                if j < at {
                    assert(after[i] == list[i] && after[j] == list[j]);
                } else if i < at && j == at {
                    assert(after[i] == list[i]);
                } else if i < at {
                    assert(after[i] == list[i] && after[j] == list[j - 1]);
                } else if i == at {
                    assert(after[j] == list[j - 1]);
                    if j - 1 > at {
                        assert(order::less(list[at].id, list[j - 1].id));
                        order::lemma_less_transitive(p.id, list[at].id, list[j - 1].id, 0);
                    }
                } else {
                    assert(after[i] == list[i - 1] && after[j] == list[j - 1]);
                }
            }
            assert(after[at] == p);
            lemma_found(after, at);
            if id != p.id {
                lemma_index(list, id, 0);
                lemma_index(after, id, 0);
                match index_from(list, id, 0) {
                    Some(m) => {
                        let k = if m < at {
                            m
                        } else {
                            m + 1
                        };
                        assert(after[k] == list[m]);
                        lemma_found(after, k);
                    },
                    None => {
                        if index_from(after, id, 0) is Some {
                            let m = index_from(after, id, 0)->0;
                            if m < at {
                                assert(after[m] == list[m]);
                            } else if m > at {
                                assert(after[m] == list[m - 1]);
                            }
                        }
                    },
                }
            }
        },
    }
}

proof fn lemma_with_profiles(list: Seq<Listed>, more: Seq<Listed>, n: int, id: Seq<char>)
    requires
        sorted(list),
        0 <= n <= more.len(),
    ensures
        sorted(with_profiles(list, more, n)),
        (forall|i: int| 0 <= i < n ==> (#[trigger] more[i]).id != id) ==> found(
            with_profiles(list, more, n),
            id,
        ) == found(list, id),
        n > 0 && more[n - 1].id == id ==> found(with_profiles(list, more, n), id) == Some(
            more[n - 1],
        ),
    decreases n,
{
    if n > 0 {
        lemma_with_profiles(list, more, n - 1, id);
        law_listing_replaces_one_id(with_profiles(list, more, n - 1), more[n - 1], id);
    }
}

/// An override wins: under the id of the last local profile stands that profile,
/// whatever the catalog holds. Without a local profile of an id, what the catalog
/// has under it stands: taking an override away restores the catalog.
pub proof fn law_override_wins_until_removed(
    catalog: Seq<Listed>,
    local: Seq<Listed>,
    id: Seq<char>,
)
    ensures
        sorted(merged(catalog, local)),
        local.len() > 0 ==> found(merged(catalog, local), local.last().id) == Some(local.last()),
        (forall|i: int| 0 <= i < local.len() ==> (#[trigger] local[i]).id != id) ==> found(
            merged(catalog, local),
            id,
        ) == found(merged(catalog, seq![]), id),
{
    let none: Seq<Listed> = seq![];
    assert(sorted(none));
    lemma_with_profiles(none, catalog, catalog.len() as int, id);
    let base = with_profiles(none, catalog, catalog.len() as int);
    lemma_with_profiles(base, local, local.len() as int, id);
    if local.len() > 0 {
        lemma_with_profiles(base, local, local.len() as int, local.last().id);
    }
}

proof fn lemma_others(rows: Seq<Row>, id: Seq<char>, n: int)
    requires
        0 <= n <= rows.len(),
    ensures
        forall|i: int|
            0 <= i < others_upto(rows, id, n).len() ==> (#[trigger] others_upto(rows, id, n)[i]).id
                != id,
    decreases n,
{
    if n > 0 {
        lemma_others(rows, id, n - 1);
    }
}

proof fn lemma_readable(rows: Seq<Row>, id: Seq<char>, n: int)
    requires
        0 <= n <= rows.len(),
        forall|i: int| 0 <= i < n ==> (#[trigger] rows[i]).id != id,
    ensures
        forall|i: int|
            0 <= i < readable_upto(rows, n).len() ==> (#[trigger] readable_upto(rows, n)[i]).id
                != id,
    decreases n,
{
    if n > 0 {
        lemma_readable(rows, id, n - 1);
        let before = readable_upto(rows, n - 1);
        let after = readable_upto(rows, n);
        assert forall|i: int| 0 <= i < after.len() implies (#[trigger] after[i]).id != id by {
            if i < before.len() {
                assert(after[i] == before[i]);
            } else {
                assert(after[i] == row_listed(rows[n - 1]));
            }
        }
    }
}

proof fn lemma_readable_prefix(rows: Seq<Row>, row: Row, n: int)
    requires
        0 <= n <= rows.len(),
    ensures
        readable_upto(rows.push(row), n) == readable_upto(rows, n),
    decreases n,
{
    if n > 0 {
        lemma_readable_prefix(rows, row, n - 1);
        assert(rows.push(row)[n - 1] == rows[n - 1]);
    }
}

/// A profile that was saved is listed under the id of its record, whatever the
/// catalog has there; one that was deleted is not, and what the catalog has under its id is listed
/// again.
pub proof fn law_saved_profiles_are_listed_until_deleted(
    s: Store,
    catalog: Seq<Listed>,
    row: Row,
    id: Seq<char>,
)
    requires
        s.catalog == Ok::<_, Seq<char>>(catalog),
        row.unreadable is None,
    ensures
        ({
            let after = Store { rows: saved(s.rows, filed(row)), ..s };
            store_list(after) is Ok && found(store_list(after)->Ok_0, row.record_id) == Some(
                row_listed(filed(row)),
            )
        }),
        ({
            let after = Store { rows: others(s.rows, id), ..s };
            store_list(after) is Ok && found(store_list(after)->Ok_0, id) == found(
                merged(catalog, seq![]),
                id,
            )
        }),
{
    let row = filed(row);
    let rows = saved(s.rows, row);
    let kept = others(s.rows, row.id);
    lemma_readable_prefix(kept, row, kept.len() as int);
    assert(rows.len() - 1 == kept.len());
    assert(rows[rows.len() - 1] == row);
    let local = readable(rows);
    assert(local == readable_upto(rows, rows.len() - 1).push(row_listed(row)));
    assert(local.last() == row_listed(row));
    law_override_wins_until_removed(catalog, local, row.id);
    let left = others(s.rows, id);
    lemma_others(s.rows, id, s.rows.len() as int);
    lemma_readable(left, id, left.len() as int);
    law_override_wins_until_removed(catalog, readable(left), id);
}

/// The columns of a row have no say in what an identity resolves to, nor in what is
/// published of the row; its record has none in how it is listed.
pub proof fn law_columns_are_listed_and_records_are_matched(
    row: Row,
    id: Seq<char>,
    plmn: Seq<char>,
    digits: Seq<char>,
    home: Option<Seq<char>>,
    access: CatalogAccessKind,
)
    ensures
        row_fits(Row { id, plmn, ..row }, digits, home, access) == row_fits(
            row,
            digits,
            home,
            access,
        ),
        row_checked(Row { id, plmn, ..row }) == row_checked(row),
        row_listed(Row { record_id: id, record_plmn: plmn, ..row }) == row_listed(row),
{
}

/// A pinned line never falls back to the profile of its identity.
pub proof fn law_pinned_line_is_not_guessed(
    pinned: Seq<char>,
    imsi: Seq<char>,
    other_imsi: Seq<char>,
    home: Option<Seq<char>>,
    other_home: Option<Seq<char>>,
    access: CatalogAccessKind,
    rows: Seq<Row>,
    facts: Option<Facts>,
)
    requires
        text::trim(pinned).len() > 0,
    ensures
        resolved_for(Some(pinned), imsi, home, access, rows, facts) == resolved_for(
            Some(pinned),
            other_imsi,
            other_home,
            access,
            rows,
            facts,
        ),
        resolved_for(Some(pinned), imsi, home, access, rows, facts) != Ok::<_, Seq<char>>(
            None::<ResolvedProfile>,
        ),
{
}

/// Without a catalog and without a row that fits, there is no profile: none is
/// made up.
pub proof fn law_nothing_is_made_up(
    imsi: Seq<char>,
    home: Option<Seq<char>>,
    access: CatalogAccessKind,
)
    ensures
        resolved_for(None, imsi, home, access, seq![], None) == Ok::<_, Seq<char>>(
            None::<ResolvedProfile>,
        ),
        resolved_by_plmn(None, None) is None,
{
}

/// No match of the catalog is published against a local profile.
pub proof fn law_local_matches_stand_alone(
    catalog: Seq<Listed>,
    local: Seq<Listed>,
    matches: Seq<Matched>,
    n: int,
    k: int,
)
    requires
        0 <= n <= matches.len(),
        0 <= k < kept_matches(catalog, local, matches, n).len(),
    ensures
        !has_id(local, kept_matches(catalog, local, matches, n)[k].profile.id),
        !has_plmn(local, kept_matches(catalog, local, matches, n)[k].profile.plmn),
    decreases n,
{
    let before = kept_matches(catalog, local, matches, n - 1);
    if k < before.len() {
        law_local_matches_stand_alone(catalog, local, matches, n - 1, k);
    }
}

/// An edit through the older shape reads back: what was written is listed, with
/// what was blank or unknown left as it was.
pub proof fn law_edit_reads_back(r: Record, e: External)
    ensures
        ({
            let back = external_of(edited(r, e));
            &&& back.profile_id == e.profile_id
            &&& back.epdg_host == e.epdg_host
            &&& back.epdg_port == e.epdg_port
            &&& back.dns_server == filled(e.dns_server)
            &&& known_stack(e.ip_stack) ==> back.ip_stack == e.ip_stack
            &&& !known_stack(e.ip_stack) ==> back.ip_stack == r.ip_stack
            &&& filled(e.apn) is Some ==> back.apn == e.apn
            &&& filled(e.apn) is None ==> back.apn == r.apn
            &&& edited(r, e).policy == r.policy && edited(r, e).plmn == r.plmn
        }),
{
}

proof fn lemma_behind(list: Seq<External>, id: Seq<char>, i: int)
    requires
        0 <= i <= list.len(),
    ensures
        i <= behind_from(list, id, i) <= list.len(),
        forall|k: int|
            i <= k < behind_from(list, id, i) ==> !order::less(id, (#[trigger] list[k]).profile_id),
        behind_from(list, id, i) < list.len() ==> order::less(
            id,
            list[behind_from(list, id, i)].profile_id,
        ),
    decreases list.len() - i,
{
    if i < list.len() && !order::less(id, list[i].profile_id) {
        lemma_behind(list, id, i + 1);
    }
}

/// The list in the older shape holds every entry, and is in the order of the ids.
pub proof fn law_external_list_is_ordered(items: Seq<External>, n: int)
    requires
        0 <= n <= items.len(),
    ensures
        ordered_upto(items, n).to_multiset() == items.take(n).to_multiset(),
        forall|i: int, j: int|
            0 <= i < j < ordered_upto(items, n).len() ==> !order::less(
                (#[trigger] ordered_upto(items, n)[j]).profile_id,
                (#[trigger] ordered_upto(items, n)[i]).profile_id,
            ),
    decreases n,
{
    broadcast use vstd::seq_lib::group_to_multiset_ensures;

    if n == 0 {
        assert(items.take(0) =~= seq![]);
    } else {
        law_external_list_is_ordered(items, n - 1);
        let before = ordered_upto(items, n - 1);
        let item = items[n - 1];
        let at = behind_from(before, item.profile_id, 0);
        lemma_behind(before, item.profile_id, 0);
        let after = ordered_upto(items, n);
        assert(after == before.insert(at, item));
        assert(after.remove(at) =~= before);
        assert(after[at] == item);
        assert(after.contains(item));
        assert(after.to_multiset() =~= before.to_multiset().insert(item));
        assert(items.take(n) =~= items.take(n - 1).push(item));
        assert forall|i: int, j: int| 0 <= i < j < after.len() implies !order::less(
            (#[trigger] after[j]).profile_id,
            (#[trigger] after[i]).profile_id,
        ) by {
            let a = if i < at {
                i
            } else {
                i - 1
            };
            let b = if j < at {
                j
            } else {
                j - 1
            };
            if i < at && j == at {
                assert(after[i] == before[i]);
            } else if i == at {
                assert(after[j] == before[j - 1]);
                if order::less(before[j - 1].profile_id, item.profile_id) {
                    if j - 1 == at {
                        order::lemma_less_transitive(
                            item.profile_id,
                            before[at].profile_id,
                            item.profile_id,
                            0,
                        );
                        order::lemma_less_irreflexive(item.profile_id, 0);
                    } else {
                        order::lemma_less_transitive(
                            before[j - 1].profile_id,
                            item.profile_id,
                            before[at].profile_id,
                            0,
                        );
                        assert(!order::less(before[j - 1].profile_id, before[at].profile_id));
                    }
                }
            } else {
                assert(after[i] == before[a] && after[j] == before[b]);
            }
        }
    }
}

} // verus!
