//! Marketplace listings: plugin and extension entries with metadata, versions, pricing,
//! ratings and discovery.
//!
//! Ratings are kept in thousandths of a star: a rating of 4.5 stars is 4500, and the
//! accepted range is 1000 (one star) to 5000 (five stars).
use vstd::prelude::*;
use crate::text::{has_substring, lex_lt, spec_to_lowercase, str_contains, str_eq, str_lt, to_lowercase};
use crate::types::{now_millis, EntityId};
use crate::marketplace::installation::{id_pos, ids_unique};

verus! {

/// A listing's category.
#[derive(Debug, Clone, Copy, PartialEq, Eq, Structural)]
pub enum Category {
    Navigation,
    Traffic,
}

/// Listing status in the marketplace.
#[derive(Debug, Clone, Copy, PartialEq, Eq, Structural)]
pub enum ListingStatus {
    /// Under review by marketplace team.
    PendingReview,
    /// Published and visible.
    Published,
    /// Temporarily hidden by author.
    Unlisted,
    /// Removed by marketplace for policy violation.
    Suspended,
    /// Archived by author.
    Archived,
}

/// Filter by pricing type.
#[derive(Debug, Clone, Copy, PartialEq, Eq, Structural)]
pub enum PricingFilter {
    Free,
    Paid,
    Any,
}

/// Pricing model for a listing.
#[derive(Debug)]
pub enum PricingModel {
    /// Completely free.
    Free,
    /// One-time purchase.
    Paid { price_cents: u64, currency: String },
    /// Recurring subscription.
    Subscription { monthly_cents: u64, currency: String },
    /// Free with premium features.
    Freemium { base_free: bool, premium_monthly_cents: u64, currency: String },
}

/// Sort order for search results.
#[derive(Debug, Clone, Copy, PartialEq, Eq, Structural)]
pub enum SortOrder {
    Popularity,
    Rating,
    Newest,
    Name,
}

/// Version stability level.
#[derive(Debug, Clone, Copy, PartialEq, Eq, Structural)]
pub enum VersionStability {
    /// Production-ready.
    Stable,
    /// Feature-complete, testing in progress.
    Beta,
    /// Early development, may have breaking changes.
    Alpha,
    /// Development snapshot.
    Dev,
}

/// A version entry for a listing.
#[derive(Debug)]
pub struct VersionEntry {
    pub version: String,
    pub changelog: String,
    pub stability: VersionStability,
    pub min_sdk_version: String,
    pub size_bytes: u64,
    pub checksum: String,
    /// Publication time, in milliseconds since the Unix epoch.
    pub published_at_ms: i64,
}

/// A marketplace listing for a plugin or extension.
#[derive(Debug)]
pub struct Listing {
    pub id: EntityId,
    pub name: String,
    pub slug: String,
    pub description: String,
    pub author_id: EntityId,
    pub author_name: String,
    pub category: Category,
    pub tags: Vec<String>,
    pub versions: Vec<VersionEntry>,
    pub pricing: PricingModel,
    pub status: ListingStatus,
    pub download_count: u64,
    /// Sum of all ratings, in thousandths of a star.
    pub rating_sum: u128,
    pub rating_count: u64,
    /// Creation time, in milliseconds since the Unix epoch.
    pub created_at_ms: i64,
    /// Last change, in milliseconds since the Unix epoch.
    pub updated_at_ms: i64,
    pub featured: bool,
}

/// Two pricing models agree.
pub open spec fn same_pricing(a: PricingModel, b: PricingModel) -> bool {
    match (a, b) {
        (PricingModel::Free, PricingModel::Free) => true,
        (
            PricingModel::Paid { price_cents: p1, currency: c1 },
            PricingModel::Paid { price_cents: p2, currency: c2 },
        ) => p1 == p2 && c1@ == c2@,
        (
            PricingModel::Subscription { monthly_cents: m1, currency: c1 },
            PricingModel::Subscription { monthly_cents: m2, currency: c2 },
        ) => m1 == m2 && c1@ == c2@,
        (
            PricingModel::Freemium { base_free: f1, premium_monthly_cents: m1, currency: c1 },
            PricingModel::Freemium { base_free: f2, premium_monthly_cents: m2, currency: c2 },
        ) => f1 == f2 && m1 == m2 && c1@ == c2@,
        _ => false,
    }
}

/// Two version entries agree on every field.
pub open spec fn same_version(a: VersionEntry, b: VersionEntry) -> bool {
    &&& a.version@ == b.version@
    &&& a.changelog@ == b.changelog@
    &&& a.stability == b.stability
    &&& a.min_sdk_version@ == b.min_sdk_version@
    &&& a.size_bytes == b.size_bytes
    &&& a.checksum@ == b.checksum@
    &&& a.published_at_ms == b.published_at_ms
}

/// The character sequences of some strings.
pub open spec fn string_views(s: Seq<String>) -> Seq<Seq<char>> {
    s.map_values(|t: String| t@)
}

/// The version strings of some version entries.
pub open spec fn version_names(s: Seq<VersionEntry>) -> Seq<Seq<char>> {
    s.map_values(|v: VersionEntry| v.version@)
}

/// Two lists of version entries agree entry by entry.
pub open spec fn same_versions(a: Seq<VersionEntry>, b: Seq<VersionEntry>) -> bool {
    a.len() == b.len() && forall|i: int| 0 <= i < a.len() ==> same_version(#[trigger] a[i], b[i])
}

/// Two listings agree on every field.
pub open spec fn same_listing(a: Listing, b: Listing) -> bool {
    &&& a.id == b.id
    &&& a.name@ == b.name@
    &&& a.slug@ == b.slug@
    &&& a.description@ == b.description@
    &&& a.author_id == b.author_id
    &&& a.author_name@ == b.author_name@
    &&& a.category == b.category
    &&& string_views(a.tags@) == string_views(b.tags@)
    &&& same_versions(a.versions@, b.versions@)
    &&& same_pricing(a.pricing, b.pricing)
    &&& a.status == b.status
    &&& a.download_count == b.download_count
    &&& a.rating_sum == b.rating_sum
    &&& a.rating_count == b.rating_count
    &&& a.created_at_ms == b.created_at_ms
    &&& a.updated_at_ms == b.updated_at_ms
    &&& a.featured == b.featured
}

/// The numerator of a listing's average rating (0 when it has no ratings).
pub open spec fn rating_num(l: Listing) -> int {
    if l.rating_count == 0 {
        0
    } else {
        l.rating_sum as int
    }
}

/// The denominator of a listing's average rating (1 when it has no ratings).
pub open spec fn rating_den(l: Listing) -> int {
    if l.rating_count == 0 {
        1
    } else {
        l.rating_count as int
    }
}

impl Clone for PricingModel {
    /// A copy agreeing on every field.
    fn clone(&self) -> (c: Self)
        ensures
            same_pricing(c, *self),
    {
        match self {
            PricingModel::Free => PricingModel::Free,
            PricingModel::Paid { price_cents, currency } => PricingModel::Paid {
                price_cents: *price_cents,
                currency: currency.clone(),
            },
            PricingModel::Subscription { monthly_cents, currency } => PricingModel::Subscription {
                monthly_cents: *monthly_cents,
                currency: currency.clone(),
            },
            PricingModel::Freemium { base_free, premium_monthly_cents, currency } =>
                PricingModel::Freemium {
                base_free: *base_free,
                premium_monthly_cents: *premium_monthly_cents,
                currency: currency.clone(),
            },
        }
    }
}

impl Clone for VersionEntry {
    /// A copy agreeing on every field.
    fn clone(&self) -> (c: Self)
        ensures
            same_version(c, *self),
    {
        VersionEntry {
            version: self.version.clone(),
            changelog: self.changelog.clone(),
            stability: self.stability,
            min_sdk_version: self.min_sdk_version.clone(),
            size_bytes: self.size_bytes,
            checksum: self.checksum.clone(),
            published_at_ms: self.published_at_ms,
        }
    }
}

/// A copy of a list of strings.
fn copy_strings(v: &Vec<String>) -> (c: Vec<String>)
    ensures
        c@.len() == v@.len(),
        string_views(c@) == string_views(v@),
{
    let mut c: Vec<String> = Vec::new();
    let mut i: usize = 0;
    while i < v.len()
        invariant
            i <= v@.len(),
            c@.len() == i,
            forall|k: int| 0 <= k < i ==> (#[trigger] c@[k])@ == v@[k]@,
        decreases v@.len() - i,
    {
        let t = v[i].clone();
        c.push(t);
        i = i + 1;
    }
    assert(string_views(c@) =~= string_views(v@));
    c
}

/// A copy of a list of version entries.
fn copy_versions(v: &Vec<VersionEntry>) -> (c: Vec<VersionEntry>)
    ensures
        same_versions(c@, v@),
{
    let mut c: Vec<VersionEntry> = Vec::new();
    let mut i: usize = 0;
    while i < v.len()
        invariant
            i <= v@.len(),
            c@.len() == i,
            forall|k: int| 0 <= k < i ==> same_version(#[trigger] c@[k], v@[k]),
        decreases v@.len() - i,
    {
        c.push(v[i].clone());
        i = i + 1;
    }
    c
}

impl Clone for Listing {
    /// A copy agreeing on every field.
    fn clone(&self) -> (c: Self)
        ensures
            same_listing(c, *self),
    {
        Listing {
            id: self.id,
            name: self.name.clone(),
            slug: self.slug.clone(),
            description: self.description.clone(),
            author_id: self.author_id,
            author_name: self.author_name.clone(),
            category: self.category,
            tags: copy_strings(&self.tags),
            versions: copy_versions(&self.versions),
            pricing: self.pricing.clone(),
            status: self.status,
            download_count: self.download_count,
            rating_sum: self.rating_sum,
            rating_count: self.rating_count,
            created_at_ms: self.created_at_ms,
            updated_at_ms: self.updated_at_ms,
            featured: self.featured,
        }
    }
}

impl Listing {
    /// Average rating in thousandths of a star, rounded down (0 if no ratings).
    pub fn average_rating(&self) -> (r: u128)
        ensures
            r == rating_num(*self) / rating_den(*self),
    {
        if self.rating_count == 0 {
            0
        } else {
            self.rating_sum / (self.rating_count as u128)
        }
    }

    /// Latest stable version, if any.
    pub fn latest_stable(&self) -> (r: Option<&VersionEntry>)
        ensures
            match r {
                Some(v) => exists|i: int|
                    0 <= i < self.versions@.len() && self.versions@[i] == *v && v.stability
                        == VersionStability::Stable && forall|j: int|
                        i < j < self.versions@.len() ==> self.versions@[j].stability
                            != VersionStability::Stable,
                None => forall|j: int|
                    0 <= j < self.versions@.len() ==> self.versions@[j].stability
                        != VersionStability::Stable,
            },
    {
        let mut i: usize = self.versions.len();
        while i > 0
            invariant
                i <= self.versions@.len(),
                forall|j: int|
                    i <= j < self.versions@.len() ==> self.versions@[j].stability
                        != VersionStability::Stable,
            decreases i,
        {
            i = i - 1;
            if self.versions[i].stability == VersionStability::Stable {
                return Some(&self.versions[i]);
            }
        }
        None
    }

    /// Latest version of any stability.
    pub fn latest_version(&self) -> (r: Option<&VersionEntry>)
        ensures
            match r {
                Some(v) => self.versions@.len() > 0 && *v == self.versions@.last(),
                None => self.versions@.len() == 0,
            },
    {
        if self.versions.len() == 0 {
            None
        } else {
            Some(&self.versions[self.versions.len() - 1])
        }
    }
}

/// The tags after adding `new` one by one, skipping each that is present already.
pub open spec fn merge_tags(cur: Seq<Seq<char>>, new: Seq<Seq<char>>) -> Seq<Seq<char>>
    decreases new.len(),
{
    if new.len() == 0 {
        cur
    } else {
        let m = merge_tags(cur, new.drop_last());
        if m.contains(new.last()) {
            m
        } else {
            m.push(new.last())
        }
    }
}

/// A version entry holds the given fields (its publication time is not fixed).
pub open spec fn version_holds(
    v: VersionEntry,
    version: Seq<char>,
    changelog: Seq<char>,
    stability: VersionStability,
    min_sdk: Seq<char>,
    size_bytes: u64,
    checksum: Seq<char>,
) -> bool {
    &&& v.version@ == version
    &&& v.changelog@ == changelog
    &&& v.stability == stability
    &&& v.min_sdk_version@ == min_sdk
    &&& v.size_bytes == size_bytes
    &&& v.checksum@ == checksum
}

/// Whether `t` is among the strings of `v`.
fn contains_string(v: &Vec<String>, t: &str) -> (b: bool)
    ensures
        b == string_views(v@).contains(t@),
{
    let mut i: usize = 0;
    while i < v.len()
        invariant
            i <= v@.len(),
            forall|j: int| 0 <= j < i ==> v@[j]@ != t@,
        decreases v@.len() - i,
    {
        if str_eq(v[i].as_str(), t) {
            assert(string_views(v@)[i as int] == t@);
            return true;
        }
        i = i + 1;
    }
    proof {
        if string_views(v@).contains(t@) {
            let j = choose|j: int| 0 <= j < string_views(v@).len() && string_views(v@)[j] == t@;
            assert(v@[j]@ == t@);
        }
    }
    false
}

/// Whether some version entry of `v` has the version string `t`.
fn has_version(v: &Vec<VersionEntry>, t: &str) -> (b: bool)
    ensures
        b == version_names(v@).contains(t@),
{
    let mut i: usize = 0;
    while i < v.len()
        invariant
            i <= v@.len(),
            forall|j: int| 0 <= j < i ==> v@[j].version@ != t@,
        decreases v@.len() - i,
    {
        if str_eq(v[i].version.as_str(), t) {
            assert(version_names(v@)[i as int] == t@);
            return true;
        }
        i = i + 1;
    }
    proof {
        if version_names(v@).contains(t@) {
            let j = choose|j: int| 0 <= j < version_names(v@).len() && version_names(v@)[j] == t@;
            assert(v@[j].version@ == t@);
        }
    }
    false
}

/// Search and sort criteria for marketplace queries.
#[derive(Debug, Clone)]
pub struct SearchCriteria {
    pub query: Option<String>,
    pub category: Option<Category>,
    pub pricing: Option<PricingFilter>,
    /// Least average rating, in thousandths of a star.
    pub min_rating: Option<u64>,
    pub sort_by: SortOrder,
    pub limit: usize,
}

impl Default for SearchCriteria {
    /// No filter, most downloaded first, at most 50 results.
    fn default() -> (c: Self)
        ensures
            c.query is None,
            c.category is None,
            c.pricing is None,
            c.min_rating is None,
            c.sort_by == SortOrder::Popularity,
            c.limit == 50,
    {
        SearchCriteria {
            query: None,
            category: None,
            pricing: None,
            min_rating: None,
            sort_by: SortOrder::Popularity,
            limit: 50,
        }
    }
}

/// The lowercased `text` contains `ql`.
pub open spec fn hits(text: Seq<char>, ql: Seq<char>) -> bool {
    has_substring(spec_to_lowercase(text), ql)
}

/// A listing's name, description or one of its tags contains the lowercase query `ql`,
/// compared in lowercase.
pub open spec fn matches_query(l: Listing, ql: Seq<char>) -> bool {
    ||| hits(l.name@, ql)
    ||| hits(l.description@, ql)
    ||| exists|k: int| 0 <= k < l.tags@.len() && hits(#[trigger] l.tags@[k]@, ql)
}

/// A pricing model passes a pricing filter.
pub open spec fn pricing_passes(p: PricingModel, f: PricingFilter) -> bool {
    match f {
        PricingFilter::Free => p is Free,
        PricingFilter::Paid => !(p is Free),
        PricingFilter::Any => true,
    }
}

/// A listing's average rating is at least `m` thousandths of a star.
pub open spec fn rating_at_least(l: Listing, m: u64) -> bool {
    rating_num(l) >= m * rating_den(l)
}

/// A listing is published and passes every filter the criteria set.
pub open spec fn matches_criteria(l: Listing, c: SearchCriteria) -> bool {
    &&& l.status == ListingStatus::Published
    &&& (c.query matches Some(q) ==> matches_query(l, spec_to_lowercase(q@)))
    &&& (c.category matches Some(cat) ==> l.category == cat)
    &&& (c.pricing matches Some(f) ==> pricing_passes(l.pricing, f))
    &&& (c.min_rating matches Some(m) ==> rating_at_least(l, m))
}

/// The predicate "passes the criteria".
pub open spec fn criteria_pred(c: SearchCriteria) -> spec_fn(Listing) -> bool {
    |l: Listing| matches_criteria(l, c)
}

/// `a` comes strictly before `b` in this sort order: more downloads, a higher average
/// rating, a later creation time, or a name that sorts first.
pub open spec fn precedes(order: SortOrder, a: Listing, b: Listing) -> bool {
    match order {
        SortOrder::Popularity => a.download_count > b.download_count,
        SortOrder::Rating => rating_num(a) * rating_den(b) > rating_num(b) * rating_den(a),
        SortOrder::Newest => a.created_at_ms > b.created_at_ms,
        SortOrder::Name => lex_lt(a.name@, b.name@),
    }
}

/// No listing comes strictly before one ahead of it.
pub open spec fn sorted_for(order: SortOrder, s: Seq<Listing>) -> bool {
    forall|a: int, b: int| 0 <= a < b < s.len() ==> !precedes(order, s[b], s[a])
}

/// The predicate "by this author".
pub open spec fn by_author_pred(author: EntityId) -> spec_fn(Listing) -> bool {
    |l: Listing| l.author_id == author
}

/// The predicate "published".
pub open spec fn published_pred() -> spec_fn(Listing) -> bool {
    |l: Listing| l.status == ListingStatus::Published
}

/// The predicate "featured and published".
pub open spec fn featured_pred() -> spec_fn(Listing) -> bool {
    |l: Listing| l.featured && l.status == ListingStatus::Published
}

/// Comparing two fractions by their whole parts, then their remainders.
proof fn lemma_fraction_order(na: int, da: int, nb: int, db: int)
    requires
        na >= 0,
        nb >= 0,
        da > 0,
        db > 0,
    ensures
        (na * db > nb * da) == (na / da > nb / db || (na / da == nb / db && (na % da) * db > (nb
            % db) * da)),
{
    let qa = na / da;
    let ra = na % da;
    let qb = nb / db;
    let rb = nb % db;
    vstd::arithmetic::div_mod::lemma_fundamental_div_mod(na, da);
    vstd::arithmetic::div_mod::lemma_fundamental_div_mod(nb, db);
    vstd::arithmetic::div_mod::lemma_mod_pos_bound(na, da);
    vstd::arithmetic::div_mod::lemma_mod_pos_bound(nb, db);
    assert(na * db - nb * da == da * db * (qa - qb) + ra * db - rb * da) by (nonlinear_arith)
        requires
            na == da * qa + ra,
            nb == db * qb + rb,
    ;
    assert(0 <= ra * db < da * db) by (nonlinear_arith)
        requires
            0 <= ra < da,
            db > 0,
    ;
    assert(0 <= rb * da < da * db) by (nonlinear_arith)
        requires
            0 <= rb < db,
            da > 0,
    ;
    if qa > qb {
        assert(da * db * (qa - qb) >= da * db) by (nonlinear_arith)
            requires
                qa - qb >= 1,
                da > 0,
                db > 0,
        ;
    } else if qa < qb {
        assert(da * db * (qa - qb) <= -(da * db)) by (nonlinear_arith)
            requires
                qa - qb <= -1,
                da > 0,
                db > 0,
        ;
    } else {
        assert(da * db * (qa - qb) == 0) by (nonlinear_arith)
            requires
                qa == qb,
        ;
    }
}

/// The sort orders are irreflexive.
proof fn lemma_precedes_irreflexive(order: SortOrder, a: Listing)
    ensures
        !precedes(order, a, a),
{
    if order == SortOrder::Name {
        crate::text::lemma_lex_irreflexive(a.name@);
    }
}

/// The sort orders are transitive.
proof fn lemma_precedes_transitive(order: SortOrder, a: Listing, b: Listing, c: Listing)
    requires
        precedes(order, a, b),
        precedes(order, b, c),
    ensures
        precedes(order, a, c),
{
    match order {
        SortOrder::Rating => {
            let (na, da, nb, db, nc, dc) = (
                rating_num(a),
                rating_den(a),
                rating_num(b),
                rating_den(b),
                rating_num(c),
                rating_den(c),
            );
            assert(na * dc > nc * da) by (nonlinear_arith)
                requires
                    na * db > nb * da,
                    nb * dc > nc * db,
                    da > 0,
                    db > 0,
                    dc > 0,
            ;
        },
        SortOrder::Name => {
            crate::text::lemma_lex_transitive(a.name@, b.name@, c.name@);
        },
        _ => {},
    }
}

/// Whether the lowercased `text` contains `ql`.
fn text_hits(text: &str, ql: &str) -> (b: bool)
    ensures
        b == hits(text@, ql@),
{
    let lower = to_lowercase(text);
    str_contains(lower.as_str(), ql)
}

/// Whether a listing matches the lowercase query `ql`.
fn query_hits(l: &Listing, ql: &str) -> (b: bool)
    ensures
        b == matches_query(*l, ql@),
{
    if text_hits(l.name.as_str(), ql) || text_hits(l.description.as_str(), ql) {
        return true;
    }
    let mut k: usize = 0;
    while k < l.tags.len()
        invariant
            k <= l.tags@.len(),
            !hits(l.name@, ql@),
            !hits(l.description@, ql@),
            forall|j: int| 0 <= j < k ==> !hits(#[trigger] l.tags@[j]@, ql@),
        decreases l.tags@.len() - k,
    {
        if text_hits(l.tags[k].as_str(), ql) {
            return true;
        }
        k = k + 1;
    }
    false
}

/// A listing's average rating as a fraction: numerator and denominator.
fn rating_fraction(l: &Listing) -> (r: (u128, u128))
    ensures
        r.0 == rating_num(*l),
        r.1 == rating_den(*l),
        r.1 <= u64::MAX,
{
    if l.rating_count == 0 {
        (0, 1)
    } else {
        (l.rating_sum, l.rating_count as u128)
    }
}

/// Whether a listing's average rating is at least `m` thousandths of a star.
fn rating_passes(l: &Listing, m: u64) -> (b: bool)
    ensures
        b == rating_at_least(*l, m),
{
    let (n, d) = rating_fraction(l);
    assert((m as int) * (d as int) <= (u64::MAX as int) * (u64::MAX as int)) by (nonlinear_arith)
        requires
            0 <= m <= u64::MAX,
            0 <= d <= u64::MAX,
    ;
    n >= (m as u128) * d
}

/// Whether `a` has a strictly higher average rating than `b`.
fn rated_above(a: &Listing, b: &Listing) -> (r: bool)
    ensures
        r == precedes(SortOrder::Rating, *a, *b),
{
    let (na, da) = rating_fraction(a);
    let (nb, db) = rating_fraction(b);
    proof {
        lemma_fraction_order(na as int, da as int, nb as int, db as int);
    }
    let qa = na / da;
    let qb = nb / db;
    if qa != qb {
        return qa > qb;
    }
    let ra = na % da;
    let rb = nb % db;
    assert((ra as int) * (db as int) <= (u64::MAX as int) * (u64::MAX as int)) by (nonlinear_arith)
        requires
            0 <= ra < da,
            da <= u64::MAX,
            0 <= db <= u64::MAX,
    ;
    assert((rb as int) * (da as int) <= (u64::MAX as int) * (u64::MAX as int)) by (nonlinear_arith)
        requires
            0 <= rb < db,
            db <= u64::MAX,
            0 <= da <= u64::MAX,
    ;
    ra * db > rb * da
}

/// Whether `a` comes strictly before `b` in the sort order.
fn precedes_exec(order: SortOrder, a: &Listing, b: &Listing) -> (r: bool)
    ensures
        r == precedes(order, *a, *b),
{
    match order {
        SortOrder::Popularity => a.download_count > b.download_count,
        SortOrder::Rating => rated_above(a, b),
        SortOrder::Newest => a.created_at_ms > b.created_at_ms,
        SortOrder::Name => str_lt(a.name.as_str(), b.name.as_str()),
    }
}

/// Whether a listing passes the search criteria; `ql` is the lowercased query.
fn passes(l: &Listing, c: &SearchCriteria, ql: &Option<String>) -> (b: bool)
    requires
        c.query is Some <==> ql is Some,
        c.query matches Some(q) ==> ql->0@ == spec_to_lowercase(q@),
    ensures
        b == matches_criteria(*l, *c),
{
    if l.status != ListingStatus::Published {
        return false;
    }
    if let Some(q) = ql {
        if !query_hits(l, q.as_str()) {
            return false;
        }
    }
    if let Some(cat) = c.category {
        if l.category != cat {
            return false;
        }
    }
    if let Some(f) = c.pricing {
        let free = match &l.pricing {
            PricingModel::Free => true,
            _ => false,
        };
        let ok = match f {
            PricingFilter::Free => free,
            PricingFilter::Paid => !free,
            PricingFilter::Any => true,
        };
        if !ok {
            return false;
        }
    }
    if let Some(m) = c.min_rating {
        if !rating_passes(l, m) {
            return false;
        }
    }
    true
}

/// Insert `x` into `v`, sorted for `order`, after every listing that `x` does not come
/// strictly before.
fn insert_ranked<'a>(order: SortOrder, v: &mut Vec<&'a Listing>, x: &'a Listing)
    requires
        sorted_for(order, derefs(old(v)@)),
    ensures
        sorted_for(order, derefs(final(v)@)),
        derefs(final(v)@).to_multiset() == derefs(old(v)@).to_multiset().insert(*x),
        exists|t: int| 0 <= t <= old(v)@.len() && derefs(final(v)@) == derefs(old(v)@).insert(t, *x),
{
    let mut t: usize = 0;
    while t < v.len() && !precedes_exec(order, x, v[t])
        invariant
            t <= v@.len(),
            forall|a: int| 0 <= a < t ==> !precedes(order, *x, *v@[a]),
        decreases v@.len() - t,
    {
        t = t + 1;
    }
    let ghost r0 = v@;
    v.insert(t, x);
    proof {
        let s0 = derefs(r0);
        let s1 = derefs(v@);
        assert(s1 =~= s0.insert(t as int, *x));
        vstd::seq_lib::to_multiset_insert(s0, t as int, *x);
        assert forall|a: int, b: int| 0 <= a < b < s1.len() implies !precedes(order, s1[b], s1[a]) by {
            if b == t {
                assert(s1[a] == s0[a]);
            } else if a == t {
                let y = s0[t as int];
                assert(precedes(order, *x, y));
                assert(s1[b] == s0[b - 1]);
                if precedes(order, s1[b], *x) {
                    lemma_precedes_transitive(order, s1[b], *x, y);
                    if b - 1 == t {
                        lemma_precedes_irreflexive(order, y);
                    }
                }
            } else if a < t && b > t {
                assert(s1[a] == s0[a] && s1[b] == s0[b - 1]);
            } else if b < t {
                assert(s1[a] == s0[a] && s1[b] == s0[b]);
            } else {
                assert(s1[a] == s0[a - 1] && s1[b] == s0[b - 1]);
            }
        }
    }
}

/// Marketplace errors.
#[derive(Debug)]
pub enum MarketplaceError {
    /// No listing with this id.
    NotFound(EntityId),
    /// Another listing has this slug.
    SlugTaken(String),
    /// The listing has this version already.
    VersionExists(String),
    /// The status change is not allowed from the current status.
    InvalidTransition { from: ListingStatus, to: ListingStatus },
    /// A rating outside 1000..=5000 thousandths of a star.
    InvalidRating(u64),
}

/// The ids of some listings.
pub open spec fn listing_ids(s: Seq<Listing>) -> Seq<EntityId> {
    s.map_values(|l: Listing| l.id)
}

/// The slugs of a slug index.
pub open spec fn slug_keys(s: Seq<(String, EntityId)>) -> Seq<Seq<char>> {
    s.map_values(|p: (String, EntityId)| p.0@)
}

/// The listing ids of a slug index.
pub open spec fn slug_ids(s: Seq<(String, EntityId)>) -> Seq<EntityId> {
    s.map_values(|p: (String, EntityId)| p.1)
}

/// No slug occurs twice.
pub open spec fn slugs_unique(s: Seq<Seq<char>>) -> bool {
    forall|a: int, b: int| 0 <= a < s.len() && 0 <= b < s.len() && a != b ==> s[a] != s[b]
}

/// The position of `slug` in `s` (meaningful when present).
pub open spec fn slug_pos(s: Seq<Seq<char>>, slug: Seq<char>) -> int {
    choose|i: int| 0 <= i < s.len() && s[i] == slug
}

/// A listing's rating sum is between one and five stars per rating.
pub open spec fn ratings_bounded(l: Listing) -> bool {
    1000 * l.rating_count <= l.rating_sum <= 5000 * l.rating_count
}

/// No string occurs twice.
pub open spec fn no_repeats(s: Seq<Seq<char>>) -> bool {
    forall|a: int, b: int| 0 <= a < s.len() && 0 <= b < s.len() && a != b ==> s[a] != s[b]
}

/// The listings that some references point to.
pub open spec fn derefs(r: Seq<&Listing>) -> Seq<Listing> {
    r.map_values(|x: &Listing| *x)
}

/// Manages marketplace listings.
pub struct MarketplaceStore {
    listings: Vec<Listing>,
    slug_index: Vec<(String, EntityId)>,
}

impl MarketplaceStore {
    #[verifier::type_invariant]
    spec fn inv(self) -> bool {
        &&& ids_unique(listing_ids(self.listings@))
        &&& slugs_unique(slug_keys(self.slug_index@))
        &&& forall|i: int| 0 <= i < self.listings@.len() ==> ratings_bounded(#[trigger] self.listings@[i])
    }

    /// The listings, in the order they were published; their ids are distinct.
    pub closed spec fn spec_listings(&self) -> Seq<Listing> {
        self.listings@
    }

    /// The slug index: each published slug with the id it was published under; no slug
    /// occurs twice.
    pub closed spec fn spec_slugs(&self) -> Seq<(String, EntityId)> {
        self.slug_index@
    }

    /// Whether a listing has this id.
    pub open spec fn has_listing(&self, id: EntityId) -> bool {
        listing_ids(self.spec_listings()).contains(id)
    }

    /// The position of the listing with this id (meaningful when present).
    pub open spec fn pos_of(&self, id: EntityId) -> int {
        id_pos(listing_ids(self.spec_listings()), id)
    }

    /// The listing with this id (meaningful when present).
    pub open spec fn listing_of(&self, id: EntityId) -> Listing {
        self.spec_listings()[self.pos_of(id)]
    }

    /// Whether some listing was published under this slug.
    pub open spec fn slug_taken(&self, slug: Seq<char>) -> bool {
        slug_keys(self.spec_slugs()).contains(slug)
    }

    /// The id a slug was published under (meaningful when the slug is taken).
    pub open spec fn slug_target(&self, slug: Seq<char>) -> EntityId {
        slug_ids(self.spec_slugs())[slug_pos(slug_keys(self.spec_slugs()), slug)]
    }

    /// An empty store.
    pub fn new() -> (m: Self)
        ensures
            m.spec_listings().len() == 0,
            m.spec_slugs().len() == 0,
    {
        let listings: Vec<Listing> = Vec::new();
        let slug_index: Vec<(String, EntityId)> = Vec::new();
        assert(listing_ids(listings@) =~= Seq::<EntityId>::empty());
        assert(slug_keys(slug_index@) =~= Seq::<Seq<char>>::empty());
        MarketplaceStore { listings, slug_index }
    }

    fn find(&self, id: EntityId) -> (r: Option<usize>)
        ensures
            match r {
                Some(i) => i < self.spec_listings().len() && self.has_listing(id) && self.pos_of(id)
                    == i && self.spec_listings()[i as int].id == id,
                None => !self.has_listing(id),
            },
    {
        proof {
            use_type_invariant(self);
        }
        let ghost ids = listing_ids(self.listings@);
        let mut i: usize = 0;
        while i < self.listings.len()
            invariant
                ids == listing_ids(self.listings@),
                ids_unique(ids),
                i <= self.listings@.len(),
                forall|j: int| 0 <= j < i ==> ids[j] != id,
            decreases self.listings@.len() - i,
        {
            if self.listings[i].id == id {
                proof {
                    assert(ids[i as int] == id);
                    assert(id_pos(ids, id) == i);
                }
                return Some(i);
            }
            i = i + 1;
        }
        None
    }

    fn find_slug(&self, slug: &str) -> (r: Option<usize>)
        ensures
            match r {
                Some(k) => k < self.spec_slugs().len() && self.slug_taken(slug@) && slug_pos(
                    slug_keys(self.spec_slugs()),
                    slug@,
                ) == k && self.spec_slugs()[k as int].0@ == slug@,
                None => !self.slug_taken(slug@),
            },
    {
        proof {
            use_type_invariant(self);
        }
        let ghost ks = slug_keys(self.slug_index@);
        let mut k: usize = 0;
        while k < self.slug_index.len()
            invariant
                ks == slug_keys(self.slug_index@),
                slugs_unique(ks),
                k <= self.slug_index@.len(),
                forall|j: int| 0 <= j < k ==> ks[j] != slug@,
            decreases self.slug_index@.len() - k,
        {
            if str_eq(self.slug_index[k].0.as_str(), slug) {
                proof {
                    assert(ks[k as int] == slug@);
                    assert(slug_pos(ks, slug@) == k);
                }
                return Some(k);
            }
            k = k + 1;
        }
        None
    }

    /// Store a listing under its id, replacing a listing with the same id.
    fn put_listing(&mut self, l: Listing)
        requires
            ratings_bounded(l),
        ensures
            final(self).spec_slugs() == old(self).spec_slugs(),
            final(self).spec_listings() == (if old(self).has_listing(l.id) {
                old(self).spec_listings().update(old(self).pos_of(l.id), l)
            } else {
                old(self).spec_listings().push(l)
            }),
    {
        proof {
            use_type_invariant(&*self);
        }
        let ghost s0 = self.listings@;
        let ghost n0 = listing_ids(s0);
        let ghost id = l.id;
        let found = self.find(l.id);
        let mut all: Vec<Listing> = Vec::new();
        std::mem::swap(&mut all, &mut self.listings);
        match found {
            Some(i) => {
                all.set(i, l);
                proof {
                    assert(listing_ids(all@) =~= n0);
                }
            },
            None => {
                all.push(l);
                proof {
                    let n1 = listing_ids(all@);
                    assert(n1 =~= n0.push(id));
                    assert forall|a: int, b: int|
                        0 <= a < n1.len() && 0 <= b < n1.len() && a != b implies n1[a] != n1[b] by {
                        if a == n1.len() - 1 {
                            assert(n1[b] == n0[b]);
                        } else if b == n1.len() - 1 {
                            assert(n1[a] == n0[a]);
                        }
                    }
                }
            },
        }
        self.listings = all;
    }

    /// Publish a new listing, pending review, under a fresh id: refused when another
    /// listing was published under the same slug. A listing already stored under the
    /// fresh id is replaced. The result is a copy of the stored listing.
    pub fn publish(
        &mut self,
        name: &str,
        slug: &str,
        description: &str,
        author_id: EntityId,
        author_name: &str,
        category: Category,
        pricing: PricingModel,
    ) -> (r: Result<Listing, MarketplaceError>)
        ensures
            old(self).slug_taken(slug@) ==> (r matches Err(MarketplaceError::SlugTaken(s)) && s@
                == slug@) && final(self).spec_listings() == old(self).spec_listings()
                && final(self).spec_slugs() == old(self).spec_slugs(),
            !old(self).slug_taken(slug@) ==> (r matches Ok(l) && {
                let stored = final(self).listing_of(l.id);
                &&& l.name@ == name@
                &&& l.slug@ == slug@
                &&& l.description@ == description@
                &&& l.author_id == author_id
                &&& l.author_name@ == author_name@
                &&& l.category == category
                &&& l.tags@.len() == 0
                &&& l.versions@.len() == 0
                &&& same_pricing(l.pricing, pricing)
                &&& l.status == ListingStatus::PendingReview
                &&& l.download_count == 0
                &&& l.rating_sum == 0
                &&& l.rating_count == 0
                &&& l.created_at_ms == l.updated_at_ms
                &&& !l.featured
                &&& same_listing(stored, l)
                &&& stored.pricing == pricing
                &&& final(self).has_listing(l.id)
                &&& final(self).spec_listings() == (if old(self).has_listing(l.id) {
                    old(self).spec_listings().update(old(self).pos_of(l.id), stored)
                } else {
                    old(self).spec_listings().push(stored)
                })
                &&& slug_keys(final(self).spec_slugs()) == slug_keys(old(self).spec_slugs()).push(
                    slug@,
                )
                &&& slug_ids(final(self).spec_slugs()) == slug_ids(old(self).spec_slugs()).push(
                    l.id,
                )
            }),
    {
        proof {
            use_type_invariant(&*self);
        }
        if let Some(_) = self.find_slug(slug) {
            return Err(MarketplaceError::SlugTaken(slug.to_owned()));
        }
        let now = now_millis();
        let listing = Listing {
            id: EntityId::new(),
            name: name.to_owned(),
            slug: slug.to_owned(),
            description: description.to_owned(),
            author_id,
            author_name: author_name.to_owned(),
            category,
            tags: Vec::new(),
            versions: Vec::new(),
            pricing,
            status: ListingStatus::PendingReview,
            download_count: 0,
            rating_sum: 0,
            rating_count: 0,
            created_at_ms: now,
            updated_at_ms: now,
            featured: false,
        };
        let result = listing.clone();
        let id = listing.id;
        let ghost k0 = self.slug_index@;
        let mut index: Vec<(String, EntityId)> = Vec::new();
        std::mem::swap(&mut index, &mut self.slug_index);
        index.push((slug.to_owned(), id));
        proof {
            let ks = slug_keys(index@);
            let p0 = slug_keys(k0);
            assert(ks =~= p0.push(slug@));
            assert(slug_ids(index@) =~= slug_ids(k0).push(id));
            assert forall|a: int, b: int|
                0 <= a < ks.len() && 0 <= b < ks.len() && a != b implies ks[a] != ks[b] by {
                if a == ks.len() - 1 {
                    assert(ks[b] == p0[b]);
                } else if b == ks.len() - 1 {
                    assert(ks[a] == p0[a]);
                }
            }
        }
        self.slug_index = index;
        let ghost stored = listing;
        let ghost before = *self;
        self.put_listing(listing);
        proof {
            use_type_invariant(&*self);
            let s1 = self.spec_listings();
            let n1 = listing_ids(s1);
            let p = if before.has_listing(id) { before.pos_of(id) } else { before.spec_listings().len() as int };
            assert(s1[p] == stored);
            assert(n1[p] == id);
            assert(id_pos(n1, id) == p);
            assert(result.tags@.len() == string_views(result.tags@).len());
        }
        Ok(result)
    }

    /// Get a listing by id.
    pub fn get(&self, listing_id: &EntityId) -> (r: Option<&Listing>)
        ensures
            match r {
                Some(l) => self.has_listing(*listing_id) && *l == self.listing_of(*listing_id),
                None => !self.has_listing(*listing_id),
            },
    {
        match self.find(*listing_id) {
            Some(i) => Some(&self.listings[i]),
            None => None,
        }
    }

    /// Get a listing by slug: the listing stored under the id the slug was published
    /// under.
    pub fn get_by_slug(&self, slug: &str) -> (r: Option<&Listing>)
        ensures
            match r {
                Some(l) => self.slug_taken(slug@) && self.has_listing(self.slug_target(slug@))
                    && *l == self.listing_of(self.slug_target(slug@)),
                None => !self.slug_taken(slug@) || !self.has_listing(self.slug_target(slug@)),
            },
    {
        match self.find_slug(slug) {
            Some(k) => {
                let id = self.slug_index[k].1;
                proof {
                    assert(slug_ids(self.spec_slugs())[k as int] == id);
                }
                self.get(&id)
            },
            None => None,
        }
    }

    /// Take all listings out, returning the others and the one at `i`.
    fn take_listing(&mut self, i: usize) -> (r: (Vec<Listing>, Listing))
        requires
            i < old(self).spec_listings().len(),
        ensures
            final(self).spec_listings().len() == 0,
            final(self).spec_slugs() == old(self).spec_slugs(),
            r.0@ == old(self).spec_listings().remove(i as int),
            r.1 == old(self).spec_listings()[i as int],
    {
        proof {
            use_type_invariant(&*self);
        }
        let mut all: Vec<Listing> = Vec::new();
        assert(listing_ids(all@) =~= Seq::<EntityId>::empty());
        std::mem::swap(&mut all, &mut self.listings);
        let l = all.remove(i);
        (all, l)
    }

    /// Put the listings back, with `l` at position `i` in place of the listing taken out.
    fn restore_listing(&mut self, rest: Vec<Listing>, i: usize, l: Listing, Ghost(s0): Ghost<Seq<Listing>>)
        requires
            old(self).spec_listings().len() == 0,
            i < s0.len(),
            rest@ == s0.remove(i as int),
            ids_unique(listing_ids(s0)),
            forall|j: int| 0 <= j < s0.len() ==> ratings_bounded(#[trigger] s0[j]),
            l.id == s0[i as int].id,
            ratings_bounded(l),
        ensures
            final(self).spec_listings() == s0.update(i as int, l),
            final(self).spec_slugs() == old(self).spec_slugs(),
    {
        proof {
            use_type_invariant(&*self);
        }
        let mut all = rest;
        all.insert(i, l);
        proof {
            assert(all@ =~= s0.update(i as int, l));
            assert(listing_ids(all@) =~= listing_ids(s0));
            assert forall|j: int| 0 <= j < all@.len() implies ratings_bounded(#[trigger] all@[j]) by {
                if j != i {
                    assert(all@[j] == s0[j]);
                }
            }
        }
        self.listings = all;
    }

    /// Approve a listing: it moves from pending review to published.
    pub fn approve(&mut self, listing_id: &EntityId) -> (r: Result<(), MarketplaceError>)
        ensures
            final(self).spec_slugs() == old(self).spec_slugs(),
            !old(self).has_listing(*listing_id) ==> (r matches Err(MarketplaceError::NotFound(x))
                && x == *listing_id) && final(self).spec_listings() == old(self).spec_listings(),
            old(self).has_listing(*listing_id) && old(self).listing_of(*listing_id).status
                != ListingStatus::PendingReview ==> r == Err::<(), MarketplaceError>(
                MarketplaceError::InvalidTransition {
                    from: old(self).listing_of(*listing_id).status,
                    to: ListingStatus::Published,
                },
            ) && final(self).spec_listings() == old(self).spec_listings(),
            old(self).has_listing(*listing_id) && old(self).listing_of(*listing_id).status
                == ListingStatus::PendingReview ==> r is Ok && final(self).spec_listings()
                == old(self).spec_listings().update(
                old(self).pos_of(*listing_id),
                Listing {
                    status: ListingStatus::Published,
                    updated_at_ms: final(self).spec_listings()[old(self).pos_of(
                        *listing_id,
                    )].updated_at_ms,
                    ..old(self).listing_of(*listing_id)
                },
            ),
    {
        proof {
            use_type_invariant(&*self);
        }
        let ghost s0 = self.listings@;
        let i = match self.find(*listing_id) {
            Some(i) => i,
            None => return Err(MarketplaceError::NotFound(*listing_id)),
        };
        if self.listings[i].status != ListingStatus::PendingReview {
            return Err(
                MarketplaceError::InvalidTransition {
                    from: self.listings[i].status,
                    to: ListingStatus::Published,
                },
            );
        }
        let (rest, mut l) = self.take_listing(i);
        l.status = ListingStatus::Published;
        l.updated_at_ms = now_millis();
        self.restore_listing(rest, i, l, Ghost(s0));
        Ok(())
    }

    /// Suspend a listing, whatever its status.
    pub fn suspend(&mut self, listing_id: &EntityId) -> (r: Result<(), MarketplaceError>)
        ensures
            final(self).spec_slugs() == old(self).spec_slugs(),
            !old(self).has_listing(*listing_id) ==> (r matches Err(MarketplaceError::NotFound(x))
                && x == *listing_id) && final(self).spec_listings() == old(self).spec_listings(),
            old(self).has_listing(*listing_id) ==> r is Ok && final(self).spec_listings() == old(
                self,
            ).spec_listings().update(
                old(self).pos_of(*listing_id),
                Listing {
                    status: ListingStatus::Suspended,
                    updated_at_ms: final(self).spec_listings()[old(self).pos_of(
                        *listing_id,
                    )].updated_at_ms,
                    ..old(self).listing_of(*listing_id)
                },
            ),
    {
        proof {
            use_type_invariant(&*self);
        }
        let ghost s0 = self.listings@;
        let i = match self.find(*listing_id) {
            Some(i) => i,
            None => return Err(MarketplaceError::NotFound(*listing_id)),
        };
        let (rest, mut l) = self.take_listing(i);
        l.status = ListingStatus::Suspended;
        l.updated_at_ms = now_millis();
        self.restore_listing(rest, i, l, Ghost(s0));
        Ok(())
    }

    /// Record a download; returns the new download count.
    pub fn record_download(&mut self, listing_id: &EntityId) -> (r: Result<u64, MarketplaceError>)
        requires
            old(self).has_listing(*listing_id) ==> old(self).listing_of(*listing_id).download_count
                < u64::MAX,
        ensures
            final(self).spec_slugs() == old(self).spec_slugs(),
            !old(self).has_listing(*listing_id) ==> (r matches Err(MarketplaceError::NotFound(x))
                && x == *listing_id) && final(self).spec_listings() == old(self).spec_listings(),
            old(self).has_listing(*listing_id) ==> r == Ok::<u64, MarketplaceError>(
                (old(self).listing_of(*listing_id).download_count + 1) as u64,
            ) && final(self).spec_listings() == old(self).spec_listings().update(
                old(self).pos_of(*listing_id),
                Listing {
                    download_count: (old(self).listing_of(*listing_id).download_count + 1) as u64,
                    ..old(self).listing_of(*listing_id)
                },
            ),
    {
        proof {
            use_type_invariant(&*self);
        }
        let ghost s0 = self.listings@;
        let i = match self.find(*listing_id) {
            Some(i) => i,
            None => return Err(MarketplaceError::NotFound(*listing_id)),
        };
        let (rest, mut l) = self.take_listing(i);
        l.download_count = l.download_count + 1;
        let count = l.download_count;
        self.restore_listing(rest, i, l, Ghost(s0));
        Ok(count)
    }

    /// Set a listing's featured flag.
    pub fn set_featured(&mut self, listing_id: &EntityId, featured: bool) -> (r: Result<(), MarketplaceError>)
        ensures
            final(self).spec_slugs() == old(self).spec_slugs(),
            !old(self).has_listing(*listing_id) ==> (r matches Err(MarketplaceError::NotFound(x))
                && x == *listing_id) && final(self).spec_listings() == old(self).spec_listings(),
            old(self).has_listing(*listing_id) ==> r is Ok && final(self).spec_listings() == old(
                self,
            ).spec_listings().update(
                old(self).pos_of(*listing_id),
                Listing { featured, ..old(self).listing_of(*listing_id) },
            ),
    {
        proof {
            use_type_invariant(&*self);
        }
        let ghost s0 = self.listings@;
        let i = match self.find(*listing_id) {
            Some(i) => i,
            None => return Err(MarketplaceError::NotFound(*listing_id)),
        };
        let (rest, mut l) = self.take_listing(i);
        l.featured = featured;
        self.restore_listing(rest, i, l, Ghost(s0));
        Ok(())
    }

    /// Add a version to a listing: refused when the listing has that version already.
    pub fn add_version(
        &mut self,
        listing_id: &EntityId,
        version: &str,
        changelog: &str,
        stability: VersionStability,
        min_sdk: &str,
        size_bytes: u64,
        checksum: &str,
    ) -> (r: Result<(), MarketplaceError>)
        ensures
            final(self).spec_slugs() == old(self).spec_slugs(),
            !old(self).has_listing(*listing_id) ==> (r matches Err(MarketplaceError::NotFound(x))
                && x == *listing_id) && final(self).spec_listings() == old(self).spec_listings(),
            old(self).has_listing(*listing_id) && version_names(
                old(self).listing_of(*listing_id).versions@,
            ).contains(version@) ==> (r matches Err(MarketplaceError::VersionExists(v)) && v@
                == version@) && final(self).spec_listings() == old(self).spec_listings(),
            old(self).has_listing(*listing_id) && !version_names(
                old(self).listing_of(*listing_id).versions@,
            ).contains(version@) ==> r is Ok && ({
                let p = old(self).pos_of(*listing_id);
                let o = old(self).listing_of(*listing_id);
                let n = final(self).spec_listings()[p];
                &&& final(self).spec_listings() == old(self).spec_listings().update(
                    p,
                    Listing { versions: n.versions, updated_at_ms: n.updated_at_ms, ..o },
                )
                &&& n.versions@.len() == o.versions@.len() + 1
                &&& n.versions@.drop_last() == o.versions@
                &&& version_holds(
                    n.versions@.last(),
                    version@,
                    changelog@,
                    stability,
                    min_sdk@,
                    size_bytes,
                    checksum@,
                )
            }),
    {
        proof {
            use_type_invariant(&*self);
        }
        let ghost s0 = self.listings@;
        let i = match self.find(*listing_id) {
            Some(i) => i,
            None => return Err(MarketplaceError::NotFound(*listing_id)),
        };
        if has_version(&self.listings[i].versions, version) {
            return Err(MarketplaceError::VersionExists(version.to_owned()));
        }
        let (rest, mut l) = self.take_listing(i);
        let ghost v0 = l.versions@;
        l.versions.push(
            VersionEntry {
                version: version.to_owned(),
                changelog: changelog.to_owned(),
                stability,
                min_sdk_version: min_sdk.to_owned(),
                size_bytes,
                checksum: checksum.to_owned(),
                published_at_ms: now_millis(),
            },
        );
        l.updated_at_ms = now_millis();
        assert(l.versions@.drop_last() =~= v0);
        self.restore_listing(rest, i, l, Ghost(s0));
        Ok(())
    }

    /// Add a rating, in thousandths of a star (1000 to 5000); returns the new average
    /// in thousandths of a star, rounded down.
    pub fn add_rating(&mut self, listing_id: &EntityId, rating: u64) -> (r: Result<u128, MarketplaceError>)
        requires
            old(self).has_listing(*listing_id) ==> old(self).listing_of(*listing_id).rating_count
                < u64::MAX,
        ensures
            final(self).spec_slugs() == old(self).spec_slugs(),
            !(1000 <= rating <= 5000) ==> (r matches Err(MarketplaceError::InvalidRating(x)) && x
                == rating) && final(self).spec_listings() == old(self).spec_listings(),
            1000 <= rating <= 5000 && !old(self).has_listing(*listing_id) ==> (r matches Err(
                MarketplaceError::NotFound(x),
            ) && x == *listing_id) && final(self).spec_listings() == old(self).spec_listings(),
            1000 <= rating <= 5000 && old(self).has_listing(*listing_id) ==> ({
                let o = old(self).listing_of(*listing_id);
                let n = Listing {
                    rating_sum: (o.rating_sum + rating) as u128,
                    rating_count: (o.rating_count + 1) as u64,
                    ..o
                };
                &&& r == Ok::<u128, MarketplaceError>((rating_num(n) / rating_den(n)) as u128)
                &&& final(self).spec_listings() == old(self).spec_listings().update(
                    old(self).pos_of(*listing_id),
                    n,
                )
            }),
    {
        proof {
            use_type_invariant(&*self);
        }
        if rating < 1000 || rating > 5000 {
            return Err(MarketplaceError::InvalidRating(rating));
        }
        let ghost s0 = self.listings@;
        let i = match self.find(*listing_id) {
            Some(i) => i,
            None => return Err(MarketplaceError::NotFound(*listing_id)),
        };
        let (rest, mut l) = self.take_listing(i);
        assert(ratings_bounded(s0[i as int]));
        l.rating_sum = l.rating_sum + (rating as u128);
        l.rating_count = l.rating_count + 1;
        let avg = l.average_rating();
        self.restore_listing(rest, i, l, Ghost(s0));
        Ok(avg)
    }

    /// Add tags to a listing, skipping each one it has already.
    pub fn add_tags(&mut self, listing_id: &EntityId, tags: Vec<String>) -> (r: Result<(), MarketplaceError>)
        ensures
            final(self).spec_slugs() == old(self).spec_slugs(),
            !old(self).has_listing(*listing_id) ==> (r matches Err(MarketplaceError::NotFound(x))
                && x == *listing_id) && final(self).spec_listings() == old(self).spec_listings(),
            old(self).has_listing(*listing_id) ==> r is Ok && ({
                let p = old(self).pos_of(*listing_id);
                let o = old(self).listing_of(*listing_id);
                let n = final(self).spec_listings()[p];
                &&& final(self).spec_listings() == old(self).spec_listings().update(
                    p,
                    Listing { tags: n.tags, ..o },
                )
                &&& string_views(n.tags@) == merge_tags(string_views(o.tags@), string_views(tags@))
            }),
    {
        proof {
            use_type_invariant(&*self);
        }
        let ghost s0 = self.listings@;
        let i = match self.find(*listing_id) {
            Some(i) => i,
            None => return Err(MarketplaceError::NotFound(*listing_id)),
        };
        let (rest, mut l) = self.take_listing(i);
        let ghost t0 = string_views(l.tags@);
        let ghost l0 = l;
        assert(string_views(tags@.take(0)) =~= Seq::<Seq<char>>::empty());
        let mut k: usize = 0;
        while k < tags.len()
            invariant
                k <= tags@.len(),
                l == (Listing { tags: l.tags, ..l0 }),
                string_views(l.tags@) == merge_tags(t0, string_views(tags@.take(k as int))),
            decreases tags@.len() - k,
        {
            let ghost m = string_views(l.tags@);
            proof {
                let nk = string_views(tags@.take(k + 1));
                assert(nk.drop_last() =~= string_views(tags@.take(k as int)));
                assert(nk.last() == tags@[k as int]@);
            }
            if !contains_string(&l.tags, tags[k].as_str()) {
                l.tags.push(tags[k].clone());
                assert(string_views(l.tags@) =~= m.push(tags@[k as int]@));
            }
            k = k + 1;
        }
        assert(tags@.take(k as int) =~= tags@);
        self.restore_listing(rest, i, l, Ghost(s0));
        Ok(())
    }

    /// All listings by an author, in the order they are stored.
    pub fn by_author(&self, author_id: &EntityId) -> (r: Vec<&Listing>)
        ensures
            derefs(r@) == self.spec_listings().filter(by_author_pred(*author_id)),
    {
        let ghost s = self.listings@;
        let ghost f = by_author_pred(*author_id);
        let mut out: Vec<&Listing> = Vec::new();
        let mut i: usize = 0;
        proof {
            reveal(Seq::filter);
            assert(s.take(0) =~= Seq::<Listing>::empty());
            assert(derefs(out@) =~= Seq::<Listing>::empty());
        }
        while i < self.listings.len()
            invariant
                s == self.listings@,
                f == by_author_pred(*author_id),
                i <= s.len(),
                derefs(out@) == s.take(i as int).filter(f),
            decreases s.len() - i,
        {
            proof {
                assert(s.take(i + 1) =~= s.take(i as int).push(s[i as int]));
                s.take(i as int).lemma_filter_push(s[i as int], f);
            }
            if self.listings[i].author_id == *author_id {
                let ghost o = out@;
                out.push(&self.listings[i]);
                assert(derefs(out@) =~= derefs(o).push(s[i as int]));
            }
            i = i + 1;
        }
        proof {
            assert(s.take(i as int) =~= s);
        }
        out
    }

    /// Number of published listings.
    pub fn total_published(&self) -> (n: usize)
        ensures
            n == self.spec_listings().filter(published_pred()).len(),
    {
        let ghost s = self.listings@;
        let ghost f = published_pred();
        let mut count: usize = 0;
        let mut i: usize = 0;
        proof {
            reveal(Seq::filter);
            assert(s.take(0) =~= Seq::<Listing>::empty());
        }
        while i < self.listings.len()
            invariant
                s == self.listings@,
                f == published_pred(),
                i <= s.len(),
                count == s.take(i as int).filter(f).len(),
                count <= i,
            decreases s.len() - i,
        {
            proof {
                assert(s.take(i + 1) =~= s.take(i as int).push(s[i as int]));
                s.take(i as int).lemma_filter_push(s[i as int], f);
            }
            if self.listings[i].status == ListingStatus::Published {
                count = count + 1;
            }
            i = i + 1;
        }
        proof {
            assert(s.take(i as int) =~= s);
        }
        count
    }

    /// All featured, published listings, in the order they are stored.
    pub fn featured(&self) -> (r: Vec<&Listing>)
        ensures
            derefs(r@) == self.spec_listings().filter(featured_pred()),
    {
        let ghost s = self.listings@;
        let ghost f = featured_pred();
        let mut out: Vec<&Listing> = Vec::new();
        let mut i: usize = 0;
        proof {
            reveal(Seq::filter);
            assert(s.take(0) =~= Seq::<Listing>::empty());
            assert(derefs(out@) =~= Seq::<Listing>::empty());
        }
        while i < self.listings.len()
            invariant
                s == self.listings@,
                f == featured_pred(),
                i <= s.len(),
                derefs(out@) == s.take(i as int).filter(f),
            decreases s.len() - i,
        {
            proof {
                assert(s.take(i + 1) =~= s.take(i as int).push(s[i as int]));
                s.take(i as int).lemma_filter_push(s[i as int], f);
            }
            if self.listings[i].featured && self.listings[i].status == ListingStatus::Published {
                let ghost o = out@;
                out.push(&self.listings[i]);
                assert(derefs(out@) =~= derefs(o).push(s[i as int]));
            }
            i = i + 1;
        }
        proof {
            assert(s.take(i as int) =~= s);
        }
        out
    }

    /// Search the published listings: those that pass every filter the criteria set,
    /// sorted by the criteria's order (ties in no stated order), at most `limit` of them.
    pub fn search(&self, criteria: &SearchCriteria) -> (r: Vec<&Listing>)
        ensures
            exists|p: Seq<Listing>|
                #![trigger sorted_for(criteria.sort_by, p)]
                p.to_multiset() == self.spec_listings().filter(criteria_pred(*criteria)).to_multiset()
                    && sorted_for(criteria.sort_by, p) && derefs(r@) == p.take(
                    if criteria.limit < p.len() {
                        criteria.limit as int
                    } else {
                        p.len() as int
                    },
                ),
            ids_unique(listing_ids(self.spec_listings())),
            ids_unique(listing_ids(derefs(r@))),
    {
        proof {
            use_type_invariant(self);
        }
        let ql: Option<String> = match &criteria.query {
            Some(q) => Some(to_lowercase(q.as_str())),
            None => None,
        };
        let ghost s = self.listings@;
        let ghost f = criteria_pred(*criteria);
        let mut found: Vec<&Listing> = Vec::new();
        let mut i: usize = 0;
        proof {
            reveal(Seq::filter);
            assert(s.take(0) =~= Seq::<Listing>::empty());
            assert(derefs(found@) =~= Seq::<Listing>::empty());
        }
        while i < self.listings.len()
            invariant
                s == self.listings@,
                f == criteria_pred(*criteria),
                criteria.query is Some <==> ql is Some,
                criteria.query matches Some(q) ==> ql->0@ == spec_to_lowercase(q@),
                i <= s.len(),
                derefs(found@) == s.take(i as int).filter(f),
                ids_unique(listing_ids(s)),
                ids_unique(listing_ids(derefs(found@))),
                forall|a: int|
                    0 <= a < found@.len() ==> exists|j: int|
                        0 <= j < i && s[j].id == (#[trigger] derefs(found@)[a]).id,
            decreases s.len() - i,
        {
            proof {
                assert(s.take(i + 1) =~= s.take(i as int).push(s[i as int]));
                s.take(i as int).lemma_filter_push(s[i as int], f);
            }
            if passes(&self.listings[i], criteria, &ql) {
                let ghost o = found@;
                found.push(&self.listings[i]);
                proof {
                    let d0 = derefs(o);
                    let d1 = derefs(found@);
                    assert(d1 =~= d0.push(s[i as int]));
                    assert forall|a: int|
                        0 <= a < found@.len() implies exists|j: int|
                            0 <= j < i + 1 && s[j].id == (#[trigger] derefs(found@)[a]).id by {
                        if a == o.len() {
                            assert(s[i as int].id == d1[a].id);
                        } else {
                            assert(d1[a] == d0[a]);
                        }
                    }
                    let ids = listing_ids(d1);
                    assert forall|a: int, b: int|
                        0 <= a < ids.len() && 0 <= b < ids.len() && a != b implies ids[a] != ids[b] by {
                        if a == o.len() {
                            assert(d1[b] == d0[b]);
                            let j = choose|j: int| 0 <= j < i && s[j].id == d0[b].id;
                            assert(listing_ids(s)[j] == s[j].id);
                            assert(listing_ids(s)[i as int] == s[i as int].id);
                        } else if b == o.len() {
                            assert(d1[a] == d0[a]);
                            let j = choose|j: int| 0 <= j < i && s[j].id == d0[a].id;
                            assert(listing_ids(s)[j] == s[j].id);
                            assert(listing_ids(s)[i as int] == s[i as int].id);
                        } else {
                            assert(d1[a] == d0[a] && d1[b] == d0[b]);
                            assert(listing_ids(d0)[a] == d0[a].id && listing_ids(d0)[b] == d0[b].id);
                        }
                    }
                }
            } else {
                proof {
                    assert forall|a: int|
                        0 <= a < found@.len() implies exists|j: int|
                            0 <= j < i + 1 && s[j].id == (#[trigger] derefs(found@)[a]).id by {
                        let j = choose|j: int| 0 <= j < i && s[j].id == derefs(found@)[a].id;
                    }
                }
            }
            i = i + 1;
        }
        proof {
            assert(s.take(i as int) =~= s);
        }
        let order = criteria.sort_by;
        let mut ranked: Vec<&Listing> = Vec::new();
        let mut k: usize = 0;
        proof {
            assert(derefs(ranked@) =~= Seq::<Listing>::empty());
            assert(derefs(found@).take(0) =~= Seq::<Listing>::empty());
        }
        while k < found.len()
            invariant
                order == criteria.sort_by,
                k <= found@.len(),
                sorted_for(order, derefs(ranked@)),
                derefs(ranked@).to_multiset() == derefs(found@).take(k as int).to_multiset(),
                ids_unique(listing_ids(derefs(found@))),
                ids_unique(listing_ids(derefs(ranked@))),
                forall|a: int|
                    0 <= a < ranked@.len() ==> exists|j: int|
                        0 <= j < k && derefs(found@)[j].id == (#[trigger] derefs(ranked@)[a]).id,
            decreases found@.len() - k,
        {
            let x = found[k];
            let ghost r0 = derefs(ranked@);
            insert_ranked(order, &mut ranked, x);
            proof {
                let fd = derefs(found@);
                let r1 = derefs(ranked@);
                let t = choose|t: int| 0 <= t <= r0.len() && r1 == r0.insert(t, *x);
                assert(fd[k as int] == *x);
                assert(listing_ids(fd)[k as int] == x.id);
                assert forall|a: int|
                    0 <= a < ranked@.len() implies exists|j: int|
                        0 <= j < k + 1 && derefs(found@)[j].id == (#[trigger] derefs(ranked@)[a]).id by {
                    assert(r1.len() == r0.len() + 1);
                    assert(derefs(ranked@)[a] == r1[a]);
                    if a < t {
                        assert(r1[a] == r0[a]);
                        let j = choose|j: int| 0 <= j < k && fd[j].id == r0[a].id;
                        assert(0 <= j < k + 1 && fd[j].id == r1[a].id);
                    } else if a == t {
                        assert(r1[a] == *x);
                        assert(fd[k as int].id == r1[a].id);
                    } else {
                        assert(r0.insert(t, *x)[a] == r0[a - 1]);
                        let j = choose|j: int| 0 <= j < k && fd[j].id == r0[a - 1].id;
                        assert(0 <= j < k + 1 && fd[j].id == r1[a].id);
                    }
                }
                // the new listing's id differs from those already ranked
                assert forall|a: int| 0 <= a < r0.len() implies r0[a].id != x.id by {
                    let j = choose|j: int| 0 <= j < k && fd[j].id == r0[a].id;
                    assert(listing_ids(fd)[j] == fd[j].id);
                }
                let ids = listing_ids(r1);
                assert forall|a: int, b: int|
                    0 <= a < ids.len() && 0 <= b < ids.len() && a != b implies ids[a] != ids[b] by {
                    let oa = if a < t { a } else { a - 1 };
                    let ob = if b < t { b } else { b - 1 };
                    if a == t {
                        assert(r1[b] == r0[ob]);
                    } else if b == t {
                        assert(r1[a] == r0[oa]);
                    } else {
                        assert(r1[a] == r0[oa] && r1[b] == r0[ob]);
                        assert(listing_ids(r0)[oa] == r0[oa].id && listing_ids(r0)[ob] == r0[ob].id);
                    }
                }
            }
            proof {
                let t = derefs(found@);
                assert(t.take(k + 1) =~= t.take(k as int).push(*x));
                vstd::seq_lib::to_multiset_build(t.take(k as int), *x);
            }
            k = k + 1;
        }
        let ghost p = derefs(ranked@);
        proof {
            assert(derefs(found@).take(k as int) =~= derefs(found@));
        }
        ranked.truncate(criteria.limit);
        proof {
            let n = if criteria.limit < p.len() {
                criteria.limit as int
            } else {
                p.len() as int
            };
            assert(derefs(ranked@) =~= p.take(n));
            let ids = listing_ids(derefs(ranked@));
            assert forall|a: int, b: int|
                0 <= a < ids.len() && 0 <= b < ids.len() && a != b implies ids[a] != ids[b] by {
                assert(listing_ids(p)[a] == p[a].id && listing_ids(p)[b] == p[b].id);
            }
        }
        ranked
    }
}

impl Default for MarketplaceStore {
    /// An empty store.
    fn default() -> (m: Self)
        ensures
            m.spec_listings().len() == 0,
            m.spec_slugs().len() == 0,
    {
        Self::new()
    }
}

/// A sequence with one more element contains exactly what it contained and that element.
proof fn lemma_push_contains(s: Seq<Seq<char>>, x: Seq<char>, t: Seq<char>)
    ensures
        s.push(x).contains(t) <==> (s.contains(t) || t == x),
{
    if s.push(x).contains(t) {
        let j = choose|j: int| 0 <= j < s.push(x).len() && s.push(x)[j] == t;
        if j < s.len() {
            assert(s[j] == t);
        }
    }
    if s.contains(t) {
        let j = choose|j: int| 0 <= j < s.len() && s[j] == t;
        assert(s.push(x)[j] == t);
    }
    if t == x {
        assert(s.push(x)[s.len() as int] == x);
    }
}

/// Adding tags keeps a listing's tags free of repeats: the merged tags hold every earlier
/// tag and every added tag, each once.
pub proof fn law_merge_tags_distinct(cur: Seq<Seq<char>>, new: Seq<Seq<char>>)
    requires
        no_repeats(cur),
    ensures
        no_repeats(merge_tags(cur, new)),
        forall|t: Seq<char>| #[trigger] merge_tags(cur, new).contains(t) <==> (cur.contains(t) || new.contains(t)),
        merge_tags(cur, new).len() <= cur.len() + new.len(),
    decreases new.len(),
{
    if new.len() > 0 {
        let d = new.drop_last();
        let m = merge_tags(cur, d);
        law_merge_tags_distinct(cur, d);
        let x = new.last();
        assert(new =~= d.push(x));
        assert forall|t: Seq<char>| merge_tags(cur, new).contains(t) <==> (cur.contains(t) || new.contains(t)) by {
            assert(m.contains(t) <==> (cur.contains(t) || d.contains(t)));
            lemma_push_contains(d, x, t);
            lemma_push_contains(m, x, t);
            if m.contains(x) && t == x {
                assert(m.contains(t));
            }
        }
        if !m.contains(x) {
            let r = m.push(x);
            assert forall|a: int, b: int| 0 <= a < r.len() && 0 <= b < r.len() && a != b implies r[a] != r[b] by {
                if a == m.len() {
                    assert(r[b] == m[b]);
                } else if b == m.len() {
                    assert(r[a] == m[a]);
                }
            }
        }
    }
}

/// The average rating of a rated listing lies between one and five stars.
pub proof fn law_average_rating_in_range(l: Listing)
    requires
        ratings_bounded(l),
        l.rating_count > 0,
    ensures
        1000 <= rating_num(l) / rating_den(l) <= 5000,
{
    let n = rating_num(l);
    let d = rating_den(l);
    vstd::arithmetic::div_mod::lemma_fundamental_div_mod(n, d);
    vstd::arithmetic::div_mod::lemma_mod_pos_bound(n, d);
    let q = n / d;
    assert(1000 <= q <= 5000) by (nonlinear_arith)
        requires
            n == d * q + n % d,
            0 <= n % d < d,
            1000 * d <= n <= 5000 * d,
            d > 0,
    ;
}

/// Once a listing is published under a free slug, the slug leads to its id.
pub proof fn law_slug_resolves_after_publish(
    before: MarketplaceStore,
    after: MarketplaceStore,
    slug: Seq<char>,
    id: EntityId,
)
    requires
        !before.slug_taken(slug),
        slug_keys(after.spec_slugs()) == slug_keys(before.spec_slugs()).push(slug),
        slug_ids(after.spec_slugs()) == slug_ids(before.spec_slugs()).push(id),
    ensures
        after.slug_taken(slug),
        after.slug_target(slug) == id,
{
    let k0 = slug_keys(before.spec_slugs());
    let k1 = slug_keys(after.spec_slugs());
    let n = k0.len() as int;
    assert(k1[n] == slug);
    let p = slug_pos(k1, slug);
    assert(0 <= p < k1.len() && k1[p] == slug);
    if p < n {
        assert(k0[p] == slug);
    }
    assert(p == n);
    assert(slug_ids(after.spec_slugs())[n] == id);
}

} // verus!
