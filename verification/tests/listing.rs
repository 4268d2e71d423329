use gane::marketplace::listing::{
    Category, Listing, ListingStatus, MarketplaceError, MarketplaceStore, PricingFilter,
    PricingModel, SearchCriteria, SortOrder, VersionStability,
};
use gane::types::EntityId;

fn test_store() -> MarketplaceStore {
    MarketplaceStore::new()
}

fn publish_test_listing(store: &mut MarketplaceStore) -> Listing {
    store
        .publish(
            "Nav Plugin",
            "nav-plugin",
            "A great navigation plugin",
            EntityId::new(),
            "Test Author",
            Category::Navigation,
            PricingModel::Free,
        )
        .unwrap()
}

#[test]
fn publish_and_retrieve() {
    let mut store = test_store();
    let listing = publish_test_listing(&mut store);
    assert_eq!(listing.status, ListingStatus::PendingReview);
    assert_eq!(listing.download_count, 0);

    let retrieved = store.get(&listing.id).unwrap();
    assert_eq!(retrieved.name, "Nav Plugin");
    assert_eq!(retrieved.slug, "nav-plugin");
}

#[test]
fn duplicate_slug_rejected() {
    let mut store = test_store();
    publish_test_listing(&mut store);
    let result = store.publish(
        "Another",
        "nav-plugin",
        "desc",
        EntityId::new(),
        "Author",
        Category::Navigation,
        PricingModel::Free,
    );
    assert!(matches!(result.unwrap_err(), MarketplaceError::SlugTaken(_)));
}

#[test]
fn approve_listing() {
    let mut store = test_store();
    let listing = publish_test_listing(&mut store);
    store.approve(&listing.id).unwrap();
    assert_eq!(store.get(&listing.id).unwrap().status, ListingStatus::Published);
}

#[test]
fn approve_non_pending_fails() {
    let mut store = test_store();
    let listing = publish_test_listing(&mut store);
    store.approve(&listing.id).unwrap();
    let result = store.approve(&listing.id);
    assert!(result.is_err());
}

#[test]
fn add_version() {
    let mut store = test_store();
    let listing = publish_test_listing(&mut store);
    store
        .add_version(
            &listing.id,
            "1.0.0",
            "Initial release",
            VersionStability::Stable,
            "0.1.0",
            1024,
            "abc123",
        )
        .unwrap();

    let l = store.get(&listing.id).unwrap();
    assert_eq!(l.versions.len(), 1);
    assert_eq!(l.versions[0].version, "1.0.0");
}

#[test]
fn duplicate_version_rejected() {
    let mut store = test_store();
    let listing = publish_test_listing(&mut store);
    store
        .add_version(&listing.id, "1.0.0", "v1", VersionStability::Stable, "0.1.0", 100, "a")
        .unwrap();
    let result = store.add_version(
        &listing.id,
        "1.0.0",
        "v1 dup",
        VersionStability::Stable,
        "0.1.0",
        100,
        "b",
    );
    assert!(matches!(result.unwrap_err(), MarketplaceError::VersionExists(_)));
}

#[test]
fn latest_stable_version() {
    let mut store = test_store();
    let listing = publish_test_listing(&mut store);
    store
        .add_version(&listing.id, "0.9.0", "beta", VersionStability::Beta, "0.1.0", 100, "a")
        .unwrap();
    store
        .add_version(&listing.id, "1.0.0", "stable", VersionStability::Stable, "0.1.0", 200, "b")
        .unwrap();
    store
        .add_version(
            &listing.id,
            "1.1.0-beta",
            "next beta",
            VersionStability::Beta,
            "0.1.0",
            300,
            "c",
        )
        .unwrap();

    let l = store.get(&listing.id).unwrap();
    assert_eq!(l.latest_stable().unwrap().version, "1.0.0");
    assert_eq!(l.latest_version().unwrap().version, "1.1.0-beta");
}

#[test]
fn download_count() {
    let mut store = test_store();
    let listing = publish_test_listing(&mut store);
    assert_eq!(store.record_download(&listing.id).unwrap(), 1);
    assert_eq!(store.record_download(&listing.id).unwrap(), 2);
    assert_eq!(store.get(&listing.id).unwrap().download_count, 2);
}

#[test]
fn rating_system() {
    let mut store = test_store();
    let listing = publish_test_listing(&mut store);
    store.add_rating(&listing.id, 5000).unwrap();
    store.add_rating(&listing.id, 3000).unwrap();
    let avg = store.add_rating(&listing.id, 4000).unwrap();
    assert!((avg as f64 / 1000.0 - 4.0).abs() < 0.001);
}

#[test]
fn invalid_rating_rejected() {
    let mut store = test_store();
    let listing = publish_test_listing(&mut store);
    assert!(store.add_rating(&listing.id, 500).is_err());
    assert!(store.add_rating(&listing.id, 5100).is_err());
}

#[test]
fn search_by_query() {
    let mut store = test_store();
    let l = publish_test_listing(&mut store);
    store.approve(&l.id).unwrap();

    let l2 = store
        .publish(
            "Traffic Monitor",
            "traffic-monitor",
            "Monitors traffic",
            EntityId::new(),
            "Auth",
            Category::Traffic,
            PricingModel::Free,
        )
        .unwrap();
    store.approve(&l2.id).unwrap();

    let criteria = SearchCriteria { query: Some("nav".into()), ..Default::default() };
    let results = store.search(&criteria);
    assert_eq!(results.len(), 1);
    assert_eq!(results[0].name, "Nav Plugin");
}

#[test]
fn search_sort_by_popularity() {
    let mut store = test_store();
    let l1 = publish_test_listing(&mut store);
    store.approve(&l1.id).unwrap();
    store.record_download(&l1.id).unwrap();

    let l2 = store
        .publish(
            "Popular Plugin",
            "popular",
            "desc",
            EntityId::new(),
            "Auth",
            Category::Navigation,
            PricingModel::Free,
        )
        .unwrap();
    store.approve(&l2.id).unwrap();
    store.record_download(&l2.id).unwrap();
    store.record_download(&l2.id).unwrap();
    store.record_download(&l2.id).unwrap();

    let criteria = SearchCriteria { sort_by: SortOrder::Popularity, ..Default::default() };
    let results = store.search(&criteria);
    assert_eq!(results[0].name, "Popular Plugin");
}

#[test]
fn get_by_slug() {
    let mut store = test_store();
    publish_test_listing(&mut store);
    let l = store.get_by_slug("nav-plugin").unwrap();
    assert_eq!(l.name, "Nav Plugin");
    assert!(store.get_by_slug("nonexistent").is_none());
}

#[test]
fn featured_listings() {
    let mut store = test_store();
    let l = publish_test_listing(&mut store);
    store.approve(&l.id).unwrap();
    store.set_featured(&l.id, true).unwrap();

    assert_eq!(store.featured().len(), 1);
    store.set_featured(&l.id, false).unwrap();
    assert_eq!(store.featured().len(), 0);
}

#[test]
fn suspend_listing() {
    let mut store = test_store();
    let l = publish_test_listing(&mut store);
    store.approve(&l.id).unwrap();
    store.suspend(&l.id).unwrap();
    assert_eq!(store.get(&l.id).unwrap().status, ListingStatus::Suspended);
    assert_eq!(store.total_published(), 0);
}

#[test]
fn tags() {
    let mut store = test_store();
    let l = publish_test_listing(&mut store);
    store.add_tags(&l.id, vec!["gnss".into(), "navigation".into()]).unwrap();
    store.add_tags(&l.id, vec!["gnss".into(), "routing".into()]).unwrap(); // gnss dedup
    assert_eq!(store.get(&l.id).unwrap().tags.len(), 3);
}

// ---------------------------------------------------------------------------
// Further cases
// ---------------------------------------------------------------------------

fn publish_named(store: &mut MarketplaceStore, name: &str, slug: &str, pricing: PricingModel) -> Listing {
    let l = store
        .publish(name, slug, "desc", EntityId::new(), "Auth", Category::Navigation, pricing)
        .unwrap();
    store.approve(&l.id).unwrap();
    l
}

#[test]
fn unknown_listing_is_not_found() {
    let mut store = test_store();
    let missing = EntityId::from_u128(7);
    assert!(matches!(store.approve(&missing), Err(MarketplaceError::NotFound(id)) if id == missing));
    assert!(matches!(store.suspend(&missing), Err(MarketplaceError::NotFound(_))));
    assert!(matches!(store.record_download(&missing), Err(MarketplaceError::NotFound(_))));
    assert!(matches!(store.add_rating(&missing, 3000), Err(MarketplaceError::NotFound(_))));
    assert!(matches!(store.add_rating(&missing, 999), Err(MarketplaceError::InvalidRating(999))));
    assert!(matches!(store.set_featured(&missing, true), Err(MarketplaceError::NotFound(_))));
    assert!(matches!(store.add_tags(&missing, vec![]), Err(MarketplaceError::NotFound(_))));
    assert!(store.get(&missing).is_none());
}

#[test]
fn approve_reports_transition() {
    let mut store = test_store();
    let l = publish_test_listing(&mut store);
    store.suspend(&l.id).unwrap();
    match store.approve(&l.id) {
        Err(MarketplaceError::InvalidTransition { from, to }) => {
            assert_eq!(from, ListingStatus::Suspended);
            assert_eq!(to, ListingStatus::Published);
        }
        other => panic!("unexpected: {:?}", other),
    }
}

#[test]
fn rating_bounds_accepted_and_average_rounds_down() {
    let mut store = test_store();
    let l = publish_test_listing(&mut store);
    assert_eq!(store.add_rating(&l.id, 1000).unwrap(), 1000);
    assert_eq!(store.add_rating(&l.id, 5000).unwrap(), 3000);
    assert_eq!(store.add_rating(&l.id, 1000).unwrap(), 2333);
    let stored = store.get(&l.id).unwrap();
    assert_eq!(stored.rating_count, 3);
    assert_eq!(stored.rating_sum, 7000);
    assert_eq!(stored.average_rating(), 2333);
}

#[test]
fn search_filters_pricing_and_rating() {
    let mut store = test_store();
    let free = publish_named(&mut store, "Free One", "free-one", PricingModel::Free);
    let paid = publish_named(
        &mut store,
        "Paid One",
        "paid-one",
        PricingModel::Paid { price_cents: 499, currency: "EUR".into() },
    );
    store.add_rating(&free.id, 2000).unwrap();
    store.add_rating(&paid.id, 4500).unwrap();

    let only_paid = SearchCriteria { pricing: Some(PricingFilter::Paid), ..Default::default() };
    let r = store.search(&only_paid);
    assert_eq!(r.len(), 1);
    assert_eq!(r[0].name, "Paid One");

    let only_free = SearchCriteria { pricing: Some(PricingFilter::Free), ..Default::default() };
    let r = store.search(&only_free);
    assert_eq!(r.len(), 1);
    assert_eq!(r[0].name, "Free One");

    let well_rated = SearchCriteria { min_rating: Some(3000), ..Default::default() };
    let r = store.search(&well_rated);
    assert_eq!(r.len(), 1);
    assert_eq!(r[0].name, "Paid One");

    let by_rating = SearchCriteria { sort_by: SortOrder::Rating, ..Default::default() };
    let r = store.search(&by_rating);
    assert_eq!(r[0].name, "Paid One");
    assert_eq!(r[1].name, "Free One");
}

#[test]
fn search_unpublished_hidden_sorted_by_name_and_limited() {
    let mut store = test_store();
    publish_named(&mut store, "Charlie", "c", PricingModel::Free);
    publish_named(&mut store, "Alpha", "a", PricingModel::Free);
    publish_named(&mut store, "Bravo", "b", PricingModel::Free);
    store
        .publish("Hidden", "h", "desc", EntityId::new(), "Auth", Category::Traffic, PricingModel::Free)
        .unwrap();

    let by_name = SearchCriteria { sort_by: SortOrder::Name, ..Default::default() };
    let r = store.search(&by_name);
    let names: Vec<&str> = r.iter().map(|l| l.name.as_str()).collect();
    assert_eq!(names, vec!["Alpha", "Bravo", "Charlie"]);

    let two = SearchCriteria { sort_by: SortOrder::Name, limit: 2, ..Default::default() };
    let r = store.search(&two);
    assert_eq!(r.len(), 2);
    assert_eq!(r[1].name, "Bravo");

    let traffic = SearchCriteria { category: Some(Category::Traffic), ..Default::default() };
    assert!(store.search(&traffic).is_empty());
}

#[test]
fn search_query_matches_tags_and_ignores_case() {
    let mut store = test_store();
    let l = publish_named(&mut store, "Router", "router", PricingModel::Free);
    store.add_tags(&l.id, vec!["GNSS".into()]).unwrap();
    let criteria = SearchCriteria { query: Some("gNsS".into()), ..Default::default() };
    assert_eq!(store.search(&criteria).len(), 1);
    let criteria = SearchCriteria { query: Some("ROUT".into()), ..Default::default() };
    assert_eq!(store.search(&criteria).len(), 1);
    let criteria = SearchCriteria { query: Some("xyz".into()), ..Default::default() };
    assert_eq!(store.search(&criteria).len(), 0);
}

#[test]
fn listings_by_author() {
    let mut store = test_store();
    let author = EntityId::from_u128(42);
    store
        .publish("One", "one", "d", author, "A", Category::Navigation, PricingModel::Free)
        .unwrap();
    store
        .publish("Two", "two", "d", EntityId::from_u128(43), "B", Category::Navigation, PricingModel::Free)
        .unwrap();
    store
        .publish("Three", "three", "d", author, "A", Category::Traffic, PricingModel::Free)
        .unwrap();
    let mine = store.by_author(&author);
    assert_eq!(mine.len(), 2);
    assert_eq!(mine[0].name, "One");
    assert_eq!(mine[1].name, "Three");
}

#[test]
fn latest_versions_of_empty_listing() {
    let mut store = test_store();
    let l = publish_test_listing(&mut store);
    let stored = store.get(&l.id).unwrap();
    assert!(stored.latest_stable().is_none());
    assert!(stored.latest_version().is_none());
}

#[test]
fn tags_dedup_within_one_call() {
    let mut store = test_store();
    let l = publish_test_listing(&mut store);
    store.add_tags(&l.id, vec!["a".into(), "b".into(), "a".into()]).unwrap();
    let tags = &store.get(&l.id).unwrap().tags;
    assert_eq!(tags, &vec!["a".to_string(), "b".to_string()]);
}

#[test]
fn cloned_listing_agrees() {
    let mut store = test_store();
    let l = publish_test_listing(&mut store);
    store.add_version(&l.id, "1.0.0", "first", VersionStability::Stable, "0.1.0", 10, "x").unwrap();
    store.add_tags(&l.id, vec!["t".into()]).unwrap();
    let stored = store.get(&l.id).unwrap();
    let c = stored.clone();
    assert_eq!(c.id, stored.id);
    assert_eq!(c.slug, stored.slug);
    assert_eq!(c.tags, stored.tags);
    assert_eq!(c.versions.len(), 1);
    assert_eq!(c.versions[0].checksum, "x");
}
