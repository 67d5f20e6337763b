use release_proxy::cache::{Action, Slot};
use release_proxy::error::ReleaseError;
use release_proxy::range::DescriptionsQuery;
use release_proxy::store::{CacheKey, FillCache};
use release_proxy::version::Version;

fn key(start: &str, end: &str) -> DescriptionsQuery {
    DescriptionsQuery::read(Some(start), Some(end)).unwrap()
}

fn name(text: &str) -> String {
    text.to_string()
}

#[test]
fn text_keys_compare_by_content() {
    assert!(name("latest").same(&name("latest")));
    assert!(!name("latest").same(&name("Latest")));
    assert!(name("").same(&name("")));
}

#[test]
fn range_keys_compare_by_parsed_value() {
    assert!(key("1.0.0", "2.0.0").same(&key("1.0.0", "2.0.0")));
    assert!(!key("1.0.0", "2.0.0").same(&key("1.0.0", "2.0.1")));
    assert!(!key("1.0.0", "2.0.0").same(&key("1.0.1", "2.0.0")));
    assert!(!key("1.0.0", "2.0.0").same(&key("1.0.0-rc.1", "2.0.0")));
    assert!(!key("1.0.0", "2.0.0").same(&key("1.0.0+b", "2.0.0")));
    let open = DescriptionsQuery { start: None, end: Some(Version::parse("2.0.0").unwrap()) };
    assert!(open.same(&open.clone()));
    assert!(!open.same(&key("1.0.0", "2.0.0")));
    assert!(DescriptionsQuery::default().same(&DescriptionsQuery::default()));
    assert!(Version::parse("1.2.3").unwrap().same(&Version::parse("1.2.3").unwrap()));
    assert!(!Version::parse("1.2.3").unwrap().same(&Version::parse("1.2.4").unwrap()));
}

#[test]
fn new_store_is_empty() {
    let store: FillCache<String, u32> = FillCache::new(60, 10_000);
    assert_eq!(store.len(), 0);
    assert_eq!(store.ttl, 60);
    assert_eq!(store.capacity, 10_000);
    assert_eq!(store.decide(&name("latest"), 0), Action::Fill);
    assert_eq!(store.value(&name("latest")), None);
}

#[test]
fn concurrent_callers_of_one_key_fill_once() {
    let mut store: FillCache<String, u32> = FillCache::new(60, 8);
    let mut fills = 0;
    for now in 0..20u64 {
        match store.begin(name("latest"), now) {
            Action::Fill => fills += 1,
            Action::Join => {}
            Action::Serve => panic!("nothing is stored yet"),
        }
    }
    assert_eq!(fills, 1);
    assert_eq!(store.settle(&name("latest"), Ok(42), 20), Ok(()));
    for now in 20..80u64 {
        assert_eq!(store.begin(name("latest"), now), Action::Serve);
        assert_eq!(store.value(&name("latest")), Some(&42));
    }
    assert_eq!(store.len(), 1);
}

#[test]
fn failure_is_not_stored() {
    let mut store: FillCache<String, u32> = FillCache::new(60, 8);
    assert_eq!(store.begin(name("latest"), 1), Action::Fill);
    assert_eq!(
        store.settle(&name("latest"), Err(ReleaseError::SignatureFetchFailed), 2),
        Err(ReleaseError::SignatureFetchFailed)
    );
    assert_eq!(store.value(&name("latest")), None);
    assert_eq!(store.begin(name("latest"), 2), Action::Fill);
    assert_eq!(store.settle(&name("latest"), Ok(5), 3), Ok(()));
    assert_eq!(store.begin(name("latest"), 4), Action::Serve);
    assert_eq!(store.value(&name("latest")), Some(&5));
    assert_eq!(store.len(), 1);
}

#[test]
fn entries_expire_by_insertion_time() {
    let mut store: FillCache<DescriptionsQuery, Vec<u8>> = FillCache::new(3600, 8);
    let k = key("1.0.0", "2.0.0");
    assert_eq!(store.begin(k.clone(), 1000), Action::Fill);
    store.settle(&k, Ok(vec![1, 2]), 1000).unwrap();
    assert_eq!(store.decide(&k, 1000), Action::Serve);
    assert_eq!(store.decide(&k, 4599), Action::Serve);
    assert_eq!(store.decide(&k, 4600), Action::Fill);
    assert_eq!(store.begin(k.clone(), 4599), Action::Serve);
    assert_eq!(store.begin(k.clone(), 4600), Action::Fill);
    assert_eq!(store.begin(k.clone(), 4601), Action::Join);
    store.settle(&k, Ok(vec![3]), 4602).unwrap();
    assert_eq!(store.value(&k), Some(&vec![3]));
    assert_eq!(store.decide(&k, 8201), Action::Serve);
    assert_eq!(store.decide(&k, 8202), Action::Fill);
}

#[test]
fn keys_do_not_interfere() {
    let mut store: FillCache<DescriptionsQuery, u32> = FillCache::new(60, 8);
    let a = key("1.0.0", "2.0.0");
    let b = key("1.0.0", "3.0.0");
    assert_eq!(store.begin(a.clone(), 0), Action::Fill);
    assert_eq!(store.begin(b.clone(), 0), Action::Fill);
    assert_eq!(store.begin(a.clone(), 1), Action::Join);
    store.settle(&a, Ok(1), 2).unwrap();
    assert_eq!(store.begin(b.clone(), 3), Action::Join);
    store.settle(&b, Err(ReleaseError::UpstreamUnavailable), 4).unwrap_err();
    assert_eq!(store.value(&a), Some(&1));
    assert_eq!(store.value(&b), None);
    assert_eq!(store.decide(&a, 5), Action::Serve);
    assert_eq!(store.decide(&b, 5), Action::Fill);
    assert_eq!(store.len(), 2);
}

#[test]
fn full_store_drops_an_entry_that_is_not_being_filled() {
    let mut store: FillCache<String, u32> = FillCache::new(60, 2);
    assert_eq!(store.begin(name("a"), 0), Action::Fill);
    assert_eq!(store.begin(name("b"), 0), Action::Fill);
    store.settle(&name("b"), Ok(2), 1).unwrap();
    assert_eq!(store.begin(name("c"), 2), Action::Fill);
    assert_eq!(store.len(), 2);
    assert_eq!(store.decide(&name("a"), 3), Action::Join);
    assert_eq!(store.decide(&name("c"), 3), Action::Join);
    assert_eq!(store.decide(&name("b"), 3), Action::Fill);
    assert_eq!(store.value(&name("b")), None);
    assert!(store.is_well_formed());
}

#[test]
fn saturated_store_still_fills_each_key_once() {
    let mut store: FillCache<String, u32> = FillCache::new(60, 1);
    assert_eq!(store.begin(name("a"), 0), Action::Fill);
    assert_eq!(store.begin(name("b"), 1), Action::Fill);
    assert_eq!(store.begin(name("b"), 2), Action::Join);
    assert_eq!(store.begin(name("a"), 3), Action::Join);
    assert_eq!(store.begin(name("c"), 4), Action::Fill);
    for now in 5..20u64 {
        assert_eq!(store.begin(name("a"), now), Action::Join);
        assert_eq!(store.begin(name("b"), now), Action::Join);
        assert_eq!(store.begin(name("c"), now), Action::Join);
    }
    assert_eq!(store.len(), 3);
    assert!(store.is_well_formed());
}

#[test]
fn keys_beyond_the_capacity_leave_when_their_fill_ends() {
    let mut store: FillCache<String, u32> = FillCache::new(60, 1);
    assert_eq!(store.begin(name("a"), 0), Action::Fill);
    assert_eq!(store.begin(name("b"), 0), Action::Fill);
    assert_eq!(store.len(), 2);
    assert_eq!(store.settle(&name("b"), Ok(2), 1), Ok(()));
    assert_eq!(store.len(), 1);
    assert_eq!(store.value(&name("b")), None);
    assert_eq!(store.decide(&name("b"), 1), Action::Fill);
    assert_eq!(store.decide(&name("a"), 1), Action::Join);
    assert_eq!(store.settle(&name("a"), Ok(1), 2), Ok(()));
    assert_eq!(store.len(), 1);
    assert_eq!(store.value(&name("a")), Some(&1));
    assert_eq!(store.decide(&name("a"), 3), Action::Serve);
    assert_eq!(store.begin(name("b"), 4), Action::Fill);
    assert_eq!(store.len(), 1);
    assert_eq!(store.value(&name("a")), None);
    assert_eq!(store.settle(&name("b"), Err(ReleaseError::UpstreamUnavailable), 5),
        Err(ReleaseError::UpstreamUnavailable));
    assert_eq!(store.len(), 1);
    assert!(store.is_well_formed());
}

#[test]
fn store_without_capacity_keeps_only_fills_in_flight() {
    let mut store: FillCache<String, u32> = FillCache::new(60, 0);
    assert_eq!(store.begin(name("a"), 0), Action::Fill);
    assert_eq!(store.begin(name("a"), 0), Action::Join);
    assert_eq!(store.begin(name("a"), 1), Action::Join);
    assert_eq!(store.len(), 1);
    assert_eq!(store.settle(&name("a"), Ok(1), 2), Ok(()));
    assert_eq!(store.len(), 0);
    assert_eq!(store.value(&name("a")), None);
    assert_eq!(store.begin(name("a"), 3), Action::Fill);
    assert_eq!(store.begin(name("a"), 3), Action::Join);
    assert!(store.is_well_formed());
}

#[test]
fn invariant_is_tested() {
    let mut store: FillCache<String, u32> = FillCache::new(60, 2);
    assert!(store.is_well_formed());
    store.begin(name("a"), 0);
    store.begin(name("b"), 0);
    store.settle(&name("a"), Ok(1), 1).unwrap();
    assert!(store.is_well_formed());
    store.keys.push(name("a"));
    assert!(!store.is_well_formed());
    store.slots.push(Slot::Pending);
    assert!(!store.is_well_formed());
    store.keys.pop();
    store.keys.push(name("c"));
    assert!(!store.is_well_formed());
    store.capacity = 3;
    assert!(store.is_well_formed());
}

#[test]
fn settling_an_unknown_key_changes_nothing() {
    let mut store: FillCache<String, u32> = FillCache::new(60, 4);
    assert_eq!(store.settle(&name("x"), Ok(1), 0), Ok(()));
    assert_eq!(store.len(), 0);
    assert_eq!(store.decide(&name("x"), 0), Action::Fill);
    assert!(matches!(Slot::<u32>::new(), Slot::Empty));
}
