use subscriber_registry::model::Subscriber;
use subscriber_registry::repository::SubscriberRepository;

fn subscriber(url: &str, name: &str) -> Subscriber {
    Subscriber { url: url.to_string(), name: name.to_string() }
}

fn sorted_urls(listed: &[Subscriber]) -> Vec<String> {
    let mut urls: Vec<String> = listed.iter().map(|s| s.url.clone()).collect();
    urls.sort();
    urls
}

#[test]
fn new_registry_has_no_partitions() {
    let registry = SubscriberRepository::new();
    assert!(!registry.has_product_type("email"));
    assert!(!registry.has_product_type(""));
    assert_eq!(registry.get("email", "https://a"), None);
    assert!(registry.list_by_product_type("email").is_empty());
}

#[test]
fn add_returns_the_subscriber_and_stores_it() {
    let mut registry = SubscriberRepository::new();
    let stored = registry.add("email", subscriber("https://a", "alice"));
    assert_eq!(stored, subscriber("https://a", "alice"));
    assert!(registry.has_product_type("email"));
    assert_eq!(registry.get("email", "https://a"), Some(subscriber("https://a", "alice")));
    assert_eq!(registry.list_by_product_type("email"), vec![subscriber("https://a", "alice")]);
}

#[test]
fn adding_the_same_url_twice_keeps_the_second() {
    let mut registry = SubscriberRepository::new();
    registry.add("email", subscriber("https://a", "first"));
    let stored = registry.add("email", subscriber("https://a", "second"));
    assert_eq!(stored, subscriber("https://a", "second"));
    let listed = registry.list_by_product_type("email");
    assert_eq!(listed.len(), 1);
    assert_eq!(listed[0], subscriber("https://a", "second"));
    assert_eq!(registry.get("email", "https://a"), Some(subscriber("https://a", "second")));
}

#[test]
fn overwriting_leaves_other_urls_alone() {
    let mut registry = SubscriberRepository::new();
    registry.add("email", subscriber("https://a", "first"));
    registry.add("email", subscriber("https://b", "bob"));
    registry.add("email", subscriber("https://a", "second"));
    assert_eq!(registry.list_by_product_type("email").len(), 2);
    assert_eq!(registry.get("email", "https://a"), Some(subscriber("https://a", "second")));
    assert_eq!(registry.get("email", "https://b"), Some(subscriber("https://b", "bob")));
}

#[test]
fn adding_under_one_product_type_leaves_the_others_alone() {
    let mut registry = SubscriberRepository::new();
    registry.add("sms", subscriber("https://a", "before"));
    registry.add("email", subscriber("https://a", "alice"));
    registry.add("email", subscriber("https://b", "bob"));
    assert!(!registry.has_product_type("push"));
    assert_eq!(registry.get("push", "https://a"), None);
    assert!(registry.list_by_product_type("push").is_empty());
    assert_eq!(registry.list_by_product_type("sms"), vec![subscriber("https://a", "before")]);
    assert_eq!(registry.get("sms", "https://b"), None);
}

#[test]
fn many_distinct_urls_are_all_present() {
    let mut registry = SubscriberRepository::new();
    let count = 200;
    for i in 0..count {
        let url = format!("https://host/{}", i);
        let name = format!("subscriber {}", i);
        registry.add("email", subscriber(&url, &name));
    }
    let listed = registry.list_by_product_type("email");
    assert_eq!(listed.len(), count);
    for i in 0..count {
        let url = format!("https://host/{}", i);
        let name = format!("subscriber {}", i);
        assert_eq!(registry.get("email", &url), Some(subscriber(&url, &name)));
    }
    let mut urls = sorted_urls(&listed);
    urls.dedup();
    assert_eq!(urls.len(), count);
}

#[test]
fn returned_subscriber_is_independent_of_the_registry() {
    let mut registry = SubscriberRepository::new();
    let stored = registry.add("email", subscriber("https://a", "first"));
    registry.add("email", subscriber("https://a", "second"));
    assert_eq!(stored, subscriber("https://a", "first"));
    let found = registry.get("email", "https://a");
    registry.remove("email", "https://a");
    assert_eq!(stored, subscriber("https://a", "first"));
    assert_eq!(found, Some(subscriber("https://a", "second")));
    let mut changed = stored;
    changed.name.push_str(" changed");
    assert_eq!(registry.get("email", "https://a"), None);
}

#[test]
fn changing_a_returned_subscriber_does_not_change_the_registry() {
    let mut registry = SubscriberRepository::new();
    let mut stored = registry.add("email", subscriber("https://a", "alice"));
    stored.name.push_str(" changed");
    stored.url.push_str("/other");
    assert_eq!(registry.get("email", "https://a"), Some(subscriber("https://a", "alice")));
    assert_eq!(registry.get("email", "https://a/other"), None);
    let mut found = registry.get("email", "https://a").unwrap();
    found.name.clear();
    assert_eq!(registry.get("email", "https://a"), Some(subscriber("https://a", "alice")));
}

#[test]
fn email_and_sms_are_independent_partitions() {
    let mut registry = SubscriberRepository::new();
    registry.add("email", subscriber("https://a", "a by email"));
    registry.add("email", subscriber("https://b", "b by email"));
    registry.add("sms", subscriber("https://a", "a by sms"));
    let email = registry.list_by_product_type("email");
    assert_eq!(email.len(), 2);
    assert_eq!(sorted_urls(&email), vec!["https://a".to_string(), "https://b".to_string()]);
    let sms = registry.list_by_product_type("sms");
    assert_eq!(sms.len(), 1);
    assert_eq!(sorted_urls(&sms), vec!["https://a".to_string()]);
    assert_eq!(registry.get("email", "https://a"), Some(subscriber("https://a", "a by email")));
    assert_eq!(registry.get("email", "https://b"), Some(subscriber("https://b", "b by email")));
    assert_eq!(registry.get("sms", "https://a"), Some(subscriber("https://a", "a by sms")));
    assert_eq!(registry.get("sms", "https://b"), None);
}

#[test]
fn empty_product_type_and_empty_url_are_accepted() {
    let mut registry = SubscriberRepository::new();
    let stored = registry.add("", subscriber("", "nameless"));
    assert_eq!(stored, subscriber("", "nameless"));
    assert!(registry.has_product_type(""));
    assert_eq!(registry.get("", ""), Some(subscriber("", "nameless")));
    assert_eq!(registry.list_by_product_type("").len(), 1);
    assert!(!registry.has_product_type(" "));
}

#[test]
fn get_misses_an_unknown_url_and_an_unknown_product_type() {
    let mut registry = SubscriberRepository::new();
    registry.add("email", subscriber("https://a", "alice"));
    assert_eq!(registry.get("email", "https://b"), None);
    assert_eq!(registry.get("sms", "https://a"), None);
    assert_eq!(registry.get("Email", "https://a"), None);
}

#[test]
fn remove_returns_the_subscriber_and_unbinds_the_url() {
    let mut registry = SubscriberRepository::new();
    registry.add("email", subscriber("https://a", "alice"));
    registry.add("email", subscriber("https://b", "bob"));
    assert_eq!(registry.remove("email", "https://a"), Some(subscriber("https://a", "alice")));
    assert_eq!(registry.get("email", "https://a"), None);
    assert_eq!(registry.list_by_product_type("email"), vec![subscriber("https://b", "bob")]);
    assert_eq!(registry.remove("email", "https://a"), None);
}

#[test]
fn remove_of_what_is_not_there_changes_nothing() {
    let mut registry = SubscriberRepository::new();
    registry.add("email", subscriber("https://a", "alice"));
    assert_eq!(registry.remove("sms", "https://a"), None);
    assert!(!registry.has_product_type("sms"));
    assert_eq!(registry.remove("email", "https://b"), None);
    assert_eq!(registry.list_by_product_type("email"), vec![subscriber("https://a", "alice")]);
}

#[test]
fn an_emptied_partition_stays() {
    let mut registry = SubscriberRepository::new();
    registry.add("email", subscriber("https://a", "alice"));
    registry.remove("email", "https://a");
    assert!(registry.has_product_type("email"));
    assert!(registry.list_by_product_type("email").is_empty());
    registry.add("email", subscriber("https://b", "bob"));
    assert_eq!(registry.list_by_product_type("email"), vec![subscriber("https://b", "bob")]);
}

#[test]
fn clone_copies_both_fields() {
    let first = subscriber("https://a", "alice");
    let mut copy = first.clone();
    assert_eq!(copy, first);
    copy.name.push('!');
    assert_eq!(first, subscriber("https://a", "alice"));
    assert_ne!(copy, first);
}
