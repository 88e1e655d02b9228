use bambangshop_notify::{
    is_absolute_url, is_valid_category, publish, subscribe, unsubscribe, DeliveryOutcome,
    DeliveryReport, NotificationError, Notifier, Registry, Subscriber,
};

struct FakeNotifier {
    unreachable: Vec<String>,
    calls: Vec<(String, String)>,
}

impl FakeNotifier {
    fn new(unreachable: &[&str]) -> FakeNotifier {
        FakeNotifier {
            unreachable: unreachable.iter().map(|u| u.to_string()).collect(),
            calls: Vec::new(),
        }
    }
}

impl Notifier for FakeNotifier {
    fn deliver(&mut self, url: &str, event: &str) -> DeliveryOutcome {
        self.calls.push((url.to_string(), event.to_string()));
        if self.unreachable.iter().any(|u| u == url) {
            DeliveryOutcome::Failure("connection refused".to_string())
        } else {
            DeliveryOutcome::Success
        }
    }
}

fn payload(url: &str) -> Subscriber {
    Subscriber::new("ignored", url)
}

#[test]
fn phone_subscribe_unsubscribe_example() {
    let mut reg = Registry::new();
    let created = subscribe(&mut reg, "phone", payload("http://a/cb")).unwrap();
    assert_eq!(created, Subscriber { category: "phone".to_string(), url: "http://a/cb".to_string() });
    assert_eq!(
        subscribe(&mut reg, "phone", payload("http://a/cb")),
        Err(NotificationError::DuplicateSubscription)
    );
    let removed = unsubscribe(&mut reg, "phone", "http://a/cb").unwrap();
    assert_eq!(removed, created);
    assert_eq!(
        unsubscribe(&mut reg, "phone", "http://a/cb"),
        Err(NotificationError::SubscriptionNotFound)
    );
}

#[test]
fn subscribe_twice_leaves_one_entry() {
    let mut reg = Registry::new();
    assert!(subscribe(&mut reg, "phone", payload("http://a/cb")).is_ok());
    assert_eq!(
        subscribe(&mut reg, "phone", payload("http://a/cb")),
        Err(NotificationError::DuplicateSubscription)
    );
    assert_eq!(reg.list_for("phone"), vec!["http://a/cb".to_string()]);
}

#[test]
fn unsubscribe_never_subscribed() {
    let mut reg = Registry::new();
    assert_eq!(
        unsubscribe(&mut reg, "phone", "http://a/cb"),
        Err(NotificationError::SubscriptionNotFound)
    );
    subscribe(&mut reg, "laptop", payload("http://a/cb")).unwrap();
    assert_eq!(
        unsubscribe(&mut reg, "phone", "http://a/cb"),
        Err(NotificationError::SubscriptionNotFound)
    );
    assert_eq!(reg.list_for("laptop"), vec!["http://a/cb".to_string()]);
}

#[test]
fn subscribe_unsubscribe_subscribe_again() {
    let mut reg = Registry::new();
    assert!(subscribe(&mut reg, "phone", payload("http://a/cb")).is_ok());
    assert!(unsubscribe(&mut reg, "phone", "http://a/cb").is_ok());
    assert!(subscribe(&mut reg, "phone", payload("http://a/cb")).is_ok());
    assert!(reg.contains("phone", "http://a/cb"));
    assert_eq!(reg.list_for("phone").len(), 1);
}

#[test]
fn distinct_urls_all_listed() {
    let mut reg = Registry::new();
    let n = 50;
    for i in 0..n {
        let url = format!("http://host{}/cb", i);
        assert!(subscribe(&mut reg, "phone", payload(&url)).is_ok());
    }
    let listed = reg.list_for("phone");
    assert_eq!(listed.len(), n);
    for i in 0..n {
        assert!(listed.contains(&format!("http://host{}/cb", i)));
    }
    assert!(reg.list_for("laptop").is_empty());
}

#[test]
fn publish_without_subscribers() {
    let reg = Registry::new();
    let mut notifier = FakeNotifier::new(&[]);
    let report = publish(&reg, "phone", "{}", &mut notifier);
    assert!(report.is_empty());
    assert_eq!(report.len(), 0);
    assert!(notifier.calls.is_empty());
}

#[test]
fn publish_with_one_unreachable() {
    let mut reg = Registry::new();
    for url in ["http://a/cb", "http://down/cb", "http://c/cb"] {
        subscribe(&mut reg, "phone", payload(url)).unwrap();
    }
    subscribe(&mut reg, "laptop", payload("http://d/cb")).unwrap();
    let mut notifier = FakeNotifier::new(&["http://down/cb"]);
    let report = publish(&reg, "phone", "new phone", &mut notifier);
    assert_eq!(report.len(), 3);
    for d in &report.entries {
        if d.url == "http://down/cb" {
            assert!(matches!(&d.outcome, DeliveryOutcome::Failure(r) if r == "connection refused"));
        } else {
            assert!(d.outcome.is_success());
        }
    }
    assert_eq!(notifier.calls.len(), 3);
    assert!(notifier.calls.iter().all(|(_, e)| e == "new phone"));
    // The subscriber that failed stays registered.
    assert!(reg.contains("phone", "http://down/cb"));
}

#[test]
fn report_pairs_urls_with_outcomes() {
    let urls = vec!["http://a/cb".to_string(), "http://b/cb".to_string()];
    let outcomes = vec![DeliveryOutcome::Failure("timeout".to_string()), DeliveryOutcome::Success];
    let report = DeliveryReport::from_outcomes(&urls, &outcomes);
    assert_eq!(report.len(), 2);
    assert_eq!(report.entries[0].url, "http://a/cb");
    assert!(matches!(&report.entries[0].outcome, DeliveryOutcome::Failure(r) if r == "timeout"));
    assert_eq!(report.entries[1].url, "http://b/cb");
    assert!(report.entries[1].outcome.is_success());
}

#[test]
fn invalid_input_rejected() {
    let mut reg = Registry::new();
    assert_eq!(
        subscribe(&mut reg, "", payload("http://a/cb")),
        Err(NotificationError::InvalidInput)
    );
    assert_eq!(
        subscribe(&mut reg, "phone", payload("not a url")),
        Err(NotificationError::InvalidInput)
    );
    assert_eq!(unsubscribe(&mut reg, "", "http://a/cb"), Err(NotificationError::InvalidInput));
    assert_eq!(unsubscribe(&mut reg, "phone", "a/cb"), Err(NotificationError::InvalidInput));
    assert!(reg.list_for("").is_empty());
    assert!(reg.list_for("phone").is_empty());
}

#[test]
fn absolute_url_shapes() {
    assert!(is_absolute_url("http://a/cb"));
    assert!(is_absolute_url("https://example.com:8080/hook?x=1"));
    assert!(is_absolute_url("svn+ssh://host"));
    assert!(!is_absolute_url(""));
    assert!(!is_absolute_url("http://"));
    assert!(!is_absolute_url("http:///path"));
    assert!(!is_absolute_url("http:/a"));
    assert!(!is_absolute_url("1http://a"));
    assert!(!is_absolute_url("http://a b"));
    assert!(!is_absolute_url("://a"));
    assert!(!is_absolute_url("ht~tp://a"));
}

#[test]
fn category_must_be_non_empty() {
    assert!(is_valid_category("phone"));
    assert!(!is_valid_category(""));
}

#[test]
fn categories_are_independent() {
    let mut reg = Registry::new();
    subscribe(&mut reg, "phone", payload("http://a/cb")).unwrap();
    subscribe(&mut reg, "laptop", payload("http://a/cb")).unwrap();
    unsubscribe(&mut reg, "phone", "http://a/cb").unwrap();
    assert!(!reg.contains("phone", "http://a/cb"));
    assert!(reg.contains("laptop", "http://a/cb"));
}
