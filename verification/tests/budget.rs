use courier::message::{Body, Method, Request, Uri, Version};
use courier::retry::budget::{Budgets, ExtraLoad, HostBudgets, MAX_HOSTS};

fn request(url: &str) -> Request {
    Request {
        method: Method::new("GET"),
        uri: Uri::parse(url).unwrap(),
        version: Version::Http11,
        headers: http::HeaderMap::new(),
        extensions: http::Extensions::new(),
        body: Body::empty(),
    }
}

fn none() -> ExtraLoad {
    ExtraLoad::new(0, 0).unwrap()
}

fn drain(budgets: &Budgets, url: &str) -> usize {
    let budget = budgets.get(&request(url));
    let mut paid = 0;
    while paid < 10_000 && budget.withdraw().is_ok() {
        paid += 1;
    }
    paid
}

#[test]
fn hosts_have_budgets_of_their_own() {
    let budgets = Budgets::new(none());
    assert_eq!(drain(&budgets, "http://a.example/"), 100);
    assert_eq!(drain(&budgets, "http://a.example/other"), 0);
    assert_eq!(drain(&budgets, "http://b.example/"), 100);
    assert_eq!(drain(&budgets, "http://a.example:8080/"), 100);
    assert_eq!(drain(&budgets, "/"), 100);
    assert_eq!(drain(&budgets, "/other"), 0);
}

#[test]
fn clones_share_budgets() {
    let budgets = Budgets::new(none());
    let shared = budgets.clone();
    assert_eq!(drain(&budgets, "http://a.example/"), 100);
    assert_eq!(drain(&shared, "http://a.example/"), 0);
}

#[test]
fn too_many_hosts_start_afresh() {
    let mut budgets = HostBudgets::new();
    let first = budgets.get("first.example", none());
    while first.withdraw().is_ok() {}
    for i in 1..MAX_HOSTS {
        budgets.get(&format!("{i}.example"), none());
    }
    assert!(!budgets.get("first.example", none()).withdraw().is_ok());
    budgets.get("last.example", none());
    assert!(budgets.get("first.example", none()).withdraw().is_ok());
}

#[test]
fn deposits_allow_for_extra_load() {
    // Half a retry for each request.
    let budgets = Budgets::new(ExtraLoad::new(5, 1).unwrap());
    let budget = budgets.get(&request("http://a.example/"));
    let mut paid = 0;
    while budget.withdraw().is_ok() {
        paid += 1;
    }
    assert_eq!(paid, 100);
    for _ in 0..10 {
        budget.deposit();
    }
    let mut paid = 0;
    while budget.withdraw().is_ok() {
        paid += 1;
    }
    assert_eq!(paid, 5);
}

#[test]
fn extra_load_goes_up_to_a_thousand() {
    assert!(ExtraLoad::new(1_000, 0).is_some());
    assert!(ExtraLoad::new(1_001, 0).is_none());
    assert!(ExtraLoad::new(10_000, 1).is_some());
    assert!(ExtraLoad::new(10_001, 1).is_none());
    assert!(ExtraLoad::new(u32::MAX, 6).is_none());
    assert!(ExtraLoad::new(u32::MAX, 7).is_some());
    assert!(ExtraLoad::new(1, u32::MAX).is_some());
    let load = ExtraLoad::new(25, 1).unwrap();
    assert_eq!((load.digits(), load.places()), (25, 1));
    let fifth = ExtraLoad::fifth();
    assert_eq!((fifth.digits(), fifth.places()), (2, 1));
}

#[test]
fn extra_load_is_exact() {
    // 0.0000012345 pays for one retry in 810,044 requests.
    let budgets = Budgets::new(ExtraLoad::new(12_345, 10).unwrap());
    let budget = budgets.get(&request("http://a.example/"));
    while budget.withdraw().is_ok() {}
    for _ in 0..810_043 {
        budget.deposit();
    }
    assert!(budget.withdraw().is_err());
    budget.deposit();
    assert!(budget.withdraw().is_ok());
    assert!(budget.withdraw().is_err());
}

#[test]
fn the_smallest_loads_leave_the_minimum() {
    for places in [45, u32::MAX] {
        let budgets = Budgets::new(ExtraLoad::new(1, places).unwrap());
        let budget = budgets.get(&request("http://a.example/"));
        assert!(budget.withdraw().is_ok());
    }
}
