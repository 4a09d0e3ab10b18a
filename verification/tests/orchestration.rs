use dockify::catalog::container_exists;
use dockify::catalog::Container;
use dockify::errors::ApiError;
use dockify::lifecycle::fresh_container_name;
use dockify::lifecycle::resolve_runtime_id;
use dockify::lifecycle::EngineListing;
use dockify::lifecycle::Orchestrator;
use dockify::ContainerResources;

const GIB: i64 = 1024 * 1024 * 1024;

fn example_resources() -> ContainerResources {
    ContainerResources::new(2 * GIB, GIB, 1, 512)
}

fn record(owner_port: u16, name: &str) -> Container {
    Container {
        id: format!("rt-{}", name),
        name: name.to_string(),
        memory: 2 * GIB,
        memory_swap: GIB,
        cpu_shares: 512,
        cpu_cores: 1,
        port: owner_port as i64,
    }
}

/// Provisions one container end to end and returns its port.
fn provision(o: &mut Orchestrator, owner: &String, name: &str) -> u16 {
    let price = o.admit_create(owner, &example_resources()).unwrap();
    let port = o.begin_provision(owner, price).unwrap();
    o.commit_running(owner, record(port, name)).unwrap();
    port
}

#[test]
fn a_broke_user_is_refused_with_no_side_effects() {
    // bob has 0 credits and asks for memory=2GiB, swap=1GiB, one core:
    // the price is 2*2+2 + 1*1+1 + 1*15 = 23, the reservation fails, no
    // port is leased and no record is created.
    let mut o = Orchestrator::new(2);
    let bob = "bob".to_string();
    let r = example_resources();
    assert_eq!(r.calculate_price(), 23);
    assert_eq!(o.admit_create(&bob, &r), Err(ApiError::InsufficientCredits));
    assert_eq!(o.credit_balance(&bob), 0);
    assert!(!o.ports.holds_lease(59001));
    assert!(o.list_containers(&bob).is_empty());
}

#[test]
fn admission_debits_exactly_the_price() {
    let mut o = Orchestrator::new(2);
    let alice = "alice".to_string();
    o.admin_set_credits(true, true, &alice, 100).unwrap();
    let price = o.admit_create(&alice, &example_resources()).unwrap();
    assert_eq!(price, 23);
    assert_eq!(o.credit_balance(&alice), 77);
}

#[test]
fn out_of_range_resources_are_a_bad_request() {
    let mut o = Orchestrator::new(2);
    let alice = "alice".to_string();
    let r = ContainerResources::new(-1, 0, 1, 512);
    assert_eq!(o.admit_create(&alice, &r), Err(ApiError::BadRequest));
}

#[test]
fn the_plan_limit_blocks_a_third_container() {
    let mut o = Orchestrator::new(2);
    let alice = "alice".to_string();
    o.admin_set_credits(true, true, &alice, 1000).unwrap();
    provision(&mut o, &alice, "first");
    provision(&mut o, &alice, "second");
    assert_eq!(
        o.admit_create(&alice, &example_resources()),
        Err(ApiError::ContainerLimitReached)
    );
    assert_eq!(o.list_containers(&alice).len(), 2);
}

#[test]
fn create_commits_a_running_record_on_a_leased_port() {
    let mut o = Orchestrator::new(2);
    let alice = "alice".to_string();
    o.admin_set_credits(true, true, &alice, 100).unwrap();
    let port = provision(&mut o, &alice, "mybox");
    let listed = o.list_containers(&alice);
    assert_eq!(listed.len(), 1);
    assert_eq!(listed[0].name, "mybox");
    assert_eq!(listed[0].port, port as i64);
    assert!(o.ports.holds_lease(port));
    assert!(o.find_owned(&alice, &"mybox".to_string()).is_some());
}

#[test]
fn compensation_restores_balance_and_port() {
    // The engine's create fails after the reservation and the lease: both
    // are fully reverted.
    let mut o = Orchestrator::new(2);
    let alice = "alice".to_string();
    o.admin_set_credits(true, true, &alice, 100).unwrap();
    let price = o.admit_create(&alice, &example_resources()).unwrap();
    let port = o.begin_provision(&alice, price).unwrap();
    assert_eq!(o.credit_balance(&alice), 77);
    assert!(o.ports.holds_lease(port));
    o.compensate_create_failure(&alice, price, port);
    assert_eq!(o.credit_balance(&alice), 100);
    assert!(!o.ports.holds_lease(port));
    assert!(o.list_containers(&alice).is_empty());
}

#[test]
fn port_exhaustion_refunds_the_reservation() {
    let mut o = Orchestrator::new(2000);
    let alice = "alice".to_string();
    o.admin_set_credits(true, true, &alice, 100).unwrap();
    for _ in 0..999 {
        o.ports.lease().unwrap();
    }
    let price = o.admit_create(&alice, &example_resources()).unwrap();
    assert_eq!(o.credit_balance(&alice), 77);
    assert_eq!(o.begin_provision(&alice, price), Err(ApiError::PortExhausted));
    assert_eq!(o.credit_balance(&alice), 100);
}

#[test]
fn racing_requests_for_one_budget_grant_exactly_one() {
    // The balance covers exactly one container; the admissions serialize on
    // the ledger, so the second request must fail the quota check.
    let mut o = Orchestrator::new(2);
    let bob = "bob".to_string();
    o.admin_set_credits(true, true, &bob, 23).unwrap();
    let first = o.admit_create(&bob, &example_resources());
    let second = o.admit_create(&bob, &example_resources());
    assert_eq!(first, Ok(23));
    assert_eq!(second, Err(ApiError::InsufficientCredits));
}

#[test]
fn deleting_an_absent_name_is_not_found_and_mutates_nothing() {
    let mut o = Orchestrator::new(2);
    let alice = "alice".to_string();
    o.admin_set_credits(true, true, &alice, 100).unwrap();
    let port = provision(&mut o, &alice, "keeper");
    assert_eq!(
        o.complete_delete(&alice, &"ghost".to_string()),
        Err(ApiError::NameNotFound)
    );
    assert_eq!(
        o.complete_delete(&"mallory".to_string(), &"keeper".to_string()),
        Err(ApiError::NameNotFound)
    );
    assert_eq!(o.list_containers(&alice).len(), 1);
    assert!(o.ports.holds_lease(port));
    assert_eq!(o.credit_balance(&alice), 77);
}

#[test]
fn delete_frees_the_port_and_the_name() {
    let mut o = Orchestrator::new(2);
    let alice = "alice".to_string();
    o.admin_set_credits(true, true, &alice, 100).unwrap();
    let name = "mybox".to_string();
    let port = provision(&mut o, &alice, "mybox");
    assert_eq!(o.complete_delete(&alice, &name), Ok(port));
    assert!(!o.ports.holds_lease(port));
    assert!(o.list_containers(&alice).is_empty());
    // Deleting again is NotFound, not a crash.
    assert_eq!(o.complete_delete(&alice, &name), Err(ApiError::NameNotFound));
}

#[test]
fn stop_keeps_the_record_and_the_lease() {
    let mut o = Orchestrator::new(2);
    let alice = "alice".to_string();
    o.admin_set_credits(true, true, &alice, 100).unwrap();
    let name = "mybox".to_string();
    let port = provision(&mut o, &alice, "mybox");
    assert_eq!(o.mark_stopped(&alice, &name), Ok(()));
    assert!(o.ports.holds_lease(port));
    assert_eq!(o.list_containers(&alice).len(), 1);
    // A stopped container cannot stop again, but it can resume.
    assert_eq!(o.mark_stopped(&alice, &name), Err(ApiError::OperationFailed));
    assert_eq!(o.mark_running(&alice, &name), Ok(()));
    assert_eq!(o.mark_stopped(&alice, &name), Ok(()));
}

#[test]
fn lifecycle_operations_on_absent_names_are_not_found() {
    let mut o = Orchestrator::new(2);
    let alice = "alice".to_string();
    let name = "nothere".to_string();
    assert_eq!(o.mark_stopped(&alice, &name), Err(ApiError::NameNotFound));
    assert_eq!(o.mark_running(&alice, &name), Err(ApiError::NameNotFound));
    assert!(o.find_owned(&alice, &name).is_none());
}

#[test]
fn a_committed_record_must_sit_on_its_leased_port() {
    let mut o = Orchestrator::new(2);
    let alice = "alice".to_string();
    o.admin_set_credits(true, true, &alice, 100).unwrap();
    let price = o.admit_create(&alice, &example_resources()).unwrap();
    let port = o.begin_provision(&alice, price).unwrap();
    // A port nobody leased is refused.
    assert_eq!(
        o.commit_running(&alice, record(59999, "mybox")),
        Err(ApiError::OperationFailed)
    );
    // A port outside the range is refused.
    let mut bad = record(port, "mybox");
    bad.port = 80;
    assert_eq!(o.commit_running(&alice, bad), Err(ApiError::OperationFailed));
    // The leased one is accepted, once.
    assert_eq!(o.commit_running(&alice, record(port, "mybox")), Ok(()));
    assert_eq!(
        o.commit_running(&alice, record(port, "other")),
        Err(ApiError::OperationFailed)
    );
}

#[test]
fn owners_may_reuse_each_others_names() {
    // Names are unique per owner, not globally; the records still sit on
    // distinct ports.
    let mut o = Orchestrator::new(2);
    let alice = "alice".to_string();
    let bob = "bob".to_string();
    o.admin_set_credits(true, true, &alice, 100).unwrap();
    o.admin_set_credits(true, true, &bob, 100).unwrap();
    let p1 = provision(&mut o, &alice, "mybox");
    let p2 = provision(&mut o, &bob, "mybox");
    assert_ne!(p1, p2);
    assert!(o.find_owned(&alice, &"mybox".to_string()).is_some());
    assert!(o.find_owned(&bob, &"mybox".to_string()).is_some());
    // Deleting one owner's record leaves the other's untouched.
    assert_eq!(o.complete_delete(&alice, &"mybox".to_string()), Ok(p1));
    assert!(o.find_owned(&alice, &"mybox".to_string()).is_none());
    assert!(o.find_owned(&bob, &"mybox".to_string()).is_some());
}

#[test]
fn admin_credit_adjustment_is_gated() {
    let mut o = Orchestrator::new(2);
    let target = "carol".to_string();
    assert_eq!(
        o.admin_set_credits(false, true, &target, 50),
        Err(ApiError::Forbidden)
    );
    assert_eq!(
        o.admin_set_credits(true, false, &target, 50),
        Err(ApiError::BadRequest)
    );
    assert_eq!(o.credit_balance(&target), 0);
    assert_eq!(o.admin_set_credits(true, true, &target, 50), Ok(()));
    assert_eq!(o.credit_balance(&target), 50);
}

#[test]
fn generated_names_are_sixteen_alphanumerics() {
    let name = fresh_container_name();
    assert_eq!(name.chars().count(), 16);
    assert!(name.chars().all(|c| c.is_ascii_alphanumeric()));
    // Two draws almost surely differ; equal draws would suggest the name
    // source hands back a constant.
    let other = fresh_container_name();
    assert!(name != other || fresh_container_name() != name);
}

#[test]
fn runtime_ids_resolve_through_slashed_names() {
    let listings = vec![
        EngineListing { id: "id-a".to_string(), names: vec!["/alpha".to_string()] },
        EngineListing {
            id: "id-b".to_string(),
            names: vec!["/extra".to_string(), "/beta".to_string()],
        },
        EngineListing { id: "id-b2".to_string(), names: vec!["/beta".to_string()] },
    ];
    assert_eq!(resolve_runtime_id(&listings, "alpha"), Some("id-a".to_string()));
    // The first listing that carries the name wins.
    assert_eq!(resolve_runtime_id(&listings, "beta"), Some("id-b".to_string()));
    // A bare name without its slash prefix never matches.
    assert_eq!(resolve_runtime_id(&listings, "/alpha"), None);
    assert_eq!(resolve_runtime_id(&listings, "gamma"), None);
    assert_eq!(resolve_runtime_id(&Vec::new(), "alpha"), None);
}

#[test]
fn container_exists_matches_on_the_name() {
    let containers = vec![record(59001, "one"), record(59002, "two")];
    assert!(container_exists(&containers, "one"));
    assert!(container_exists(&containers, "two"));
    assert!(!container_exists(&containers, "three"));
    assert!(!container_exists(&Vec::new(), "one"));
}
