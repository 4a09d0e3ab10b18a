use dockify::catalog::Container;
use dockify::resources::bytes_to_gigabytes;
use dockify::resources::check_user_resources;
use dockify::resources::validate_container_resources;
use dockify::ContainerResources;

const GIB: i64 = 1024 * 1024 * 1024;

fn container(memory: i64, memory_swap: i64, cpu_cores: i64, cpu_shares: i64, port: i64) -> Container {
    Container {
        id: "cid".to_string(),
        name: "cname".to_string(),
        memory,
        memory_swap,
        cpu_shares,
        cpu_cores,
        port,
    }
}

#[test]
fn price_of_example_request_is_23() {
    // 2 GiB memory, 1 GiB swap, one core: 2*2+2 + 1+1 + 15 = 23.
    let r = ContainerResources::new(2 * GIB, GIB, 1, 512);
    assert_eq!(r.calculate_price(), 23);
}

#[test]
fn price_has_no_zero_cost_tier() {
    let r = ContainerResources::new(0, 0, 0, 0);
    assert_eq!(r.calculate_price(), 3);
}

#[test]
fn price_truncates_partial_gigabytes() {
    let r = ContainerResources::new(2 * GIB - 1, GIB - 1, 0, 512);
    assert_eq!(r.calculate_price(), 2 + 2 + 0 + 1 + 0);
}

#[test]
fn price_is_monotonic_in_each_field() {
    let base = ContainerResources::new(GIB, GIB, 1, 512);
    let more_memory = ContainerResources::new(3 * GIB, GIB, 1, 512);
    let more_swap = ContainerResources::new(GIB, 4 * GIB, 1, 512);
    let more_cores = ContainerResources::new(GIB, GIB, 2, 512);
    let p = base.calculate_price();
    assert!(more_memory.calculate_price() >= p);
    assert!(more_swap.calculate_price() >= p);
    assert!(more_cores.calculate_price() >= p);
}

#[test]
fn gigabytes_round_toward_zero() {
    assert_eq!(bytes_to_gigabytes(GIB - 1), 0);
    assert_eq!(bytes_to_gigabytes(GIB), 1);
    assert_eq!(bytes_to_gigabytes(3 * GIB + 5), 3);
}

#[test]
fn bounds_refuse_negative_quantities() {
    let r = ContainerResources::new(-1, 0, 0, 0);
    assert!(!r.within_bounds());
    let ok = ContainerResources::new(0, 0, 0, 0);
    assert!(ok.within_bounds());
}

#[test]
fn validation_is_strict_on_the_boundary() {
    // A balance exactly equal to the price is refused by this check.
    let r = ContainerResources::new(2 * GIB, GIB, 1, 512);
    assert!(!validate_container_resources(23, &r));
    assert!(validate_container_resources(24, &r));
    assert!(!validate_container_resources(0, &r));
}

#[test]
fn resource_totals_are_fieldwise() {
    let containers = vec![
        container(GIB, 2 * GIB, 1, 512, 59001),
        container(3 * GIB, GIB, 2, 256, 59002),
    ];
    let total = check_user_resources(&containers);
    assert_eq!(total.memory, 4 * GIB);
    assert_eq!(total.memory_swap, 3 * GIB);
    assert_eq!(total.cpu_cores, 3);
    assert_eq!(total.cpu_shares, 768);
}

#[test]
fn resource_totals_of_nothing_are_zero() {
    let total = check_user_resources(&Vec::new());
    assert_eq!(total.memory, 0);
    assert_eq!(total.memory_swap, 0);
    assert_eq!(total.cpu_shares, 0);
    assert_eq!(total.cpu_cores, 0);
}
