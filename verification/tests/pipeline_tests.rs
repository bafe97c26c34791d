use traceroute_vis::pipeline::collect_results;
use traceroute_vis::pipeline::plan_hop;
use traceroute_vis::pipeline::plan_lines;
use traceroute_vis::pipeline::HopPlan;
use traceroute_vis::record::make_record;
use traceroute_vis::record::LocationRecord;

fn record(address: &str, latitude_micro: i64, longitude_micro: i64) -> LocationRecord {
    make_record(
        address.to_string(),
        latitude_micro,
        longitude_micro,
        None,
        None,
        None,
        None,
        None,
    )
    .expect("coordinates in range")
}

#[test]
fn local_hop_skips_the_lookup() {
    match plan_hop("1  gateway  (10.0.0.99)  0.5 ms") {
        HopPlan::SkipLocal => (),
        _ => panic!("a local address must skip the lookup"),
    }
}

#[test]
fn public_hop_plans_a_lookup() {
    match plan_hop("2  edge.example  (93.184.216.34)  9.1 ms") {
        HopPlan::Lookup { address } => assert_eq!(address, "93.184.216.34"),
        _ => panic!("a public address must be looked up"),
    }
}

#[test]
fn timeout_hop_spawns_nothing() {
    match plan_hop("3  *  *  *") {
        HopPlan::NoAddress => (),
        _ => panic!("a timeout line must be dropped"),
    }
}

#[test]
fn first_line_is_always_excluded() {
    // The header line even looks like a perfectly good hop line.
    let lines = vec![
        "0  head.example  (93.184.216.34)  1.0 ms".to_string(),
        "1  gw.local  (192.168.1.1)  0.4 ms".to_string(),
        "2  edge.example  (1.1.1.1)  8.0 ms".to_string(),
    ];
    assert_eq!(plan_lines(&lines), vec!["1.1.1.1".to_string()]);
}

#[test]
fn empty_input_plans_nothing() {
    assert_eq!(plan_lines(&Vec::new()), Vec::<String>::new());
    assert_eq!(plan_lines(&vec!["just a header".to_string()]), Vec::<String>::new());
}

#[test]
fn plan_keeps_line_order() {
    let lines = vec![
        "traceroute to example.com".to_string(),
        "1  gw  (192.168.0.1)  0.3 ms".to_string(),
        "2  a  (8.8.8.8)  5.0 ms".to_string(),
        "3  *  *  *".to_string(),
        "4  b  (1.1.1.1)  7.0 ms".to_string(),
    ];
    assert_eq!(plan_lines(&lines), vec!["8.8.8.8".to_string(), "1.1.1.1".to_string()]);
}

#[test]
fn one_failure_and_one_success_leave_exactly_one_record() {
    // One hop is local, so its lookup is skipped outright; the other
    // succeeds with the stubbed coordinates.
    let lines = vec![
        "traceroute to example.com".to_string(),
        "1  gw  (10.0.0.99)  0.5 ms".to_string(),
        "2  edge  (93.184.216.34)  9.1 ms".to_string(),
    ];
    let planned = plan_lines(&lines);
    assert_eq!(planned, vec!["93.184.216.34".to_string()]);
    let outcomes: Vec<Option<LocationRecord>> = planned
        .into_iter()
        .map(|addr| {
            if addr == "93.184.216.34" {
                Some(record(&addr, 37_000_000, -122_000_000))
            } else {
                None
            }
        })
        .collect();
    let results = collect_results(outcomes);
    assert_eq!(results.len(), 1);
    assert_eq!(results[0].address, "93.184.216.34");
    assert_eq!(results[0].latitude_micro, 37_000_000);
    assert_eq!(results[0].longitude_micro, -122_000_000);
}

#[test]
fn failed_lookups_are_dropped_silently() {
    let ok = record("93.184.216.34", 37_000_000, -122_000_000);
    let outcomes = vec![None, Some(ok.clone()), None];
    let results = collect_results(outcomes);
    assert_eq!(results, vec![ok]);
}

#[test]
fn no_success_is_lost_or_duplicated() {
    let a = record("1.1.1.1", 1_000_000, 2_000_000);
    let b = record("8.8.8.8", -3_000_000, 4_000_000);
    let outcomes = vec![Some(a.clone()), None, Some(b.clone())];
    let results = collect_results(outcomes);
    assert_eq!(results, vec![a, b]);
}

#[test]
fn record_fields_survive_validation() {
    let r = make_record(
        "93.184.216.34".to_string(),
        37_000_000,
        -122_000_000,
        Some("EXAMPLE-ORG".to_string()),
        Some("California".to_string()),
        None,
        Some("Santa Cruz".to_string()),
        Some("US".to_string()),
    )
    .expect("valid record");
    assert_eq!(r.address, "93.184.216.34");
    assert_eq!(r.organization.as_deref(), Some("EXAMPLE-ORG"));
    assert_eq!(r.region.as_deref(), Some("California"));
    assert_eq!(r.subregion, None);
    assert_eq!(r.city.as_deref(), Some("Santa Cruz"));
    assert_eq!(r.country.as_deref(), Some("US"));
}

#[test]
fn out_of_range_or_empty_lookups_make_no_record() {
    assert!(make_record(String::new(), 0, 0, None, None, None, None, None).is_none());
    assert!(
        make_record("1.1.1.1".to_string(), 90_000_001, 0, None, None, None, None, None).is_none()
    );
    assert!(
        make_record("1.1.1.1".to_string(), -90_000_001, 0, None, None, None, None, None).is_none()
    );
    assert!(
        make_record("1.1.1.1".to_string(), 0, 180_000_001, None, None, None, None, None).is_none()
    );
    assert!(
        make_record("1.1.1.1".to_string(), 0, -180_000_001, None, None, None, None, None)
            .is_none()
    );
    assert!(
        make_record("1.1.1.1".to_string(), 90_000_000, -180_000_000, None, None, None, None, None)
            .is_some()
    );
}
