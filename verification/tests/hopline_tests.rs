use traceroute_vis::hopline::parse_hop_line;

#[test]
fn extracts_the_delimited_address() {
    let r = parse_hop_line("1  router.local  (192.168.1.1)  1.234 ms");
    assert_eq!(r, Some("192.168.1.1".to_string()));
}

#[test]
fn timeout_marker_yields_no_address() {
    assert_eq!(parse_hop_line("3  *  *  *"), None);
}

#[test]
fn missing_third_field_yields_no_address() {
    assert_eq!(parse_hop_line(""), None);
    assert_eq!(parse_hop_line("1"), None);
    assert_eq!(parse_hop_line("1  router.local"), None);
    assert_eq!(parse_hop_line("   "), None);
}

#[test]
fn short_candidate_yields_no_address() {
    assert_eq!(parse_hop_line("2  host  x  1.0 ms"), None);
}

#[test]
fn two_character_candidate_strips_to_empty() {
    assert_eq!(parse_hop_line("2  host  ()  1.0 ms"), Some(String::new()));
}

#[test]
fn leading_whitespace_and_tabs_are_runs() {
    let r = parse_hop_line("  7\tsome.host.example \t (93.184.216.34)  12.0 ms");
    assert_eq!(r, Some("93.184.216.34".to_string()));
}

#[test]
fn delimiters_are_stripped_whatever_they_are() {
    assert_eq!(parse_hop_line("1 h [10.0.0.1] 1 ms"), Some("10.0.0.1".to_string()));
    assert_eq!(parse_hop_line("1 h 10.0.0.1x 1 ms"), Some("0.0.0.1".to_string()));
}
