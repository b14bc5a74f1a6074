use suiup::display::{row_cells, sorted_by_binary_name, BinaryVersion};

fn row(name: &str, release: &str, version: &str, debug: bool) -> BinaryVersion {
    BinaryVersion {
        binary_name: name.to_string(),
        network_release: release.to_string(),
        version: version.to_string(),
        debug,
    }
}

#[test]
fn rows_are_sorted_by_binary_name() {
    let rows = vec![
        row("walrus", "mainnet", "1.0.0", false),
        row("mvr", "testnet", "0.0.5", false),
        row("sui", "testnet", "1.39.3", true),
        row("mvr", "devnet", "0.0.4", false),
    ];
    let sorted = sorted_by_binary_name(rows);
    let names: Vec<&str> = sorted.iter().map(|b| b.binary_name.as_str()).collect();
    assert_eq!(names, vec!["mvr", "mvr", "sui", "walrus"]);
    // Both `mvr` rows survive the sort.
    assert_eq!(
        sorted
            .iter()
            .filter(|b| b.binary_name == "mvr")
            .count(),
        2
    );
}

#[test]
fn cells_render_debug_as_yes_or_no() {
    let with_debug = row_cells(&row("sui", "testnet", "1.39.3", true));
    assert_eq!(with_debug, vec!["sui", "testnet", "1.39.3", "Yes"]);
    let without_debug = row_cells(&row("walrus", "mainnet", "1.0.0", false));
    assert_eq!(without_debug, vec!["walrus", "mainnet", "1.0.0", "No"]);
}
