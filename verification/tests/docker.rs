use prune::docker::parse::parse_size;
use prune::docker::{
    parse_reclaimable, reclaimed_total, usage_fits_rows, usage_from_rows, usage_lines, DockerAction,
    DockerKind, DockerRow, DockerUsage,
};

/// What `docker system df --format json` printed, as the library reads it: one JSON object
/// per line; a line that is not one is left out.
fn parse_usage(stdout: &str) -> DockerUsage {
    let mut rows = Vec::new();
    for line in usage_lines(stdout) {
        let Ok(value) = serde_json::from_str::<serde_json::Value>(&line) else {
            continue;
        };
        let field = |name: &str| value.get(name).and_then(|v| v.as_str()).unwrap_or("").to_string();
        rows.push(DockerRow {
            kind: field("Type"),
            total_count: field("TotalCount"),
            active: field("Active"),
            size: field("Size"),
            reclaimable: field("Reclaimable"),
        });
    }
    assert!(usage_fits_rows(&rows));
    usage_from_rows(&rows)
}

#[test]
fn the_commands_are_the_conservative_ones() {
    // Guards against someone "improving" these into -a or --volumes.
    assert_eq!(DockerAction::SystemPrune.command(), vec!["system", "prune", "--force"]);
    assert_eq!(DockerAction::BuilderPrune.command(), vec!["builder", "prune", "--force"]);
    for action in [DockerAction::SystemPrune, DockerAction::BuilderPrune] {
        let command = action.command();
        assert!(!command.contains(&"--volumes"), "volumes must never be pruned");
        assert!(!command.contains(&"-a"), "unused-image pruning must stay opt-in");
        assert!(!command.contains(&"--all"));
    }
}

#[test]
fn parses_the_sizes_docker_prints() {
    assert_eq!(parse_size("0B"), 0);
    assert_eq!(parse_size("947.5kB"), 947_500);
    assert_eq!(parse_size("12.4GB"), 12_400_000_000);
    assert_eq!(parse_size("1.5 TB"), 1_500_000_000_000);
    assert_eq!(parse_size("512"), 512);
    assert_eq!(parse_size("  4.2MB  "), 4_200_000);
}

#[test]
fn accepts_binary_units_in_case_docker_changes() {
    assert_eq!(parse_size("1KiB"), 1024);
    assert_eq!(parse_size("2GiB"), 2 * 1024 * 1024 * 1024);
}

#[test]
fn an_unreadable_size_counts_as_nothing_rather_than_a_guess() {
    assert_eq!(parse_size(""), 0);
    assert_eq!(parse_size("unknown"), 0);
    assert_eq!(parse_size("12.4ZB"), 0);
    assert_eq!(parse_size("N/A"), 0);
}

#[test]
fn takes_the_size_out_of_a_reclaimable_percentage() {
    assert_eq!(parse_reclaimable("9.1GB (73%)"), 9_100_000_000);
    assert_eq!(parse_reclaimable("6.8GB"), 6_800_000_000);
    assert_eq!(parse_reclaimable("0B (0%)"), 0);
}

#[test]
fn skips_rows_it_does_not_understand() {
    let stdout = r#"{"Type":"Images","TotalCount":"2","Active":"1","Size":"1GB","Reclaimable":"500MB (50%)"}
not json at all
{"Type":"Something New","TotalCount":"9","Active":"0","Size":"5GB","Reclaimable":"5GB"}"#;
    let usage = parse_usage(stdout);
    assert_eq!(usage.entries.len(), 1);
    assert_eq!(usage.total_bytes, 1_000_000_000);
}

#[test]
fn handles_empty_output() {
    let usage = parse_usage("");
    assert_eq!(usage, DockerUsage::default());
}

#[test]
fn accepts_either_name_for_volumes() {
    for name in ["Local Volumes", "Volumes"] {
        let line = format!(
            r#"{{"Type":"{name}","TotalCount":"1","Active":"1","Size":"1GB","Reclaimable":"1GB"}}"#
        );
        let usage = parse_usage(&line);
        assert_eq!(usage.entries[0].kind, DockerKind::Volumes);
        // Counted, but not part of what Prune offers to reclaim.
        assert_eq!(usage.reclaimable_bytes, 0);
    }
}

#[test]
fn reads_the_reclaimed_footer() {
    assert_eq!(
        reclaimed_total("deleted: sha256:abc\n\nTotal reclaimed space: 9.1GB"),
        9_100_000_000
    );
    assert_eq!(reclaimed_total("Total reclaimed space: 0B"), 0);
    // No footer at all is 0, not a panic.
    assert_eq!(reclaimed_total("nothing to do"), 0);
}

#[test]
fn counts_are_read_but_never_required() {
    let line = r#"{"Type":"Containers","TotalCount":"","Active":"x","Size":"2GB","Reclaimable":"1GB"}"#;
    let usage = parse_usage(line);
    assert_eq!(usage.entries[0].total_count, 0);
    assert_eq!(usage.entries[0].active_count, 0);
    assert_eq!(usage.entries[0].size_bytes, 2_000_000_000);
}

#[test]
fn the_headline_leaves_volumes_out_but_the_total_keeps_them() {
    let stdout = "{\"Type\":\"Images\",\"TotalCount\":\"3\",\"Active\":\"1\",\"Size\":\"2GB\",\"Reclaimable\":\"1.5GB (75%)\"}\n{\"Type\":\"Local Volumes\",\"TotalCount\":\"1\",\"Active\":\"0\",\"Size\":\"1GB\",\"Reclaimable\":\"1GB (100%)\"}";
    let usage = parse_usage(stdout);
    assert_eq!(usage.entries.len(), 2);
    assert_eq!(usage.total_bytes, 3_000_000_000);
    assert_eq!(usage.reclaimable_bytes, 1_500_000_000);
    assert_eq!(usage.entries[0].total_count, 3);
}

/// The size as `f64` arithmetic gives it.
fn float_size(text: &str) -> u64 {
    let text = text.trim();
    let end = text.find(|c: char| !(c.is_ascii_digit() || c == '.')).unwrap_or(text.len());
    let (number, unit) = text.split_at(end);
    let Ok(value) = number.parse::<f64>() else {
        return 0;
    };
    let multiplier = match unit.trim().to_ascii_lowercase().as_str() {
        "" | "b" => 1.0,
        "kb" => 1e3,
        "mb" => 1e6,
        "gb" => 1e9,
        "tb" => 1e12,
        "pb" => 1e15,
        "kib" => 1024.0,
        "mib" => 1024.0 * 1024.0,
        "gib" => 1024.0 * 1024.0 * 1024.0,
        "tib" => 1024.0 * 1024.0 * 1024.0 * 1024.0,
        _ => return 0,
    };
    (value * multiplier) as u64
}

#[test]
fn a_size_is_read_as_its_double() {
    assert_eq!(parse_size("4.1GB"), 4_099_999_999);
    assert_eq!(parse_size("0.1B"), 0);
    assert_eq!(parse_size("99999999999999999999"), u64::MAX);
    assert_eq!(parse_size("18446744073709551615"), u64::MAX);
    assert_eq!(parse_size("9007199254740993"), 9_007_199_254_740_992);
    assert_eq!(parse_size(".5kB"), 500);
    assert_eq!(parse_size("1.kB"), 1_000);
    assert_eq!(parse_size("0.000000000000001PB"), 1);
}

#[test]
fn sizes_match_float_arithmetic_across_many_texts() {
    let units = ["", "B", "kB", "MB", "GB", "TB", "PB", "KiB", "MiB", "GiB", "TiB"];
    let mut samples: Vec<String> = vec![
        "4.1GB".into(),
        "9.1GB".into(),
        "3.8GB".into(),
        "6.8GB".into(),
        "0.30000000000000004".into(),
        "1.0000000000000002220446049250313080847263336181640625".into(),
        "1.00000000000000011102230246251565404236316680908203125".into(),
        "1.00000000000000011102230246251565404236316680908203126".into(),
        "123456789012345678901234567890".into(),
        "0.00000000000000000000000000000000000000000001TB".into(),
        "18446744073709551616".into(),
        "18446744073709550592".into(),
        "18446744073709551615.9".into(),
    ];
    let mut x: u64 = 0x2545_F491_4F6C_DD1D;
    let mut next = || {
        x ^= x << 13;
        x ^= x >> 7;
        x ^= x << 17;
        x
    };
    for _ in 0..20_000 {
        let whole = next() % 10u64.pow((next() % 8) as u32);
        let digits = (next() % 25) as usize;
        let mut frac = String::new();
        for _ in 0..digits {
            frac.push(char::from(b'0' + (next() % 10) as u8));
        }
        let unit = units[(next() % units.len() as u64) as usize];
        let text = if digits == 0 { format!("{whole}{unit}") } else { format!("{whole}.{frac}{unit}") };
        samples.push(text);
    }
    for text in samples {
        assert_eq!(parse_size(&text), float_size(&text), "for {text:?}");
    }
}
