use prismarine::launch::{jvm_arguments, jvm_arguments_for, memory_mb_from_normalized, parse_memory_mb};

#[test]
fn memory_gigabytes() {
    assert_eq!(parse_memory_mb("4G"), Some(4096));
}

#[test]
fn memory_megabytes() {
    assert_eq!(parse_memory_mb("2048M"), Some(2048));
}

#[test]
fn memory_unsuffixed() {
    assert_eq!(parse_memory_mb("512"), Some(512));
}

#[test]
fn memory_unparseable() {
    assert_eq!(parse_memory_mb("abc"), None);
    assert_eq!(parse_memory_mb(""), None);
    assert_eq!(parse_memory_mb("G"), None);
    assert_eq!(parse_memory_mb("4GB"), None);
}

#[test]
fn memory_case_and_space() {
    assert_eq!(parse_memory_mb("  2g "), Some(2048));
    assert_eq!(parse_memory_mb("16m"), Some(16));
}

#[test]
fn memory_overflow_is_unreadable() {
    assert_eq!(parse_memory_mb("18446744073709551615G"), None);
    assert_eq!(parse_memory_mb("18446744073709551616"), None);
    assert_eq!(parse_memory_mb("18446744073709551615"), Some(u64::MAX));
}

#[test]
fn memory_normalized_only() {
    assert_eq!(memory_mb_from_normalized("4G"), Some(4096));
    assert_eq!(memory_mb_from_normalized("4g"), None);
    assert_eq!(memory_mb_from_normalized("+7M"), Some(7));
}

fn large_tier() -> Vec<&'static str> {
    vec![
        "-XX:G1NewSizePercent=40",
        "-XX:G1MaxNewSizePercent=50",
        "-XX:G1ReservePercent=15",
        "-XX:InitiatingHeapOccupancyPercent=15",
    ]
}

#[test]
fn large_heap_tier_positions() {
    let a = jvm_arguments("16G", "4G", "/srv/a/server.jar");
    let b = jvm_arguments("16G", "4G", "/srv/a/server.jar");
    assert_eq!(a, b);
    assert_eq!(a.len(), 22);
    assert_eq!(a[7..11].to_vec(), large_tier());
    assert_eq!(b[7..11].to_vec(), large_tier());
}

#[test]
fn full_argument_list_16g() {
    let a = jvm_arguments("16G", "4G", "server.jar");
    let expected = vec![
        "-Xmx16G",
        "-Xms4G",
        "-XX:+UseG1GC",
        "-XX:+ParallelRefProcEnabled",
        "-XX:MaxGCPauseMillis=200",
        "-XX:+UnlockExperimentalVMOptions",
        "-XX:+DisableExplicitGC",
        "-XX:G1NewSizePercent=40",
        "-XX:G1MaxNewSizePercent=50",
        "-XX:G1ReservePercent=15",
        "-XX:InitiatingHeapOccupancyPercent=15",
        "-XX:+AlwaysPreTouch",
        "-XX:G1HeapWastePercent=5",
        "-XX:G1MixedGCCountTarget=4",
        "-XX:G1MixedGCLiveThresholdPercent=90",
        "-XX:G1RSetUpdatingPauseTimePercent=5",
        "-XX:SurvivorRatio=32",
        "-XX:+PerfDisableSharedMem",
        "-XX:MaxTenuringThreshold=1",
        "-jar",
        "server.jar",
        "nogui",
    ];
    assert_eq!(a, expected);
}

#[test]
fn default_tier_below_threshold() {
    let a = jvm_arguments("4G", "1G", "server.jar");
    assert_eq!(
        a[7..11].to_vec(),
        vec![
            "-XX:G1NewSizePercent=30",
            "-XX:G1MaxNewSizePercent=40",
            "-XX:G1ReservePercent=20",
            "-XX:InitiatingHeapOccupancyPercent=20",
        ]
    );
    let edge = jvm_arguments("12288M", "1G", "server.jar");
    assert_eq!(edge[7..11].to_vec(), large_tier());
    let below = jvm_arguments("12287", "1G", "server.jar");
    assert_eq!(below[7], "-XX:G1NewSizePercent=30");
}

#[test]
fn unreadable_heap_gets_no_tier() {
    let a = jvm_arguments("lots", "1G", "server.jar");
    assert_eq!(a.len(), 18);
    assert_eq!(a[0], "-Xmxlots");
    assert_eq!(a[7], "-XX:+AlwaysPreTouch");
    assert_eq!(a[17], "nogui");
}

#[test]
fn arguments_for_given_size() {
    let a = jvm_arguments_for("x", "y", "j", Some(20000));
    assert_eq!(a[7..11].to_vec(), large_tier());
    let b = jvm_arguments_for("x", "y", "j", None);
    assert_eq!(b.len(), 18);
}

#[test]
fn trim_matches_std() {
    for s in ["", "  ", " a b ", "\t\n x\r\n", "\u{3000}y\u{2003}", "\u{85}z\u{a0}", "no"] {
        assert_eq!(prismarine::launch::trim_text(s), s.trim(), "input {:?}", s);
    }
}
