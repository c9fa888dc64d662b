use prismarine::java::JavaManager;
use prismarine::text::{parse_u32_text, parse_u64_text, split_text};

#[test]
fn decimal_parsing() {
    assert_eq!(parse_u64_text("0"), Some(0));
    assert_eq!(parse_u64_text("+42"), Some(42));
    assert_eq!(parse_u64_text("+"), None);
    assert_eq!(parse_u64_text("-1"), None);
    assert_eq!(parse_u64_text(""), None);
    assert_eq!(parse_u64_text(" 1"), None);
    assert_eq!(parse_u32_text("4294967295"), Some(u32::MAX));
    assert_eq!(parse_u32_text("4294967296"), None);
}

#[test]
fn splitting_on_dots() {
    assert_eq!(split_text("1.20.4", '.'), vec!["1", "20", "4"]);
    assert_eq!(split_text("", '.'), vec![""]);
    assert_eq!(split_text("a..b.", '.'), vec!["a", "", "b", ""]);
}

#[test]
fn java_versions() {
    assert_eq!(JavaManager::get_java_version_for_mc("1.20.4"), 17);
    assert_eq!(JavaManager::get_java_version_for_mc("1.20.5"), 21);
    assert_eq!(JavaManager::get_java_version_for_mc("1.20"), 17);
    assert_eq!(JavaManager::get_java_version_for_mc("1.21"), 21);
    assert_eq!(JavaManager::get_java_version_for_mc("1.18.2"), 17);
    assert_eq!(JavaManager::get_java_version_for_mc("1.17.1"), 17);
    assert_eq!(JavaManager::get_java_version_for_mc("1.16.5"), 8);
    assert_eq!(JavaManager::get_java_version_for_mc("1.12.2"), 8);
    assert_eq!(JavaManager::get_java_version_for_mc("latest"), 21);
    assert_eq!(JavaManager::get_java_version_for_mc("1.x"), 8);
}

#[test]
fn runtimes_directory() {
    let m = JavaManager::new("/data/app");
    assert_eq!(m.runtimes_path, format!("/data/app{}runtimes", std::path::MAIN_SEPARATOR));
}

#[test]
fn java_version_output() {
    let modern = "openjdk version \"17.0.1\" 2021-10-19\nOpenJDK Runtime Environment (build 17.0.1+12)\n";
    assert_eq!(JavaManager::parse_java_version(modern), Some(17));
    let legacy = "java version \"1.8.0_301\"\r\nJava(TM) SE Runtime Environment";
    assert_eq!(JavaManager::parse_java_version(legacy), Some(8));
    assert_eq!(JavaManager::parse_java_version("openjdk version \"21\""), Some(21));
    assert_eq!(JavaManager::parse_java_version("no quotes version here\nversion \"11.0.2\""), Some(11));
    assert_eq!(JavaManager::parse_java_version("version \"abc\"\nversion \"17\""), None);
    assert_eq!(JavaManager::parse_java_version(""), None);
    assert_eq!(JavaManager::parse_java_version("openjdk version \"300.1\""), None);
}
