use prismarine::properties::{keep_file_name_chars, plugin_file_name};
use prismarine::properties::{
    default_properties, max_players_of, motd_of, update_property, with_max_players, with_motd,
};
use prismarine::text::{decimal_text, join_text_lines, text_lines};

#[test]
fn lines_like_std() {
    for s in ["", "a", "a\n", "a\r\nb", "a\n\nb\n", "\n", "x\r", "a\r\n"] {
        let expected: Vec<String> = s.lines().map(|l| l.to_string()).collect();
        assert_eq!(text_lines(s), expected, "input {:?}", s);
    }
    assert_eq!(join_text_lines(&vec!["a".to_string(), "b".to_string()]), "a\nb");
    assert_eq!(join_text_lines(&vec![]), "");
}

#[test]
fn decimal_writing() {
    assert_eq!(decimal_text(0), "0");
    assert_eq!(decimal_text(25565), "25565");
    assert_eq!(decimal_text(u64::MAX), "18446744073709551615");
}

#[test]
fn defaults_for_new_server() {
    assert_eq!(
        default_properties(25565),
        "server-port=25565\nenable-command-block=true\ngamemode=survival\ndifficulty=normal\nmax-players=20\nview-distance=10\nmotd=A Minecraft Server managed by Prismarine\n"
    );
}

#[test]
fn motd_read_and_write() {
    let props = default_properties(1);
    assert_eq!(motd_of(&props), "A Minecraft Server managed by Prismarine");
    let changed = with_motd(&props, "Hello");
    assert_eq!(motd_of(&changed), "Hello");
    assert!(changed.contains("\nmotd=Hello"));
    assert!(!changed.ends_with('\n'));
    assert_eq!(motd_of("gamemode=creative"), "");
    assert_eq!(with_motd("a=b", "x"), "a=b\nmotd=x");
}

#[test]
fn max_players_read_and_write() {
    let props = default_properties(1);
    assert_eq!(max_players_of(&props), 20);
    let changed = with_max_players(&props, 64);
    assert_eq!(max_players_of(&changed), 64);
    assert_eq!(max_players_of("max-players=lots"), 20);
    assert_eq!(max_players_of("  max-players=7  "), 7);
    assert_eq!(max_players_of(""), 20);
}

#[test]
fn property_update_skips_comments() {
    let content = "#enforce-secure-profile=true\nenforce-secure-profile = true\nother=1";
    assert_eq!(
        update_property(content, "enforce-secure-profile", "false"),
        "#enforce-secure-profile=true\nenforce-secure-profile=false\nother=1"
    );
    assert_eq!(update_property("", "k", "v"), "k=v");
    assert_eq!(update_property("a=1\nb=2", "c", "3"), "a=1\nb=2\nc=3");
}

#[test]
fn plugin_file_names() {
    assert_eq!(plugin_file_name("Geyser-Spigot"), "Geyser-Spigot.jar");
    assert_eq!(plugin_file_name("  Via/Version: 5.0! "), "ViaVersion 50.jar");
    assert_eq!(plugin_file_name("../../etc"), "etc.jar");
    assert_eq!(keep_file_name_chars("a_b c-d.e"), "a_b c-de");
    assert_eq!(plugin_file_name("Ünïcode"), "Ünïcode.jar");
}
