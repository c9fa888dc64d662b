use prismarine::logs::online_players;

fn sorted(mut v: Vec<String>) -> Vec<String> {
    v.sort();
    v
}

#[test]
fn joins_and_leaves() {
    let log = "[16:32:04] [Server thread/INFO]: Steve joined the game\n\
               [16:32:09] [Server thread/INFO]: Alex joined the game\n\
               [16:33:00] [Server thread/INFO]: Steve left the game\n\
               [16:34:00] [Server thread/INFO]: Notch joined the game\n\
               [16:35:00] [Server thread/INFO]: Notch joined the game\n";
    assert_eq!(sorted(online_players(log)), vec!["Alex", "Notch"]);
}

#[test]
fn unrelated_lines_are_ignored() {
    assert!(online_players("").is_empty());
    assert!(online_players("no colon here joined the game").is_empty());
    assert!(online_players("[x]: Done (3.2s)! For help, type \"help\"").is_empty());
    assert!(online_players("[x]: Ghost left the game").is_empty());
    assert_eq!(online_players("[x]: <Bob> hi: Eve joined the game"), Vec::<String>::new());
    assert_eq!(online_players("[x]:  Bob  joined the game: extra"), vec!["Bob"]);
}
