use minecraft_hold_api::batch::{discover_and_freeze, discover_and_thaw, pids_of};
use minecraft_hold_api::matcher::{
    find_minecrafts, match_entry, match_processes, DirectoryEntry, MinecraftInfo,
    MINECRAFT_MARKER,
};
use minecraft_hold_api::text::{chars_of, contains_ignoring_ascii_case, contains_text};

fn entry(pid: u32, name: &str, line: &str) -> DirectoryEntry {
    DirectoryEntry {
        pid: Some(pid),
        name: Some(name.to_string()),
        command_line: Some(line.to_string()),
    }
}

fn sample_directory() -> Vec<DirectoryEntry> {
    vec![
        entry(100, "javaw.exe", "java -jar server.jar --world minecraft_save"),
        entry(200, "notepad.exe", "notepad.exe"),
        entry(300, "java.exe", "java -cp launcher.jar net.minecraft.client.main.Main"),
        entry(400, "java.exe", "java -jar unrelated.jar"),
    ]
}

#[test]
fn test_wmi() {
    let found = find_minecrafts(&sample_directory());
    println!("{:?}", found);
    assert_eq!(found.len(), 2);
}

#[test]
fn scenario_javaw_with_marker_is_the_only_match() {
    let dir = vec![
        entry(100, "javaw.exe", "java -jar server.jar --world minecraft_save"),
        entry(200, "notepad.exe", "notepad.exe"),
    ];
    let found = match_processes(&dir, "minecraft");
    assert_eq!(found, vec![MinecraftInfo { pid: 100, name: "javaw.exe".to_string() }]);
}

#[test]
fn matches_keep_directory_order() {
    let found = find_minecrafts(&sample_directory());
    assert_eq!(pids_of(&found), vec![100, 300]);
    assert_eq!(found[1].name, "java.exe");
}

#[test]
fn entries_missing_fields_are_skipped_not_fatal() {
    let dir = vec![
        DirectoryEntry {
            pid: None,
            name: Some("java.exe".to_string()),
            command_line: Some("minecraft".to_string()),
        },
        DirectoryEntry { pid: Some(7), name: None, command_line: Some("minecraft".to_string()) },
        DirectoryEntry { pid: Some(8), name: Some("java.exe".to_string()), command_line: None },
        entry(9, "java.exe", "minecraft"),
    ];
    let found = find_minecrafts(&dir);
    assert_eq!(found, vec![MinecraftInfo { pid: 9, name: "java.exe".to_string() }]);
}

#[test]
fn runtime_name_ignores_case_marker_does_not() {
    assert!(match_entry(&entry(1, "JavaW.EXE", "x minecraft y"), MINECRAFT_MARKER).is_some());
    assert!(match_entry(&entry(2, "javaw.exe", "x Minecraft y"), MINECRAFT_MARKER).is_none());
    assert!(match_entry(&entry(3, "jav.exe", "minecraft"), MINECRAFT_MARKER).is_none());
}

#[test]
fn empty_directory_matches_nothing() {
    assert!(find_minecrafts(&Vec::new()).is_empty());
    assert_eq!(discover_and_freeze(&Vec::new()).items.len(), 0);
}

#[test]
fn discovery_starts_one_transition_per_match() {
    let b = discover_and_thaw(&sample_directory());
    assert_eq!(b.current, 0);
    assert_eq!(b.items.len(), 2);
    assert_eq!(b.items[0].pid, 100);
    assert_eq!(b.items[1].pid, 300);
}

#[test]
fn substring_search_edges() {
    assert!(contains_text("abc", ""));
    assert!(contains_text("", ""));
    assert!(!contains_text("ab", "abc"));
    assert!(contains_text("abc", "abc"));
    assert!(contains_text("xxabcab", "cab"));
    assert!(!contains_text("ABC", "abc"));
    assert!(contains_ignoring_ascii_case("ABC", "abc"));
    assert!(contains_ignoring_ascii_case("aaJAVa", "java"));
    assert!(!contains_ignoring_ascii_case("[java", "{JAVA"));
    assert!(contains_text("grüße minecraft", "minecraft"));
    assert_eq!(chars_of("añb"), vec!['a', 'ñ', 'b']);
}
