use steam_inhibit::decimal::{parse_decimal, push_decimal};
use steam_inhibit::library::{download_dir, index_path, index_paths};
use steam_inhibit::manifest::manifest_path;
use steam_inhibit::text::{chars_of, join_path};
use steam_inhibit::{get_library_paths, IndexRead, InhibitRequest};

fn decimal_text(n: usize) -> String {
    let mut text = String::new();
    push_decimal(&mut text, n);
    text
}

fn folders(paths: &[&str]) -> IndexRead {
    IndexRead::Folders(paths.iter().map(|path| path.to_string()).collect())
}

#[test]
fn manifest_lies_below_steamapps() {
    assert_eq!(manifest_path("/games", 42), "/games/steamapps/appmanifest_42.acf");
    assert_eq!(
        manifest_path("/home/u/.local/share/Steam", 1091500),
        "/home/u/.local/share/Steam/steamapps/appmanifest_1091500.acf"
    );
    assert_eq!(manifest_path("relative/lib", 0), "relative/lib/steamapps/appmanifest_0.acf");
}

#[test]
fn manifest_path_adds_no_second_separator() {
    assert_eq!(manifest_path("/games/", 7), "/games/steamapps/appmanifest_7.acf");
    assert_eq!(manifest_path("/", 7), "/steamapps/appmanifest_7.acf");
    assert_eq!(manifest_path("", 7), "steamapps/appmanifest_7.acf");
}

#[test]
fn manifest_path_is_what_the_standard_join_gives() {
    for root in ["/games", "/games/", "", "/", "a", "a/b/", "/sp ace/\u{e4}"] {
        for id in [0usize, 7, 42, 1091500, usize::MAX] {
            let expected = std::path::Path::new(root)
                .join("steamapps")
                .join(format!("appmanifest_{}.acf", id));
            assert_eq!(std::path::Path::new(&manifest_path(root, id)), expected.as_path());
            assert_eq!(Some(manifest_path(root, id).as_str()), expected.to_str());
        }
    }
}

#[test]
fn join_follows_the_rules_of_unix_paths() {
    assert_eq!(join_path("/a", "b"), "/a/b");
    assert_eq!(join_path("/a/", "b"), "/a/b");
    assert_eq!(join_path("", "b"), "b");
    assert_eq!(join_path("/a", "/b"), "/b");
    assert_eq!(join_path("/a", ""), "/a/");
    assert_eq!(join_path("", ""), "");
    assert_eq!(join_path("/a//", "b/c"), "/a//b/c");
    for base in ["/a", "/a/", "", "/", "x/y", "\u{e4}"] {
        for rel in ["b", "/b", "", "b/c", "\u{f6}/", "/"] {
            let expected = std::path::Path::new(base).join(rel);
            assert_eq!(Some(join_path(base, rel).as_str()), expected.to_str());
        }
    }
}

#[test]
fn decimal_notation_is_the_usual_one() {
    assert_eq!(decimal_text(0), "0");
    assert_eq!(decimal_text(7), "7");
    assert_eq!(decimal_text(10), "10");
    assert_eq!(decimal_text(42), "42");
    assert_eq!(decimal_text(1091500), "1091500");
    assert_eq!(decimal_text(usize::MAX), format!("{}", usize::MAX));
    let mut text = "id ".to_string();
    push_decimal(&mut text, 305);
    assert_eq!(text, "id 305");
}

#[test]
fn parse_decimal_reads_what_push_decimal_writes() {
    for n in [0usize, 1, 9, 10, 99, 100, 12345, usize::MAX - 1, usize::MAX] {
        assert_eq!(parse_decimal(&decimal_text(n)), Some(n));
    }
}

#[test]
fn parse_decimal_takes_digits_only() {
    assert_eq!(parse_decimal("42"), Some(42));
    assert_eq!(parse_decimal("+42"), Some(42));
    assert_eq!(parse_decimal("0042"), Some(42));
    assert_eq!(parse_decimal(""), None);
    assert_eq!(parse_decimal("+"), None);
    assert_eq!(parse_decimal("-42"), None);
    assert_eq!(parse_decimal("4_2"), None);
    assert_eq!(parse_decimal("42 "), None);
    assert_eq!(parse_decimal(&format!("{}0", usize::MAX)), None);
    assert_eq!(parse_decimal(&format!("{}9", usize::MAX / 10 + 1)), None);
}

#[test]
fn chars_of_gives_each_character() {
    assert_eq!(chars_of(""), Vec::<char>::new());
    assert_eq!(chars_of("a_\u{e4}\u{1f600}"), vec!['a', '_', '\u{e4}', '\u{1f600}']);
}

#[test]
fn inhibit_request_blocks_sleep_for_steam() {
    let request = InhibitRequest::for_download("Game A");
    assert_eq!(request.what, "sleep");
    assert_eq!(request.who, "Steam");
    assert_eq!(request.why, "Downloading Game A");
    assert_eq!(request.mode, "block");
    assert_eq!(InhibitRequest::for_download("").why, "Downloading ");
}

#[test]
fn index_files_of_the_default_installations() {
    assert_eq!(
        index_paths("/home/u", None),
        vec![
            "/home/u/.local/share/Steam/steamapps/libraryfolders.vdf".to_string(),
            "/home/u/.var/app/com.valvesoftware.Steam/data/Steam/steamapps/libraryfolders.vdf"
                .to_string(),
        ]
    );
}

#[test]
fn index_file_of_the_named_installation() {
    assert_eq!(
        index_paths("/home/u", Some("games/steam")),
        vec!["/home/u/games/steam/steamapps/libraryfolders.vdf".to_string()]
    );
    assert_eq!(
        index_paths("/home/u", Some("/mnt/steam")),
        vec!["/mnt/steam/steamapps/libraryfolders.vdf".to_string()]
    );
    assert_eq!(index_path("/home/u/", "s"), "/home/u/s/steamapps/libraryfolders.vdf");
}

#[test]
fn downloads_are_watched_below_steamapps() {
    assert_eq!(download_dir("/games"), "/games/steamapps/downloading");
    assert_eq!(download_dir("/games/"), "/games/steamapps/downloading");
}

#[test]
fn library_paths_are_the_folders_of_all_indexes_in_order() {
    let reads = vec![folders(&["/a", "/b"]), IndexRead::Unreadable, folders(&[]), folders(&["/c", "/a"])];
    assert_eq!(
        get_library_paths(&reads),
        vec!["/a".to_string(), "/b".to_string(), "/c".to_string(), "/a".to_string()]
    );
}

#[test]
fn library_paths_are_empty_without_a_readable_index() {
    assert_eq!(get_library_paths(&Vec::new()), Vec::<String>::new());
    assert_eq!(
        get_library_paths(&vec![IndexRead::Unreadable, IndexRead::Unreadable]),
        Vec::<String>::new()
    );
}

#[test]
fn one_malformed_index_leaves_no_library_paths() {
    let reads = vec![folders(&["/a", "/b"]), IndexRead::Malformed, folders(&["/c"])];
    assert_eq!(get_library_paths(&reads), Vec::<String>::new());
    assert_eq!(get_library_paths(&vec![IndexRead::Malformed]), Vec::<String>::new());
    let late = vec![folders(&["/a"]), folders(&["/b"]), IndexRead::Malformed];
    assert_eq!(get_library_paths(&late), Vec::<String>::new());
}
