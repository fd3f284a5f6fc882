use dsh_desktop::paths::{
    find_dsh_in_npx, find_node, find_on_path, join, npx_root, npx_script, path_candidates, split,
    NpxEntry,
};
use std::path::Path;

#[test]
fn join_follows_path_join() {
    for (d, n) in [("a", "b"), ("a/", "b"), ("", "b"), ("a", "/abs"), ("/x/y", "z/w"), ("a", "")] {
        let expect = Path::new(d).join(n).to_string_lossy().into_owned();
        assert_eq!(join(d, n), expect, "{:?} + {:?}", d, n);
    }
}

#[test]
fn split_follows_str_split() {
    for s in ["", "a", "a:b", ":a:", "::", "/usr/bin:/bin"] {
        let expect: Vec<String> = s.split(':').map(String::from).collect();
        assert_eq!(split(s, ':'), expect, "{:?}", s);
    }
}

#[test]
fn candidates_and_first_executable() {
    let c = path_candidates("/usr/local/bin:/opt/x/:", "dsh");
    assert_eq!(c, vec!["/usr/local/bin/dsh", "/opt/x/dsh", "dsh"]);
    assert_eq!(
        find_on_path("/usr/local/bin:/opt/x/", "dsh", &vec![false, true]),
        Some("/opt/x/dsh".to_string())
    );
    assert_eq!(find_on_path("/usr/local/bin:/opt/x/", "dsh", &vec![false]), None);
    assert_eq!(find_on_path("/a:/b", "nope", &vec![]), None);
    assert_eq!(find_on_path("", "dsh", &vec![true]), Some("dsh".to_string()));
}

#[test]
fn find_node_returns_first_executable_candidate() {
    let c = vec!["/missing/node".to_string(), "/usr/bin/node".to_string(), "/x/node".to_string()];
    assert_eq!(find_node(&c, &vec![false, true, true]), Some("/usr/bin/node".to_string()));
    assert_eq!(find_node(&c, &vec![false, false, false]), None);
    assert_eq!(find_node(&vec![], &vec![true]), None);
}

fn entry(name: &str, file: bool, t: Option<i128>) -> NpxEntry {
    NpxEntry { name: name.to_string(), script_is_file: file, modified: t }
}

#[test]
fn npx_picks_newest_script() {
    let root = "/home/u/.npm/_npx";
    assert_eq!(
        npx_script(root, "aaaa"),
        "/home/u/.npm/_npx/aaaa/node_modules/@deepseek-ai/dsh/lib/bin.js"
    );
    assert_eq!(npx_root("/home/u"), "/home/u/.npm/_npx");
    let entries = vec![
        entry("aaaa", true, Some(100)),
        entry("bbbb", true, Some(200)),
        entry("cccc", false, Some(900)),
        entry("dddd", true, Some(150)),
        entry("eeee", true, None),
    ];
    assert_eq!(find_dsh_in_npx(root, &entries), Some(npx_script(root, "bbbb")));
    assert_eq!(find_dsh_in_npx(root, &vec![entry("x", false, Some(1))]), None);
    assert_eq!(find_dsh_in_npx(root, &vec![]), None);
    // equal times keep the earlier entry; an unknown time is held at the epoch
    let ties = vec![entry("first", true, Some(5)), entry("second", true, Some(5))];
    assert_eq!(find_dsh_in_npx(root, &ties), Some(npx_script(root, "first")));
    let unknown_first = vec![entry("u", true, None), entry("v", true, Some(1))];
    assert_eq!(find_dsh_in_npx(root, &unknown_first), Some(npx_script(root, "v")));
    let before_epoch = vec![entry("u", true, None), entry("v", true, Some(-1))];
    assert_eq!(find_dsh_in_npx(root, &before_epoch), Some(npx_script(root, "u")));
}
