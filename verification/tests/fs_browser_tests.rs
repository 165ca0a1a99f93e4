use stripchat_recorder::fs_browser::{dir_listing, list_drives_inner, new_dir_path, pick_dir, strip_verbatim_prefix};

#[test]
fn verbatim_prefix_only_on_windows() {
    assert_eq!(strip_verbatim_prefix(r"\\?\C:\data", true), r"C:\data");
    assert_eq!(strip_verbatim_prefix(r"\\?\UNC\server\share", true), r"\\server\share");
    assert_eq!(strip_verbatim_prefix(r"C:\data", true), r"C:\data");
    assert_eq!(strip_verbatim_prefix(r"\\?\C:\data", false), r"\\?\C:\data");
}

#[test]
fn listing_hides_dot_dirs_and_sorts_case_insensitively() {
    let names = vec!["beta".to_string(), ".git".to_string(), "Alpha".to_string(), "gamma".to_string()];
    let r = dir_listing("/home/u", &names);
    assert_eq!(r.path, "/home/u");
    assert_eq!(r.parent.as_deref(), Some("/home"));
    assert!(!r.is_drives);
    let got: Vec<(&str, &str)> = r.dirs.iter().map(|e| (e.name.as_str(), e.path.as_str())).collect();
    assert_eq!(got, vec![("Alpha", "/home/u/Alpha"), ("beta", "/home/u/beta"), ("gamma", "/home/u/gamma")]);
}

#[test]
fn pick_directory() {
    assert_eq!(pick_dir("  ", true, "/home/u"), "/home/u");
    assert_eq!(pick_dir("/data", false, "/home/u"), "/home/u");
    assert_eq!(pick_dir("/data", true, "/home/u"), "/data");
}

#[test]
fn drives() {
    let r = list_drives_inner(false, &Vec::new());
    assert!(r.is_drives);
    assert_eq!(r.dirs.len(), 1);
    assert_eq!(r.dirs[0].name, "/");
    let mut present = vec![false; 26];
    present[2] = true;
    present[3] = true;
    let w = list_drives_inner(true, &present);
    let got: Vec<(&str, &str)> = w.dirs.iter().map(|e| (e.name.as_str(), e.path.as_str())).collect();
    assert_eq!(got, vec![("C:", r"C:\"), ("D:", r"D:\")]);
}

#[test]
fn new_directory_names() {
    assert_eq!(new_dir_path("/data", "  new  ").unwrap(), "/data/new");
    assert_eq!(new_dir_path("/data", "   ").unwrap_err(), "目录名不能为空");
    assert_eq!(new_dir_path("/data", "a/b").unwrap_err(), "目录名不能包含路径分隔符");
    assert_eq!(new_dir_path("/data", r"a\b").unwrap_err(), "目录名不能包含路径分隔符");
    assert_eq!(new_dir_path("/data", "..").unwrap_err(), "目录名不能包含路径分隔符");
}

#[test]
fn listing_of_a_directory_under_the_root_links_to_the_root() {
    let r = dir_listing("/home", &Vec::new());
    assert_eq!(r.parent.as_deref(), Some("/"));
    let root = dir_listing("/", &Vec::new());
    assert_eq!(root.parent, None);
}
