use http_server::paths::{build_path, resolve_target};

#[test]
fn when_build_path_should_build_path() {
    let built = build_path(String::from("info.txt"), &String::from("root"));
    assert_eq!(built, String::from("./root/info.txt"));
}

#[test]
fn when_build_path_absolute_root_keeps_single_slashes() {
    let built = build_path(String::from("/a//b"), &String::from("/root/"));
    assert_eq!(built, String::from("/root/a/b"));
    assert!(!built.contains("//"));
}

#[test]
fn when_resolve_target_directory_prefers_index_html() {
    let r = resolve_target(String::from("./root/css"), true, true, true);
    assert_eq!(r, String::from("./root/css/index.html"));
}

#[test]
fn when_resolve_target_directory_falls_back_to_index_htm() {
    let r = resolve_target(String::from("./root/pdf"), true, false, true);
    assert_eq!(r, String::from("./root/pdf/index.htm"));
}

#[test]
fn when_resolve_target_directory_without_index_is_itself() {
    let r = resolve_target(String::from("./root/pdf/test"), true, false, false);
    assert_eq!(r, String::from("./root/pdf/test"));
}

#[test]
fn when_resolve_target_file_is_itself() {
    let r = resolve_target(String::from("./root/index.html"), false, true, true);
    assert_eq!(r, String::from("./root/index.html"));
}
