use http_server::strings::{extract_file_name, remove_double_slash, replace_slash};

#[test]
fn when_replace_slash_should_include_index_html() {
    test_res(String::from("/"), String::from("/index.html"));
}

#[test]
fn when_replace_subfolder_slash_should_include_index_html() {
    test_res(String::from("/test/"), String::from("/test/index.html"));
}

#[test]
fn when_replace_noslash_should_not_replace() {
    test_res(String::from("/test/test.html"), String::from("/test/test.html"));
}

fn test_res(res: String, expected: String) {
    let res = replace_slash(res);
    assert_eq!(res, expected);
}

#[test]
fn when_extract_file_name_should_extract_index_html() {
    assert_eq!(extract_file_name(String::from("/index.html")), String::from("index.html"));
}

#[test]
fn when_extract_pdf_name_should_extract_test_pdf() {
    assert_eq!(extract_file_name(String::from("/test/test.pdf")), String::from("test.pdf"));
}

#[test]
fn when_remove_double_slash_collapses_runs() {
    assert_eq!(remove_double_slash("a//b///c"), String::from("a/b/c"));
    assert_eq!(remove_double_slash("//"), String::from("/"));
    assert_eq!(remove_double_slash("no-slash"), String::from("no-slash"));
    assert_eq!(remove_double_slash(""), String::from(""));
}
