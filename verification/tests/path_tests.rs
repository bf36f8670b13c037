use contextpad::paths::get_file_name;

#[test]
fn file_name_of_plain_path() {
    assert_eq!(get_file_name("/home/user/doc.txt"), Ok("doc.txt".to_string()));
}

#[test]
fn file_name_of_bare_name() {
    assert_eq!(get_file_name("doc.txt"), Ok("doc.txt".to_string()));
}

#[test]
fn file_name_ignores_trailing_separators() {
    assert_eq!(get_file_name("/home/user/"), Ok("user".to_string()));
    assert_eq!(get_file_name("dir///"), Ok("dir".to_string()));
}

#[test]
fn file_name_of_root_is_an_error() {
    assert_eq!(get_file_name("/"), Err("Invalid file path".to_string()));
    assert_eq!(get_file_name("///"), Err("Invalid file path".to_string()));
}

#[test]
fn file_name_of_empty_path_is_an_error() {
    assert_eq!(get_file_name(""), Err("Invalid file path".to_string()));
}

#[test]
fn file_name_after_repeated_separators() {
    assert_eq!(get_file_name("a//b"), Ok("b".to_string()));
}
