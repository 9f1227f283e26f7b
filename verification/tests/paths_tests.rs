use dotman::errors::ConfigError;
use dotman::paths::MyPath;
use dotman::paths::expand_home_path;

#[test]
fn test_home_path_expand() {
    let home = home::home_dir().unwrap();
    let home_str = home.to_str().unwrap().to_string();
    assert_eq!(home_str, expand_home_path(&String::from("~"), &home_str));
}

#[test]
fn expand_no_tilde_unchanged() {
    let home = String::from("/home/timon");
    assert_eq!(
        String::from("/etc/conf"),
        expand_home_path(&String::from("/etc/conf"), &home)
    );
}

#[test]
fn expand_replaces_every_tilde() {
    let home = String::from("/h");
    assert_eq!(
        String::from("/h/a/hb"),
        expand_home_path(&String::from("~/a~b"), &home)
    );
}

#[test]
fn mypath_new_no_tilde() {
    let p = MyPath::new(&String::from("/x/y")).unwrap();
    assert_eq!(p.as_string(), "/x/y");
}

#[test]
fn mypath_new_with_home_expands() {
    let p = MyPath::new_with_home(
        &String::from("~/.vimrc"),
        &Some(String::from("/home/timon")),
    )
    .unwrap();
    assert_eq!(p.as_string(), "/home/timon/.vimrc");
}

#[test]
fn mypath_new_with_home_missing_fails() {
    let r = MyPath::new_with_home(&String::from("~/.vimrc"), &None);
    assert!(matches!(r, Err(ConfigError::HomeResolution)));
}

#[test]
fn mypath_new_with_home_missing_ok_without_tilde() {
    let p = MyPath::new_with_home(&String::from("/plain"), &None).unwrap();
    assert_eq!(p.as_string(), "/plain");
}

#[test]
fn mypath_equality_is_path_equality() {
    let a = MyPath::from_string(String::from("/a"));
    let b = MyPath::from_string(String::from("/a"));
    let c = MyPath::from_string(String::from("/b"));
    assert!(a == b);
    assert!(a != c);
}

#[test]
fn mypath_display_string_is_quoted() {
    let p = MyPath::from_string(String::from("/a/b"));
    assert_eq!(p.display_string(), "\"/a/b\"");
}
