use greprs::options::Options;
use greprs::parser;

#[test]
fn integration_test_no_query() {
    let args = vec!["src".to_owned()];
    match parser::parse(args) {
        Ok(_) => assert!(false),
        Err(e) => assert_eq!(e.message(), "No query specified."),
    }
}

#[test]
fn integration_test_no_query_with_flag() {
    let args = vec!["src".to_owned(), "-b".to_owned()];
    match parser::parse(args) {
        Ok(_) => assert!(false),
        Err(e) => assert_eq!(e.message(), "No query specified."),
    }
}

#[test]
fn integration_test_no_path() {
    let args = vec!["src".to_owned(), "query".to_owned()];
    match parser::parse(args) {
        Ok(_) => assert!(false),
        Err(e) => assert_eq!(e.message(), "No file path specified."),
    }
}

#[test]
fn integration_test_with_query_path() {
    let args = vec!["src".to_owned(), "query".to_owned(), "path".to_owned()];
    match parser::parse(args) {
        Ok(config) => {
            assert_eq!(config.query, "query");
            assert_eq!(config.path, "path");
        }
        Err(_) => assert!(false),
    }
}

#[test]
fn integration_test_with_query_path_b() {
    let args = vec![
        "src".to_owned(),
        "-b".to_owned(),
        "query".to_owned(),
        "path".to_owned(),
    ];
    match parser::parse(args) {
        Ok(config) => {
            assert_eq!(config.query, "query");
            assert_eq!(config.path, "path");
            assert_eq!(config.options.contains(&Options::ByteOffset), true);
            assert_eq!(config.options.contains(&Options::Count), false);
            assert_eq!(config.options.contains(&Options::IgnoreCase), false);
        }
        Err(_) => assert!(false),
    }
}

#[test]
fn integration_test_with_query_path_c() {
    let args = vec![
        "src".to_owned(),
        "-c".to_owned(),
        "query".to_owned(),
        "path".to_owned(),
    ];
    match parser::parse(args) {
        Ok(config) => {
            assert_eq!(config.query, "query");
            assert_eq!(config.path, "path");
            assert_eq!(config.options.contains(&Options::ByteOffset), false);
            assert_eq!(config.options.contains(&Options::Count), true);
            assert_eq!(config.options.contains(&Options::IgnoreCase), false);
        }
        Err(_) => assert!(false),
    }
}

#[test]
fn integration_test_with_query_path_i() {
    let args = vec![
        "src".to_owned(),
        "-i".to_owned(),
        "query".to_owned(),
        "path".to_owned(),
    ];
    match parser::parse(args) {
        Ok(config) => {
            assert_eq!(config.query, "query");
            assert_eq!(config.path, "path");
            assert_eq!(config.options.contains(&Options::ByteOffset), false);
            assert_eq!(config.options.contains(&Options::Count), false);
            assert_eq!(config.options.contains(&Options::IgnoreCase), true);
        }
        Err(_) => assert!(false),
    }
}

#[test]
fn integration_test_with_query_path_bci() {
    let args = vec![
        "src".to_owned(),
        "-b".to_owned(),
        "-c".to_owned(),
        "-i".to_owned(),
        "query".to_owned(),
        "path".to_owned(),
    ];
    match parser::parse(args) {
        Ok(config) => {
            assert_eq!(config.query, "query");
            assert_eq!(config.path, "path");
            assert_eq!(config.options.contains(&Options::ByteOffset), true);
            assert_eq!(config.options.contains(&Options::Count), true);
            assert_eq!(config.options.contains(&Options::IgnoreCase), true);
        }
        Err(_) => assert!(false),
    }
}
