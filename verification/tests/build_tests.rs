use greprs::Config;

#[test]
fn lib_no_query() {
    let args = vec!["src".to_owned()];
    match Config::build(args) {
        Ok(_) => assert!(false),
        Err(e) => assert_eq!(e.message(), "No query specified."),
    }
}

#[test]
fn lib_no_query_with_flag() {
    let args = vec!["src".to_owned(), "-b".to_owned()];
    match Config::build(args) {
        Ok(_) => assert!(false),
        Err(e) => assert_eq!(e.message(), "No query specified."),
    }
}

#[test]
fn lib_no_path() {
    let args = vec!["src".to_owned(), "query".to_owned()];
    match Config::build(args) {
        Ok(_) => assert!(false),
        Err(e) => assert_eq!(e.message(), "No file path specified."),
    }
}

#[test]
fn lib_with_query_path() {
    let args = vec!["src".to_owned(), "query".to_owned(), "path".to_owned()];
    match Config::build(args) {
        Ok(config) => {
            assert_eq!(config.query, "query");
            assert_eq!(config.path, "path");
        }
        Err(_) => assert!(false),
    }
}

#[test]
fn lib_with_query_path_b() {
    let args = vec![
        "src".to_owned(),
        "-b".to_owned(),
        "query".to_owned(),
        "path".to_owned(),
    ];
    match Config::build(args) {
        Ok(config) => {
            assert_eq!(config.query, "query");
            assert_eq!(config.path, "path");
            assert_eq!(config.options.b, true);
            assert_eq!(config.options.c, false);
            assert_eq!(config.options.i, false);
        }
        Err(_) => assert!(false),
    }
}

#[test]
fn lib_with_query_path_c() {
    let args = vec![
        "src".to_owned(),
        "-c".to_owned(),
        "query".to_owned(),
        "path".to_owned(),
    ];
    match Config::build(args) {
        Ok(config) => {
            assert_eq!(config.query, "query");
            assert_eq!(config.path, "path");
            assert_eq!(config.options.b, false);
            assert_eq!(config.options.c, true);
            assert_eq!(config.options.i, false);
        }
        Err(_) => assert!(false),
    }
}

#[test]
fn lib_with_query_path_i() {
    let args = vec![
        "src".to_owned(),
        "-i".to_owned(),
        "query".to_owned(),
        "path".to_owned(),
    ];
    match Config::build(args) {
        Ok(config) => {
            assert_eq!(config.query, "query");
            assert_eq!(config.path, "path");
            assert_eq!(config.options.b, false);
            assert_eq!(config.options.c, false);
            assert_eq!(config.options.i, true);
        }
        Err(_) => assert!(false),
    }
}

#[test]
fn lib_with_query_path_bci() {
    let args = vec![
        "src".to_owned(),
        "-b".to_owned(),
        "-c".to_owned(),
        "-i".to_owned(),
        "query".to_owned(),
        "path".to_owned(),
    ];
    match Config::build(args) {
        Ok(config) => {
            assert_eq!(config.query, "query");
            assert_eq!(config.path, "path");
            assert_eq!(config.options.b, true);
            assert_eq!(config.options.c, true);
            assert_eq!(config.options.i, true);
        }
        Err(_) => assert!(false),
    }
}
