use counter_core::minigrep::{search, search_case_insensitive, Config};

#[test]
fn case_sensitive() {
    let query = "duct";
    let content = "\
Rust:
safe,fast,productive.
Pick three.
Duct sensitive.";
    assert_eq!(vec!["safe,fast,productive."], search(query, content));
}

#[test]
fn case_insensitive() {
    let query = "rUsT";
    let content = "\
Rust:
safe,fast,productive.
Pick three.
Trust me.";
    assert_eq!(vec!["Rust:", "Trust me."], search_case_insensitive(query, content));
}

#[test]
fn search_no_match() {
    let content = "alpha\nbeta\ngamma";
    let empty: Vec<&str> = Vec::new();
    assert_eq!(empty, search("delta", content));
}

#[test]
fn search_empty_query_matches_every_line() {
    let content = "one\ntwo";
    assert_eq!(vec!["one", "two"], search("", content));
}

#[test]
fn search_empty_content() {
    let empty: Vec<&str> = Vec::new();
    assert_eq!(empty, search("x", ""));
}

#[test]
fn search_crlf_lines() {
    let content = "first duct\r\nsecond\r\nthird duct";
    assert_eq!(vec!["first duct", "third duct"], search("duct", content));
}

#[test]
fn search_case_insensitive_folds_both_sides() {
    // fails if lowercasing handed its input back unchanged on either side
    assert_eq!(vec!["LOUD NOISES"], search_case_insensitive("noise", "LOUD NOISES\nquiet"));
    assert_eq!(vec!["quiet"], search_case_insensitive("QUIET", "LOUD NOISES\nquiet"));
}

#[test]
fn config_rejects_short_argument_list() {
    let args = vec![String::from("prog"), String::from("query")];
    let r = Config::new(args, true);
    assert_eq!(r.err(), Some("not enough arguments"));
}

#[test]
fn config_takes_query_and_filename() {
    let args = vec![String::from("prog"), String::from("needle"), String::from("hay.txt")];
    let c = Config::new(args, false).ok().unwrap();
    assert_eq!(c.query, "needle");
    assert_eq!(c.filename, "hay.txt");
    assert!(!c.case_sensitive);
}
