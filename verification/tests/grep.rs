use minigrep::grep::{search, Config};

#[test]
fn one_result() {
    let query = "duct";
    let contents = "\
    Rust:
    safe, fast, productive.
    Pick three.";

    assert_eq!(vec!["safe, fast, productive."], search(query, contents))
}

#[test]
fn empty_query_returns_every_line_trimmed() {
    let contents = "Rust:\n    safe, fast, productive.\n    Pick three.";
    assert_eq!(
        vec!["Rust:", "safe, fast, productive.", "Pick three."],
        search("", contents)
    );
}

#[test]
fn empty_document_returns_nothing() {
    let empty: Vec<&str> = vec![];
    assert_eq!(empty, search("duct", ""));
}

#[test]
fn search_is_deterministic() {
    let query = "st";
    let contents = "Rust:\n    safe, fast, productive.\n    Pick three.";
    assert_eq!(search(query, contents), search(query, contents));
}

#[test]
fn search_keeps_document_order_without_duplicates() {
    let contents = "alpha\nbeta\nalphabet\ngamma";
    assert_eq!(vec!["alpha", "alphabet"], search("alpha", contents));
}

#[test]
fn carriage_returns_are_stripped_from_line_ends() {
    let contents = "one\r\ntwo\r\nthree";
    assert_eq!(vec!["two"], search("two", contents));
}

#[test]
fn matching_is_case_sensitive() {
    let contents = "Rust\nrust";
    assert_eq!(vec!["rust"], search("ru", contents));
}

#[test]
fn whitespace_only_line_trims_to_empty() {
    let contents = "   \nword";
    assert_eq!(vec!["", "word"], search("", contents));
}

#[test]
fn config_fails_with_fewer_than_three_tokens() {
    let none: Vec<String> = vec![];
    assert_eq!(Config::new(&none).err(), Some("Not enough arguments"));

    let one = vec![String::from("prog")];
    assert_eq!(Config::new(&one).err(), Some("Not enough arguments"));

    let two = vec![String::from("prog"), String::from("query")];
    assert_eq!(Config::new(&two).err(), Some("Not enough arguments"));
}

#[test]
fn config_takes_tokens_one_and_two_verbatim() {
    let exact = vec![
        String::from("prog"),
        String::from("needle"),
        String::from("haystack.txt"),
    ];
    let config = Config::new(&exact).unwrap();
    assert_eq!(config.query, "needle");
    assert_eq!(config.filename, "haystack.txt");

    let extra = vec![
        String::from("prog"),
        String::from("needle"),
        String::from("haystack.txt"),
        String::from("ignored"),
    ];
    let config = Config::new(&extra).unwrap();
    assert_eq!(config.query, "needle");
    assert_eq!(config.filename, "haystack.txt");
}
