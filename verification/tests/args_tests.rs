use grep_rust::{ArgumentError, Args};

#[test]
fn no_tokens_at_all_is_a_missing_query() {
    let tokens: Vec<String> = vec![];
    let result = Args::build(&tokens, false);
    assert!(matches!(result, Err(ArgumentError::MissingQuery)));
}

#[test]
fn only_a_program_name_is_a_missing_query() {
    let tokens = vec!["prog".to_string()];
    let result = Args::build(&tokens, false);
    assert!(matches!(result, Err(ArgumentError::MissingQuery)));
}

#[test]
fn a_query_without_a_path_is_a_missing_file_path() {
    let tokens = vec!["prog".to_string(), "needle".to_string()];
    let result = Args::build(&tokens, false);
    assert!(matches!(result, Err(ArgumentError::MissingFilePath)));
}

#[test]
fn full_token_list_builds_the_configuration() {
    let tokens = vec!["prog".to_string(), "needle".to_string(), "notes.txt".to_string()];
    let args = Args::build(&tokens, false).unwrap();
    assert_eq!(args.query, "needle");
    assert_eq!(args.file_path, "notes.txt");
    assert!(!args.ignore_case);
}

#[test]
fn extra_tokens_are_ignored() {
    let tokens = vec![
        "prog".to_string(),
        "needle".to_string(),
        "notes.txt".to_string(),
        "extra".to_string(),
    ];
    let args = Args::build(&tokens, true).unwrap();
    assert_eq!(args.query, "needle");
    assert_eq!(args.file_path, "notes.txt");
    assert!(args.ignore_case);
}

#[test]
fn empty_query_token_is_accepted() {
    let tokens = vec!["prog".to_string(), "".to_string(), "notes.txt".to_string()];
    let args = Args::build(&tokens, false).unwrap();
    assert_eq!(args.query, "");
}

#[test]
fn messages_name_the_missing_argument() {
    assert_eq!(ArgumentError::MissingQuery.message(), "Didn't get a query string");
    assert_eq!(ArgumentError::MissingFilePath.message(), "Didn't get a file path");
}
