use fcr::args::{find_arg, get_arg, parse_args, ArgError, Invocation};
use fcr::gate::{classify_response, read_answer, trim, Gate, PromptAnswer};
use fcr::path::{get_absolute_path, join_path};

fn strings(items: &[&str]) -> Vec<String> {
    items.iter().map(|s| s.to_string()).collect()
}

#[test]
fn join_path_puts_separator_between() {
    assert_eq!(join_path("C:\\work", "\\", "out"), "C:\\work\\out");
    assert_eq!(join_path("/srv/data", "/", "a.txt"), "/srv/data/a.txt");
}

#[test]
fn join_path_keeps_empty_parts() {
    assert_eq!(join_path("", "/", "a"), "/a");
    assert_eq!(join_path("a", "/", ""), "a/");
    assert_eq!(join_path("a", "", "b"), "ab");
}

#[test]
fn absolute_path_is_anchored_at_working_directory() {
    assert_eq!(get_absolute_path("C:\\Users\\me", "\\", "..\\..\\Output"), "C:\\Users\\me\\..\\..\\Output");
    assert_eq!(get_absolute_path("/home/me", "/", "src"), "/home/me/src");
}

#[test]
fn absolute_path_does_not_look_at_the_name() {
    assert_eq!(get_absolute_path("/home/me", "/", "/etc"), "/home/me//etc");
}

#[test]
fn joining_twice_groups_either_way() {
    let left = join_path(&join_path("a", "/", "b"), "/", "c");
    let right = join_path("a", "/", &join_path("b", "/", "c"));
    assert_eq!(left, right);
    assert_eq!(left, "a/b/c");
}

#[test]
fn get_arg_returns_the_argument_at_the_index() {
    let args = strings(&["fcr", "foo", "qux", "in", "out"]);
    assert_eq!(get_arg(0, &args), "fcr");
    assert_eq!(get_arg(3, &args), "in");
    assert_eq!(get_arg(4, &args), "out");
}

#[test]
fn find_arg_reports_the_missing_position() {
    let args = strings(&["fcr", "foo"]);
    assert_eq!(find_arg(1, &args), Ok("foo".to_string()));
    assert_eq!(find_arg(2, &args), Err(ArgError::Missing(2)));
    assert_eq!(find_arg(7, &args), Err(ArgError::Missing(7)));
}

#[test]
fn parse_args_without_arguments_misses_the_first() {
    let parsed = parse_args(&strings(&["fcr"]));
    assert!(matches!(parsed, Err(ArgError::Missing(1))));
    let parsed = parse_args(&strings(&[]));
    assert!(matches!(parsed, Err(ArgError::Missing(1))));
}

#[test]
fn parse_args_help_wins_over_everything() {
    assert!(matches!(parse_args(&strings(&["fcr", "-help"])), Ok(Invocation::Help)));
    assert!(matches!(
        parse_args(&strings(&["fcr", "-help", "a", "b", "c", "d"])),
        Ok(Invocation::Help)
    ));
}

#[test]
fn parse_args_names_the_first_missing_value() {
    assert!(matches!(parse_args(&strings(&["fcr", "foo"])), Err(ArgError::Missing(2))));
    assert!(matches!(parse_args(&strings(&["fcr", "foo", "qux"])), Err(ArgError::Missing(3))));
    assert!(matches!(
        parse_args(&strings(&["fcr", "foo", "qux", "in"])),
        Err(ArgError::Missing(4))
    ));
}

#[test]
fn parse_args_takes_four_values_in_order() {
    let parsed = parse_args(&strings(&["fcr", "foo", "qux", "in", "out", "extra"]));
    match parsed {
        Ok(Invocation::Run(request)) => {
            assert_eq!(request.query, "foo");
            assert_eq!(request.replacement, "qux");
            assert_eq!(request.source, "in");
            assert_eq!(request.destination, "out");
        }
        other => panic!("expected a run, got {:?}", other),
    }
}

#[test]
fn parse_args_help_must_be_exact() {
    let parsed = parse_args(&strings(&["fcr", "-Help", "b", "c", "d"]));
    assert!(matches!(parsed, Ok(Invocation::Run(_))));
}

#[test]
fn read_answer_knows_the_four_replies() {
    assert_eq!(read_answer(""), PromptAnswer::Affirmative);
    assert_eq!(read_answer("y"), PromptAnswer::Affirmative);
    assert_eq!(read_answer("n"), PromptAnswer::Negative);
    assert_eq!(read_answer("c"), PromptAnswer::Cancel);
}

#[test]
fn read_answer_rejects_everything_else() {
    assert_eq!(read_answer("yes"), PromptAnswer::Unrecognized);
    assert_eq!(read_answer("Y"), PromptAnswer::Unrecognized);
    assert_eq!(read_answer(" "), PromptAnswer::Unrecognized);
    assert_eq!(read_answer("x"), PromptAnswer::Unrecognized);
    assert_eq!(read_answer("é"), PromptAnswer::Unrecognized);
}

#[test]
fn classify_response_trims_white_space() {
    assert_eq!(classify_response("  y \n"), PromptAnswer::Affirmative);
    assert_eq!(classify_response("\n"), PromptAnswer::Affirmative);
    assert_eq!(classify_response("\tn\r\n"), PromptAnswer::Negative);
}

#[test]
fn classify_response_ignores_case() {
    assert_eq!(classify_response("Y"), PromptAnswer::Affirmative);
    assert_eq!(classify_response("N"), PromptAnswer::Negative);
    assert_eq!(classify_response("C\n"), PromptAnswer::Cancel);
}

#[test]
fn classify_response_does_not_guess() {
    assert_eq!(classify_response("yes\n"), PromptAnswer::Unrecognized);
    assert_eq!(classify_response("no\n"), PromptAnswer::Unrecognized);
    assert_eq!(classify_response("y n\n"), PromptAnswer::Unrecognized);
}

#[test]
fn gate_is_open_once_it_exists_or_was_created() {
    assert!(Gate::Exists.open());
    assert!(Gate::Created.open());
    assert!(!Gate::Unchecked.open());
    assert!(!Gate::PromptedCreate.open());
    assert!(!Gate::Aborted.open());
}

#[test]
fn trim_takes_white_space_from_both_ends() {
    assert_eq!(trim("  a b \n"), "a b");
    assert_eq!(trim("\t\r\n"), "");
    assert_eq!(trim(""), "");
    assert_eq!(trim("plain"), "plain");
    assert_eq!(trim("\u{2003}wide\u{a0}"), "wide");
}
