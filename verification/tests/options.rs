use openby::error::AppError;
use openby::options::{parse_options, request_for, usage, Request, DEFAULT_CONF_PATH};

fn pair(r: Result<Request, AppError>) -> (String, String) {
    match r {
        Ok(Request::Open { file_name, conf_name }) => (file_name, conf_name),
        _ => ("".to_string(), "".to_string()),
    }
}

fn open(file_name: &str, conf_name: &str) -> Result<Request, AppError> {
    Ok(Request::Open { file_name: file_name.to_string(), conf_name: conf_name.to_string() })
}

#[test]
fn test_parse_options() {
    let no_arguments = vec!["openby", "input.file", "-c", "configure.file"];

    assert!(parse_options(&no_arguments[0..1]).is_err());
    assert_eq!(
        ("input.file".to_string(), DEFAULT_CONF_PATH.to_string()),
        pair(parse_options(&no_arguments[0..2]))
    );
    assert_eq!(
        ("input.file".to_string(), "configure.file".to_string()),
        pair(parse_options(&no_arguments))
    );
}

#[test]
fn default_conf_path_is_under_the_configuration_directory() {
    assert_eq!(DEFAULT_CONF_PATH, "~/.config/openby/config");
}

#[test]
fn parse_options_without_file_is_not_found() {
    assert_eq!(
        parse_options(&["openby"]),
        Err(AppError::NotFound("FILE is not found".to_string()))
    );
    assert_eq!(
        parse_options(&["openby", "-c", "conf"]),
        Err(AppError::NotFound("FILE is not found".to_string()))
    );
    assert_eq!(parse_options(&[]), Err(AppError::NotFound("FILE is not found".to_string())));
}

#[test]
fn parse_options_finds_the_help_flag() {
    assert_eq!(parse_options(&["openby", "-h"]), Ok(Request::Help));
    assert_eq!(parse_options(&["openby", "--help"]), Ok(Request::Help));
    assert_eq!(parse_options(&["openby", "a.txt", "-h"]), Ok(Request::Help));
    assert_eq!(parse_options(&["openby", "-c", "conf", "--help", "a.txt"]), Ok(Request::Help));
}

#[test]
fn parse_options_does_not_read_the_program_name() {
    assert_eq!(parse_options(&["-h", "a.txt"]), open("a.txt", DEFAULT_CONF_PATH));
    assert_eq!(
        parse_options(&["--bogus"]),
        Err(AppError::NotFound("FILE is not found".to_string()))
    );
}

#[test]
fn parse_options_takes_the_registry_path_in_every_form() {
    assert_eq!(parse_options(&["openby", "-c", "conf", "a.txt"]), open("a.txt", "conf"));
    assert_eq!(parse_options(&["openby", "a.txt", "-c", "conf"]), open("a.txt", "conf"));
    assert_eq!(parse_options(&["openby", "-cconf", "a.txt"]), open("a.txt", "conf"));
    assert_eq!(parse_options(&["openby", "--config", "conf", "a.txt"]), open("a.txt", "conf"));
    assert_eq!(parse_options(&["openby", "--config=conf", "a.txt"]), open("a.txt", "conf"));
}

#[test]
fn parse_options_opens_the_first_free_argument() {
    assert_eq!(parse_options(&["openby", "a.txt", "b.txt"]), open("a.txt", DEFAULT_CONF_PATH));
    assert_eq!(parse_options(&["openby", "--", "-h"]), open("-h", DEFAULT_CONF_PATH));
    assert_eq!(parse_options(&["openby", "-"]), open("-", DEFAULT_CONF_PATH));
}

#[test]
fn parse_options_rejects_what_the_parser_rejects() {
    assert!(matches!(parse_options(&["openby", "-x", "a.txt"]), Err(AppError::Usage(_))));
    assert!(matches!(parse_options(&["openby", "--bogus", "a.txt"]), Err(AppError::Usage(_))));
    assert!(matches!(parse_options(&["openby", "a.txt", "-c"]), Err(AppError::Usage(_))));
    assert!(matches!(
        parse_options(&["openby", "-c", "one", "-c", "two", "a.txt"]),
        Err(AppError::Usage(_))
    ));
    assert!(matches!(parse_options(&["openby", "--help=yes"]), Err(AppError::Usage(_))));
    assert!(matches!(parse_options(&["openby", "-h", "-h"]), Err(AppError::Usage(_))));
}

#[test]
fn parse_options_says_what_the_parser_rejected() {
    assert_eq!(
        parse_options(&["openby", "-x", "a.txt"]),
        Err(AppError::Usage("Unrecognized option: 'x'".to_string()))
    );
    assert_eq!(
        parse_options(&["openby", "a.txt", "-c"]),
        Err(AppError::Usage("Argument to option 'c' missing".to_string()))
    );
}

#[test]
fn request_for_prefers_help() {
    assert_eq!(request_for(true, &Vec::new(), None), Ok(Request::Help));
    assert_eq!(
        request_for(true, &vec!["a.txt".to_string()], Some("conf".to_string())),
        Ok(Request::Help)
    );
}

#[test]
fn request_for_fails_without_file() {
    assert_eq!(
        request_for(false, &Vec::new(), None),
        Err(AppError::NotFound("FILE is not found".to_string()))
    );
    assert_eq!(
        request_for(false, &Vec::new(), Some("conf".to_string())),
        Err(AppError::NotFound("FILE is not found".to_string()))
    );
}

#[test]
fn request_for_opens_the_first_file() {
    let free = vec!["a.txt".to_string(), "b.txt".to_string()];
    assert_eq!(request_for(false, &free, None), open("a.txt", "~/.config/openby/config"));
    assert_eq!(request_for(false, &free, Some("conf".to_string())), open("a.txt", "conf"));
    assert_eq!(request_for(false, &free, Some("".to_string())), open("a.txt", ""));
}

#[test]
fn usage_lists_the_options_under_the_heading() {
    assert_eq!(
        usage("openby"),
        "Usage: openby [options] FILE\n\nOptions:\n\
         \x20   -c, --config CONFIG specify configure file name\n\
         \x20   -h, --help          print this help menu\n"
    );
    assert!(usage("./target/debug/openby")
        .starts_with("Usage: ./target/debug/openby [options] FILE\n"));
}
