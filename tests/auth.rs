use quist::app::{get_base_url, App, Opts};
use quist::auth::AuthMethod;
use quist::error::AppError;

fn app_with_auth(basic_auth: &str) -> App {
    App::new(
        Opts {
            basic_auth: String::from(basic_auth),
            files: vec![],
        },
        get_base_url(),
    )
}

#[test]
fn test_basic_auth_is_correctly_parsed() {
    let app = app_with_auth("foo:bar");

    assert_eq!(
        app.parse_auth_method(),
        Ok(AuthMethod::BasicAuth {
            username: String::from("foo"),
            token: String::from("bar"),
        })
    );
}

#[test]
fn user_and_token_are_split_at_the_colon() {
    assert_eq!(
        AuthMethod::parse("user:token"),
        Ok(AuthMethod::BasicAuth {
            username: String::from("user"),
            token: String::from("token"),
        })
    );
}

#[test]
fn credentials_without_colon_are_refused() {
    assert_eq!(AuthMethod::parse("no-colon"), Err(AppError::UnsupportedAuth));
}

#[test]
fn credentials_with_two_colons_are_refused() {
    assert_eq!(AuthMethod::parse("a:b:c"), Err(AppError::UnsupportedAuth));
}

#[test]
fn missing_credentials_are_refused() {
    assert_eq!(app_with_auth("").parse_auth_method(), Err(AppError::UnsupportedAuth));
}

#[test]
fn empty_user_or_token_is_refused() {
    assert_eq!(AuthMethod::parse(":token"), Err(AppError::UnsupportedAuth));
    assert_eq!(AuthMethod::parse("user:"), Err(AppError::UnsupportedAuth));
    assert_eq!(AuthMethod::parse(":"), Err(AppError::UnsupportedAuth));
}

#[test]
fn non_ascii_credentials_are_split_by_characters() {
    assert_eq!(
        AuthMethod::parse("jösé:tökén"),
        Ok(AuthMethod::BasicAuth {
            username: String::from("jösé"),
            token: String::from("tökén"),
        })
    );
}
