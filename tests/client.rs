use quist::auth::AuthMethod;
use quist::client::{Client, Method};
use quist::data::{File, Gist};
use quist::response::{decode_delete, decode_response, delete_body_needed, GistCreated, Response};
use quist::utils::get_version;

fn client(base_url: &str) -> Client {
    Client::new(
        String::from(base_url),
        AuthMethod::BasicAuth {
            username: String::from("username"),
            token: String::from("token"),
        },
    )
}

fn hello_gist() -> Gist {
    Gist::new(
        None,
        vec![(
            String::from("test"),
            File {
                content: String::from("Hello World\n"),
            },
        )],
    )
}

#[test]
fn client_test_create_gist() {
    let base_url = "http://127.0.0.1:1234";
    let request = client(base_url).create(hello_gist());

    assert_eq!(request.method, Method::Post);
    assert_eq!(request.url, "http://127.0.0.1:1234/gists");
    assert_eq!(request.accept, "application/vnd.github.v3+json");
    assert_eq!(request.user_agent, format!("quist/{}", get_version()));
    assert_eq!(
        request.auth,
        AuthMethod::BasicAuth {
            username: String::from("username"),
            token: String::from("token"),
        }
    );
    assert_eq!(request.body, Some(hello_gist()));

    let answer = GistCreated {
        id: String::from("aa5a315d61ae9438b18d"),
        url: String::from("test://gist"),
    };
    let response = decode_response(Some(answer), Some(String::from("ignored")));
    assert_eq!(
        response,
        Some(Response::Success(GistCreated {
            id: String::from("aa5a315d61ae9438b18d"),
            url: String::from("test://gist"),
        }))
    );
}

#[test]
fn client_test_error_when_creating_gist() {
    let request = client("http://127.0.0.1:1234").create(hello_gist());
    assert_eq!(request.method, Method::Post);
    assert_eq!(request.url, "http://127.0.0.1:1234/gists");
    assert_eq!(request.accept, "application/vnd.github.v3+json");
    assert_eq!(request.user_agent, format!("quist/{}", get_version()));
    assert_eq!(
        request.auth,
        AuthMethod::BasicAuth {
            username: String::from("username"),
            token: String::from("token"),
        }
    );
    assert_eq!(request.body, Some(hello_gist()));

    let response = decode_response::<GistCreated>(None, Some(String::from("needs auth")));
    assert_eq!(
        response,
        Some(Response::Failure {
            message: String::from("needs auth"),
        })
    );
}

#[test]
fn test_delete_gist() {
    let request = client("http://127.0.0.1:1234").delete("foo123");
    assert_eq!(request.method, Method::Delete);
    assert_eq!(request.url, "http://127.0.0.1:1234/gists/foo123");
    assert_eq!(request.accept, "application/vnd.github.v3+json");
    assert_eq!(request.user_agent, format!("quist/{}", get_version()));
    assert_eq!(request.body, None);

    assert!(!delete_body_needed(204));
    assert_eq!(decode_delete(204, None), Some(Response::Success(())));
}

#[test]
fn test_delete_gist_error() {
    let request = client("http://127.0.0.1:1234").delete("foo123");
    assert_eq!(request.method, Method::Delete);
    assert_eq!(request.url, "http://127.0.0.1:1234/gists/foo123");
    assert_eq!(request.accept, "application/vnd.github.v3+json");
    assert_eq!(request.user_agent, format!("quist/{}", get_version()));
    assert_eq!(
        request.auth,
        AuthMethod::BasicAuth {
            username: String::from("username"),
            token: String::from("token"),
        }
    );
    assert_eq!(request.body, None);

    assert!(delete_body_needed(403));
    let read = decode_response::<()>(None, Some(String::from("needs auth")));
    assert_eq!(
        decode_delete(403, read),
        Some(Response::Failure {
            message: String::from("needs auth"),
        })
    );
}

#[test]
fn not_modified_deletion_is_success() {
    assert!(!delete_body_needed(304));
    let read = decode_response::<()>(None, Some(String::from("ignored")));
    assert_eq!(decode_delete(304, read), Some(Response::Success(())));
}

#[test]
fn unreadable_answer_decodes_to_nothing() {
    assert_eq!(decode_response::<GistCreated>(None, None), None);
    assert_eq!(decode_delete(500, None), None);
}
