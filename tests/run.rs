use quist::app::{Action, App, Event, Opts, Output, Phase};
use quist::auth::AuthMethod;
use quist::client::{Method, Request};
use quist::data::Gist;
use quist::error::AppError;
use quist::response::GistCreated;
use quist::utils::get_name;

const BASE: &str = "http://127.0.0.1:1234";

fn new_app(basic_auth: &str) -> App {
    App::new(
        Opts {
            basic_auth: String::from(basic_auth),
            files: vec![String::from("test/foo.txt"), String::from("test/bar.txt")],
        },
        String::from(BASE),
    )
}

fn read_files() -> Event {
    Event::FilesRead {
        files: vec![
            (Some(String::from("foo.txt")), b"foo is here\n".to_vec()),
            (Some(String::from("bar.txt")), b"bar is here\n".to_vec()),
        ],
    }
}

fn created() -> Event {
    Event::CreateAnswered {
        success: Some(GistCreated {
            id: String::from("aa5a315d61ae9438b18d"),
            url: String::from("test://gist"),
        }),
        failure: None,
    }
}

fn sent(action: Action) -> Request {
    match action {
        Action::Send { request } => request,
        other => panic!("expected a request, got {:?}", other),
    }
}

fn exit(action: Action) -> (Output, bool) {
    match action {
        Action::Exit { output, success } => (output, success),
        other => panic!("expected the end, got {:?}", other),
    }
}

#[test]
fn test_run() {
    let mut stdout = String::new();
    let mut deletes: Vec<String> = Vec::new();

    let (app, action) = new_app("username:token").step(Event::Start);
    assert_eq!(action, Action::ReadFiles);

    let (app, action) = app.step(read_files());
    let create = sent(action);
    assert_eq!(create.method, Method::Post);
    assert_eq!(create.url, format!("{}/gists", BASE));
    assert_eq!(
        create.auth,
        AuthMethod::BasicAuth {
            username: String::from("username"),
            token: String::from("token"),
        }
    );
    let gist: Gist = create.body.expect("a body");
    let files: Vec<(&str, &str)> = gist
        .files()
        .iter()
        .map(|(n, f)| (n.as_str(), f.content.as_str()))
        .collect();
    assert_eq!(files, vec![("bar.txt", "bar is here\n"), ("foo.txt", "foo is here\n")]);

    let (app, action) = app.step(created());
    match action {
        Action::AwaitInterrupt { output } => stdout.push_str(&output.stdout),
        other => panic!("expected to wait, got {:?}", other),
    }

    let (app, action) = app.step(Event::Interrupted);
    let delete = sent(action);
    assert_eq!(delete.method, Method::Delete);
    deletes.push(delete.url);

    let (app, action) = app.step(Event::DeleteAnswered {
        status: 204,
        failure: None,
    });
    let (output, success) = exit(action);
    stdout.push_str(&output.stdout);
    assert_eq!(app.phase, Phase::Finished);

    assert!(success);
    assert_eq!(deletes, vec![format!("{}/gists/aa5a315d61ae9438b18d", BASE)]);
    assert_eq!(
        stdout,
        "Gist created: test://gist\nGist \"aa5a315d61ae9438b18d\" successfully deleted! Bye.\n"
    );
    assert_eq!(output.stderr, "");
}

#[test]
fn created_url_is_the_whole_success_output() {
    let (app, _) = new_app("u:t").step(Event::Start);
    let (app, _) = app.step(read_files());
    let (_, action) = app.step(Event::CreateAnswered {
        success: Some(GistCreated {
            id: String::from("1"),
            url: String::from("X"),
        }),
        failure: Some(String::from("ignored")),
    });
    match action {
        Action::AwaitInterrupt { output } => {
            assert_eq!(output.stdout, "Gist created: X\n");
            assert_eq!(output.stderr, "Waiting for termination in order to delete the Gist...\n");
        }
        other => panic!("expected to wait, got {:?}", other),
    }
}

#[test]
fn creation_refusal_stops_before_any_deletion() {
    let (app, _) = new_app("u:t").step(Event::Start);
    let (app, _) = app.step(read_files());
    let (app, action) = app.step(Event::CreateAnswered {
        success: None,
        failure: Some(String::from("needs auth")),
    });
    let (output, success) = exit(action);
    assert!(!success);
    assert_eq!(output.stdout, "");
    assert_eq!(
        output.stderr,
        format!("{}: needs auth\n", get_name())
    );
    assert!(output.stderr.contains("needs auth"));
    assert_eq!(app.phase, Phase::Failed);

    let (_, action) = app.step(Event::Interrupted);
    let (_, success) = exit(action);
    assert!(!success);
}

#[test]
fn bodiless_deletion_succeeds_whatever_the_readings() {
    let (app, _) = new_app("u:t").step(Event::Start);
    let (app, _) = app.step(read_files());
    let (app, _) = app.step(created());
    let (app, _) = app.step(Event::Interrupted);
    let (app, action) = app.step(Event::DeleteAnswered {
        status: 304,
        failure: Some(String::from("never read")),
    });
    assert!(exit(action).1);
    assert_eq!(app.phase, Phase::Finished);
}

#[test]
fn deletion_refusal_is_reported() {
    let (app, _) = new_app("u:t").step(Event::Start);
    let (app, _) = app.step(read_files());
    let (app, _) = app.step(created());
    let (app, _) = app.step(Event::Interrupted);
    let (app, action) = app.step(Event::DeleteAnswered {
        status: 403,
        failure: Some(String::from("needs auth")),
    });
    let (output, success) = exit(action);
    assert!(!success);
    assert_eq!(output.stderr, AppError::DeletionFailed { message: String::from("needs auth") }.report());
    assert_eq!(
        output.stderr,
        "quist: Gist could not be deleted and may still exist: needs auth\n"
    );
    assert_ne!(
        output.stderr,
        AppError::CreationFailed { message: String::from("needs auth") }.report()
    );
    assert_eq!(app.phase, Phase::Failed);
}

#[test]
fn unsupported_auth_stops_before_reading() {
    let (app, action) = new_app("no-colon").step(Event::Start);
    let (output, success) = exit(action);
    assert!(!success);
    assert_eq!(
        output.stderr,
        "quist: unsupported authentication method, expected username:token\n"
    );
    assert_eq!(app.phase, Phase::Failed);
}

#[test]
fn unreadable_file_names_its_path() {
    let (app, _) = new_app("u:t").step(Event::Start);
    let (_, action) = app.step(Event::ReadFailed {
        index: 1,
        message: String::from("No such file or directory"),
    });
    let (output, _) = exit(action);
    assert_eq!(output.stderr, "quist: test/bar.txt: No such file or directory\n");
}

#[test]
fn path_without_name_is_refused() {
    let (app, _) = new_app("u:t").step(Event::Start);
    let (_, action) = app.step(Event::FilesRead {
        files: vec![
            (Some(String::from("foo.txt")), vec![]),
            (None, vec![]),
        ],
    });
    let (output, _) = exit(action);
    assert_eq!(output.stderr, "quist: not a file path: test/bar.txt\n");
}

#[test]
fn transport_failure_and_unreadable_answer_are_reported() {
    let (app, _) = new_app("u:t").step(Event::Start);
    let (app, _) = app.step(read_files());
    let (_, action) = app.step(Event::SendFailed {
        message: String::from("connection refused"),
    });
    assert_eq!(exit(action).0.stderr, "quist: network error: connection refused\n");

    let (app, _) = new_app("u:t").step(Event::Start);
    let (app, _) = app.step(read_files());
    let (_, action) = app.step(Event::CreateAnswered {
        success: None,
        failure: None,
    });
    assert_eq!(exit(action).0.stderr, "quist: unreadable answer from GitHub\n");
}

#[test]
fn out_of_order_event_ends_the_run() {
    let (app, action) = new_app("u:t").step(Event::Interrupted);
    assert_eq!(exit(action).0.stderr, "quist: unexpected event\n");
    assert_eq!(app.phase, Phase::Failed);
}

fn payload_for(paths: &[&str], contents: &[&str]) -> Vec<(String, String)> {
    let app = App::new(
        Opts {
            basic_auth: String::from("u:t"),
            files: paths.iter().map(|p| String::from(*p)).collect(),
        },
        String::from(BASE),
    );
    let (app, _) = app.step(Event::Start);
    let files = paths
        .iter()
        .zip(contents.iter())
        .map(|(p, c)| {
            let name = p.rsplit('/').next().map(String::from);
            (name, c.as_bytes().to_vec())
        })
        .collect();
    let (_, action) = app.step(Event::FilesRead { files });
    let gist = sent(action).body.expect("a body");
    gist.files()
        .iter()
        .map(|(n, f)| (n.clone(), f.content.clone()))
        .collect()
}

#[test]
fn argument_order_does_not_change_the_payload() {
    let a = payload_for(&["b/x.txt", "a/x.txt", "c.txt"], &["from b", "from a", "c"]);
    let b = payload_for(&["c.txt", "a/x.txt", "b/x.txt"], &["c", "from a", "from b"]);
    assert_eq!(a, b);
    assert_eq!(
        a,
        vec![
            (String::from("c.txt"), String::from("c")),
            (String::from("x.txt"), String::from("from b")),
        ]
    );
}

#[test]
fn deletion_with_another_status_and_no_message_is_not_a_success() {
    let (app, _) = new_app("u:t").step(Event::Start);
    let (app, _) = app.step(read_files());
    let (app, _) = app.step(created());
    let (app, _) = app.step(Event::Interrupted);
    let (app, action) = app.step(Event::DeleteAnswered {
        status: 500,
        failure: None,
    });
    let (output, success) = exit(action);
    assert!(!success);
    assert_eq!(output.stdout, "");
    assert_eq!(output.stderr, "quist: unreadable answer from GitHub\n");
    assert_eq!(app.phase, Phase::Failed);
}
