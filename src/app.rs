use vstd::prelude::*;
use vstd::string::*;
use crate::auth::{is_basic_credential, AuthMethod};
use crate::client::{Client, Method, Request};
use crate::data::{
    files_view, keyed, lemma_payload_order_free, lossy_text, names_unique, order_by_key, payload_of,
    File, FileView, Gist,
};
use crate::error::{error_report, AppError};
use crate::response::{
    decode_delete, decode_response, is_bodiless_success, GistCreated,
    GistDeleted, Response,
};

verus! {

/// Where GitHub's API is served.
pub open spec fn github_url() -> Seq<char> {
    "https://api.github.com"@
}

/// The base URL of GitHub's API.
pub fn get_base_url() -> (r: String)
    ensures
        r@ == github_url(),
{
    String::from_str("https://api.github.com")
}

/// What the command line asks for.
#[derive(Debug, PartialEq)]
pub struct Opts {
    /// Credentials in basic access authentication format
    pub basic_auth: String,
    /// List of files to be included in the Gist
    pub files: Vec<String>,
}

/// Text for the two output streams.
#[derive(Debug, PartialEq)]
pub struct Output {
    pub stdout: String,
    pub stderr: String,
}

/// Where a run stands.
#[derive(Debug, PartialEq)]
pub enum Phase {
    /// Nothing done yet.
    Starting,
    /// The files are being read.
    Collecting { client: Client },
    /// The Gist is being created.
    Creating { client: Client },
    /// The Gist exists; the run waits for an interrupt.
    Awaiting { client: Client, gist: GistCreated },
    /// The Gist is being deleted.
    Deleting { client: Client, gist: GistCreated },
    /// The Gist was created and deleted.
    Finished,
    /// The run stopped on an error.
    Failed,
}

/// What happened outside since the last step.
#[derive(Debug, PartialEq)]
pub enum Event {
    /// The run begins.
    Start,
    /// Each file was read: the last component of its path, if it has one, and its bytes,
    /// in the order of `Opts::files`. The Gist takes them in the order of their paths.
    FilesRead { files: Vec<(Option<String>, Vec<u8>)> },
    /// The file at this index of `Opts::files` could not be read.
    ReadFailed { index: usize, message: String },
    /// A request could not be sent, or no answer came.
    SendFailed { message: String },
    /// The answer to the creation, read as a created Gist and as an error message.
    CreateAnswered { success: Option<GistCreated>, failure: Option<String> },
    /// An interrupt came.
    Interrupted,
    /// The answer to the deletion: its status and, where the status asks for the body to
    /// be read, the error message it reads as.
    DeleteAnswered { status: u16, failure: Option<String> },
}

/// What to do next.
#[derive(Debug, PartialEq)]
pub enum Action {
    /// Read the files of `Opts::files`.
    ReadFiles,
    /// Send this request.
    Send { request: Request },
    /// Write the output, then wait for an interrupt.
    AwaitInterrupt { output: Output },
    /// Write the output and end the run, with success or not.
    Exit { output: Output, success: bool },
}

/// A CLI to create short-lived Gists.
#[derive(Debug, PartialEq)]
pub struct App {
    pub opts: Opts,
    pub base_url: String,
    pub phase: Phase,
}

/// The entries of the payload: each file's name and its text.
pub open spec fn entries_of(files: Seq<(Option<String>, Vec<u8>)>) -> Seq<FileView> {
    files.map_values(|f: (Option<String>, Vec<u8>)| (f.0->0@, lossy_text(f.1@)))
}

/// The file at `i` is the first whose path has no name.
pub open spec fn first_unnamed(files: Seq<(Option<String>, Vec<u8>)>, i: int) -> bool {
    &&& 0 <= i < files.len()
    &&& files[i].0 is None
    &&& forall|j: int| 0 <= j < i ==> (#[trigger] files[j]).0 is Some
}

/// Every file's path has a name.
pub open spec fn all_named(files: Seq<(Option<String>, Vec<u8>)>) -> bool {
    forall|j: int| 0 <= j < files.len() ==> (#[trigger] files[j]).0 is Some
}

/// `a` ends the run on error `e`.
pub open spec fn fails_with(a: Action, e: AppError) -> bool {
    a matches Action::Exit { output, success } && !success && output.stdout@.len() == 0
        && output.stderr@ == error_report(e)
}

/// The output once a Gist exists.
pub open spec fn created_output(output: Output, url: Seq<char>) -> bool {
    &&& output.stdout@ == "Gist created: "@ + url + "\n"@
    &&& output.stderr@ == "Waiting for termination in order to delete the Gist...\n"@
}

/// The output once the Gist is deleted: the confirmation goes to the success stream.
pub open spec fn deleted_output(output: Output, id: Seq<char>) -> bool {
    &&& output.stdout@ == "Gist \""@ + id + "\" successfully deleted! Bye.\n"@
    &&& output.stderr@.len() == 0
}

/// The line written once the Gist exists.
fn created_line(url: &str) -> (r: String)
    ensures
        r@ == "Gist created: "@ + url@ + "\n"@,
{
    let mut r = String::from_str("Gist created: ");
    r.append(url);
    r.append("\n");
    r
}

/// The line written once the Gist is deleted.
fn deleted_line(id: &str) -> (r: String)
    ensures
        r@ == "Gist \""@ + id@ + "\" successfully deleted! Bye.\n"@,
{
    let mut r = String::from_str("Gist \"");
    r.append(id);
    r.append("\" successfully deleted! Bye.\n");
    r
}

/// Ends the run on `e`.
fn fail(e: AppError) -> (r: Action)
    ensures
        fails_with(r, e),
{
    Action::Exit { output: Output { stdout: String::new(), stderr: e.report() }, success: false }
}

/// Each file read beside its path.
pub open spec fn paired(paths: Seq<String>, files: Seq<(Option<String>, Vec<u8>)>) -> Seq<
    (Seq<char>, (Option<String>, Vec<u8>)),
> {
    Seq::new(files.len(), |i: int| (paths[i]@, files[i]))
}

/// The files read, sorted by path, each path once.
pub open spec fn by_path(paths: Seq<String>, files: Seq<(Option<String>, Vec<u8>)>) -> Seq<
    (Seq<char>, (Option<String>, Vec<u8>)),
> {
    payload_of(paired(paths, files))
}

/// What was read of each file, in the order of `o`.
pub open spec fn reads_of(o: Seq<(Seq<char>, (Option<String>, Vec<u8>))>) -> Seq<
    (Option<String>, Vec<u8>),
> {
    o.map_values(|e: (Seq<char>, (Option<String>, Vec<u8>))| e.1)
}

/// The Gist made of the files read, taken in the order of their paths, so that of two
/// files with one name the one with the greater path is kept; or the error of the first
/// path, in that order, that has no name.
fn gist_of(paths: &Vec<String>, files: Vec<(Option<String>, Vec<u8>)>) -> (r: Result<
    Gist,
    AppError,
>)
    requires
        files@.len() == paths@.len(),
    ensures
        ({
            let o = by_path(paths@, files@);
            &&& all_named(reads_of(o)) ==> (r matches Ok(g) && g.spec_description() is None
                && g.spec_files() == payload_of(entries_of(reads_of(o))))
            &&& !all_named(reads_of(o)) ==> exists|i: int|
                first_unnamed(reads_of(o), i) && (r matches Err(AppError::InvalidPath { path })
                    && path@ == o[i].0)
        }),
{
    let ghost input = files@;
    let mut rest = files;
    let mut pairs: Vec<(String, (Option<String>, Vec<u8>))> = Vec::new();
    let mut k: usize = 0;
    let n = paths.len();
    proof {
        assert(rest@ =~= input.skip(0));
        assert(keyed(pairs@) =~= paired(paths@, input).take(0));
    }
    while rest.len() > 0
        invariant
            input == files@,
            input.len() == paths@.len(),
            n == paths@.len(),
            k <= input.len(),
            rest@ == input.skip(k as int),
            keyed(pairs@) == paired(paths@, input).take(k as int),
        decreases rest.len(),
    {
        let read = rest.remove(0);
        proof {
            assert(k < input.len());
            assert(read == input[k as int]);
            assert(rest@ =~= input.skip(k + 1));
        }
        let path = paths[k].clone();
        let ghost before = pairs@;
        pairs.push((path, read));
        proof {
            assert(keyed(pairs@) =~= keyed(before).push((paths@[k as int]@, input[k as int])));
            assert(paired(paths@, input).take(k + 1) =~= paired(paths@, input).take(k as int).push(
                (paths@[k as int]@, input[k as int]),
            ));
            assert(keyed(pairs@) =~= paired(paths@, input).take(k + 1));
        }
        k = k + 1;
    }
    proof {
        assert(paired(paths@, input).take(k as int) =~= paired(paths@, input));
    }
    let sorted = order_by_key(pairs);
    let ghost o = by_path(paths@, input);
    let ghost all = reads_of(o);
    let ghost ordered = sorted@;
    let m = sorted.len();
    let mut rest = sorted;
    let mut entries: Vec<(String, File)> = Vec::new();
    let mut i: usize = 0;
    proof {
        assert(keyed(ordered) == o);
        assert(rest@ =~= ordered.skip(0));
    }
    while rest.len() > 0
        invariant
            keyed(ordered) == o,
            o == by_path(paths@, files@),
            all == reads_of(o),
            m == ordered.len(),
            i <= ordered.len(),
            rest@ == ordered.skip(i as int),
            forall|j: int| 0 <= j < i ==> (#[trigger] all[j]).0 is Some,
            files_view(entries@) == entries_of(all.take(i as int)),
        decreases rest.len(),
    {
        let (path, (name, bytes)) = rest.remove(0);
        proof {
            assert(i < ordered.len());
            assert(ordered[i as int] == (path, (name, bytes)));
            assert(keyed(ordered)[i as int] == (path@, (name, bytes)));
            assert(all[i as int] == (name, bytes));
            assert(rest@ =~= ordered.skip(i + 1));
        }
        match name {
            Some(n) => {
                let ghost before = entries@;
                let ghost name_view = n@;
                let file = File::from_bytes(&bytes);
                entries.push((n, file));
                proof {
                    assert(files_view(entries@) =~= files_view(before).push(
                        (name_view, lossy_text(bytes@)),
                    ));
                    assert(all.take(i + 1) =~= all.take(i as int).push(all[i as int]));
                    assert(entries_of(all.take(i + 1)) =~= entries_of(all.take(i as int)).push(
                        (name_view, lossy_text(bytes@)),
                    ));
                }
            },
            None => {
                proof {
                    assert(first_unnamed(all, i as int));
                    assert(!all_named(all));
                    assert(o[i as int].0 == path@);
                }
                let r = Err(AppError::InvalidPath { path });
                proof {
                    assert(first_unnamed(reads_of(o), i as int) && (r matches Err(
                        AppError::InvalidPath { path },
                    ) && path@ == o[i as int].0));
                }
                return r;
            },
        }
        i = i + 1;
    }
    proof {
        assert(all.take(i as int) =~= all);
    }
    Ok(Gist::new(None, entries))
}

/// The request that creates a Gist of `files` through `client`.
pub open spec fn creates(request: Request, client: Client, files: Seq<(Option<String>, Vec<u8>)>) -> bool {
    &&& request.method == Method::Post
    &&& request.url@ == client.base_url@ + "/gists"@
    &&& request.auth == client.auth_method
    &&& request.body matches Some(g) && g.spec_description() is None && g.spec_files()
        == payload_of(entries_of(files))
}

/// The request that deletes `gist` through `client`.
pub open spec fn deletes(request: Request, client: Client, gist: GistCreated) -> bool {
    &&& request.method == Method::Delete
    &&& request.url@ == client.base_url@ + "/gists/"@ + gist.id@
    &&& request.auth == client.auth_method
    &&& request.body is None
}

/// A client of `app`'s base URL with the credentials of its command line.
pub open spec fn client_of(app: App, client: Client) -> bool {
    &&& client.base_url == app.base_url
    &&& client.auth_method matches AuthMethod::BasicAuth { username, token }
        && app.opts.basic_auth@ == username@ + seq![':'] + token@
}

/// From `app` and `event`, the run stands at `phase` and does `action`.
pub open spec fn stepped(app: App, event: Event, phase: Phase, action: Action) -> bool {
    match (app.phase, event) {
        (Phase::Starting, Event::Start) => if is_basic_credential(app.opts.basic_auth@) {
            &&& phase matches Phase::Collecting { client } && client_of(app, client)
            &&& action is ReadFiles
        } else {
            phase is Failed && fails_with(action, AppError::UnsupportedAuth)
        },
        (Phase::Collecting { client }, Event::FilesRead { files }) => if files@.len()
            != app.opts.files@.len() {
            phase is Failed && fails_with(action, AppError::UnexpectedEvent)
        } else if all_named(reads_of(by_path(app.opts.files@, files@))) {
            &&& phase == (Phase::Creating { client })
            &&& action matches Action::Send { request } && creates(
                request,
                client,
                reads_of(by_path(app.opts.files@, files@)),
            )
        } else {
            &&& phase is Failed
            &&& exists|i: int, path: String|
                first_unnamed(reads_of(by_path(app.opts.files@, files@)), i) && path@ == by_path(
                    app.opts.files@,
                    files@,
                )[i].0 && fails_with(action, AppError::InvalidPath { path })
        },
        (Phase::Collecting { .. }, Event::ReadFailed { index, message }) => {
            &&& phase is Failed
            &&& if index < app.opts.files@.len() {
                fails_with(action, AppError::Io { path: app.opts.files@[index as int], message })
            } else {
                fails_with(action, AppError::UnexpectedEvent)
            }
        },
        (Phase::Creating { client }, Event::CreateAnswered { success, failure }) => match success {
            Some(gist) => {
                &&& phase == (Phase::Awaiting { client, gist })
                &&& action matches Action::AwaitInterrupt { output } && created_output(
                    output,
                    gist.url@,
                )
            },
            None => phase is Failed && match failure {
                Some(message) => fails_with(action, AppError::CreationFailed { message }),
                None => fails_with(action, AppError::UnreadableAnswer),
            },
        },
        (Phase::Creating { .. }, Event::SendFailed { message }) => phase is Failed && fails_with(
            action,
            AppError::Network { message },
        ),
        (Phase::Awaiting { client, gist }, Event::Interrupted) => {
            &&& phase == (Phase::Deleting { client, gist })
            &&& action matches Action::Send { request } && deletes(request, client, gist)
        },
        (Phase::Deleting { gist, .. }, Event::DeleteAnswered { status, failure }) => if is_bodiless_success(status) {
            &&& phase is Finished
            &&& action matches Action::Exit { output, success } && success && deleted_output(
                output,
                gist.id@,
            )
        } else {
            phase is Failed && match failure {
                Some(message) => fails_with(action, AppError::DeletionFailed { message }),
                None => fails_with(action, AppError::UnreadableAnswer),
            }
        },
        (Phase::Deleting { .. }, Event::SendFailed { message }) => phase is Failed && fails_with(
            action,
            AppError::Network { message },
        ),
        _ => phase is Failed && fails_with(action, AppError::UnexpectedEvent),
    }
}

impl App {
    /// An app that has done nothing yet.
    pub fn new(opts: Opts, base_url: String) -> (r: App)
        ensures
            r.opts == opts,
            r.base_url == base_url,
            r.phase == Phase::Starting,
    {
        App { opts, base_url, phase: Phase::Starting }
    }

    /// The credentials of the command line.
    pub fn parse_auth_method(&self) -> (r: Result<AuthMethod, AppError>)
        ensures
            r is Ok <==> is_basic_credential(self.opts.basic_auth@),
            r matches Ok(AuthMethod::BasicAuth { username, token }) ==> self.opts.basic_auth@
                == username@ + seq![':'] + token@,
            r is Err ==> r == Err::<AuthMethod, AppError>(AppError::UnsupportedAuth),
    {
        AuthMethod::parse(self.opts.basic_auth.as_str())
    }

    /// One step of the run: from where it stands and what happened, where it stands next
    /// and what to do.
    pub fn step(self, event: Event) -> (r: (App, Action))
        ensures
            r.0.opts == self.opts,
            r.0.base_url == self.base_url,
            stepped(self, event, r.0.phase, r.1),
    {
        let App { opts, base_url, phase } = self;
        match (phase, event) {
            (Phase::Starting, Event::Start) => {
                let app = App { opts, base_url, phase: Phase::Starting };
                match app.parse_auth_method() {
                    Ok(auth) => {
                        let App { opts, base_url, phase: _ } = app;
                        let client = Client::new(base_url.clone(), auth);
                        (App { opts, base_url, phase: Phase::Collecting { client } }, Action::ReadFiles)
                    },
                    Err(e) => {
                        let App { opts, base_url, phase: _ } = app;
                        (App { opts, base_url, phase: Phase::Failed }, fail(e))
                    },
                }
            },
            (Phase::Collecting { client }, Event::FilesRead { files }) => {
                if files.len() != opts.files.len() {
                    return (App { opts, base_url, phase: Phase::Failed }, fail(AppError::UnexpectedEvent));
                }
                match gist_of(&opts.files, files) {
                    Ok(gist) => {
                        let request = client.create(gist);
                        (App { opts, base_url, phase: Phase::Creating { client } }, Action::Send { request })
                    },
                    Err(e) => (App { opts, base_url, phase: Phase::Failed }, fail(e)),
                }
            },
            (Phase::Collecting { .. }, Event::ReadFailed { index, message }) => {
                let e = if index < opts.files.len() {
                    AppError::Io { path: opts.files[index].clone(), message }
                } else {
                    AppError::UnexpectedEvent
                };
                (App { opts, base_url, phase: Phase::Failed }, fail(e))
            },
            (Phase::Creating { client }, Event::CreateAnswered { success, failure }) => {
                match decode_response(success, failure) {
                    Some(Response::Success(gist)) => {
                        let output = Output {
                            stdout: created_line(gist.url.as_str()),
                            stderr: String::from_str(
                                "Waiting for termination in order to delete the Gist...\n",
                            ),
                        };
                        (
                            App { opts, base_url, phase: Phase::Awaiting { client, gist } },
                            Action::AwaitInterrupt { output },
                        )
                    },
                    Some(Response::Failure { message }) => (
                        App { opts, base_url, phase: Phase::Failed },
                        fail(AppError::CreationFailed { message }),
                    ),
                    None => (
                        App { opts, base_url, phase: Phase::Failed },
                        fail(AppError::UnreadableAnswer),
                    ),
                }
            },
            (Phase::Awaiting { client, gist }, Event::Interrupted) => {
                let request = client.delete(gist.id.as_str());
                (App { opts, base_url, phase: Phase::Deleting { client, gist } }, Action::Send { request })
            },
            (Phase::Deleting { gist, .. }, Event::DeleteAnswered { status, failure }) => {
                match decode_delete(status, decode_response(None::<GistDeleted>, failure)) {
                    Some(Response::Success(_)) => {
                        let output = Output { stdout: deleted_line(gist.id.as_str()), stderr: String::new() };
                        (App { opts, base_url, phase: Phase::Finished }, Action::Exit { output, success: true })
                    },
                    Some(Response::Failure { message }) => (
                        App { opts, base_url, phase: Phase::Failed },
                        fail(AppError::DeletionFailed { message }),
                    ),
                    None => (
                        App { opts, base_url, phase: Phase::Failed },
                        fail(AppError::UnreadableAnswer),
                    ),
                }
            },
            (Phase::Creating { .. }, Event::SendFailed { message }) => {
                (App { opts, base_url, phase: Phase::Failed }, fail(AppError::Network { message }))
            },
            (Phase::Deleting { .. }, Event::SendFailed { message }) => {
                (App { opts, base_url, phase: Phase::Failed }, fail(AppError::Network { message }))
            },
            _ => (App { opts, base_url, phase: Phase::Failed }, fail(AppError::UnexpectedEvent)),
        }
    }
}

} // verus!

verus! {

/// Once a Gist is created, the success stream gets its URL, and nothing else but the
/// words around it.
pub proof fn lemma_created_url_reported(app: App, event: Event, phase: Phase, action: Action)
    requires
        stepped(app, event, phase, action),
        app.phase is Creating,
        event matches Event::CreateAnswered { success, .. } && success is Some,
    ensures
        action matches Action::AwaitInterrupt { output } && output.stdout@ == "Gist created: "@
            + event->CreateAnswered_success->0.url@ + "\n"@,
{
}

/// When GitHub refuses to create the Gist, the run ends there, with GitHub's message on
/// the error stream, and no request to delete anything is ever made.
pub proof fn lemma_creation_refusal_ends_run(
    app: App,
    event: Event,
    phase: Phase,
    action: Action,
    later: Event,
    later_phase: Phase,
    later_action: Action,
)
    requires
        stepped(app, event, phase, action),
        app.phase is Creating,
        event matches Event::CreateAnswered { success, failure } && success is None
            && failure is Some,
        stepped(App { opts: app.opts, base_url: app.base_url, phase }, later, later_phase, later_action),
    ensures
        action matches Action::Exit { output, success } && !success && output.stderr@
            == error_report(AppError::CreationFailed { message: event->CreateAnswered_failure->0 }),
        phase is Failed,
        later_action is Exit,
        later_phase is Failed,
{
}

/// A deletion answered `204 No Content` or `304 Not Modified` ends the run with success,
/// whatever its body would read as.
pub proof fn lemma_bodiless_delete_succeeds(app: App, event: Event, phase: Phase, action: Action)
    requires
        stepped(app, event, phase, action),
        app.phase is Deleting,
        event matches Event::DeleteAnswered { status, .. } && (status == 204 || status == 304),
    ensures
        phase is Finished,
        action matches Action::Exit { success, .. } && success,
        is_bodiless_success(event->DeleteAnswered_status),
{
}

/// An interrupt while the Gist exists leads to exactly one request, the deletion of that
/// Gist; once the run has ended, no event leads to another request.
pub proof fn lemma_interrupt_deletes_once(app: App, event: Event, phase: Phase, action: Action)
    requires
        stepped(app, event, phase, action),
    ensures
        app.phase is Awaiting && event is Interrupted ==> (action matches Action::Send { request }
            && deletes(request, app.phase->Awaiting_client, app.phase->Awaiting_gist)),
        (app.phase is Finished || app.phase is Failed) ==> action is Exit && phase is Failed,
{
}

} // verus!

verus! {

/// Two command lines that list the same paths, each once, in any order, and read the
/// same contents from them, give the files in the same order; so the payload, and the
/// request that creates the Gist, are the same. Of two files with one name, the one with
/// the greater path is kept either way.
pub proof fn lemma_argument_order_free(
    paths_a: Seq<String>,
    files_a: Seq<(Option<String>, Vec<u8>)>,
    paths_b: Seq<String>,
    files_b: Seq<(Option<String>, Vec<u8>)>,
)
    requires
        paths_a.len() == files_a.len(),
        paths_b.len() == files_b.len(),
        names_unique(paired(paths_a, files_a)),
        names_unique(paired(paths_b, files_b)),
        forall|x: (Seq<char>, (Option<String>, Vec<u8>))|
            paired(paths_a, files_a).contains(x) <==> paired(paths_b, files_b).contains(x),
    ensures
        by_path(paths_a, files_a) == by_path(paths_b, files_b),
{
    lemma_payload_order_free(paired(paths_a, files_a), paired(paths_b, files_b));
}

} // verus!
