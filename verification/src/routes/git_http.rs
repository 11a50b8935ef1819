//! Git over HTTP: who may fetch and push, what is run for them, and what they are answered.
use vstd::prelude::*;
use vstd::slice::slice_to_vec;
use vstd::string::*;

use crate::bytes::text_lossy;
use crate::config::AppConfig;
use crate::error::AppError;
use crate::numerals::{decimal_u64, hex_padded};
use crate::routes::repo::{mib_to_bytes, repo_disk_path};
use crate::text::{joined, len_in_bytes, same_text, strip_front};

verus! {

/// How long a git command may run, in seconds.
pub const GIT_TIMEOUT_SECS: u64 = 120;

/// The most that is read of what a git command prints, in bytes.
pub const GIT_MAX_RESPONSE: u64 = 268_435_456;

/// What a git client asks for.
#[derive(Debug, Clone)]
pub enum GitRequest {
    /// What references there are, before the given service is used.
    Refs(String),
    /// Objects; the length is that of the request body.
    Fetch(u64),
    /// To take objects in; the length is that of the request body.
    Push(u64),
}

/// A [`GitRequest`] over sequences.
#[verifier::ext_equal]
pub enum GitRequestView {
    Refs(Seq<char>),
    Fetch(u64),
    Push(u64),
}

impl View for GitRequest {
    type V = GitRequestView;

    open spec fn view(&self) -> GitRequestView {
        match self {
            GitRequest::Refs(service) => GitRequestView::Refs(service@),
            GitRequest::Fetch(len) => GitRequestView::Fetch(*len),
            GitRequest::Push(len) => GitRequestView::Push(*len),
        }
    }
}

impl GitRequestView {
    /// Whether the request changes the repository, or prepares to.
    pub open spec fn is_push(self) -> bool {
        self is Push || self == GitRequestView::Refs("git-receive-pack"@)
    }

    /// The length of the request body that counts towards the limit.
    pub open spec fn body_len(self) -> u64 {
        match self {
            GitRequestView::Refs(_) => 0,
            GitRequestView::Fetch(len) => len,
            GitRequestView::Push(len) => len,
        }
    }
}

/// The service that a client asks the references for.
pub fn asked_service(service: Option<&str>) -> (r: String)
    ensures
        r@ == (match service {
            Some(s) => s@,
            None => "git-upload-pack"@,
        }),
{
    match service {
        Some(s) => s.to_owned(),
        None => "git-upload-pack".to_owned(),
    }
}

/// What matters of a repository that was found.
#[derive(Debug, Clone, Copy)]
pub struct FoundRepo {
    pub id: i64,
    pub is_private: bool,
}

/// What is to be done next for a git client.
#[derive(Debug)]
pub enum GitStep {
    /// Look the repository up; the client may have been let in before.
    LookUp { admitted: bool },
    /// Ask who the client is; the repository may have been found before.
    Authenticate { repo_id: Option<i64> },
    /// Run git in the directory of the repository.
    Run { repo_id: i64, path: String },
    /// Answer with an error.
    Fail(AppError),
}

/// A [`GitStep`] over sequences.
#[verifier::ext_equal]
pub enum GitStepView {
    LookUp { admitted: bool },
    Authenticate { repo_id: Option<i64> },
    Run { repo_id: i64, path: Seq<char> },
    Fail(crate::error::Fault),
}

impl View for GitStep {
    type V = GitStepView;

    open spec fn view(&self) -> GitStepView {
        match self {
            GitStep::LookUp { admitted } => GitStepView::LookUp { admitted: *admitted },
            GitStep::Authenticate { repo_id } => GitStepView::Authenticate { repo_id: *repo_id },
            GitStep::Run { repo_id, path } => GitStepView::Run { repo_id: *repo_id, path: path@ },
            GitStep::Fail(e) => GitStepView::Fail(e@),
        }
    }
}

/// Whether the limit on request bodies is a number of bytes that fits a machine word.
pub open spec fn limit_fits(config: AppConfig) -> bool {
    config.git_pack_limit_mb * 1_048_576 <= u64::MAX
}

/// What is answered to a request body that is over the limit.
pub open spec fn too_large(config: AppConfig) -> crate::error::Fault {
    crate::error::Fault::BadRequest(
        "pack exceeds "@ + crate::numerals::decimal(config.git_pack_limit_mb as nat)
            + " MiB limit"@,
    )
}

/// What is done for a client that may have what it asks for, in a repository that is there.
pub open spec fn ready_step(
    config: AppConfig,
    user: Seq<char>,
    repo: Seq<char>,
    request: GitRequestView,
    repo_id: i64,
) -> GitStepView {
    if request.body_len() > config.git_pack_limit_mb * 1_048_576 {
        GitStepView::Fail(too_large(config))
    } else {
        match crate::routes::repo::disk_path_fault(user, repo) {
            Some(text) => GitStepView::Fail(crate::error::Fault::BadRequest(text)),
            None => GitStepView::Run {
                repo_id,
                path: crate::routes::repo::disk_path(config, user, repo),
            },
        }
    }
}

/// The first step for a client. One that sends objects is asked who it is before anything is
/// looked up.
pub open spec fn first_step(config: AppConfig, user: Seq<char>, request: GitRequestView) -> GitStepView {
    if user != config.username@ {
        GitStepView::Fail(crate::error::Fault::NotFound)
    } else if request is Push {
        GitStepView::Authenticate { repo_id: None }
    } else {
        GitStepView::LookUp { admitted: false }
    }
}

/// The step after the repository was looked up.
pub open spec fn step_on_repo(
    config: AppConfig,
    user: Seq<char>,
    repo: Seq<char>,
    request: GitRequestView,
    admitted: bool,
    found: Option<FoundRepo>,
) -> GitStepView {
    match found {
        None => GitStepView::Fail(crate::error::Fault::NotFound),
        Some(repository) => if (request.is_push() || repository.is_private) && !admitted {
            GitStepView::Authenticate { repo_id: Some(repository.id) }
        } else {
            ready_step(config, user, repo, request, repository.id)
        },
    }
}

/// The step after the client was asked who it is.
pub open spec fn step_on_auth(
    config: AppConfig,
    user: Seq<char>,
    repo: Seq<char>,
    request: GitRequestView,
    repo_id: Option<i64>,
    admitted: bool,
) -> GitStepView {
    if !admitted {
        GitStepView::Fail(crate::error::Fault::GitUnauthorized)
    } else {
        match repo_id {
            None => GitStepView::LookUp { admitted: true },
            Some(id) => ready_step(config, user, repo, request, id),
        }
    }
}

/// Whether a request is one for the references before a push.
fn prepares_push(request: &GitRequest) -> (r: bool)
    ensures
        r == request@.is_push(),
{
    match request {
        GitRequest::Refs(service) => same_text(service.as_str(), "git-receive-pack"),
        GitRequest::Fetch(_) => false,
        GitRequest::Push(_) => true,
    }
}

/// What is done for a client that may have what it asks for.
fn ready(config: &AppConfig, user: &str, repo: &str, request: &GitRequest, repo_id: i64) -> (r:
    GitStep)
    requires
        !(request is Refs) ==> limit_fits(*config),
    ensures
        r@ == ready_step(*config, user@, repo@, request@, repo_id),
{
    let within = match request {
        GitRequest::Refs(_) => true,
        GitRequest::Fetch(len) => *len <= mib_to_bytes(config.git_pack_limit_mb),
        GitRequest::Push(len) => *len <= mib_to_bytes(config.git_pack_limit_mb),
    };
    if !within {
        let mut text = "pack exceeds ".to_owned();
        text.append(decimal_u64(config.git_pack_limit_mb).as_str());
        text.append(" MiB limit");
        return GitStep::Fail(AppError::BadRequest(text));
    }
    match repo_disk_path(config, user, repo) {
        Ok(path) => GitStep::Run { repo_id, path },
        Err(e) => GitStep::Fail(e),
    }
}

/// The first step for a client.
pub fn begin(config: &AppConfig, user: &str, request: &GitRequest) -> (r: GitStep)
    ensures
        r@ == first_step(*config, user@, request@),
{
    if !same_text(user, config.username.as_str()) {
        return GitStep::Fail(AppError::NotFound);
    }
    match request {
        GitRequest::Push(_) => GitStep::Authenticate { repo_id: None },
        _ => GitStep::LookUp { admitted: false },
    }
}

/// The step after the repository was looked up.
pub fn on_repo(
    config: &AppConfig,
    user: &str,
    repo: &str,
    request: &GitRequest,
    admitted: bool,
    found: Option<FoundRepo>,
) -> (r: GitStep)
    requires
        !(request is Refs) && found is Some && (admitted || !(request@.is_push()
            || found->0.is_private)) ==> limit_fits(*config),
    ensures
        r@ == step_on_repo(*config, user@, repo@, request@, admitted, found),
{
    match found {
        None => GitStep::Fail(AppError::NotFound),
        Some(repository) => {
            if (prepares_push(request) || repository.is_private) && !admitted {
                return GitStep::Authenticate { repo_id: Some(repository.id) };
            }
            ready(config, user, repo, request, repository.id)
        },
    }
}

/// The step after the client was asked who it is.
pub fn on_auth(
    config: &AppConfig,
    user: &str,
    repo: &str,
    request: &GitRequest,
    repo_id: Option<i64>,
    admitted: bool,
) -> (r: GitStep)
    requires
        !(request is Refs) && admitted && repo_id is Some ==> limit_fits(*config),
    ensures
        r@ == step_on_auth(*config, user@, repo@, request@, repo_id, admitted),
{
    if !admitted {
        return GitStep::Fail(AppError::GitUnauthorized);
    }
    match repo_id {
        None => GitStep::LookUp { admitted: true },
        Some(id) => ready(config, user, repo, request, id),
    }
}

/// How far a step is from the last one.
pub open spec fn steps_left(step: GitStepView) -> nat {
    match step {
        GitStepView::LookUp { admitted } => if admitted {
            1
        } else {
            2
        },
        GitStepView::Authenticate { repo_id } => if repo_id is None {
            2
        } else {
            1
        },
        GitStepView::Run { .. } => 0,
        GitStepView::Fail(_) => 0,
    }
}

/// Where a step leads to, when each question is answered as given.
pub open spec fn last_step(
    config: AppConfig,
    user: Seq<char>,
    repo: Seq<char>,
    request: GitRequestView,
    found: Option<FoundRepo>,
    admits: bool,
    step: GitStepView,
) -> GitStepView
    decreases steps_left(step),
{
    match step {
        GitStepView::LookUp { admitted } => last_step(
            config,
            user,
            repo,
            request,
            found,
            admits,
            step_on_repo(config, user, repo, request, admitted, found),
        ),
        GitStepView::Authenticate { repo_id } => last_step(
            config,
            user,
            repo,
            request,
            found,
            admits,
            step_on_auth(config, user, repo, request, repo_id, admits),
        ),
        _ => step,
    }
}

/// What comes of a request in the end.
pub open spec fn outcome(
    config: AppConfig,
    user: Seq<char>,
    repo: Seq<char>,
    request: GitRequestView,
    found: Option<FoundRepo>,
    admits: bool,
) -> GitStepView {
    if user != config.username@ {
        GitStepView::Fail(crate::error::Fault::NotFound)
    } else if request is Push && !admits {
        GitStepView::Fail(crate::error::Fault::GitUnauthorized)
    } else if found is None {
        GitStepView::Fail(crate::error::Fault::NotFound)
    } else if (request.is_push() || found->0.is_private) && !admits {
        GitStepView::Fail(crate::error::Fault::GitUnauthorized)
    } else {
        ready_step(config, user, repo, request, found->0.id)
    }
}

/// Every request comes to an end, after at most two questions, and to the same one in whatever
/// order the questions were asked.
pub proof fn requests_come_to_their_outcome(
    config: AppConfig,
    user: Seq<char>,
    repo: Seq<char>,
    request: GitRequestView,
    found: Option<FoundRepo>,
    admits: bool,
)
    ensures
        steps_left(first_step(config, user, request)) <= 2,
        last_step(config, user, repo, request, found, admits, first_step(config, user, request))
            == outcome(config, user, repo, request, found, admits),
{
    reveal_with_fuel(last_step, 4);
}

/// Git is never run for a client that was not let in, where it pushes or the repository is
/// private.
pub proof fn no_push_and_no_private_fetch_without_credentials(
    config: AppConfig,
    user: Seq<char>,
    repo: Seq<char>,
    request: GitRequestView,
    found: Option<FoundRepo>,
)
    requires
        request.is_push() || (found is Some && found->0.is_private),
    ensures
        !(last_step(
            config,
            user,
            repo,
            request,
            found,
            false,
            first_step(config, user, request),
        ) is Run),
{
    requests_come_to_their_outcome(config, user, repo, request, found, false);
}

/// A push from a client that is not let in is answered so, whatever is pushed and whether the
/// repository is there or not.
pub proof fn refused_push_tells_nothing(
    config: AppConfig,
    repo: Seq<char>,
    body_len: u64,
    found: Option<FoundRepo>,
)
    ensures
        last_step(
            config,
            config.username@,
            repo,
            GitRequestView::Push(body_len),
            found,
            false,
            first_step(config, config.username@, GitRequestView::Push(body_len)),
        ) == GitStepView::Fail(crate::error::Fault::GitUnauthorized),
{
    requests_come_to_their_outcome(
        config,
        config.username@,
        repo,
        GitRequestView::Push(body_len),
        found,
        false,
    );
}

/// Anybody may fetch from a public repository, within the limit on request bodies.
pub proof fn public_fetch_needs_no_credentials(
    config: AppConfig,
    repo: Seq<char>,
    request: GitRequestView,
    repo_id: i64,
    admits: bool,
)
    requires
        !request.is_push(),
        request.body_len() <= config.git_pack_limit_mb * 1_048_576,
        crate::routes::repo::disk_path_fault(config.username@, repo) is None,
    ensures
        last_step(
            config,
            config.username@,
            repo,
            request,
            Some(FoundRepo { id: repo_id, is_private: false }),
            admits,
            first_step(config, config.username@, request),
        ) == (GitStepView::Run {
            repo_id,
            path: crate::routes::repo::disk_path(config, config.username@, repo),
        }),
{
    requests_come_to_their_outcome(
        config,
        config.username@,
        repo,
        request,
        Some(FoundRepo { id: repo_id, is_private: false }),
        admits,
    );
}

/// Git is only ever run in a directory under that of all repositories.
pub proof fn git_runs_under_the_root(
    config: AppConfig,
    user: Seq<char>,
    repo: Seq<char>,
    request: GitRequestView,
    found: Option<FoundRepo>,
    admits: bool,
)
    ensures
        last_step(config, user, repo, request, found, admits, first_step(config, user, request))
            matches GitStepView::Run { path, .. } ==> crate::paths::lies_under(
            path,
            config.root(),
        ),
{
    requests_come_to_their_outcome(config, user, repo, request, found, admits);
    if outcome(config, user, repo, request, found, admits) is Run {
        crate::routes::repo::disk_path_never_leads_up(config, user, repo);
    }
}

/// The subcommand of git that does what is asked for.
pub open spec fn subcommand(request: GitRequestView) -> Seq<char> {
    match request {
        GitRequestView::Refs(service) => match crate::text::after_prefix(service, "git-"@) {
            Some(name) => name,
            None => service,
        },
        GitRequestView::Fetch(_) => "upload-pack"@,
        GitRequestView::Push(_) => "receive-pack"@,
    }
}

/// The arguments that git is run with.
pub open spec fn arguments(request: GitRequestView, path: Seq<char>) -> Seq<Seq<char>> {
    if request is Refs {
        seq![subcommand(request), "--stateless-rpc"@, "--advertise-refs"@, path]
    } else {
        seq![subcommand(request), "--stateless-rpc"@, path]
    }
}

/// The subcommand of git that does what is asked for.
fn git_subcommand(request: &GitRequest) -> (r: String)
    ensures
        r@ == subcommand(request@),
{
    match request {
        GitRequest::Refs(service) => match strip_front(service.as_str(), "git-") {
            Some(name) => name,
            None => service.as_str().to_owned(),
        },
        GitRequest::Fetch(_) => "upload-pack".to_owned(),
        GitRequest::Push(_) => "receive-pack".to_owned(),
    }
}

/// The arguments that git is run with, in the directory of a repository.
pub fn git_arguments(request: &GitRequest, path: &str) -> (r: Vec<String>)
    ensures
        crate::text::views(r@) == arguments(request@, path@),
{
    let mut list: Vec<String> = Vec::new();
    list.push(git_subcommand(request));
    list.push("--stateless-rpc".to_owned());
    match request {
        GitRequest::Refs(_) => {
            list.push("--advertise-refs".to_owned());
        },
        _ => {},
    }
    list.push(path.to_owned());
    list
}

/// How a git command ended.
#[derive(Debug)]
pub enum GitExit {
    /// It could not be started.
    NotStarted(String),
    /// What was sent could not be handed to it.
    NotFed(String),
    /// It could not be waited for.
    NotAwaited(String),
    /// It took too long.
    TimedOut,
    /// It ended with a failure: the status, and what it printed as errors.
    Failed(String, Vec<u8>),
    /// It ended well: what it printed.
    Done(Vec<u8>),
}

/// What was printed by a git command, if it ended well, and what is logged if not.
pub open spec fn printed(exit: GitExit) -> Result<Seq<u8>, crate::error::Fault> {
    match exit {
        GitExit::NotStarted(e) => Err(
            crate::error::Fault::Internal("git spawn failed: "@ + e@),
        ),
        GitExit::NotFed(e) => Err(
            crate::error::Fault::Internal("git stdin write failed: "@ + e@),
        ),
        GitExit::NotAwaited(e) => Err(crate::error::Fault::Internal("git wait failed: "@ + e@)),
        GitExit::TimedOut => Err(
            crate::error::Fault::Internal(
                "git timed out after "@ + crate::numerals::decimal(GIT_TIMEOUT_SECS as nat) + "s"@,
            ),
        ),
        GitExit::Failed(status, errors) => Err(
            crate::error::Fault::Internal(
                "git exited with "@ + status@ + ": "@ + crate::bytes::utf8_lossy(errors@),
            ),
        ),
        GitExit::Done(output) => Ok(output@),
    }
}

/// What a git command printed, where it ended well; an error for the log otherwise.
pub fn run_git_command(exit: GitExit) -> (r: Result<Vec<u8>, AppError>)
    ensures
        match printed(exit) {
            Ok(output) => r matches Ok(bytes) && bytes@ == output,
            Err(fault) => r matches Err(e) && e@ == fault,
        },
{
    match exit {
        GitExit::NotStarted(e) => Err(
            AppError::Internal(joined("git spawn failed: ", e.as_str())),
        ),
        GitExit::NotFed(e) => Err(
            AppError::Internal(joined("git stdin write failed: ", e.as_str())),
        ),
        GitExit::NotAwaited(e) => Err(
            AppError::Internal(joined("git wait failed: ", e.as_str())),
        ),
        GitExit::TimedOut => {
            let mut text = joined("git timed out after ", decimal_u64(GIT_TIMEOUT_SECS).as_str());
            text.append("s");
            Err(AppError::Internal(text))
        },
        GitExit::Failed(status, errors) => {
            let mut text = joined("git exited with ", status.as_str());
            text.append(": ");
            text.append(text_lossy(errors.as_slice()).as_str());
            Err(AppError::Internal(text))
        },
        GitExit::Done(output) => Ok(output),
    }
}

/// An answer to a git client.
#[derive(Debug)]
pub struct GitReply {
    pub status: u16,
    pub content_type: String,
    pub cache_control: String,
    pub body: Vec<u8>,
    /// The repository whose webhooks are to be told of a push.
    pub pushed: Option<i64>,
}

/// One line of the git protocol: its length, in four hexadecimal digits and counting those, in
/// front of it.
pub open spec fn pkt_line(line: Seq<char>) -> Seq<char> {
    crate::numerals::zero_padded(
        crate::numerals::numeral(crate::text::byte_len(line) + 4, 16),
        4,
    ) + line
}

/// What stands in front of the references: the service, and a mark that ends the line.
pub open spec fn refs_preamble(service: Seq<char>) -> Seq<char> {
    pkt_line("# service="@ + service + "\n"@) + "0000"@
}

/// The media type of an answer.
pub open spec fn reply_type(request: GitRequestView) -> Seq<char> {
    match request {
        GitRequestView::Refs(service) => "application/x-"@ + service + "-advertisement"@,
        _ => "application/x-git-"@ + subcommand(request) + "-result"@,
    }
}

/// The body of an answer.
pub open spec fn reply_body(request: GitRequestView, output: Seq<u8>) -> Seq<u8> {
    match request {
        GitRequestView::Refs(service) => vstd::utf8::encode_utf8(refs_preamble(service)) + output,
        _ => output,
    }
}

/// The preamble of an answer on the references.
fn refs_header(service: &str) -> (r: String)
    ensures
        r@ == refs_preamble(service@),
{
    let mut line = joined("# service=", service);
    line.append("\n");
    let len: usize = len_in_bytes(line.as_str());
    let mut text = hex_padded(len as u128 + 4, 4);
    text.append(line.as_str());
    text.append("0000");
    text
}

/// Whether a reply answers a request that git was run for, where git printed this.
pub open spec fn answers(
    request: GitRequestView,
    repo_id: i64,
    output: Seq<u8>,
    reply: GitReply,
) -> bool {
    &&& reply.status == 200
    &&& reply.content_type@ == reply_type(request)
    &&& reply.cache_control@ == "no-cache"@
    &&& reply.body@ == reply_body(request, output)
    &&& reply.pushed == (if request is Push {
        Some(repo_id)
    } else {
        None
    })
}

/// The answer to a request that git was run for, which is not to be cached.
pub fn git_reply(request: &GitRequest, repo_id: i64, exit: GitExit) -> (r: Result<
    GitReply,
    AppError,
>)
    ensures
        match printed(exit) {
            Ok(output) => r matches Ok(reply) && reply.status == 200 && reply.content_type@
                == reply_type(request@) && reply.cache_control@ == "no-cache"@ && reply.body@
                == reply_body(request@, output) && reply.pushed == (if request@ is Push {
                Some(repo_id)
            } else {
                None
            }) && answers(request@, repo_id, output, reply),
            Err(fault) => r matches Err(e) && e@ == fault,
        },
{
    let mut output = match run_git_command(exit) {
        Ok(bytes) => bytes,
        Err(e) => {
            return Err(e);
        },
    };
    match request {
        GitRequest::Refs(service) => {
            let mut body: Vec<u8> = slice_to_vec(refs_header(service.as_str()).as_str().as_bytes());
            body.append(&mut output);
            let mut content_type = joined("application/x-", service.as_str());
            content_type.append("-advertisement");
            Ok(
                GitReply {
                    status: 200,
                    content_type,
                    cache_control: "no-cache".to_owned(),
                    body,
                    pushed: None,
                },
            )
        },
        _ => {
            let mut content_type = joined("application/x-git-", git_subcommand(request).as_str());
            content_type.append("-result");
            let pushed = match request {
                GitRequest::Push(_) => Some(repo_id),
                _ => None,
            };
            Ok(
                GitReply {
                    status: 200,
                    content_type,
                    cache_control: "no-cache".to_owned(),
                    body: output,
                    pushed,
                },
            )
        },
    }
}

/// The number that hexadecimal digits stand for.
pub open spec fn hex_value(digits: Seq<char>) -> int
    decreases digits.len(),
{
    if digits.len() == 0 {
        0
    } else {
        let c = digits.last();
        hex_value(digits.drop_last()) * 16 + (if c as int <= 57 {
            c as int - 48
        } else {
            c as int - 87
        })
    }
}

proof fn hex_value_of_numeral(n: nat)
    ensures
        hex_value(crate::numerals::numeral(n, 16)) == n,
    decreases n,
{
    let text = crate::numerals::numeral(n, 16);
    reveal_with_fuel(hex_value, 2);
    assert(text.last() == crate::numerals::digit(n as int % 16));
    if n < 16 {
        assert(text.drop_last() == Seq::<char>::empty());
    } else {
        hex_value_of_numeral(n / 16);
        assert(text.drop_last() == crate::numerals::numeral(n / 16, 16));
    }
}

proof fn hex_value_of_padded(zeros: nat, digits: Seq<char>)
    ensures
        hex_value(Seq::new(zeros, |i: int| '0') + digits) == hex_value(digits),
    decreases digits.len(), zeros,
{
    let text = Seq::new(zeros, |i: int| '0') + digits;
    if digits.len() > 0 {
        assert(text.drop_last() == Seq::new(zeros, |i: int| '0') + digits.drop_last());
        hex_value_of_padded(zeros, digits.drop_last());
    } else if zeros > 0 {
        assert(text.drop_last() == Seq::new((zeros - 1) as nat, |i: int| '0') + digits);
        hex_value_of_padded((zeros - 1) as nat, digits);
    } else {
        assert(text == digits);
    }
}

proof fn short_numeral(n: nat)
    requires
        n < 65_536,
    ensures
        crate::numerals::numeral(n, 16).len() <= 4,
        forall|i: int|
            0 <= i < crate::numerals::numeral(n, 16).len() ==> (
            #[trigger] crate::numerals::numeral(n, 16)[i]) as int <= 127,
{
    reveal_with_fuel(crate::numerals::numeral, 5);
}

proof fn one_byte_char(c: char)
    requires
        c as int <= 127,
    ensures
        vstd::utf8::has_width_1_encoding(c as u32),
{
}

proof fn byte_len_of_ascii_front(front: Seq<char>, rest: Seq<char>)
    requires
        forall|i: int| 0 <= i < front.len() ==> (#[trigger] front[i]) as int <= 127,
    ensures
        crate::text::byte_len(front + rest) == front.len() + crate::text::byte_len(rest),
    decreases front.len(),
{
    if front.len() > 0 {
        let text = front + rest;
        assert(text.drop_first() == front.drop_first() + rest);
        byte_len_of_ascii_front(front.drop_first(), rest);
        assert(text[0] == front[0]);
        one_byte_char(text[0]);
        assert(vstd::utf8::encode_utf8(text) == vstd::utf8::encode_scalar(text[0] as u32)
            + vstd::utf8::encode_utf8(text.drop_first()));
    } else {
        assert(front + rest == rest);
    }
}

/// The length in front of a line of the git protocol is that of the line and its length together,
/// for every line that four digits can count.
pub proof fn pkt_line_states_its_length(line: Seq<char>)
    requires
        crate::text::byte_len(line) + 4 < 65_536,
    ensures
        hex_value(pkt_line(line).take(4)) == crate::text::byte_len(pkt_line(line)),
        pkt_line(line).skip(4) == line,
{
    let n = crate::text::byte_len(line) + 4;
    let digits = crate::numerals::numeral(n, 16);
    let front = crate::numerals::zero_padded(digits, 4);
    short_numeral(n);
    hex_value_of_numeral(n);
    hex_value_of_padded((4 - digits.len()) as nat, digits);
    assert(front.len() == 4);
    assert(front == Seq::new((4 - digits.len()) as nat, |i: int| '0') + digits);
    byte_len_of_ascii_front(front, line);
    assert(pkt_line(line).take(4) == front);
    assert(pkt_line(line).skip(4) == line);
}

/// An announcement of references is typed by the very service that was asked for, so that
/// announcements for two services are never taken for each other.
pub proof fn announcement_is_typed_by_its_service(
    service: Seq<char>,
    other: Seq<char>,
    repo_id: i64,
    output: Seq<u8>,
    reply: GitReply,
    other_reply: GitReply,
)
    requires
        answers(GitRequestView::Refs(service), repo_id, output, reply),
        answers(GitRequestView::Refs(other), repo_id, output, other_reply),
    ensures
        reply.content_type@ == "application/x-"@ + service + "-advertisement"@,
        service != other ==> reply.content_type@ != other_reply.content_type@,
{
    let front = "application/x-"@;
    let back = "-advertisement"@;
    let a = front + service + back;
    let b = front + other + back;
    assert(a.len() == front.len() + service.len() + back.len());
    assert(b.len() == front.len() + other.len() + back.len());
    if a == b {
        assert(service == a.subrange(front.len() as int, (front.len() + service.len()) as int));
        assert(other == b.subrange(front.len() as int, (front.len() + other.len()) as int));
    }
}

/// The answer with objects is typed by what was done, and is what git printed, byte for byte.
pub proof fn pack_answer_is_what_git_printed(
    len: u64,
    repo_id: i64,
    output: Seq<u8>,
    fetched: GitReply,
    pushed: GitReply,
)
    requires
        answers(GitRequestView::Fetch(len), repo_id, output, fetched),
        answers(GitRequestView::Push(len), repo_id, output, pushed),
    ensures
        fetched.content_type@ == "application/x-git-upload-pack-result"@,
        pushed.content_type@ == "application/x-git-receive-pack-result"@,
        fetched.body@ == output,
        pushed.body@ == output,
        fetched.pushed is None,
        pushed.pushed == Some(repo_id),
{
    reveal_strlit("application/x-git-");
    reveal_strlit("upload-pack");
    reveal_strlit("receive-pack");
    reveal_strlit("-result");
    reveal_strlit("application/x-git-upload-pack-result");
    reveal_strlit("application/x-git-receive-pack-result");
    assert("application/x-git-"@ + "upload-pack"@ + "-result"@
        =~= "application/x-git-upload-pack-result"@);
    assert("application/x-git-"@ + "receive-pack"@ + "-result"@
        =~= "application/x-git-receive-pack-result"@);
}

/// An announcement is one line that names the service and states its own length, a mark that ends
/// it, and then what git printed, byte for byte.
pub proof fn announcement_leads_with_its_service(
    service: Seq<char>,
    repo_id: i64,
    output: Seq<u8>,
    reply: GitReply,
)
    requires
        answers(GitRequestView::Refs(service), repo_id, output, reply),
        crate::text::byte_len("# service="@ + service + "\n"@) + 4 < 65_536,
    ensures
        ({
            let line = "# service="@ + service + "\n"@;
            let front = reply.body@.take(reply.body@.len() - output.len());
            let text = vstd::utf8::decode_utf8(front);
            &&& reply.body@ == front + output
            &&& text.skip(4) == line + "0000"@
            &&& crate::numerals::value_of(text.take(4), 16) == crate::text::byte_len(line) + 4
        }),
{
    let line = "# service="@ + service + "\n"@;
    let preamble = refs_preamble(service);
    let head = vstd::utf8::encode_utf8(preamble);
    let front = reply.body@.take(reply.body@.len() - output.len());
    assert(front == head);
    assert(reply.body@ == front + output);
    vstd::utf8::encode_utf8_decode_utf8(preamble);
    let n = crate::text::byte_len(line) + 4;
    let digits = crate::numerals::numeral(n, 16);
    short_numeral(n);
    let padded = crate::numerals::zero_padded(digits, 4);
    assert(preamble == padded + line + "0000"@);
    assert(preamble.take(4) == padded);
    assert(preamble.skip(4) == line + "0000"@);
    crate::numerals::numeral_reads_as_its_number(n, 16);
    value_of_padded((4 - digits.len()) as nat, digits);
}

proof fn value_of_padded(zeros: nat, digits: Seq<char>)
    ensures
        crate::numerals::value_of(Seq::new(zeros, |i: int| '0') + digits, 16)
            == crate::numerals::value_of(digits, 16),
    decreases digits.len(), zeros,
{
    let text = Seq::new(zeros, |i: int| '0') + digits;
    if digits.len() > 0 {
        assert(text.drop_last() == Seq::new(zeros, |i: int| '0') + digits.drop_last());
        value_of_padded(zeros, digits.drop_last());
    } else if zeros > 0 {
        assert(text.drop_last() == Seq::new((zeros - 1) as nat, |i: int| '0') + digits);
        value_of_padded((zeros - 1) as nat, digits);
    } else {
        assert(text == digits);
    }
}

/// Git is run in the directory that is given last, and asked to announce its references exactly
/// where these are asked for; the subcommand is the service without its `git-`.
pub proof fn git_is_told_what_was_asked(name: Seq<char>, len: u64, path: Seq<char>)
    ensures
        arguments(GitRequestView::Refs("git-"@ + name), path) == seq![
            name,
            "--stateless-rpc"@,
            "--advertise-refs"@,
            path,
        ],
        !"git-"@.is_prefix_of(name) ==> arguments(GitRequestView::Refs(name), path) == seq![
            name,
            "--stateless-rpc"@,
            "--advertise-refs"@,
            path,
        ],
        arguments(GitRequestView::Fetch(len), path) == seq![
            "upload-pack"@,
            "--stateless-rpc"@,
            path,
        ],
        arguments(GitRequestView::Push(len), path) == seq![
            "receive-pack"@,
            "--stateless-rpc"@,
            path,
        ],
{
    crate::text::prefix_is_taken_off("git-"@ + name, "git-"@, name);
}

/// Only a command that ended well gives anything to the client, namely all that it printed; every
/// other end is an internal error whose text holds the cause.
pub proof fn only_good_ends_are_answered(exit: GitExit)
    ensures
        printed(exit) is Ok <==> exit is Done,
        match exit {
            GitExit::Done(output) => printed(exit) == Ok::<Seq<u8>, crate::error::Fault>(output@),
            GitExit::NotStarted(e) => printed(exit) matches Err(crate::error::Fault::Internal(t))
                && t == "git spawn failed: "@ + e@,
            GitExit::NotFed(e) => printed(exit) matches Err(crate::error::Fault::Internal(t)) && t
                == "git stdin write failed: "@ + e@,
            GitExit::NotAwaited(e) => printed(exit) matches Err(crate::error::Fault::Internal(t))
                && t == "git wait failed: "@ + e@,
            GitExit::TimedOut => printed(exit) matches Err(crate::error::Fault::Internal(t))
                && t == "git timed out after 120s"@,
            GitExit::Failed(status, errors) => printed(exit) matches Err(
                crate::error::Fault::Internal(t),
            ) && t == "git exited with "@ + status@ + ": "@ + crate::bytes::utf8_lossy(errors@),
        },
{
    if exit is TimedOut {
        reveal_strlit("git timed out after ");
        reveal_strlit("s");
        reveal_strlit("git timed out after 120s");
        reveal_with_fuel(crate::numerals::numeral, 3);
        assert(crate::numerals::numeral(120, 10) == seq!['1', '2', '0']);
        assert("git timed out after "@ + seq!['1', '2', '0'] + "s"@
            =~= "git timed out after 120s"@);
    }
}

/// A request is a push where objects are sent, and where the references are asked for to send
/// some; nothing else is one.
pub proof fn pushes_are_told_from_fetches(service: Seq<char>, len: u64)
    ensures
        GitRequestView::Push(len).is_push(),
        !GitRequestView::Fetch(len).is_push(),
        GitRequestView::Refs(service).is_push() <==> service == "git-receive-pack"@,
{
}

/// What a client may have is served from the directory of the repository that it names, and of no
/// other: the user's, under the directory of all repositories, with `.git` at the end of its name.
pub proof fn allowed_request_runs_in_the_named_directory(
    config: AppConfig,
    repo: Seq<char>,
    request: GitRequestView,
    found: FoundRepo,
    admits: bool,
)
    requires
        admits || !(request.is_push() || found.is_private),
        request matches GitRequestView::Fetch(len) ==> len <= config.git_pack_limit_mb * 1024
            * 1024,
        request matches GitRequestView::Push(len) ==> len <= config.git_pack_limit_mb * 1024
            * 1024,
        crate::routes::repo::disk_path_fault(config.username@, repo) is None,
    ensures
        last_step(
            config,
            config.username@,
            repo,
            request,
            Some(found),
            admits,
            first_step(config, config.username@, request),
        ) == (GitStepView::Run {
            repo_id: found.id,
            path: config.root() + "/"@ + config.username@ + "/"@ + (if ".git"@.is_suffix_of(repo) {
                repo
            } else {
                repo + ".git"@
            }),
        }),
{
    requests_come_to_their_outcome(
        config,
        config.username@,
        repo,
        request,
        Some(found),
        admits,
    );
    let dir = crate::routes::repo::dir_name(repo);
    assert(config.root() + "/"@ + (config.username@ + "/"@ + dir) == config.root() + "/"@
        + config.username@ + "/"@ + dir);
}

/// A request body over the limit is refused with a text that tells the limit, where the request
/// would be served otherwise.
pub proof fn oversized_body_is_refused(
    config: AppConfig,
    repo: Seq<char>,
    len: u64,
    found: FoundRepo,
    admits: bool,
)
    requires
        len > config.git_pack_limit_mb * 1024 * 1024,
    ensures
        ({
            let refusal = GitStepView::Fail(
                crate::error::Fault::BadRequest(
                    "pack exceeds "@ + crate::numerals::decimal(config.git_pack_limit_mb as nat)
                        + " MiB limit"@,
                ),
            );
            let fetch = GitRequestView::Fetch(len);
            let push = GitRequestView::Push(len);
            let user = config.username@;
            &&& (admits || !found.is_private) ==> last_step(
                config,
                user,
                repo,
                fetch,
                Some(found),
                admits,
                first_step(config, user, fetch),
            ) == refusal
            &&& admits ==> last_step(
                config,
                user,
                repo,
                push,
                Some(found),
                admits,
                first_step(config, user, push),
            ) == refusal
        }),
{
    requests_come_to_their_outcome(
        config,
        config.username@,
        repo,
        GitRequestView::Fetch(len),
        Some(found),
        admits,
    );
    requests_come_to_their_outcome(
        config,
        config.username@,
        repo,
        GitRequestView::Push(len),
        Some(found),
        admits,
    );
}

/// Nothing is told of a repository that is not there, nor to one who names another user, but that
/// it is not found; only one who sends objects has to say first who they are.
pub proof fn what_is_not_there_is_not_found(
    config: AppConfig,
    user: Seq<char>,
    repo: Seq<char>,
    request: GitRequestView,
    found: Option<FoundRepo>,
    admits: bool,
)
    requires
        user != config.username@ || (found is None && (admits || !(request is Push))),
    ensures
        last_step(config, user, repo, request, found, admits, first_step(config, user, request))
            == GitStepView::Fail(crate::error::Fault::NotFound),
{
    requests_come_to_their_outcome(config, user, repo, request, found, admits);
}

/// One who is not let in is told so, where the repository is private or they prepare a push.
pub proof fn refused_client_is_told_so(
    config: AppConfig,
    repo: Seq<char>,
    request: GitRequestView,
    found: FoundRepo,
)
    requires
        found.is_private || request is Push || request == GitRequestView::Refs(
            "git-receive-pack"@,
        ),
    ensures
        last_step(
            config,
            config.username@,
            repo,
            request,
            Some(found),
            false,
            first_step(config, config.username@, request),
        ) == GitStepView::Fail(crate::error::Fault::GitUnauthorized),
{
    requests_come_to_their_outcome(
        config,
        config.username@,
        repo,
        request,
        Some(found),
        false,
    );
}

/// Requests and steps are seen as they are.
pub proof fn requests_and_steps_are_seen_as_they_are(request: GitRequest, step: GitStep)
    ensures
        request matches GitRequest::Refs(service) ==> request@ == GitRequestView::Refs(service@),
        request matches GitRequest::Fetch(len) ==> request@ == GitRequestView::Fetch(len),
        request matches GitRequest::Push(len) ==> request@ == GitRequestView::Push(len),
        step matches GitStep::LookUp { admitted } ==> step@ == (GitStepView::LookUp { admitted }),
        step matches GitStep::Authenticate { repo_id } ==> step@ == (GitStepView::Authenticate {
            repo_id,
        }),
        step matches GitStep::Run { repo_id, path } ==> step@ == (GitStepView::Run {
            repo_id,
            path: path@,
        }),
        step matches GitStep::Fail(e) ==> step@ == GitStepView::Fail(e@),
{
}

/// Every limit below 2^44 MiB is a number of bytes.
pub proof fn limits_below_2_to_44_mib_fit(config: AppConfig)
    ensures
        limit_fits(config) <==> config.git_pack_limit_mb < 0x1000_0000_0000,
{
}

/// Every answer that git gave is a success that is not to be cached, and webhooks are told exactly
/// of pushes.
pub proof fn answers_are_not_cached(
    request: GitRequestView,
    repo_id: i64,
    output: Seq<u8>,
    reply: GitReply,
)
    requires
        answers(request, repo_id, output, reply),
    ensures
        reply.status == 200,
        reply.cache_control@ == "no-cache"@,
        reply.pushed is Some <==> request is Push,
        reply.pushed matches Some(id) ==> id == repo_id,
{
}

/// However long the name of a service is, the line that names it is led by its length, in at least
/// four hexadecimal digits and without needless zeros where there are more.
pub proof fn announcement_states_its_length(service: Seq<char>) -> (digits: Seq<char>)
    ensures
        reply_body(GitRequestView::Refs(service), Seq::empty()) == vstd::utf8::encode_utf8(
            digits + ("# service="@ + service + "\n"@) + "0000"@,
        ),
        digits.len() >= 4,
        digits.len() > 4 ==> digits[0] != '0',
        crate::numerals::value_of(digits, 16) == crate::text::byte_len(
            "# service="@ + service + "\n"@,
        ) + 4,
{
    let line = "# service="@ + service + "\n"@;
    let n = crate::text::byte_len(line) + 4;
    let bare = crate::numerals::numeral(n, 16);
    let digits = crate::numerals::zero_padded(bare, 4);
    crate::numerals::numeral_reads_as_its_number(n, 16);
    if bare.len() < 4 {
        value_of_padded((4 - bare.len()) as nat, bare);
    }
    let head = vstd::utf8::encode_utf8(digits + line + "0000"@);
    assert(head + Seq::<u8>::empty() == head);
    digits
}

/// A repository whose name cannot be that of a directory is not served, and the client is told
/// why, where it would be served otherwise.
pub proof fn names_that_are_no_directory_are_refused(
    config: AppConfig,
    repo: Seq<char>,
    service: Seq<char>,
    found: FoundRepo,
    admits: bool,
)
    requires
        admits || !(service == "git-receive-pack"@ || found.is_private),
        crate::routes::repo::segment_fault(config.username@) is None,
    ensures
        crate::routes::repo::segment_fault(repo) matches Some(text) ==> last_step(
            config,
            config.username@,
            repo,
            GitRequestView::Refs(service),
            Some(found),
            admits,
            first_step(config, config.username@, GitRequestView::Refs(service)),
        ) == GitStepView::Fail(crate::error::Fault::BadRequest(text)),
{
    requests_come_to_their_outcome(
        config,
        config.username@,
        repo,
        GitRequestView::Refs(service),
        Some(found),
        admits,
    );
}

} // verus!
