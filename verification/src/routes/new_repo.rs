//! Making a repository: the order in which its name, its directory and its row come about, and
//! what is undone when one of them fails.
use vstd::prelude::*;
use vstd::string::*;

use crate::config::AppConfig;
use crate::error::AppError;
use crate::middleware::auth::Authenticated;
use crate::routes::user::{require_auth, validate_repo_name};
use crate::text::{joined, opt_view, same_text};

verus! {

/// What the user fills in.
#[derive(Debug)]
pub struct NewRepoForm {
    pub name: String,
    pub description: Option<String>,
    pub is_private: Option<String>,
}

/// A repository that is about to be made.
#[derive(Debug)]
pub struct NewRepo {
    pub name: String,
    pub description: Option<String>,
    pub is_private: bool,
    /// Its directory, as it is stored.
    pub git_path: String,
    /// Its directory on disk.
    pub directory: String,
}

/// A description, where there is one.
pub open spec fn described(text: Option<Seq<char>>) -> Option<Seq<char>> {
    match text {
        Some(t) => if t.len() > 0 {
            Some(t)
        } else {
            None
        },
        None => None,
    }
}

/// The directory of a new repository, as it is stored.
pub open spec fn stored_path(config: AppConfig, name: Seq<char>) -> Seq<char> {
    config.username@ + "/"@ + name + ".git"@
}

/// Whether a repository that is about to be made is the one that a form asks for.
pub open spec fn is_asked_for(config: AppConfig, form: NewRepoForm, plan: NewRepo) -> bool {
    &&& plan.name@ == form.name@
    &&& opt_view(plan.description) == described(opt_view(form.description))
    &&& plan.is_private == (opt_view(form.is_private) == Some("on"@))
    &&& plan.git_path@ == stored_path(config, form.name@)
    &&& plan.directory@ == config.git_path(stored_path(config, form.name@))
}

/// Why no repository is made, before anything is looked up.
pub open spec fn form_fault(auth: Option<Authenticated>, name: Seq<char>) -> Option<
    crate::error::Fault,
> {
    if auth is None {
        Some(crate::error::Fault::Unauthorized)
    } else {
        match crate::routes::user::repo_name_fault(name) {
            Some(text) => Some(crate::error::Fault::BadRequest(text)),
            None => None,
        }
    }
}

/// Checks who asks and for which name, before anything is looked up.
pub fn check_form(auth: Option<Authenticated>, form: &NewRepoForm) -> (r: Result<(), AppError>)
    ensures
        match form_fault(auth, form.name@) {
            None => r is Ok,
            Some(fault) => r matches Err(e) && e@ == fault,
        },
{
    if let Err(e) = require_auth(auth) {
        return Err(e);
    }
    match validate_repo_name(form.name.as_str()) {
        Ok(()) => Ok(()),
        Err(text) => Err(AppError::BadRequest(text)),
    }
}

/// The repository to make, where the name is free.
pub fn plan(config: &AppConfig, form: NewRepoForm, taken: bool) -> (r: Result<NewRepo, AppError>)
    ensures
        taken ==> (r matches Err(e) && e@ == crate::error::Fault::BadRequest(
            "repository name already exists"@,
        )),
        !taken ==> (r matches Ok(p) && is_asked_for(*config, form, p)),
{
    if taken {
        return Err(AppError::BadRequest("repository name already exists".to_owned()));
    }
    let is_private = match &form.is_private {
        Some(mark) => same_text(mark.as_str(), "on"),
        None => false,
    };
    let mut git_path = joined(config.username.as_str(), "/");
    git_path.append(form.name.as_str());
    git_path.append(".git");
    let directory = config.resolve_git_path(git_path.as_str());
    let description = match form.description {
        Some(text) => if text.as_str().is_empty() {
            None
        } else {
            Some(text)
        },
        None => None,
    };
    Ok(NewRepo { name: form.name, description, is_private, git_path, directory })
}

/// What follows a step in the making of a repository.
#[derive(Debug)]
pub enum NewRepoStep {
    /// Store the row.
    Store,
    /// Remove the directory again, and answer with an error.
    Undo(AppError),
    /// Send the user to the page of the repository.
    Show(String),
}

/// A [`NewRepoStep`] over sequences.
#[verifier::ext_equal]
pub enum NewRepoStepView {
    Store,
    Undo(crate::error::Fault),
    Show(Seq<char>),
}

impl View for NewRepoStep {
    type V = NewRepoStepView;

    open spec fn view(&self) -> NewRepoStepView {
        match self {
            NewRepoStep::Store => NewRepoStepView::Store,
            NewRepoStep::Undo(e) => NewRepoStepView::Undo(e@),
            NewRepoStep::Show(location) => NewRepoStepView::Show(location@),
        }
    }
}

/// The error in an outcome, if there is one.
pub open spec fn error_in(done: Result<(), String>) -> Option<Seq<char>> {
    match done {
        Ok(_) => None,
        Err(e) => Some(e@),
    }
}

/// The step after the directory was made, or was not.
pub open spec fn after_directory(error: Option<Seq<char>>) -> NewRepoStepView {
    match error {
        None => NewRepoStepView::Store,
        Some(e) => NewRepoStepView::Undo(crate::error::Fault::Internal(e)),
    }
}

/// The page of a repository.
pub open spec fn repo_location(config: AppConfig, name: Seq<char>) -> Seq<char> {
    "/"@ + config.username@ + "/"@ + name
}

/// The step after the row was stored, or was not.
pub open spec fn after_store(
    config: AppConfig,
    name: Seq<char>,
    error: Option<Seq<char>>,
) -> NewRepoStepView {
    match error {
        None => NewRepoStepView::Show(repo_location(config, name)),
        Some(e) => NewRepoStepView::Undo(crate::error::Fault::Internal(e)),
    }
}

/// The step after the directory was made, or was not. One that was made in part is removed too.
pub fn on_directory(made: Result<(), String>) -> (r: NewRepoStep)
    ensures
        r@ == after_directory(error_in(made)),
{
    match made {
        Ok(_) => NewRepoStep::Store,
        Err(e) => NewRepoStep::Undo(AppError::Internal(e)),
    }
}

/// The step after the row was stored, or was not.
pub fn on_stored(config: &AppConfig, plan: &NewRepo, stored: Result<(), String>) -> (r: NewRepoStep)
    ensures
        r@ == after_store(*config, plan.name@, error_in(stored)),
{
    match stored {
        Ok(_) => {
            let mut location = joined("/", config.username.as_str());
            location.append("/");
            location.append(plan.name.as_str());
            NewRepoStep::Show(location)
        },
        Err(e) => NewRepoStep::Undo(AppError::Internal(e)),
    }
}

/// What came of an attempt to make a repository.
#[verifier::ext_equal]
pub struct Attempt {
    /// The page that is shown, or the error.
    pub answer: Result<Seq<char>, crate::error::Fault>,
    /// Whether the making of the directory was begun.
    pub begun: bool,
    /// Whether the row was stored.
    pub stored: bool,
    /// Whether the directory was removed.
    pub removed: bool,
}

/// What comes of an attempt, where the name was taken or not, and the directory and the row each
/// came about or gave an error.
pub open spec fn attempt(
    config: AppConfig,
    auth: Option<Authenticated>,
    name: Seq<char>,
    taken: bool,
    directory: Option<Seq<char>>,
    row: Option<Seq<char>>,
) -> Attempt {
    match form_fault(auth, name) {
        Some(fault) => Attempt { answer: Err(fault), begun: false, stored: false, removed: false },
        None => if taken {
            Attempt {
                answer: Err(
                    crate::error::Fault::BadRequest("repository name already exists"@),
                ),
                begun: false,
                stored: false,
                removed: false,
            }
        } else {
            match after_directory(directory) {
                NewRepoStepView::Undo(fault) => Attempt {
                    answer: Err(fault),
                    begun: true,
                    stored: false,
                    removed: true,
                },
                _ => match after_store(config, name, row) {
                    NewRepoStepView::Show(location) => Attempt {
                        answer: Ok(location),
                        begun: true,
                        stored: true,
                        removed: false,
                    },
                    NewRepoStepView::Undo(fault) => Attempt {
                        answer: Err(fault),
                        begun: true,
                        stored: false,
                        removed: true,
                    },
                    NewRepoStepView::Store => Attempt {
                        answer: Err(crate::error::Fault::NotFound),
                        begun: true,
                        stored: false,
                        removed: false,
                    },
                },
            }
        },
    }
}

/// A repository comes about whole or not at all: the page is shown exactly where directory and row
/// are both there, and a directory that was begun is removed again wherever it is not.
pub proof fn repository_is_made_whole_or_not_at_all(
    config: AppConfig,
    auth: Option<Authenticated>,
    name: Seq<char>,
    taken: bool,
    directory: Option<Seq<char>>,
    row: Option<Seq<char>>,
)
    ensures
        ({
            let a = attempt(config, auth, name, taken, directory, row);
            &&& a.answer is Ok <==> a.stored
            &&& a.stored <==> auth is Some && crate::routes::user::repo_name_fault(name) is None
                && !taken && directory is None && row is None
            &&& a.begun ==> (a.stored <==> !a.removed)
        }),
{
}

/// The directory of a repository that is there already is never removed.
pub proof fn taken_name_is_left_alone(
    config: AppConfig,
    auth: Option<Authenticated>,
    name: Seq<char>,
    directory: Option<Seq<char>>,
    row: Option<Seq<char>>,
)
    ensures
        ({
            let a = attempt(config, auth, name, true, directory, row);
            !a.begun && !a.removed && !a.stored && a.answer is Err
        }),
{
}

/// A repository is made where git clients look for it: the directory of a new one is the one that
/// its name leads to, and lies under that of all repositories.
pub proof fn new_repository_is_found_by_its_name(config: AppConfig, name: Seq<char>)
    requires
        crate::routes::user::repo_name_fault(name) is None,
        crate::routes::repo::segment_fault(config.username@) is None,
    ensures
        crate::routes::repo::disk_path_fault(config.username@, name) is None,
        config.git_path(stored_path(config, name)) == crate::routes::repo::disk_path(
            config,
            config.username@,
            name,
        ),
        crate::paths::lies_under(config.git_path(stored_path(config, name)), config.root()),
{
    let user = config.username@;
    let path = stored_path(config, name);
    assert(path == user + ("/"@ + name + ".git"@));
    assert(path == user + "/"@ + (name + ".git"@));
    assert(path[0] == user[0]);
    assert(user.contains(user[0]));
    config.relative_path_stays_under_root(path);
}

/// A repository is made as the form asks: under its name, with its description unless that is
/// empty, private exactly where the box was ticked, and in the directory of the user that is named
/// after it.
pub proof fn repository_is_made_as_asked(config: AppConfig, form: NewRepoForm, plan: NewRepo)
    requires
        is_asked_for(config, form, plan),
    ensures
        plan.name@ == form.name@,
        form.description is None ==> plan.description is None,
        form.description matches Some(text) ==> (if text@.len() == 0 {
            plan.description is None
        } else {
            plan.description matches Some(kept) && kept@ == text@
        }),
        form.is_private is None ==> !plan.is_private,
        form.is_private matches Some(mark) ==> (plan.is_private <==> mark@ == "on"@),
        plan.git_path@ == config.username@ + "/"@ + form.name@ + ".git"@,
        plan.directory@ == config.git_path(plan.git_path@),
{
}

/// Nobody but the user makes a repository, and only under a name that is accepted; what is wrong
/// with another name is told.
pub proof fn only_the_user_makes_repositories(auth: Option<Authenticated>, name: Seq<char>)
    ensures
        auth is None ==> form_fault(auth, name) == Some(crate::error::Fault::Unauthorized),
        auth is Some ==> (form_fault(auth, name) is None
            <==> crate::routes::user::repo_name_fault(name) is None),
        auth is Some ==> (crate::routes::user::repo_name_fault(name) matches Some(text)
            ==> form_fault(auth, name) == Some(crate::error::Fault::BadRequest(text))),
{
}

/// The row is stored exactly where the directory was made, and the page of the repository shown
/// exactly where the row was stored; an error is told as it is, and the directory removed.
pub proof fn errors_undo_what_was_made(
    config: AppConfig,
    name: Seq<char>,
    made: Result<(), String>,
    stored: Result<(), String>,
)
    ensures
        made is Ok <==> after_directory(error_in(made)) is Store,
        made matches Err(e) ==> after_directory(error_in(made)) == NewRepoStepView::Undo(
            crate::error::Fault::Internal(e@),
        ),
        stored is Ok <==> after_store(config, name, error_in(stored)) is Show,
        stored is Ok ==> after_store(config, name, error_in(stored)) == NewRepoStepView::Show(
            "/"@ + config.username@ + "/"@ + name,
        ),
        stored matches Err(e) ==> after_store(config, name, error_in(stored))
            == NewRepoStepView::Undo(crate::error::Fault::Internal(e@)),
{
}

/// A step is seen as what it is.
pub proof fn steps_are_seen_as_they_are(step: NewRepoStep)
    ensures
        step is Store <==> step@ is Store,
        step matches NewRepoStep::Undo(e) ==> step@ == NewRepoStepView::Undo(e@),
        step matches NewRepoStep::Show(location) ==> step@ == NewRepoStepView::Show(location@),
{
}

} // verus!
