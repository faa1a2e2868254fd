//! What the launcher decides before and after it runs a target: which
//! application an invocation stands for, what the target is started with,
//! and which exit code to hand on.

use vstd::prelude::*;
use crate::composer::compose;
use crate::config_model::WexeApp;
use crate::environment::{compose_environment, composed, first_not_plain, ComposeError, Environment};
use crate::tag::{is_app_tag, is_valid_app_tag, LAUNCHER_TAG, MANAGER_TAG};
use crate::text::{chars_of, lowercase_of, str_eq, texts, to_lowercase};

verus! {

/// What an invocation of the launcher stands for. `skip` is the number of
/// leading words of the command line that are not arguments for the target:
/// the program's name, and the tag where it was given as the first argument.
pub enum Invocation {
    /// The management tool, which has a built-in configuration.
    Manager { skip: usize },
    /// The application registered under the tag.
    Application { tag: String, skip: usize },
}

/// An invocation that stands for nothing.
pub enum InvocationError {
    /// The launcher was asked to redirect to itself.
    LauncherTag,
    /// The tag is malformed.
    InvalidTag { tag: String },
}

pub enum InvocationView {
    Manager { skip: int },
    Application { tag: Seq<char>, skip: int },
    LauncherTag,
    InvalidTag { tag: Seq<char> },
}

/// Whether a first argument is an option rather than a tag: it starts with
/// `-`, `/` or `+`.
pub open spec fn looks_like_option(arg: Seq<char>) -> bool {
    arg.len() > 0 && (arg[0] == '-' || arg[0] == '/' || arg[0] == '+')
}

/// What a tag, already in lower case, stands for.
pub open spec fn invocation_for_tag(tag: Seq<char>, skip: int) -> InvocationView {
    if tag == LAUNCHER_TAG@ {
        InvocationView::LauncherTag
    } else if tag == MANAGER_TAG@ {
        InvocationView::Manager { skip }
    } else if is_app_tag(tag) {
        InvocationView::Application { tag, skip }
    } else {
        InvocationView::InvalidTag { tag }
    }
}

/// What an invocation stands for, from the stem of the launcher's own file
/// name and the first argument. Under another name than its own the
/// launcher stands for the application of that name. Under its own name it
/// takes a first argument that is no option as the tag, and stands for the
/// management tool without one. Names and tags are read in lower case.
pub open spec fn invocation(stem: Seq<char>, first: Option<Seq<char>>) -> InvocationView {
    let own = lowercase_of(stem);
    if own == LAUNCHER_TAG@ {
        match first {
            Some(arg) if !looks_like_option(arg) => invocation_for_tag(lowercase_of(arg), 2),
            _ => InvocationView::Manager { skip: 1 },
        }
    } else {
        invocation_for_tag(own, 1)
    }
}

fn starts_like_option(arg: &str) -> (r: bool)
    ensures
        r == looks_like_option(arg@),
{
    let chars = chars_of(arg);
    chars.len() > 0 && (chars[0] == '-' || chars[0] == '/' || chars[0] == '+')
}

/// What a tag, already in lower case, stands for: see
/// [`invocation_for_tag`].
pub fn for_tag(tag: String, skip: usize) -> (r: Result<Invocation, InvocationError>)
    ensures
        outcome_view(r) == invocation_for_tag(tag@, skip as int),
{
    if str_eq(tag.as_str(), LAUNCHER_TAG) {
        Err(InvocationError::LauncherTag)
    } else if str_eq(tag.as_str(), MANAGER_TAG) {
        Ok(Invocation::Manager { skip })
    } else if is_valid_app_tag(tag.as_str()) {
        Ok(Invocation::Application { tag, skip })
    } else {
        Err(InvocationError::InvalidTag { tag })
    }
}

/// A decision on an invocation as a plain value.
pub open spec fn outcome_view(r: Result<Invocation, InvocationError>) -> InvocationView {
    match r {
        Ok(Invocation::Manager { skip }) => InvocationView::Manager { skip: skip as int },
        Ok(Invocation::Application { tag, skip }) => InvocationView::Application {
            tag: tag@,
            skip: skip as int,
        },
        Err(InvocationError::LauncherTag) => InvocationView::LauncherTag,
        Err(InvocationError::InvalidTag { tag }) => InvocationView::InvalidTag { tag: tag@ },
    }
}

/// Decides what an invocation stands for: see [`invocation`].
pub fn select_invocation(stem: &str, first: Option<&str>) -> (r: Result<
    Invocation,
    InvocationError,
>)
    ensures
        outcome_view(r) == invocation(
            stem@,
            match first {
                Some(arg) => Some(arg@),
                None => None,
            },
        ),
{
    let own = to_lowercase(stem);
    if str_eq(own.as_str(), LAUNCHER_TAG) {
        match first {
            Some(arg) => {
                if starts_like_option(arg) {
                    Ok(Invocation::Manager { skip: 1 })
                } else {
                    for_tag(to_lowercase(arg), 2)
                }
            },
            None => Ok(Invocation::Manager { skip: 1 }),
        }
    } else {
        for_tag(own, 1)
    }
}

/// What a target is started with.
pub struct LaunchPlan {
    pub target: String,
    pub args: Vec<String>,
    pub env: Environment,
}

/// Why a target is not started.
pub enum LaunchError {
    /// The target of the configuration is not on disk.
    TargetMissing { target: String },
    /// The configuration cannot be applied to the environment.
    Environment(ComposeError),
}

/// What to start the target with: its path, the composed arguments and the
/// composed environment. A target that is not on disk is reported before
/// anything else is looked at.
pub fn plan_launch(
    user_args: &Vec<String>,
    cfg: &WexeApp,
    parent: &Environment,
    target_exists: bool,
    sep: char,
) -> (r: Result<LaunchPlan, LaunchError>)
    ensures
        match r {
            Ok(plan) => {
                &&& target_exists
                &&& first_not_plain(cfg@.env_pathlike, sep) is None
                &&& plan.target@ == cfg@.target
                &&& texts(plan.args@) == cfg@.args.prepend + texts(user_args@) + cfg@.args.append
                &&& plan.env@ == composed(parent@, cfg@, sep)
            },
            Err(LaunchError::TargetMissing { target }) => !target_exists && target@ == cfg@.target,
            Err(LaunchError::Environment(ComposeError::SeparatorInSegment { variable })) => {
                &&& target_exists
                &&& first_not_plain(cfg@.env_pathlike, sep) matches Some(i)
                &&& 0 <= i < cfg@.env_pathlike.len()
                &&& variable@ == cfg@.env_pathlike[i].0
            },
        },
{
    if !target_exists {
        return Err(LaunchError::TargetMissing { target: cfg.target.clone() });
    }
    let args = compose(&cfg.args.prepend, user_args, &cfg.args.append);
    match compose_environment(parent, cfg, sep) {
        Ok(env) => Ok(LaunchPlan { target: cfg.target.clone(), args, env }),
        Err(e) => Err(LaunchError::Environment(e)),
    }
}

/// The exit code of the launcher after the target has ended: the target's
/// own code where it has one; without one, 0 after a success and the given
/// fallback after anything else, such as the end by a signal.
pub open spec fn launcher_exit_code(success: bool, code: Option<i32>, fallback: i32) -> i32 {
    match code {
        Some(c) => c,
        None => if success {
            0
        } else {
            fallback
        },
    }
}

/// The exit code to hand on: see [`launcher_exit_code`].
pub fn exit_code(success: bool, code: Option<i32>, fallback: i32) -> (r: i32)
    ensures
        r == launcher_exit_code(success, code, fallback),
{
    match code {
        Some(c) => c,
        None => if success {
            0
        } else {
            fallback
        },
    }
}

} // verus!
