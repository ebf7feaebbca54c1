use vstd::prelude::*;
use crate::chars::{from_chars, push_chars};
use crate::jnum::{dec_u64_chars, spec_dec_nat};

verus! {

/// Classification of a filesystem failure.
#[derive(Clone, Copy, Debug, PartialEq, Eq, Structural)]
pub enum IoKind {
    NotFound,
    PermissionDenied,
    AlreadyExists,
    /// A hardlink was asked for across filesystem volumes.
    CrossDevice,
    Other,
}

/// An error of the cache engine. Filesystem failures are always propagated;
/// unreadable cache data is reported apart from them; an unrecognized
/// access-mode value fails at resolution time.
#[derive(Clone, Debug)]
pub enum CacheError {
    /// An underlying filesystem operation failed: the class of the failure
    /// and the path concerned.
    Filesystem(IoKind, String),
    /// A cache file exists but does not parse as the expected record.
    DataCorruption(String),
    /// The cache mode toggle holds an unrecognized value.
    Configuration(String),
}

/// A target id (`project:task`) that cannot be used as asked.
#[derive(Clone, Debug, PartialEq)]
pub enum TargetError {
    /// A scope stood where literal project and task ids were required.
    IdOnly(String),
    /// Not of the `project_id:task_id` form.
    InvalidFormat(String),
    /// The bare `:` target, with both sides wild.
    TooWild,
    /// The all-projects scope used inside task deps.
    NoProjectAllInTaskDeps(String),
    /// The dependencies scope (`^:`) used in a run context.
    NoProjectDepsInRunContext,
    /// The self scope (`~:`) used in a run context.
    NoProjectSelfInRunContext,
}

impl TargetError {
    /// The message shown for this error.
    pub open spec fn spec_message(&self) -> Seq<char> {
        match self {
            TargetError::IdOnly(t) => "Target <target>"@ + t@
                + "</target> requires literal project and task identifiers, found a scope."@,
            TargetError::InvalidFormat(t) => "Invalid target <target>"@ + t@
                + "</target>, must be in the format of \"project_id:task_id\"."@,
            TargetError::TooWild =>
                "Target <target>:</target> encountered. Wildcard project and task not supported."@,
            TargetError::NoProjectAllInTaskDeps(t) =>
                "All projects scope (:) is not supported in task deps, for target <target>"@ + t@
                + "</target>."@,
            TargetError::NoProjectDepsInRunContext =>
                "Project dependencies scope (^:) is not supported in run contexts."@,
            TargetError::NoProjectSelfInRunContext =>
                "Project self scope (~:) is not supported in run contexts."@,
        }
    }

    pub fn message(&self) -> (r: String)
        ensures
            r@ == self.spec_message(),
    {
        match self {
            TargetError::IdOnly(t) => {
                let mut m = "Target <target>".to_owned();
                m.append(t.as_str());
                m.append("</target> requires literal project and task identifiers, found a scope.");
                m
            },
            TargetError::InvalidFormat(t) => {
                let mut m = "Invalid target <target>".to_owned();
                m.append(t.as_str());
                m.append("</target>, must be in the format of \"project_id:task_id\".");
                m
            },
            TargetError::TooWild => {
                "Target <target>:</target> encountered. Wildcard project and task not supported.".to_owned()
            },
            TargetError::NoProjectAllInTaskDeps(t) => {
                let mut m =
                    "All projects scope (:) is not supported in task deps, for target <target>".to_owned();
                m.append(t.as_str());
                m.append("</target>.");
                m
            },
            TargetError::NoProjectDepsInRunContext => {
                "Project dependencies scope (^:) is not supported in run contexts.".to_owned()
            },
            TargetError::NoProjectSelfInRunContext => {
                "Project self scope (~:) is not supported in run contexts.".to_owned()
            },
        }
    }
}

/// A project that cannot be modelled or used as asked.
#[derive(Clone, Debug, PartialEq)]
pub enum ProjectError {
    /// The project graph has a cycle.
    DependencyCycleDetected,
    /// A project configuration file failed validation: the project source
    /// directory, then the validation text.
    InvalidConfigFile(String, String),
    /// No project lives at the path.
    MissingProject(String),
    /// A glob stood where a task output file was required: the glob, then
    /// the target.
    NoOutputGlob(String, String),
    /// No project is configured under the id.
    UnconfiguredID(String),
    /// A task not configured for its project: the task id, then the
    /// project id.
    UnconfiguredTask(String, String),
    /// A target that cannot be used.
    Target(TargetError),
    /// A token that cannot be resolved.
    Token(TokenError),
}

impl ProjectError {
    /// The message shown for this error.
    pub open spec fn spec_message(&self) -> Seq<char> {
        match self {
            ProjectError::DependencyCycleDetected =>
                "A dependency cycle has been detected between projects."@,
            ProjectError::InvalidConfigFile(source, text) => "Failed to validate <file>"@ + source@
                + "/project.yml</file> configuration file.\n\n"@ + text@,
            ProjectError::MissingProject(path) => "No project exists at path <file>"@ + path@
                + "</file>."@,
            ProjectError::NoOutputGlob(glob, target) =>
                "Task outputs do not support file globs. Found <path>"@ + glob@
                + "</path> in <target>"@ + target@ + "</target>."@,
            ProjectError::UnconfiguredID(id) => "No project has been configured with the ID <id>"@
                + id@ + "</id>."@,
            ProjectError::UnconfiguredTask(task, project) => "Task <id>"@ + task@
                + "</id> has not been configured for project <id>"@ + project@ + "</id>."@,
            ProjectError::Target(e) => e.spec_message(),
            ProjectError::Token(e) => e.spec_message(),
        }
    }

    pub fn message(&self) -> (r: String)
        ensures
            r@ == self.spec_message(),
    {
        match self {
            ProjectError::DependencyCycleDetected => {
                "A dependency cycle has been detected between projects.".to_owned()
            },
            ProjectError::InvalidConfigFile(source, text) => {
                let mut m = "Failed to validate <file>".to_owned();
                m.append(source.as_str());
                m.append("/project.yml</file> configuration file.\n\n");
                m.append(text.as_str());
                m
            },
            ProjectError::MissingProject(path) => {
                let mut m = "No project exists at path <file>".to_owned();
                m.append(path.as_str());
                m.append("</file>.");
                m
            },
            ProjectError::NoOutputGlob(glob, target) => {
                let mut m = "Task outputs do not support file globs. Found <path>".to_owned();
                m.append(glob.as_str());
                m.append("</path> in <target>");
                m.append(target.as_str());
                m.append("</target>.");
                m
            },
            ProjectError::UnconfiguredID(id) => {
                let mut m = "No project has been configured with the ID <id>".to_owned();
                m.append(id.as_str());
                m.append("</id>.");
                m
            },
            ProjectError::UnconfiguredTask(task, project) => {
                let mut m = "Task <id>".to_owned();
                m.append(task.as_str());
                m.append("</id> has not been configured for project <id>");
                m.append(project.as_str());
                m.append("</id>.");
                m
            },
            ProjectError::Target(e) => e.message(),
            ProjectError::Token(e) => e.message(),
        }
    }
}

/// A token (`@func(...)` form) in task configuration that cannot be
/// resolved.
#[derive(Clone, Debug, PartialEq)]
pub enum TokenError {
    /// The token's index is not a number: token, then index text.
    InvalidIndexType(String, String),
    /// The input index is out of range: token, then index.
    InvalidInIndex(String, u8),
    /// The output index is out of range: token, then index.
    InvalidOutIndex(String, u8),
    /// The token cannot be used in this context: token, then context.
    InvalidTokenContext(String, String),
    /// A file group without globs: the group id.
    NoGlobs(String),
    /// An unknown file group: token, then group id.
    UnknownFileGroup(String, String),
    /// An unknown token function: the token.
    UnknownTokenFunc(String),
}

impl TokenError {
    /// The message shown for this error.
    pub open spec fn spec_message(&self) -> Seq<char> {
        match self {
            TokenError::InvalidIndexType(token, index) => "Token <symbol>"@ + token@
                + "</symbol> received an invalid type for index \""@ + index@
                + "\", must be a number."@,
            TokenError::InvalidInIndex(token, index) => "Input index "@ + spec_dec_nat(
                *index as nat,
            ) + " doesn't exist for token <symbol>"@ + token@ + "</symbol>."@,
            TokenError::InvalidOutIndex(token, index) => "Output index "@ + spec_dec_nat(
                *index as nat,
            ) + " doesn't exist for token <symbol>"@ + token@ + "</symbol>."@,
            TokenError::InvalidTokenContext(token, context) => "Token <symbol>"@ + token@
                + "</symbol> cannot be used within <id>"@ + context@ + "</id>."@,
            TokenError::NoGlobs(group) => "No globs defined in file group <id>"@ + group@
                + "</id>."@,
            TokenError::UnknownFileGroup(token, group) => "Unknown file group <id>"@ + group@
                + "</> used in token <symbol>"@ + token@ + "</symbol>."@,
            TokenError::UnknownTokenFunc(token) => "Unknown token function <symbol>"@ + token@
                + "</symbol>."@,
        }
    }

    pub fn message(&self) -> (r: String)
        ensures
            r@ == self.spec_message(),
    {
        match self {
            TokenError::InvalidIndexType(token, index) => {
                let mut m = "Token <symbol>".to_owned();
                m.append(token.as_str());
                m.append("</symbol> received an invalid type for index \"");
                m.append(index.as_str());
                m.append("\", must be a number.");
                m
            },
            TokenError::InvalidInIndex(token, index) => {
                let mut m = "Input index ".to_owned();
                let d = dec_u64_chars(*index as u64);
                m.append(from_chars(&d).as_str());
                m.append(" doesn't exist for token <symbol>");
                m.append(token.as_str());
                m.append("</symbol>.");
                m
            },
            TokenError::InvalidOutIndex(token, index) => {
                let mut m = "Output index ".to_owned();
                let d = dec_u64_chars(*index as u64);
                m.append(from_chars(&d).as_str());
                m.append(" doesn't exist for token <symbol>");
                m.append(token.as_str());
                m.append("</symbol>.");
                m
            },
            TokenError::InvalidTokenContext(token, context) => {
                let mut m = "Token <symbol>".to_owned();
                m.append(token.as_str());
                m.append("</symbol> cannot be used within <id>");
                m.append(context.as_str());
                m.append("</id>.");
                m
            },
            TokenError::NoGlobs(group) => {
                let mut m = "No globs defined in file group <id>".to_owned();
                m.append(group.as_str());
                m.append("</id>.");
                m
            },
            TokenError::UnknownFileGroup(token, group) => {
                let mut m = "Unknown file group <id>".to_owned();
                m.append(group.as_str());
                m.append("</> used in token <symbol>");
                m.append(token.as_str());
                m.append("</symbol>.");
                m
            },
            TokenError::UnknownTokenFunc(token) => {
                let mut m = "Unknown token function <symbol>".to_owned();
                m.append(token.as_str());
                m.append("</symbol>.");
                m
            },
        }
    }
}

} // verus!
