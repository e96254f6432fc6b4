//! What the copy command is asked to do, read from its arguments.

use vstd::prelude::*;
use vstd::string::*;
use vstd::utf8::*;

use crate::bonsai::{is_deterministic, may_parse, yields};
use crate::exclude::{ExcludeRegex, RefusedPattern};
use crate::nonzero::NonZeroU64;
use crate::path::MPath;
use crate::rsync::Limits;

verus! {

pub const ARG_COMMIT_AUTHOR: &'static str = "commit-author";

pub const ARG_COMMIT_MESSAGE: &'static str = "commit-message";

pub const ARG_CSID: &'static str = "csid";

pub const ARG_EXCLUDE_FILE_REGEX: &'static str = "exclude-file-regex";

pub const ARG_FILE_NUM_LIMIT: &'static str = "file-num-limit";

pub const ARG_TOTAL_SIZE_LIMIT: &'static str = "total-size-limit";

pub const ARG_FROM_DIR: &'static str = "from-dir";

pub const ARG_LFS_THRESHOLD: &'static str = "lfs-threshold";

pub const ARG_TO_DIR: &'static str = "to-dir";

pub const RSYNC: &'static str = "rsync";

/// What was given for a limit is no positive number.
#[derive(Clone, Copy, Debug, PartialEq, Eq, Structural)]
pub struct NotANumber;

/// An argument that limits how much is copied.
#[derive(Clone, Copy, Debug, PartialEq, Eq, Structural)]
pub enum LimitArg {
    FileNumLimit,
    TotalSizeLimit,
    LfsThreshold,
}

impl LimitArg {
    /// The name under which the argument is given.
    pub fn name(&self) -> (name: &'static str)
        ensures
            name@ == match *self {
                LimitArg::FileNumLimit => ARG_FILE_NUM_LIMIT@,
                LimitArg::TotalSizeLimit => ARG_TOTAL_SIZE_LIMIT@,
                LimitArg::LfsThreshold => ARG_LFS_THRESHOLD@,
            },
    {
        match self {
            LimitArg::FileNumLimit => ARG_FILE_NUM_LIMIT,
            LimitArg::TotalSizeLimit => ARG_TOTAL_SIZE_LIMIT,
            LimitArg::LfsThreshold => ARG_LFS_THRESHOLD,
        }
    }
}

/// The arguments of the command besides the changeset to start from, as far as they
/// were given.
pub struct RsyncArgs {
    pub from_dir: Option<String>,
    pub to_dir: Option<String>,
    pub author: Option<String>,
    pub message: Option<String>,
    pub file_num_limit: Result<Option<NonZeroU64>, NotANumber>,
    pub exclude_file_regex: Option<String>,
    pub total_size_limit: Result<Option<NonZeroU64>, NotANumber>,
    pub lfs_threshold: Result<Option<NonZeroU64>, NotANumber>,
}

/// An argument without which the command does nothing.
#[derive(Clone, Copy, Debug, PartialEq, Eq, Structural)]
pub enum RequiredArg {
    Csid,
    FromDir,
    ToDir,
    CommitAuthor,
    CommitMessage,
}

impl RequiredArg {
    /// The name under which the argument is given.
    pub open spec fn spec_name(&self) -> Seq<char> {
        match *self {
            RequiredArg::Csid => ARG_CSID@,
            RequiredArg::FromDir => ARG_FROM_DIR@,
            RequiredArg::ToDir => ARG_TO_DIR@,
            RequiredArg::CommitAuthor => ARG_COMMIT_AUTHOR@,
            RequiredArg::CommitMessage => ARG_COMMIT_MESSAGE@,
        }
    }

    /// What the user is told when the argument is missing.
    pub fn message(&self) -> (message: String)
        ensures
            message@ == self.spec_name() + " arg is not specified"@,
    {
        let name = match self {
            RequiredArg::Csid => ARG_CSID,
            RequiredArg::FromDir => ARG_FROM_DIR,
            RequiredArg::ToDir => ARG_TO_DIR,
            RequiredArg::CommitAuthor => ARG_COMMIT_AUTHOR,
            RequiredArg::CommitMessage => ARG_COMMIT_MESSAGE,
        };
        let mut message = name.to_owned();
        message.append(" arg is not specified");
        message
    }
}

/// The argument, or that it is missing.
pub fn required(value: Option<String>, arg: RequiredArg) -> (result: Result<String, RequiredArg>)
    ensures
        result == match value {
            Some(given) => Ok::<String, RequiredArg>(given),
            None => Err(arg),
        },
{
    match value {
        Some(given) => Ok(given),
        None => Err(arg),
    }
}

/// Why the arguments do not make a request.
pub enum ArgError<E> {
    Missing(RequiredArg),
    Path(E),
    Limit(LimitArg),
    Regex(RefusedPattern),
}

/// What the command is asked to do, apart from the changeset to start from.
pub struct RsyncOptions {
    pub from_dir: MPath,
    pub to_dir: MPath,
    pub author: String,
    pub message: String,
    pub limits: Limits,
    pub exclude: Option<ExcludeRegex>,
}

/// The expression to exclude by, given what compiling the pattern came to, where one
/// was given.
pub fn exclude_of(compiled: Option<Result<ExcludeRegex, RefusedPattern>>) -> (exclude: Result<
    Option<ExcludeRegex>,
    RefusedPattern,
>)
    ensures
        exclude == match compiled {
            None => Ok::<Option<ExcludeRegex>, RefusedPattern>(None),
            Some(Ok(regex)) => Ok(Some(regex)),
            Some(Err(refused)) => Err(refused),
        },
{
    match compiled {
        None => Ok(None),
        Some(Ok(regex)) => Ok(Some(regex)),
        Some(Err(refused)) => Err(refused),
    }
}

/// Compiles the pattern, where one is given.
pub fn compile_exclude(pattern: Option<&str>) -> (compiled: Option<
    Result<ExcludeRegex, RefusedPattern>,
>)
    ensures
        match compiled {
            None => pattern is None,
            Some(Ok(regex)) => pattern matches Some(text) && regex.pattern() == text@,
            Some(Err(refused)) => pattern matches Some(text) && refused.pattern() == text@,
        },
{
    match pattern {
        None => None,
        Some(text) => Some(ExcludeRegex::compile(text)),
    }
}

/// The directory is given and `parse` may make a path of it.
pub open spec fn gives_dir<E, F: Fn(&[u8]) -> Result<MPath, E>>(
    parse: F,
    dir: Option<String>,
) -> bool {
    dir matches Some(name) && may_parse(parse, name@)
}

/// The directory is given and `path` is what `parse` may make of it.
pub open spec fn gives_path<E, F: Fn(&[u8]) -> Result<MPath, E>>(
    parse: F,
    dir: Option<String>,
    path: MPath,
) -> bool {
    dir matches Some(name) && yields(parse, name@, Ok::<MPath, E>(path))
}

/// The directory is given and `parse` may fail on it with `error`.
pub open spec fn gives_error<E, F: Fn(&[u8]) -> Result<MPath, E>>(
    parse: F,
    dir: Option<String>,
    error: E,
) -> bool {
    dir matches Some(name) && yields(parse, name@, Err::<MPath, E>(error))
}

impl RsyncArgs {
    /// Whether the argument is the first in the order of checks that is missing, those
    /// before it being in order.
    pub open spec fn lacks<E, F: Fn(&[u8]) -> Result<MPath, E>>(
        &self,
        parse: F,
        arg: RequiredArg,
    ) -> bool {
        match arg {
            RequiredArg::Csid => false,
            RequiredArg::FromDir => self.from_dir is None,
            RequiredArg::ToDir => gives_dir(parse, self.from_dir) && self.to_dir is None,
            RequiredArg::CommitAuthor => gives_dir(parse, self.from_dir) && gives_dir(
                parse,
                self.to_dir,
            ) && self.author is None,
            RequiredArg::CommitMessage => gives_dir(parse, self.from_dir) && gives_dir(
                parse,
                self.to_dir,
            ) && self.author is Some && self.message is None,
        }
    }

    /// The directories, author and message are given, and the directories may be paths.
    pub open spec fn is_complete<E, F: Fn(&[u8]) -> Result<MPath, E>>(&self, parse: F) -> bool {
        &&& gives_dir(parse, self.from_dir)
        &&& gives_dir(parse, self.to_dir)
        &&& self.author is Some
        &&& self.message is Some
    }

    /// The limits are those that the arguments set.
    pub open spec fn sets(&self, limits: Limits) -> bool {
        &&& self.file_num_limit == Ok::<_, NotANumber>(limits.file_num_limit)
        &&& self.total_size_limit == Ok::<_, NotANumber>(limits.total_size_limit)
        &&& self.lfs_threshold == Ok::<_, NotANumber>(limits.lfs_threshold)
    }

    /// Whether the limit is the first in the order of checks that is no number.
    pub open spec fn has_bad_limit(&self, arg: LimitArg) -> bool {
        match arg {
            LimitArg::FileNumLimit => self.file_num_limit is Err,
            LimitArg::TotalSizeLimit => self.file_num_limit is Ok && self.total_size_limit is Err,
            LimitArg::LfsThreshold => self.file_num_limit is Ok && self.total_size_limit is Ok
                && self.lfs_threshold is Err,
        }
    }

    /// The options hold what the arguments say, apart from what to exclude.
    pub open spec fn says<E, F: Fn(&[u8]) -> Result<MPath, E>>(
        &self,
        parse: F,
        options: RsyncOptions,
    ) -> bool {
        &&& gives_path(parse, self.from_dir, options.from_dir)
        &&& gives_path(parse, self.to_dir, options.to_dir)
        &&& self.author == Some(options.author)
        &&& self.message == Some(options.message)
        &&& self.sets(options.limits)
    }

    /// A directory is given on which `parse` may fail with `error`, and nothing before
    /// it fails.
    pub open spec fn has_bad_path<E, F: Fn(&[u8]) -> Result<MPath, E>>(
        &self,
        parse: F,
        error: E,
    ) -> bool {
        ||| gives_error(parse, self.from_dir, error)
        ||| gives_dir(parse, self.from_dir) && gives_error(parse, self.to_dir, error)
    }

    /// The request that the arguments make, apart from the changeset. The arguments are
    /// checked in a fixed order, and the first that is not in order decides: the source
    /// directory, the target directory, author, message, the limit on the number of
    /// files, the expression to exclude by, the limit on the total size and the
    /// threshold. `parse` is handed the bytes of the two directories.
    pub fn options<E, F: Fn(&[u8]) -> Result<MPath, E>>(self, parse: F) -> (result: Result<
        RsyncOptions,
        ArgError<E>,
    >)
        requires
            forall|bytes: &[u8]| #[trigger] call_requires(parse, (bytes,)),
        ensures
            match result {
                Ok(options) => {
                    &&& self.says(parse, options)
                    &&& match options.exclude {
                        None => self.exclude_file_regex is None,
                        Some(regex) => self.exclude_file_regex matches Some(pattern)
                            && regex.pattern() == pattern@,
                    }
                },
                Err(ArgError::Missing(arg)) => self.lacks(parse, arg),
                Err(ArgError::Path(error)) => self.has_bad_path(parse, error),
                Err(ArgError::Limit(arg)) => self.is_complete(parse) && self.has_bad_limit(arg),
                Err(ArgError::Regex(refused)) => {
                    &&& self.is_complete(parse)
                    &&& self.file_num_limit is Ok
                    &&& self.exclude_file_regex matches Some(pattern)
                    &&& refused.pattern() == pattern@
                },
            },
    {
        let compiled = compile_exclude(
            match &self.exclude_file_regex {
                Some(pattern) => Some(pattern.as_str()),
                None => None,
            },
        );
        self.options_excluding(parse, compiled)
    }

    /// The same request, given what compiling the expression to exclude by came to,
    /// where there is one.
    pub fn options_excluding<E, F: Fn(&[u8]) -> Result<MPath, E>>(
        self,
        parse: F,
        compiled: Option<Result<ExcludeRegex, RefusedPattern>>,
    ) -> (result: Result<RsyncOptions, ArgError<E>>)
        requires
            forall|bytes: &[u8]| #[trigger] call_requires(parse, (bytes,)),
        ensures
            match result {
                Ok(options) => {
                    &&& self.says(parse, options)
                    &&& match options.exclude {
                        None => compiled is None,
                        Some(regex) => compiled == Some(Ok::<ExcludeRegex, RefusedPattern>(regex)),
                    }
                },
                Err(ArgError::Missing(arg)) => self.lacks(parse, arg),
                Err(ArgError::Path(error)) => self.has_bad_path(parse, error),
                Err(ArgError::Limit(arg)) => {
                    &&& self.is_complete(parse)
                    &&& self.has_bad_limit(arg)
                    &&& !(arg is FileNumLimit) ==> !(compiled matches Some(Err(_)))
                },
                Err(ArgError::Regex(refused)) => {
                    &&& self.is_complete(parse)
                    &&& self.file_num_limit is Ok
                    &&& compiled == Some(Err::<ExcludeRegex, RefusedPattern>(refused))
                },
            },
    {
        let from_name = match required(self.from_dir, RequiredArg::FromDir) {
            Ok(name) => name,
            Err(arg) => {
                return Err(ArgError::Missing(arg));
            },
        };
        let from_dir = match parse_dir(&parse, from_name.as_str()) {
            Ok(path) => path,
            Err(error) => {
                return Err(ArgError::Path(error));
            },
        };
        let to_name = match required(self.to_dir, RequiredArg::ToDir) {
            Ok(name) => name,
            Err(arg) => {
                return Err(ArgError::Missing(arg));
            },
        };
        let to_dir = match parse_dir(&parse, to_name.as_str()) {
            Ok(path) => path,
            Err(error) => {
                return Err(ArgError::Path(error));
            },
        };
        let author = match required(self.author, RequiredArg::CommitAuthor) {
            Ok(author) => author,
            Err(arg) => {
                return Err(ArgError::Missing(arg));
            },
        };
        let message = match required(self.message, RequiredArg::CommitMessage) {
            Ok(message) => message,
            Err(arg) => {
                return Err(ArgError::Missing(arg));
            },
        };
        let file_num_limit = match self.file_num_limit {
            Ok(limit) => limit,
            Err(_) => {
                return Err(ArgError::Limit(LimitArg::FileNumLimit));
            },
        };
        let exclude = match exclude_of(compiled) {
            Ok(exclude) => exclude,
            Err(refused) => {
                return Err(ArgError::Regex(refused));
            },
        };
        let total_size_limit = match self.total_size_limit {
            Ok(limit) => limit,
            Err(_) => {
                return Err(ArgError::Limit(LimitArg::TotalSizeLimit));
            },
        };
        let lfs_threshold = match self.lfs_threshold {
            Ok(threshold) => threshold,
            Err(_) => {
                return Err(ArgError::Limit(LimitArg::LfsThreshold));
            },
        };
        let limits = Limits { file_num_limit, total_size_limit, lfs_threshold };
        Ok(RsyncOptions { from_dir, to_dir, author, message, limits, exclude })
    }
}

/// Hands the bytes of the name to `parse`.
fn parse_dir<E, F: Fn(&[u8]) -> Result<MPath, E>>(parse: &F, name: &str) -> (outcome: Result<
    MPath,
    E,
>)
    requires
        forall|bytes: &[u8]| #[trigger] call_requires(*parse, (bytes,)),
    ensures
        yields(*parse, name@, outcome),
        outcome is Ok ==> may_parse(*parse, name@),
{
    let bytes = name.as_bytes();
    let outcome = parse(bytes);
    proof {
        assert(call_ensures(*parse, (bytes,), outcome));
        if outcome is Ok {
            assert(yields(*parse, name@, Ok::<MPath, E>(outcome->Ok_0)));
        }
    }
    outcome
}

/// A request holds what was given: the author, the message and the limits themselves,
/// and paths that `parse` may return for the bytes of the two directories.
pub proof fn a_request_holds_what_was_given<'a, E, F: Fn(&[u8]) -> Result<MPath, E>>(
    args: RsyncArgs,
    parse: F,
    options: RsyncOptions,
) -> (names: (&'a [u8], &'a [u8]))
    requires
        args.says(parse, options),
    ensures
        args.from_dir matches Some(name) && names.0@ == encode_utf8(name@),
        args.to_dir matches Some(name) && names.1@ == encode_utf8(name@),
        call_ensures(parse, (names.0,), Ok::<MPath, E>(options.from_dir)),
        call_ensures(parse, (names.1,), Ok::<MPath, E>(options.to_dir)),
        args.author == Some(options.author),
        args.message == Some(options.message),
        args.file_num_limit == Ok::<_, NotANumber>(options.limits.file_num_limit),
        args.total_size_limit == Ok::<_, NotANumber>(options.limits.total_size_limit),
        args.lfs_threshold == Ok::<_, NotANumber>(options.limits.lfs_threshold),
{
    let from = choose|bytes: &'a [u8]|
        bytes@ == encode_utf8(args.from_dir->Some_0@) && #[trigger] call_ensures(
            parse,
            (bytes,),
            Ok::<MPath, E>(options.from_dir),
        );
    let to = choose|bytes: &'a [u8]|
        bytes@ == encode_utf8(args.to_dir->Some_0@) && #[trigger] call_ensures(
            parse,
            (bytes,),
            Ok::<MPath, E>(options.to_dir),
        );
    (from, to)
}

/// An argument is said to be missing only where it is, and only where those that are
/// checked before it were given and are in order. A limit is said to be no number only where it is none,
/// and those before it are.
pub proof fn only_what_is_wrong_is_refused<E, F: Fn(&[u8]) -> Result<MPath, E>>(
    args: RsyncArgs,
    parse: F,
    missing: RequiredArg,
    limit: LimitArg,
)
    ensures
        args.lacks::<E, F>(parse, missing) ==> match missing {
            RequiredArg::Csid => false,
            RequiredArg::FromDir => args.from_dir is None,
            RequiredArg::ToDir => {
                &&& args.from_dir matches Some(name) && may_parse(parse, name@)
                &&& args.to_dir is None
            },
            RequiredArg::CommitAuthor => {
                &&& args.from_dir matches Some(name) && may_parse(parse, name@)
                &&& args.to_dir matches Some(name) && may_parse(parse, name@)
                &&& args.author is None
            },
            RequiredArg::CommitMessage => {
                &&& args.from_dir matches Some(name) && may_parse(parse, name@)
                &&& args.to_dir matches Some(name) && may_parse(parse, name@)
                &&& args.author is Some
                &&& args.message is None
            },
        },
        args.has_bad_limit(limit) ==> match limit {
            LimitArg::FileNumLimit => args.file_num_limit is Err,
            LimitArg::TotalSizeLimit => args.file_num_limit is Ok && args.total_size_limit is Err,
            LimitArg::LfsThreshold => args.file_num_limit is Ok && args.total_size_limit is Ok
                && args.lfs_threshold is Err,
        },
        args.is_complete::<E, F>(parse) ==> {
            &&& args.from_dir matches Some(name) && may_parse(parse, name@)
            &&& args.to_dir matches Some(name) && may_parse(parse, name@)
            &&& args.author is Some
            &&& args.message is Some
        },
{
}

/// With a parser that returns one outcome for one string, arguments that are all in
/// order are refused for none of them, and those that are not are not taken for
/// complete: each request has one answer.
pub proof fn arguments_in_order_are_not_refused<E, F: Fn(&[u8]) -> Result<MPath, E>>(
    args: RsyncArgs,
    parse: F,
    options: RsyncOptions,
    missing: RequiredArg,
    limit: LimitArg,
    error: E,
)
    requires
        is_deterministic::<E, F>(parse),
        args.says(parse, options),
    ensures
        args.is_complete::<E, F>(parse),
        !args.lacks::<E, F>(parse, missing),
        !args.has_bad_limit(limit),
        !args.has_bad_path(parse, error),
{
    assert(yields(parse, args.from_dir->Some_0@, Ok::<MPath, E>(options.from_dir)));
    assert(yields(parse, args.to_dir->Some_0@, Ok::<MPath, E>(options.to_dir)));
}

/// A path is said to be bad only where `parse` may return the error for the bytes of a
/// directory that was given; where that is the target, the source may be a path.
pub proof fn a_bad_path_is_one_of_the_directories<'a, E, F: Fn(&[u8]) -> Result<MPath, E>>(
    args: RsyncArgs,
    parse: F,
    error: E,
) -> (name: &'a [u8])
    requires
        args.has_bad_path(parse, error),
    ensures
        call_ensures(parse, (name,), Err::<MPath, E>(error)),
        args.from_dir is Some,
        name@ == encode_utf8(args.from_dir->Some_0@) || (args.to_dir is Some && name@
            == encode_utf8(args.to_dir->Some_0@) && may_parse::<E, F>(
            parse,
            args.from_dir->Some_0@,
        )),
{
    let dir = if gives_error(parse, args.from_dir, error) {
        args.from_dir->Some_0@
    } else {
        args.to_dir->Some_0@
    };
    choose|bytes: &'a [u8]|
        bytes@ == encode_utf8(dir) && #[trigger] call_ensures(
            parse,
            (bytes,),
            Err::<MPath, E>(error),
        )
}

} // verus!
