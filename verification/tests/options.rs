use mononoke::nonzero::NonZeroU64;
use mononoke::path::MPath;
use mononoke::rsync_options::{
    compile_exclude, exclude_of, required, ArgError, LimitArg, NotANumber, RequiredArg, RsyncArgs, ARG_COMMIT_AUTHOR,
    ARG_COMMIT_MESSAGE, ARG_CSID, ARG_EXCLUDE_FILE_REGEX, ARG_FILE_NUM_LIMIT, ARG_FROM_DIR,
    ARG_LFS_THRESHOLD, ARG_TOTAL_SIZE_LIMIT, ARG_TO_DIR, RSYNC,
};

/// Takes a path apart at its slashes; an empty element is an error.
fn parse(bytes: &[u8]) -> Result<MPath, String> {
    let elements: Vec<Vec<u8>> = bytes.split(|b| *b == b'/').map(|e| e.to_vec()).collect();
    if elements.iter().any(|e| e.is_empty()) {
        return Err(format!("bad path {}", String::from_utf8_lossy(bytes)));
    }
    Ok(MPath { elements })
}

fn args() -> RsyncArgs {
    RsyncArgs {
        from_dir: Some("a/b".to_string()),
        to_dir: Some("c".to_string()),
        author: Some("author".to_string()),
        message: Some("message".to_string()),
        file_num_limit: Ok(NonZeroU64::new(3)),
        exclude_file_regex: Some("x+$".to_string()),
        total_size_limit: Ok(NonZeroU64::new(4)),
        lfs_threshold: Ok(NonZeroU64::new(5)),
    }
}

fn missing(args: RsyncArgs) -> RequiredArg {
    match args.options(parse) {
        Err(ArgError::Missing(arg)) => arg,
        _ => panic!("no argument is missing"),
    }
}

fn bad_path(args: RsyncArgs) -> String {
    match args.options(parse) {
        Err(ArgError::Path(error)) => error,
        _ => panic!("no path is bad"),
    }
}

#[test]
fn arguments_make_a_request() {
    let options = args().options(parse).ok().unwrap();
    assert_eq!(options.from_dir.text(), "a/b");
    assert_eq!(options.to_dir.text(), "c");
    assert_eq!(options.author, "author");
    assert_eq!(options.message, "message");
    assert_eq!(options.limits.file_num_limit, NonZeroU64::new(3));
    assert_eq!(options.limits.total_size_limit, NonZeroU64::new(4));
    assert_eq!(options.limits.lfs_threshold, NonZeroU64::new(5));
    let regex = options.exclude.unwrap();
    assert!(parse(b"a/xx").unwrap().matches_regex(&regex));
    assert!(!parse(b"x/a").unwrap().matches_regex(&regex));
}

#[test]
fn limits_and_expression_can_be_left_out() {
    let mut given = args();
    given.file_num_limit = Ok(None);
    given.total_size_limit = Ok(None);
    given.lfs_threshold = Ok(None);
    given.exclude_file_regex = None;
    let options = given.options(parse).ok().unwrap();
    assert!(options.limits.file_num_limit.is_none());
    assert!(options.limits.total_size_limit.is_none());
    assert!(options.limits.lfs_threshold.is_none());
    assert!(options.exclude.is_none());
}

#[test]
fn the_first_missing_argument_is_named() {
    let mut given = args();
    given.message = None;
    assert_eq!(missing(given), RequiredArg::CommitMessage);
    let mut given = args();
    given.message = None;
    given.author = None;
    assert_eq!(missing(given), RequiredArg::CommitAuthor);
    let mut given = args();
    given.author = None;
    given.to_dir = None;
    assert_eq!(missing(given), RequiredArg::ToDir);
    let mut given = args();
    given.to_dir = None;
    given.from_dir = None;
    assert_eq!(missing(given), RequiredArg::FromDir);
}

#[test]
fn a_path_that_does_not_parse_is_an_error() {
    let mut given = args();
    given.from_dir = Some("a//b".to_string());
    given.to_dir = None;
    assert_eq!(bad_path(given), "bad path a//b");
    let mut given = args();
    given.to_dir = Some("c/".to_string());
    given.author = None;
    assert_eq!(bad_path(given), "bad path c/");
}

#[test]
fn an_expression_that_does_not_compile_is_an_error() {
    let mut given = args();
    given.exclude_file_regex = Some("(".to_string());
    assert!(matches!(given.options(parse), Err(ArgError::Regex(_))));
    let mut given = args();
    given.exclude_file_regex = Some("(".to_string());
    given.message = None;
    assert_eq!(missing(given), RequiredArg::CommitMessage);
}

fn bad_limit(args: RsyncArgs) -> LimitArg {
    match args.options(parse) {
        Err(ArgError::Limit(arg)) => arg,
        _ => panic!("no limit is bad"),
    }
}

#[test]
fn a_limit_that_is_no_number_is_an_error() {
    let mut given = args();
    given.lfs_threshold = Err(NotANumber);
    assert_eq!(bad_limit(given), LimitArg::LfsThreshold);
    let mut given = args();
    given.lfs_threshold = Err(NotANumber);
    given.total_size_limit = Err(NotANumber);
    assert_eq!(bad_limit(given), LimitArg::TotalSizeLimit);
    let mut given = args();
    given.total_size_limit = Err(NotANumber);
    given.file_num_limit = Err(NotANumber);
    assert_eq!(bad_limit(given), LimitArg::FileNumLimit);
}

#[test]
fn limits_are_checked_around_the_expression() {
    let mut given = args();
    given.file_num_limit = Err(NotANumber);
    given.exclude_file_regex = Some("(".to_string());
    assert_eq!(bad_limit(given), LimitArg::FileNumLimit);
    let mut given = args();
    given.total_size_limit = Err(NotANumber);
    given.lfs_threshold = Err(NotANumber);
    given.exclude_file_regex = Some("(".to_string());
    assert!(matches!(given.options(parse), Err(ArgError::Regex(_))));
    let mut given = args();
    given.file_num_limit = Err(NotANumber);
    given.message = None;
    assert_eq!(missing(given), RequiredArg::CommitMessage);
    let mut given = args();
    given.file_num_limit = Err(NotANumber);
    given.from_dir = Some("a//b".to_string());
    assert_eq!(bad_path(given), "bad path a//b");
}

#[test]
fn a_refused_pattern_comes_with_the_reason() {
    let refused = compile_exclude(Some("a(b")).unwrap().err().unwrap();
    match refused.into_reason() {
        regex::Error::Syntax(text) => assert!(text.contains("a(b")),
        _ => panic!("no syntax error"),
    }
}

#[test]
fn limits_are_named() {
    assert_eq!(LimitArg::FileNumLimit.name(), "file-num-limit");
    assert_eq!(LimitArg::TotalSizeLimit.name(), "total-size-limit");
    assert_eq!(LimitArg::LfsThreshold.name(), "lfs-threshold");
}

#[test]
fn what_compiling_came_to_decides() {
    let compiled = compile_exclude(Some("q"));
    let options = args().options_excluding(parse, compiled).ok().unwrap();
    let regex = options.exclude.unwrap();
    assert!(parse(b"q").unwrap().matches_regex(&regex));
    assert!(!parse(b"xx").unwrap().matches_regex(&regex));
    let refused = args().options_excluding(parse, compile_exclude(Some("[")));
    assert!(matches!(refused, Err(ArgError::Regex(_))));
    let options = args().options_excluding(parse, None).ok().unwrap();
    assert!(options.exclude.is_none());
}

#[test]
fn no_pattern_is_no_expression() {
    assert!(compile_exclude(None).is_none());
    assert!(exclude_of(None).ok().unwrap().is_none());
    assert!(exclude_of(compile_exclude(Some("a"))).ok().unwrap().is_some());
    assert!(exclude_of(compile_exclude(Some("a{2,1}"))).is_err());
}

#[test]
fn a_required_argument_is_handed_on() {
    assert_eq!(
        required(Some("x".to_string()), RequiredArg::Csid),
        Ok("x".to_string())
    );
    assert_eq!(required(None, RequiredArg::Csid), Err(RequiredArg::Csid));
}

#[test]
fn messages_name_the_argument() {
    assert_eq!(RequiredArg::Csid.message(), "csid arg is not specified");
    assert_eq!(
        RequiredArg::FromDir.message(),
        "from-dir arg is not specified"
    );
    assert_eq!(RequiredArg::ToDir.message(), "to-dir arg is not specified");
    assert_eq!(
        RequiredArg::CommitAuthor.message(),
        "commit-author arg is not specified"
    );
    assert_eq!(
        RequiredArg::CommitMessage.message(),
        "commit-message arg is not specified"
    );
}

#[test]
fn argument_names() {
    assert_eq!(RSYNC, "rsync");
    assert_eq!(ARG_CSID, "csid");
    assert_eq!(ARG_FROM_DIR, "from-dir");
    assert_eq!(ARG_TO_DIR, "to-dir");
    assert_eq!(ARG_COMMIT_AUTHOR, "commit-author");
    assert_eq!(ARG_COMMIT_MESSAGE, "commit-message");
    assert_eq!(ARG_EXCLUDE_FILE_REGEX, "exclude-file-regex");
    assert_eq!(ARG_FILE_NUM_LIMIT, "file-num-limit");
    assert_eq!(ARG_TOTAL_SIZE_LIMIT, "total-size-limit");
    assert_eq!(ARG_LFS_THRESHOLD, "lfs-threshold");
}

#[test]
fn zero_is_no_limit() {
    assert!(NonZeroU64::new(0).is_none());
    assert_eq!(NonZeroU64::new(9).unwrap().get(), 9);
}
