use std::io::{Error as IoError, ErrorKind};
use untree::add_context::AddContext;
use untree::collapse::Collapse;
use untree::context_error::{context_error_to_string, ContextError};
use untree::context_pair::{context_pair_to_string, ContextPair};
use untree::functions::file_attempt_failed;
use untree::path_context::{context_to_string, from_stdin, PathContext, PathError, PathResult};
use untree::state::StateMachine;
use untree::supply_missing::SupplyMissing;
use untree::traits::Pure;
use untree::{
    create_path, create_tree, touch_directory, touch_file, Error, MoreContext, PathAction,
    PathKind, ReadStdinType, TreeIterator, UntreeOptions,
};

fn failure(text: &str) -> IoError {
    IoError::new(ErrorKind::Other, text.to_string())
}

#[test]
fn options_start_switched_off() {
    let options = UntreeOptions::new();
    assert!(!options.is_dry_run());
    assert!(!options.is_verbose());
    let defaults = UntreeOptions::default();
    assert!(!defaults.is_dry_run());
    assert!(!defaults.is_verbose());
}

#[test]
fn dry_run_implies_verbose() {
    let options = UntreeOptions::new().dry_run(true);
    assert!(options.is_dry_run());
    assert!(options.is_verbose());
    let quiet = options.dry_run(false);
    assert!(!quiet.is_dry_run());
    assert!(!quiet.is_verbose());
    let verbose = UntreeOptions::new().verbose(true);
    assert!(!verbose.is_dry_run());
    assert!(verbose.is_verbose());
    let both = verbose.dry_run(true).verbose(false);
    assert!(both.is_dry_run());
    assert!(both.is_verbose());
}

#[test]
fn kinds_are_shown_by_name() {
    assert_eq!(PathKind::FilePath.to_string(), "FilePath");
    assert_eq!(PathKind::Directory.to_string(), "Directory");
}

#[test]
fn actions_are_described_with_their_path() {
    assert_eq!(PathAction::CreateFile.describe("a/b"), "create file 'a/b'");
    assert_eq!(PathAction::CreateDirectory.describe("a"), "create directory 'a'");
    assert_eq!(PathAction::OpenFileForReading.describe("t.txt"), "open 't.txt' for reading");
    assert_eq!(PathAction::ReadFile.describe(""), "read file ''");
    assert_eq!(PathAction::ReadFile.on("x"), ("x", PathAction::ReadFile));
}

#[test]
fn missing_context_is_filled_once() {
    let bare = Error::from(failure("first"));
    assert!(matches!(bare, Error::MissingContext(_)));
    let on_stdin = bare.more_context(ReadStdinType::ReadStdin);
    assert!(matches!(on_stdin, Error::OnStdin(ref err) if err.to_string() == "first"));
    let still = on_stdin.more_context(PathAction::ReadFile.on("late"));
    assert!(matches!(still, Error::OnStdin(_)));

    let on_path = Error::from(failure("second")).more_context(PathAction::ReadFile.on("t"));
    match on_path.more_context(ReadStdinType::ReadStdin) {
        Error::OnPath(path, action, err) => {
            assert_eq!(path, "t");
            assert_eq!(action, PathAction::ReadFile);
            assert_eq!(err.to_string(), "second");
        }
        other => panic!("expected a failure on a path, got {:?}", other),
    }
}

#[test]
fn results_pass_context_to_their_failure() {
    let fine: Result<u8, Error> = Ok(3);
    assert!(matches!(fine.more_context(ReadStdinType::ReadStdin), Ok(3)));
    let failed: Result<u8, Error> = Err(Error::from(failure("x")));
    assert!(matches!(
        failed.more_context(ReadStdinType::ReadStdin),
        Err(Error::OnStdin(_))
    ));
}

#[test]
fn creation_follows_the_options() {
    let plain = create_path("a/b", PathKind::FilePath, UntreeOptions::new());
    assert_eq!(plain.path, "a/b");
    assert_eq!(plain.kind, PathKind::FilePath);
    assert!(!plain.announce);
    assert!(plain.perform);
    assert_eq!(plain.command(), "touch");
    assert_eq!(plain.command_colour(), untree::Colour::Green);
    assert_eq!(plain.path_colour(), untree::Colour::White);
    assert_eq!(plain.announcement("touch", "a/b"), "touch a/b");
    assert_eq!(plain.action(), PathAction::CreateFile);

    let verbose = create_path("d", PathKind::Directory, UntreeOptions::new().verbose(true));
    assert!(verbose.announce);
    assert!(verbose.perform);
    assert_eq!(verbose.command(), "mkdir");
    assert_eq!(verbose.command_colour(), untree::Colour::Green);
    assert_eq!(verbose.path_colour(), untree::Colour::Blue);
    assert_eq!(verbose.announcement("mkdir", "d"), "mkdir -p d");
    assert_eq!(verbose.announcement("<mkdir>", "<d>"), "<mkdir> -p <d>");
    assert_eq!(verbose.action(), PathAction::CreateDirectory);

    let dry = create_path("d", PathKind::Directory, UntreeOptions::new().dry_run(true));
    assert!(dry.announce);
    assert!(!dry.perform);
}

#[test]
fn existing_file_is_no_failure() {
    assert!(touch_file("a", Ok(())).is_ok());
    let exists = IoError::new(ErrorKind::AlreadyExists, "there");
    assert!(touch_file("a", Err(exists)).is_ok());
    assert!(file_attempt_failed("a", failure("ignored"), true).is_ok());
}

#[test]
fn other_failures_name_path_and_action() {
    let denied = IoError::new(ErrorKind::PermissionDenied, "denied");
    match touch_file("a/b", Err(denied)) {
        Err(Error::OnPath(path, action, err)) => {
            assert_eq!(path, "a/b");
            assert_eq!(action, PathAction::CreateFile);
            assert_eq!(err.kind(), ErrorKind::PermissionDenied);
        }
        other => panic!("expected a failure on a path, got {:?}", other),
    }
    assert!(touch_directory("d", Ok(())).is_ok());
    let exists = IoError::new(ErrorKind::AlreadyExists, "a file is in the way");
    match touch_directory("d", Err(exists)) {
        Err(Error::OnPath(path, action, err)) => {
            assert_eq!(path, "d");
            assert_eq!(action, PathAction::CreateDirectory);
            assert_eq!(err.kind(), ErrorKind::AlreadyExists);
        }
        other => panic!("expected a failure on a path, got {:?}", other),
    }
    match file_attempt_failed("f", failure("x"), false) {
        Err(Error::OnPath(path, action, _)) => {
            assert_eq!(path, "f");
            assert_eq!(action, PathAction::CreateFile);
        }
        other => panic!("expected a failure on a path, got {:?}", other),
    }
}

#[test]
fn plan_stops_at_the_failure() {
    let lines = vec![
        Ok("a".to_string()),
        Ok("    b".to_string()),
        Err(failure("lost")),
        Ok("c".to_string()),
    ];
    let (plan, outcome) = create_tree("root", lines, UntreeOptions::new().dry_run(true));
    let planned: Vec<(String, PathKind, bool, bool)> = plan
        .iter()
        .map(|c| (c.path.clone(), c.kind, c.announce, c.perform))
        .collect();
    assert_eq!(
        planned,
        vec![
            ("root/a".to_string(), PathKind::Directory, true, false),
            ("root/a/b".to_string(), PathKind::FilePath, true, false),
        ]
    );
    assert!(matches!(outcome, Err(Error::MissingContext(ref err)) if err.to_string() == "lost"));
}

#[test]
fn plan_of_a_whole_listing_succeeds() {
    let lines = vec![Ok("a".to_string()), Ok("b".to_string()), Ok(String::new())];
    let (plan, outcome) = create_tree("", lines, UntreeOptions::new());
    assert!(outcome.is_ok());
    assert_eq!(plan.len(), 2);
    assert_eq!(plan[0].path, "a");
    assert_eq!(plan[1].path, "b");
    assert!(plan.iter().all(|c| c.perform && !c.announce && c.kind == PathKind::FilePath));
    let (nothing, fine) = create_tree("root", Vec::new(), UntreeOptions::new());
    assert!(nothing.is_empty());
    assert!(fine.is_ok());
}

#[test]
fn context_is_supplied_only_where_missing() {
    let missing: PathContext<String> = PathContext::Missing;
    let filled = missing.supply_missing(PathContext::Read("t".to_string()));
    assert!(matches!(filled, PathContext::Read(ref path) if path == "t"));
    let kept = filled.supply_missing(from_stdin());
    assert!(matches!(kept, PathContext::Read(ref path) if path == "t"));
    let stdin = from_stdin().supply_missing(PathContext::CreateFile("x".to_string()));
    assert!(matches!(stdin, PathContext::Stdin));
}

#[test]
fn contexts_are_shown_in_words() {
    assert_eq!(context_to_string(&PathContext::Read("a".to_string())), "path = 'a'");
    assert_eq!(context_to_string(&PathContext::CreateFile("b".to_string())), "path = 'b'");
    assert_eq!(
        context_to_string(&PathContext::CreateDirectory("c/d".to_string())),
        "path = 'c/d'"
    );
    assert_eq!(context_to_string(&PathContext::Stdin), "source = standard input");
    assert_eq!(context_to_string(&PathContext::Missing), "[unknown]");
}

#[test]
fn borrowed_context_collapses_to_owned() {
    let owned: PathContext<String> = PathContext::CreateDirectory("d").collapse();
    assert!(matches!(owned, PathContext::CreateDirectory(ref path) if path == "d"));
    let stdin: PathContext<String> = PathContext::<&str>::Stdin.collapse();
    assert!(matches!(stdin, PathContext::Stdin));
    let same: PathContext<String> = PathContext::Read("r".to_string()).collapse();
    assert!(matches!(same, PathContext::Read(ref path) if path == "r"));
}

#[test]
fn failure_gains_its_context() {
    let failed: Result<u8, IoError> = Err(failure("io"));
    let with_context: PathResult<u8> = failed.add_context(PathContext::Read("t"));
    match with_context {
        Err(ContextError { context: PathContext::Read(path), base_error }) => {
            assert_eq!(path, "t");
            assert_eq!(base_error.to_string(), "io");
        }
        other => panic!("expected a failure with context, got {:?}", other),
    }
    let fine: Result<u8, IoError> = Ok(7);
    let still_fine: PathResult<u8> = fine.add_context(PathContext::Read("t"));
    assert!(matches!(still_fine, Ok(7)));
}

#[test]
fn unknown_place_is_supplied_later() {
    let bare = PathError::from(failure("early"));
    assert!(matches!(bare.context, PathContext::Missing));
    let placed = bare.supply_missing(from_stdin());
    assert!(matches!(placed.context, PathContext::Stdin));
    assert_eq!(placed.base_error.to_string(), "early");
    let result: PathResult<()> = Err(PathError::from(failure("e")));
    let supplied = result.supply_missing(PathContext::CreateFile("f".to_string()));
    assert!(matches!(
        supplied,
        Err(ContextError { context: PathContext::CreateFile(ref path), .. }) if path == "f"
    ));
    let fine: PathResult<u8> = Ok(1);
    assert!(matches!(fine.supply_missing(from_stdin()), Ok(1)));
}

#[test]
fn second_context_is_kept_beside_the_first() {
    let first: PathResult<u8> = Err(ContextError {
        context: PathContext::Read("t".to_string()),
        base_error: failure("io"),
    });
    let both: Result<u8, ContextError<ContextPair<PathContext<String>, PathContext<String>>, IoError>> =
        first.add_context(PathContext::CreateFile("f"));
    match both {
        Err(ContextError { context: ContextPair { first, rest }, base_error }) => {
            assert!(matches!(first, PathContext::Read(ref path) if path == "t"));
            assert!(matches!(rest, PathContext::CreateFile(ref path) if path == "f"));
            assert_eq!(base_error.to_string(), "io");
        }
        other => panic!("expected a failure with two contexts, got {:?}", other),
    }
}

#[test]
fn plain_values_are_wrapped() {
    let some: Option<u8> = 4u8.pure();
    assert_eq!(some, Some(4));
    let ok: Result<u8, String> = 5u8.pure();
    assert_eq!(ok, Ok(5));
}

#[test]
fn machine_steps_through_the_trait_and_in_place() {
    let machine = TreeIterator::new("r", Some(Ok("a".to_string())));
    let (mut machine, first) = StateMachine::step(machine, Some(Ok("b".to_string())));
    assert!(matches!(first, Some(Ok((ref path, PathKind::FilePath))) if path == "r/a"));
    let second = machine.next(Some(Ok(String::new())));
    assert!(matches!(second, Some(Ok((ref path, PathKind::FilePath))) if path == "r/b"));
    assert!(machine.is_empty());
    assert!(machine.next(None).is_none());
}

#[test]
fn failures_and_contexts_are_shown_in_words() {
    assert_eq!(
        context_error_to_string("path = 'a'", "not found"),
        "Error: ContextError { context: path = 'a', base_error: not found }"
    );
    assert_eq!(
        context_pair_to_string("path = 'a'", "source = standard input"),
        "path = 'a', also: source = standard input"
    );
    assert_eq!(
        UntreeOptions::new().dry_run(true).to_string(),
        "UntreeOptions { dry_run: true, verbose: false }"
    );
    assert_eq!(
        UntreeOptions::new().verbose(true).to_string(),
        "UntreeOptions { dry_run: false, verbose: true }"
    );
}
