use proto_builder::builder::check_and_get_protoc_bin_path;
use proto_builder::{Action, BuildError, Builder, Entry, ErrorKind, Event};

fn ready() -> Builder {
    let entries = vec![
        Entry { name: "a.proto".to_string(), is_dir: false },
        Entry { name: "b.proto".to_string(), is_dir: false },
        Entry { name: "readme.md".to_string(), is_dir: false },
    ];
    let mut builder = Builder::new("target");
    builder.out_dir("gen").search_dir_for_protos("protos", &entries);
    builder
}

fn failed(message: &str) -> Event {
    Event::Failed { message: message.to_string() }
}

fn error_of(action: Action) -> BuildError {
    match action {
        Action::Abort { error } => error,
        other => panic!("the run goes on: {:?}", other),
    }
}

/// Reports `events` one by one and returns every action of the run.
fn course(builder: &Builder, events: Vec<Event>) -> Vec<Action> {
    let mut actions = vec![builder.generate()];
    for event in events {
        let next = builder.advance(&actions[actions.len() - 1], event);
        actions.push(next);
    }
    actions
}

fn until_version(builder: &Builder) -> Action {
    let actions = course(
        builder,
        vec![
            Event::OutDirProbed { exists: false },
            Event::Completed,
            Event::CompilerLocated { path: "/opt/bin/protoc".to_string() },
        ],
    );
    actions[3].clone()
}

#[test]
fn run_without_files_is_given_up_at_once() {
    let builder = Builder::new("target");
    let first = builder.generate();
    assert_eq!(
        first,
        Action::Abort {
            error: BuildError {
                kind: ErrorKind::NoInput,
                message: "No files specified for generation".to_string(),
            }
        }
    );
    assert!(first.is_terminal());
}

#[test]
fn run_without_files_never_acts() {
    let mut builder = Builder::new("target");
    builder.search_dir_for_protos("protos", &Vec::new());
    let actions = course(
        &builder,
        vec![
            Event::OutDirProbed { exists: true },
            Event::Completed,
            Event::VersionRead { major_is_three: true },
            Event::OutputListed { names: vec!["a.rs".to_string()] },
        ],
    );
    for action in actions {
        assert_eq!(error_of(action).kind, ErrorKind::NoInput);
    }
}

#[test]
fn run_over_existing_directory() {
    let builder = ready();
    let actions = course(
        &builder,
        vec![
            Event::OutDirProbed { exists: true },
            Event::Completed,
            Event::Completed,
            Event::CompilerLocated { path: "/opt/bin/protoc".to_string() },
            Event::VersionRead { major_is_three: true },
            Event::Completed,
            Event::OutputListed {
                names: vec!["b.rs".to_string(), "a_grpc.rs".to_string(), "a.rs".to_string()],
            },
            Event::Completed,
        ],
    );
    let gen = "gen".to_string();
    assert_eq!(
        actions,
        vec![
            Action::ProbeOutDir { path: gen.clone() },
            Action::RemoveOutDir { path: gen.clone() },
            Action::CreateOutDir { path: gen.clone() },
            Action::LocateCompiler,
            Action::ReadCompilerVersion { compiler: "/opt/bin/protoc".to_string() },
            Action::Compile {
                compiler: "/opt/bin/protoc".to_string(),
                inputs: vec!["protos/a.proto".to_string(), "protos/b.proto".to_string()],
                includes: vec!["protos".to_string()],
                out_dir: gen.clone(),
            },
            Action::ListOutDir { path: gen.clone() },
            Action::WriteIndex {
                path: "gen/mod.rs".to_string(),
                content: "pub mod a;\npub mod a_grpc;\npub mod b;\n".to_string(),
            },
            Action::Finish,
        ]
    );
}

#[test]
fn run_over_missing_directory_skips_removal() {
    let builder = ready();
    let actions = course(&builder, vec![Event::OutDirProbed { exists: false }, Event::Completed]);
    assert_eq!(
        actions,
        vec![
            Action::ProbeOutDir { path: "gen".to_string() },
            Action::CreateOutDir { path: "gen".to_string() },
            Action::LocateCompiler,
        ]
    );
}

#[test]
fn run_with_default_output_directory() {
    let mut builder = Builder::new("target/debug/build/x/out");
    builder.search_dir_for_protos("p", &vec![Entry { name: "a.proto".to_string(), is_dir: false }]);
    assert_eq!(
        builder.generate(),
        Action::ProbeOutDir { path: "target/debug/build/x/out/protos".to_string() }
    );
}

#[test]
fn out_dir_replaces_the_default_and_keeps_the_rest() {
    let mut builder = ready();
    builder.out_dir("elsewhere");
    assert_eq!(builder.generate(), Action::ProbeOutDir { path: "elsewhere".to_string() });
    assert_eq!(
        builder.generate_files("protoc".to_string()),
        Action::Compile {
            compiler: "protoc".to_string(),
            inputs: vec!["protos/a.proto".to_string(), "protos/b.proto".to_string()],
            includes: vec!["protos".to_string()],
            out_dir: "elsewhere".to_string(),
        }
    );
}

#[test]
fn search_replaces_earlier_files() {
    let mut builder = ready();
    builder.search_dir_for_protos("other", &vec![Entry { name: "c.proto".to_string(), is_dir: false }]);
    assert_eq!(
        builder.generate_files("protoc".to_string()),
        Action::Compile {
            compiler: "protoc".to_string(),
            inputs: vec!["other/c.proto".to_string()],
            includes: vec!["protos".to_string()],
            out_dir: "gen".to_string(),
        }
    );
    builder.search_dir_for_protos("other", &vec![Entry { name: "c.proto".to_string(), is_dir: true }]);
    assert_eq!(error_of(builder.generate()).kind, ErrorKind::NoInput);
}

#[test]
fn compiler_of_major_version_two_or_four_ends_the_run() {
    let builder = ready();
    let asked = until_version(&builder);
    assert_eq!(asked, Action::ReadCompilerVersion { compiler: "/opt/bin/protoc".to_string() });
    let next = builder.advance(&asked, Event::VersionRead { major_is_three: false });
    assert_eq!(
        next,
        Action::Abort {
            error: BuildError {
                kind: ErrorKind::WrongCompilerVersion,
                message: "The protobuf compiler is not of major version 3".to_string(),
            }
        }
    );
    let after = builder.advance(&next, Event::Completed);
    assert_eq!(after, next);
}

#[test]
fn version_check_hands_the_path_on() {
    assert_eq!(check_and_get_protoc_bin_path("/bin/protoc", true), Ok("/bin/protoc".to_string()));
    assert_eq!(
        check_and_get_protoc_bin_path("/bin/protoc", false).unwrap_err().kind,
        ErrorKind::WrongCompilerVersion
    );
}

#[test]
fn failures_end_the_run_with_the_error_of_the_action() {
    let builder = ready();
    let probe = builder.generate();
    assert_eq!(
        error_of(builder.advance(&probe, failed("denied"))),
        BuildError { kind: ErrorKind::Filesystem, message: "denied".to_string() }
    );
    let remove = builder.prepare_out_dir(true);
    assert_eq!(
        error_of(builder.advance(&remove, failed("busy"))),
        BuildError { kind: ErrorKind::Filesystem, message: "busy".to_string() }
    );
    let create = builder.prepare_out_dir(false);
    assert_eq!(
        error_of(builder.advance(&create, failed("read-only"))),
        BuildError { kind: ErrorKind::Filesystem, message: "read-only".to_string() }
    );
    assert_eq!(
        error_of(builder.advance(&Action::LocateCompiler, failed("no binary for this platform"))),
        BuildError {
            kind: ErrorKind::CompilerNotFound,
            message: "no binary for this platform".to_string()
        }
    );
    let asked = until_version(&builder);
    assert_eq!(
        error_of(builder.advance(&asked, failed("output is empty"))),
        BuildError {
            kind: ErrorKind::CompilerVersionUnreadable,
            message: "output is empty".to_string()
        }
    );
    let compile = builder.generate_files("protoc".to_string());
    assert_eq!(
        error_of(builder.advance(&compile, failed("a.proto:3:1: syntax error"))),
        BuildError {
            kind: ErrorKind::Generation,
            message: "Failed to compile protobuf and grpc files: a.proto:3:1: syntax error"
                .to_string(),
        }
    );
    let list = builder.advance(&compile, Event::Completed);
    assert_eq!(list, Action::ListOutDir { path: "gen".to_string() });
    assert_eq!(
        error_of(builder.advance(&list, failed("gone"))),
        BuildError { kind: ErrorKind::Filesystem, message: "gone".to_string() }
    );
    let write = builder.generate_mod_file(&vec!["a.rs".to_string()]);
    assert_eq!(
        error_of(builder.advance(&write, failed("disk full"))),
        BuildError { kind: ErrorKind::Filesystem, message: "disk full".to_string() }
    );
}

#[test]
fn report_out_of_turn_ends_the_run() {
    let builder = ready();
    let probe = builder.generate();
    let next = builder.advance(&probe, Event::Completed);
    assert_eq!(
        next,
        Action::Abort {
            error: BuildError {
                kind: ErrorKind::UnexpectedEvent,
                message: "The event does not answer the pending action".to_string(),
            }
        }
    );
    let create = builder.prepare_out_dir(false);
    assert_eq!(
        error_of(builder.advance(&create, Event::VersionRead { major_is_three: true })).kind,
        ErrorKind::UnexpectedEvent
    );
    assert_eq!(
        error_of(builder.advance(&Action::LocateCompiler, Event::OutDirProbed { exists: true }))
            .kind,
        ErrorKind::UnexpectedEvent
    );
    let write = builder.generate_mod_file(&Vec::new());
    assert_eq!(
        error_of(builder.advance(&write, Event::OutputListed { names: Vec::new() })).kind,
        ErrorKind::UnexpectedEvent
    );
}

#[test]
fn ended_run_stays_as_it_is() {
    let builder = ready();
    assert_eq!(builder.advance(&Action::Finish, Event::Completed), Action::Finish);
    assert_eq!(builder.advance(&Action::Finish, failed("late")), Action::Finish);
    let given_up = Action::Abort {
        error: BuildError { kind: ErrorKind::Generation, message: "broken".to_string() },
    };
    assert_eq!(builder.advance(&given_up, Event::Completed), given_up);
    assert_eq!(builder.advance(&given_up, failed("again")), given_up);
    assert!(given_up.is_terminal());
    assert!(Action::Finish.is_terminal());
    assert!(!Action::LocateCompiler.is_terminal());
}

#[test]
fn index_is_written_below_the_output_directory() {
    let mut builder = ready();
    builder.out_dir("some/where");
    assert_eq!(
        builder.generate_mod_file(&vec!["mod.rs".to_string(), "z.rs".to_string(), "y.rs".to_string()]),
        Action::WriteIndex {
            path: "some/where/mod.rs".to_string(),
            content: "pub mod y;\npub mod z;\n".to_string(),
        }
    );
}

#[test]
fn two_runs_write_the_same_index() {
    let builder = ready();
    let listing = vec!["b.rs".to_string(), "a.rs".to_string()];
    let first = builder.generate_mod_file(&listing);
    let mut again = listing.clone();
    again.push("mod.rs".to_string());
    assert_eq!(builder.generate_mod_file(&again), first);
}

#[test]
fn discovery_then_generation_then_index() {
    let entries = vec![
        Entry { name: "a.proto".to_string(), is_dir: false },
        Entry { name: "b.proto".to_string(), is_dir: false },
        Entry { name: "readme.md".to_string(), is_dir: false },
    ];
    let mut builder = Builder::new("out");
    builder.search_dir_for_protos("input", &entries);
    let actions = course(
        &builder,
        vec![
            Event::OutDirProbed { exists: false },
            Event::Completed,
            Event::CompilerLocated { path: "protoc".to_string() },
            Event::VersionRead { major_is_three: true },
            Event::Completed,
            Event::OutputListed {
                names: vec!["a.rs".to_string(), "a_grpc.rs".to_string(), "b.rs".to_string()],
            },
            Event::Completed,
        ],
    );
    assert_eq!(
        actions[4],
        Action::Compile {
            compiler: "protoc".to_string(),
            inputs: vec!["input/a.proto".to_string(), "input/b.proto".to_string()],
            includes: vec!["protos".to_string()],
            out_dir: "out/protos".to_string(),
        }
    );
    assert_eq!(
        actions[6],
        Action::WriteIndex {
            path: "out/protos/mod.rs".to_string(),
            content: "pub mod a;\npub mod a_grpc;\npub mod b;\n".to_string(),
        }
    );
    assert_eq!(actions[7], Action::Finish);
    assert_eq!(actions.len(), 8);
}
