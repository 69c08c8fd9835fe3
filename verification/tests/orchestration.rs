//! Tests of the job bus, the install manager, the key dispatch and the
//! message folding.

use ratcrate::bridge::{execution_result, execution_status, RunOutcome};
use ratcrate::bus::{disconnect_reason, JobSlots};
use ratcrate::install::{
    begin_install, bin_dir_path, install_conclusion, install_outcome, install_prelude, join_path,
    resolve_binary, tool_home_path, SandboxSet,
};
use ratcrate::state::{App, KeyInput, Mode, Pane};
use ratcrate::types::{
    AppError, BusMessage, ChannelPoll, CratePackage, CratesData, FsEntry, JobCategory, Metadata,
    ProgressMessage, RatatuiDependency, SandboxInstallation, Statistics,
};

fn pkg(name: &str, description: &str, downloads: u64, recent: u64, core: bool) -> CratePackage {
    CratePackage {
        id: name.to_string(),
        name: name.to_string(),
        description: description.to_string(),
        version: "0.1.0".to_string(),
        created_at: format!("2024-01-0{}", (downloads % 9) + 1),
        updated_at: "2024-06-01".to_string(),
        downloads,
        recent_downloads: recent,
        categories: None,
        repository: None,
        homepage: None,
        documentation: None,
        ratatui_dependency: RatatuiDependency {
            version: "0.29".to_string(),
            optional: false,
            dev_dependency: false,
        },
        is_core_library: core,
        retracted: None,
    }
}

fn sample_data() -> CratesData {
    CratesData {
        metadata: Metadata {
            version: "1".to_string(),
            generated_at: "2024-06-01".to_string(),
            total_crates: 3,
            core_libraries: 1,
            community_packages: 2,
            data_sources: vec!["registry".to_string()],
            statistics: Statistics { etag_cache_hits: 0, etag_cache_misses: 0 },
        },
        crates: vec![
            pkg("ratatui", "terminal ui library", 5000, 500, true),
            pkg("tui-input", "input widget", 800, 80, false),
            pkg("ratcrate", "ecosystem explorer TUI", 120, 60, false),
        ],
    }
}

#[test]
fn fetch_slot_admits_one_job() {
    let mut slots = JobSlots::new();
    assert!(slots.acquire(JobCategory::FetchPrimary).is_ok());
    assert_eq!(slots.acquire(JobCategory::FetchPrimary), Err(AppError::Busy));
    assert_eq!(slots.acquire(JobCategory::FetchPrimary), Err(AppError::Busy));
    // the other categories are independent
    assert!(slots.acquire(JobCategory::FetchSecondary).is_ok());
    assert!(slots.acquire(JobCategory::Install).is_ok());
}

#[test]
fn drain_frees_slot_only_on_terminal_message() {
    let mut slots = JobSlots::new();
    assert!(slots.acquire(JobCategory::Install).is_ok());
    // nothing waiting: slot stays occupied
    assert_eq!(slots.drain(JobCategory::Install, ChannelPoll::Empty), None);
    assert_eq!(slots.acquire(JobCategory::Install), Err(AppError::Busy));
    // a progress message is not terminal
    let m = BusMessage::Install(ProgressMessage::Downloading(10));
    assert_eq!(slots.drain(JobCategory::Install, ChannelPoll::Received(m.clone())), Some(m));
    assert_eq!(slots.acquire(JobCategory::Install), Err(AppError::Busy));
    // a terminal message frees the slot
    let t = BusMessage::Install(ProgressMessage::Finished);
    assert_eq!(slots.drain(JobCategory::Install, ChannelPoll::Received(t.clone())), Some(t));
    assert!(slots.acquire(JobCategory::Install).is_ok());
}

#[test]
fn drain_synthesizes_error_on_disconnect() {
    let mut slots = JobSlots::new();
    assert!(slots.acquire(JobCategory::FetchPrimary).is_ok());
    let drained = slots.drain(JobCategory::FetchPrimary, ChannelPoll::Disconnected);
    assert_eq!(drained, Some(BusMessage::FetchFailed("job ended unexpectedly".to_string())));
    assert!(slots.acquire(JobCategory::FetchPrimary).is_ok());

    assert!(slots.acquire(JobCategory::Install).is_ok());
    let drained = slots.drain(JobCategory::Install, ChannelPoll::Disconnected);
    assert_eq!(
        drained,
        Some(BusMessage::Install(ProgressMessage::Error("job ended unexpectedly".to_string())))
    );
    assert_eq!(disconnect_reason(), "job ended unexpectedly");
}

#[test]
fn install_rejected_for_recorded_identity() {
    let mut slots = JobSlots::new();
    let mut sandboxes = SandboxSet::new();
    sandboxes.insert(SandboxInstallation {
        identity: "ratatui".to_string(),
        root: "/tmp/sandbox-1".to_string(),
        tool_home: "/tmp/sandbox-1/tool_home".to_string(),
        binary_path: "/tmp/sandbox-1/tool_home/bin/ratatui".to_string(),
    });
    let r = begin_install(&mut slots, &sandboxes, &"ratatui".to_string());
    assert_eq!(r, Err(AppError::AlreadyInstalled));
    // nothing was spawned: the slot is still free for another identity
    assert!(begin_install(&mut slots, &sandboxes, &"tui-input".to_string()).is_ok());
}

#[test]
fn duplicate_install_request_rejected_while_in_flight() {
    let mut slots = JobSlots::new();
    let sandboxes = SandboxSet::new();
    let first = begin_install(&mut slots, &sandboxes, &"ratatui".to_string());
    assert!(first.is_ok());
    // second request in immediate succession, first still in flight
    let second = begin_install(&mut slots, &sandboxes, &"ratatui".to_string());
    assert_eq!(second, Err(AppError::Busy));
}

#[test]
fn successful_install_trace_is_well_formed() {
    let identity = "ratatui".to_string();
    let root = "/tmp/sandbox-7".to_string();
    let entries = vec![FsEntry { name: "ratatui".to_string(), is_file: true }];
    let mut msgs = install_prelude();
    let tail = install_conclusion(&identity, &root, true, String::new(), &entries);
    msgs.extend(tail);
    assert_eq!(msgs.len(), 6);
    assert_eq!(msgs[0], ProgressMessage::Starting);
    assert_eq!(msgs[1], ProgressMessage::Downloading(10));
    assert_eq!(msgs[2], ProgressMessage::Downloading(100));
    assert_eq!(msgs[3], ProgressMessage::Compiling(75));
    assert_eq!(msgs[4], ProgressMessage::Compiling(100));
    match &msgs[5] {
        ProgressMessage::SandboxReady(inst) => {
            assert_eq!(inst.identity, "ratatui");
            assert_eq!(inst.root, "/tmp/sandbox-7");
            assert_eq!(inst.tool_home, "/tmp/sandbox-7/tool_home");
            assert_eq!(inst.binary_path, "/tmp/sandbox-7/tool_home/bin/ratatui");
        }
        other => panic!("expected SandboxReady, got {:?}", other),
    }
    // exactly one Starting and one terminal message
    let starts = msgs.iter().filter(|m| matches!(m, ProgressMessage::Starting)).count();
    assert_eq!(starts, 1);
    let terminals = msgs.iter().filter(|m| m.is_terminal()).count();
    assert_eq!(terminals, 1);
}

#[test]
fn failed_install_yields_one_error_and_no_sandbox() {
    let identity = "ratatui".to_string();
    let root = "/tmp/sandbox-8".to_string();
    let entries: Vec<FsEntry> = vec![];
    let mut msgs = install_prelude();
    let tail = install_conclusion(&identity, &root, false, "permission denied".to_string(), &entries);
    msgs.extend(tail);
    assert_eq!(msgs.len(), 3);
    assert_eq!(msgs[2], ProgressMessage::Error("permission denied".to_string()));
    let errors = msgs.iter().filter(|m| matches!(m, ProgressMessage::Error(_))).count();
    assert_eq!(errors, 1);
    assert!(msgs.iter().all(|m| !matches!(m, ProgressMessage::SandboxReady(_))));
    // folding the whole trace into the state adds no sandbox entry
    let mut app = App::new(sample_data());
    for m in msgs {
        app.apply_bus_message(BusMessage::Install(m));
    }
    assert_eq!(app.sandboxes.entries.len(), 0);
    assert!(app.status_message.contains("permission denied"));
}

#[test]
fn missing_binary_reports_no_binary_found() {
    let identity = "ratatui".to_string();
    let root = "/tmp/sandbox-9".to_string();
    let entries: Vec<FsEntry> = vec![FsEntry { name: "notes.txt".to_string(), is_file: false }];
    let msgs = install_conclusion(&identity, &root, true, String::new(), &entries);
    assert_eq!(msgs.len(), 4);
    assert_eq!(msgs[3], ProgressMessage::Error("no binary found".to_string()));
}

#[test]
fn single_file_resolves_even_under_another_name() {
    let identity = "ratatui".to_string();
    let bin_dir = bin_dir_path(&"/tmp/sandbox-5".to_string());
    assert_eq!(bin_dir, "/tmp/sandbox-5/tool_home/bin");
    let entries = vec![FsEntry { name: "rat-demo".to_string(), is_file: true }];
    let resolved = resolve_binary(&identity, &bin_dir, &entries);
    assert_eq!(resolved, Some("/tmp/sandbox-5/tool_home/bin/rat-demo".to_string()));
}

#[test]
fn conventional_path_resolves_first() {
    let identity = "ratatui".to_string();
    let bin_dir = "/x/bin".to_string();
    let entries = vec![
        FsEntry { name: "zzz".to_string(), is_file: true },
        FsEntry { name: "ratatui".to_string(), is_file: true },
    ];
    let resolved = resolve_binary(&identity, &bin_dir, &entries);
    assert_eq!(resolved, Some("/x/bin/ratatui".to_string()));
    let none: Vec<FsEntry> = vec![];
    assert_eq!(resolve_binary(&identity, &bin_dir, &none), None);
}

#[test]
fn sandbox_paths_derive_from_root() {
    assert_eq!(tool_home_path(&"/r".to_string()), "/r/tool_home");
    assert_eq!(join_path(&"/r/d".to_string(), "f"), "/r/d/f");
}

#[test]
fn new_app_state_and_status_line() {
    let app = App::new(sample_data());
    assert_eq!(app.all_crates.len(), 3);
    assert_eq!(app.filtered, vec![0, 1, 2]);
    assert_eq!(app.selected, Some(0));
    assert_eq!(app.mode, Mode::Normal);
    assert_eq!(app.view, Pane::List);
    assert_eq!(
        app.status_message,
        "3 crates | 1 core | 2 community | Press TAB for stats, ? for help, : for commands"
    );
    let sel = app.selected_crate().expect("first record selected");
    assert_eq!(sel.name, "ratatui");
}

#[test]
fn navigation_wraps_and_pages() {
    let mut app = App::new(sample_data());
    app.next();
    assert_eq!(app.selected, Some(1));
    app.next();
    app.next();
    assert_eq!(app.selected, Some(0));
    app.previous();
    assert_eq!(app.selected, Some(2));
    app.next_page();
    assert_eq!(app.selected, Some(2));
    app.previous_page();
    assert_eq!(app.selected, Some(0));
}

#[test]
fn command_core_filters_and_resets() {
    let mut app = App::new(sample_data());
    app.command_input = "core".to_string();
    app.mode = Mode::Command;
    app.execute_command();
    assert_eq!(app.filtered, vec![0]);
    assert_eq!(app.selected, Some(0));
    assert_eq!(app.status_message, "Showing 1 core libraries");
    assert_eq!(app.command_input, "");
    assert_eq!(app.mode, Mode::Normal);
}

#[test]
fn command_top_orders_by_downloads() {
    let mut app = App::new(sample_data());
    app.command_input = "top 2".to_string();
    app.execute_command();
    assert_eq!(app.filtered, vec![0, 1]);
    assert_eq!(app.status_message, "Showing top 2 by downloads");

    app.command_input = "recent 10".to_string();
    app.execute_command();
    assert_eq!(app.filtered, vec![0, 1, 2]);
    assert_eq!(app.status_message, "Showing top 10 by weekly downloads");
}

#[test]
fn command_search_is_case_insensitive() {
    let mut app = App::new(sample_data());
    app.command_input = "search TUI".to_string();
    app.execute_command();
    // lowercased query matches name or description of all three records
    assert_eq!(app.filtered, vec![0, 1, 2]);
    assert_eq!(app.last_search, "tui");
    assert_eq!(app.status_message, "Found 3 crates matching 'tui'");

    app.command_input = "search Explorer".to_string();
    app.execute_command();
    assert_eq!(app.filtered, vec![2]);
}

#[test]
fn unknown_command_searches_verbatim() {
    let mut app = App::new(sample_data());
    app.command_input = "  Input Widget ".to_string();
    app.execute_command();
    assert_eq!(app.filtered, vec![1]);
    assert_eq!(app.last_search, "input widget");
    assert_eq!(app.status_message, "Found 1 crates matching 'input widget'");
}

#[test]
fn empty_command_only_leaves_command_mode() {
    let mut app = App::new(sample_data());
    app.mode = Mode::Command;
    app.command_input = "   ".to_string();
    app.execute_command();
    assert_eq!(app.mode, Mode::Normal);
    assert_eq!(app.command_input, "   ");
    assert_eq!(app.filtered, vec![0, 1, 2]);
}

#[test]
fn keys_drive_modes_and_commands() {
    let mut app = App::new(sample_data());
    assert!(!app.handle_key(KeyInput::Char('j')));
    assert_eq!(app.selected, Some(1));
    assert!(!app.handle_key(KeyInput::Char('g')));
    assert_eq!(app.selected, Some(0));
    assert!(!app.handle_key(KeyInput::Char('G')));
    assert_eq!(app.selected, Some(2));
    assert!(!app.handle_key(KeyInput::Tab));
    assert_eq!(app.view, Pane::Stats);
    assert!(!app.handle_key(KeyInput::Char('?')));
    assert_eq!(app.view, Pane::Help);
    // enter command mode and type a command
    assert!(!app.handle_key(KeyInput::Char(':')));
    assert_eq!(app.mode, Mode::Command);
    for c in "core".chars() {
        assert!(!app.handle_key(KeyInput::Char(c)));
    }
    assert_eq!(app.command_input, "core");
    assert!(!app.handle_key(KeyInput::Backspace));
    assert_eq!(app.command_input, "cor");
    assert!(!app.handle_key(KeyInput::Char('e')));
    assert!(!app.handle_key(KeyInput::Enter));
    assert_eq!(app.mode, Mode::Normal);
    assert_eq!(app.filtered, vec![0]);
    // quit from normal mode, and via a typed quit
    assert!(app.handle_key(KeyInput::Char('q')));
    assert!(!app.handle_key(KeyInput::Char(':')));
    assert!(!app.handle_key(KeyInput::Char('q')));
    assert!(app.handle_key(KeyInput::Enter));
}

#[test]
fn slash_prefills_search() {
    let mut app = App::new(sample_data());
    assert!(!app.handle_key(KeyInput::Char('/')));
    assert_eq!(app.mode, Mode::Command);
    assert_eq!(app.command_input, "search ");
    assert!(!app.handle_key(KeyInput::Esc));
    assert_eq!(app.mode, Mode::Normal);
    assert_eq!(app.command_input, "");
}

#[test]
fn messages_fold_into_state() {
    let mut app = App::new(sample_data());
    // a fresh primary snapshot fully replaces the list
    let fresh = vec![pkg("new-one", "fresh", 9, 9, false)];
    app.apply_bus_message(BusMessage::PrimarySnapshot(fresh));
    assert_eq!(app.all_crates.len(), 1);
    assert_eq!(app.filtered, vec![0]);
    assert_eq!(app.selected, Some(0));
    assert_eq!(app.status_message, "Loaded 1 crates");
    // a fetch failure becomes the status line
    app.apply_bus_message(BusMessage::FetchFailed("boom".to_string()));
    assert_eq!(app.status_message, "boom");
    // a ready sandbox is recorded once
    let inst = SandboxInstallation {
        identity: "new-one".to_string(),
        root: "/tmp/s".to_string(),
        tool_home: "/tmp/s/tool_home".to_string(),
        binary_path: "/tmp/s/tool_home/bin/new-one".to_string(),
    };
    app.apply_bus_message(BusMessage::Install(ProgressMessage::SandboxReady(inst.clone())));
    assert_eq!(app.sandboxes.entries.len(), 1);
    assert_eq!(app.status_message, "Installed new-one");
    app.apply_bus_message(BusMessage::Install(ProgressMessage::SandboxReady(inst)));
    assert_eq!(app.sandboxes.entries.len(), 1);
    // the second request for that identity is now rejected synchronously
    let r = app.request_install(&"new-one".to_string());
    assert_eq!(r, Err(AppError::AlreadyInstalled));
}

#[test]
fn fetch_requests_via_state_are_guarded() {
    let mut app = App::new(sample_data());
    assert!(app.request_fetch(JobCategory::FetchPrimary).is_ok());
    assert_eq!(app.request_fetch(JobCategory::FetchPrimary), Err(AppError::Busy));
    assert!(app.request_fetch(JobCategory::FetchSecondary).is_ok());
}

#[test]
fn install_messages_classify_into_the_taxonomy() {
    let ok = install_outcome(&ProgressMessage::Finished);
    assert!(ok.is_ok());
    let err = install_outcome(&ProgressMessage::Error("permission denied".to_string()));
    assert_eq!(err, Err(AppError::InstallFailure("permission denied".to_string())));
}

#[test]
fn execution_outcomes_become_status_text() {
    let s = execution_status(&RunOutcome::FailedToStart("no such file".to_string()));
    assert_eq!(s, "Failed to run binary: no such file");
    assert_eq!(execution_status(&RunOutcome::Exited(true)), "Process exited successfully");
    assert_eq!(
        execution_status(&RunOutcome::Exited(false)),
        "Process exited with a failure status"
    );
    assert!(execution_result(&RunOutcome::Exited(true)).is_ok());
    match execution_result(&RunOutcome::Exited(false)) {
        Err(AppError::ExecutionFailure(t)) => {
            assert_eq!(t, "Process exited with a failure status")
        }
        other => panic!("expected an execution failure, got {:?}", other),
    }
}
