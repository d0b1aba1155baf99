use neomacs_core::local_socket::{
    address_error, create_windows_socket_directory, ensure_windows_ntfs,
    inspect_windows_socket_directory, prepare_server_path, prepare_socket_directory,
    sockaddr_for_path, socket_directory, socket_path_for_name, stream_supported, token_word_count,
    validate_path, validate_windows_socket_directory_handle, windows_error, windows_join,
    AccessEntry, DirectoryFacts, Platform, SocketEnvironment, SocketErrorKind, Trustee,
    WindowsProbe, ERROR_ALREADY_EXISTS, ERROR_FILE_NOT_FOUND, FILE_ATTRIBUTE_DIRECTORY,
    FILE_ATTRIBUTE_REPARSE_POINT, GENERIC_ALL, SE_DACL_PROTECTED,
};
use neomacs_core::logging::{
    default_layer, directives_are_safe, filter_directives, fresh, init, init_for_tests, layers, make_env_filter,
    open_file_warning, panic_record, resolve_env_log_file, DefaultWriter, LogSettings, LogStart,
    LogTarget, PanicSite,
};

fn environment() -> SocketEnvironment {
    SocketEnvironment {
        xdg_runtime_dir: Some("/run/user/1000".to_string()),
        tmp_dir: Some("/tmp".to_string()),
        local_app_data: None,
        override_dir: None,
        user_id: 1000,
        capacity: 108,
    }
}

fn no_probe() -> WindowsProbe {
    WindowsProbe {
        override_dir: Ok(()),
        tmp_dir: false,
        local_app_data: false,
    }
}

#[test]
fn unix_directories_have_an_order() {
    let mut env = environment();
    let probe = no_probe();
    assert_eq!(
        socket_directory(Platform::Unix, &env, &probe).unwrap(),
        "/run/user/1000/emacs"
    );
    env.xdg_runtime_dir = Some(String::new());
    assert_eq!(
        socket_directory(Platform::Unix, &env, &probe).unwrap(),
        "/tmp/emacs1000"
    );
    env.override_dir = Some("/srv/sockets".to_string());
    assert_eq!(
        prepare_socket_directory(Platform::Unix, &env, &probe).unwrap(),
        ("/srv/sockets".to_string(), false)
    );
    let other = socket_directory(Platform::Other, &env, &probe).unwrap_err();
    assert_eq!(
        other.message,
        "local sockets are unsupported on this platform"
    );
}

#[test]
fn windows_directories_are_probed() {
    let mut env = environment();
    env.tmp_dir = Some("C:\\Temp".to_string());
    env.local_app_data = Some("C:\\Data".to_string());
    let mut probe = no_probe();
    let none = socket_directory(Platform::Windows, &env, &probe).unwrap_err();
    assert_eq!(none.message, "no usable local socket directory");
    probe.local_app_data = true;
    assert_eq!(
        socket_directory(Platform::Windows, &env, &probe).unwrap(),
        "C:\\Data\\emacs\\server"
    );
    probe.tmp_dir = true;
    assert_eq!(
        prepare_socket_directory(Platform::Windows, &env, &probe).unwrap(),
        ("C:\\Temp\\emacs-server".to_string(), true)
    );
    assert_eq!(windows_join("C:\\Temp", "x"), "C:\\Temp\\x");
}

#[test]
fn names_become_paths() {
    let env = environment();
    let probe = no_probe();
    assert_eq!(
        socket_path_for_name("server", Platform::Unix, &env, &probe).unwrap(),
        "/run/user/1000/emacs/server"
    );
    assert_eq!(
        socket_path_for_name("/tmp/mine", Platform::Unix, &env, &probe).unwrap(),
        "/tmp/mine"
    );
    let nul = socket_path_for_name("a\0b", Platform::Unix, &env, &probe).unwrap_err();
    assert_eq!(nul.message, "local socket name contains NUL");
    let long = "x".repeat(200);
    let refused = socket_path_for_name(&long, Platform::Unix, &env, &probe).unwrap_err();
    assert_eq!(
        refused.message,
        "local socket path exceeds sockaddr_un path length"
    );
}

#[test]
fn paths_fit_their_addresses() {
    assert!(validate_path("/tmp/s", 7).is_ok());
    assert!(validate_path("/tmp/s", 6).is_err());
    assert_eq!(
        validate_path("/tmp/\0", 108).unwrap_err().message,
        "local socket path contains NUL"
    );
    let address = sockaddr_for_path("/tmp/s", 108).expect("an address");
    assert_eq!(
        address.as_pathname().map(|path| path.to_string_lossy().into_owned()),
        Some("/tmp/s".to_string())
    );
    let long = "x".repeat(500);
    let system = sockaddr_for_path(&long, 1000).unwrap_err();
    assert_eq!(system.kind, SocketErrorKind::InvalidInput);
    assert_eq!(
        system.message,
        "invalid sockaddr_un local socket path: path must be shorter than SUN_LEN"
    );
    assert_eq!(
        address_error("cause").message,
        "invalid sockaddr_un local socket path: cause"
    );
}

#[test]
fn a_server_directory_is_made_private_on_windows() {
    let none = None;
    assert_eq!(
        prepare_server_path(Platform::Windows, Some("C:\\s"), &none, Some("C:/s")),
        Some("C:/s".to_string())
    );
    assert_eq!(
        prepare_server_path(Platform::Windows, Some("C:\\t"), &none, Some("C:/s")),
        None
    );
    assert_eq!(
        prepare_server_path(Platform::Unix, Some("/s"), &none, Some("/s")),
        None
    );
    assert!(stream_supported(Platform::Unix, false));
    assert!(!stream_supported(Platform::Windows, false));
    assert!(!stream_supported(Platform::Other, true));
}

#[test]
fn volumes_are_ntfs() {
    let name: Vec<u16> = "ntfs\0rest".encode_utf16().collect();
    assert!(ensure_windows_ntfs(Ok(()), Ok(name)).is_ok());
    let fat: Vec<u16> = "FAT32\0".encode_utf16().collect();
    assert_eq!(
        ensure_windows_ntfs(Ok(()), Ok(fat)).unwrap_err().message,
        "local socket directory must reside on an NTFS volume"
    );
    assert_eq!(
        ensure_windows_ntfs(Err(5), Ok(vec![])).unwrap_err().message,
        "cannot determine local socket directory volume (Windows error 5)"
    );
    assert_eq!(
        windows_error("operation", 31).message,
        "operation (Windows error 31)"
    );
}

#[test]
fn directories_are_opened_and_made() {
    assert_eq!(inspect_windows_socket_directory(Ok(())).unwrap(), true);
    assert_eq!(
        inspect_windows_socket_directory(Err(ERROR_FILE_NOT_FOUND)).unwrap(),
        false
    );
    assert!(inspect_windows_socket_directory(Err(5)).is_err());
    assert_eq!(
        create_windows_socket_directory(Err(ERROR_ALREADY_EXISTS)).unwrap(),
        false
    );
    assert!(create_windows_socket_directory(Err(5)).is_err());
    assert_eq!(token_word_count(0), 0);
    assert_eq!(token_word_count(8), 1);
    assert_eq!(token_word_count(9), 2);
}

fn entry(trustee: Trustee) -> Result<AccessEntry, u32> {
    Ok(AccessEntry {
        ace_type: 0,
        ace_flags: 0,
        mask: GENERIC_ALL,
        trustee,
    })
}

fn private_directory() -> DirectoryFacts {
    DirectoryFacts {
        attributes: Ok(FILE_ATTRIBUTE_DIRECTORY),
        descriptor: Ok(true),
        control: Ok(SE_DACL_PROTECTED),
        dacl: Ok(true),
        acl_size: Ok(()),
        identities: Ok(()),
        entries: vec![entry(Trustee::CurrentUser), entry(Trustee::System)],
    }
}

fn fault(facts: &DirectoryFacts) -> String {
    validate_windows_socket_directory_handle(facts)
        .unwrap_err()
        .message
}

#[test]
fn an_accepted_directory_is_private() {
    assert!(validate_windows_socket_directory_handle(&private_directory()).is_ok());
    let mut link = private_directory();
    link.attributes = Ok(FILE_ATTRIBUTE_DIRECTORY | FILE_ATTRIBUTE_REPARSE_POINT);
    assert_eq!(
        fault(&link),
        "local socket directory must not be a reparse point"
    );
    let mut file = private_directory();
    file.attributes = Ok(0);
    assert_eq!(
        fault(&file),
        "local socket directory handle is not a directory"
    );
    let mut open = private_directory();
    open.control = Ok(0);
    assert_eq!(fault(&open), "local socket directory DACL must be protected");
    let mut bare = private_directory();
    bare.dacl = Ok(false);
    assert_eq!(fault(&bare), "local socket directory DACL is not present");
    let mut shared = private_directory();
    shared.entries.push(entry(Trustee::Other));
    assert_eq!(
        fault(&shared),
        "local socket directory DACL contains an unexpected trustee"
    );
    let mut alone = private_directory();
    alone.entries.pop();
    assert_eq!(
        fault(&alone),
        "local socket directory DACL must grant current user and SYSTEM"
    );
    let mut weak = private_directory();
    weak.entries[0] = Ok(AccessEntry {
        ace_type: 0,
        ace_flags: 0,
        mask: 1,
        trustee: Trustee::CurrentUser,
    });
    assert_eq!(
        fault(&weak),
        "local socket directory DACL ACE lacks full access"
    );
    let mut denied = private_directory();
    denied.descriptor = Err(5);
    assert_eq!(
        fault(&denied),
        "cannot read local socket directory DACL (Windows error 5)"
    );
}

fn settings(file: Option<&str>, old: Option<&str>) -> LogSettings {
    LogSettings {
        log_file: file.map(str::to_string),
        log_to_file: old.map(str::to_string),
        process_id: 42,
    }
}

#[test]
fn the_log_file_is_resolved() {
    assert_eq!(
        resolve_env_log_file(&settings(Some("a.log"), Some("1"))),
        Some("a.log".to_string())
    );
    assert_eq!(resolve_env_log_file(&settings(Some(""), Some("1"))), None);
    assert_eq!(
        resolve_env_log_file(&settings(None, Some("1"))),
        Some("neomacs-42.log".to_string())
    );
    assert_eq!(resolve_env_log_file(&settings(None, Some("yes"))), None);
    assert_eq!(resolve_env_log_file(&settings(None, None)), None);
}

#[test]
fn the_log_is_set_up_once() {
    let mut state = fresh();
    match init(&mut state, LogTarget::Stdout, &settings(None, None)) {
        LogStart::Start {
            default_layer,
            open,
        } => {
            assert_eq!(default_layer, Some(DefaultWriter::Stdout));
            assert_eq!(open, None);
        }
        LogStart::Done => panic!("the first call sets the log up"),
    }
    assert!(matches!(
        init_for_tests(&mut state, &settings(None, None)),
        LogStart::Done
    ));
    assert_eq!(default_layer(LogTarget::File), None);
    assert_eq!(
        default_layer(LogTarget::Test),
        Some(DefaultWriter::TestCapture)
    );
}

#[test]
fn a_file_that_does_not_open_is_left_out() {
    let mut state = fresh();
    let start = init(&mut state, LogTarget::File, &settings(Some("a.log"), None));
    let set = layers(start, false);
    assert!(set.default_layer.is_none() && set.file.is_none());
    let mut second = fresh();
    let start = init(&mut second, LogTarget::File, &settings(Some("a.log"), None));
    assert_eq!(layers(start, true).file, Some("a.log".to_string()));
    assert_eq!(
        open_file_warning("a.log", "denied"),
        "warning: could not open log file a.log: denied; continuing without file output"
    );
}

#[test]
fn directives_that_would_be_cut_inside_a_character_are_not_read() {
    for text in [" aé=info", "\u{3000}a=info", "info, aé=info", " é[x]"] {
        assert!(!directives_are_safe(text));
        assert_eq!(make_env_filter(Some(text)), "warn");
    }
    for text in ["", " info", "é=info", "aé=info ", " é"] {
        assert!(directives_are_safe(text));
    }
    assert_eq!(make_env_filter(Some(" é")), " é");
    assert_eq!(make_env_filter(Some("info, a=debug")), "warn");
}

#[test]
fn filters_fall_back_to_warnings() {
    assert_eq!(make_env_filter(None), "warn");
    assert_eq!(make_env_filter(Some("info,neomacs=debug")), "info,neomacs=debug");
    assert_eq!(make_env_filter(Some("neomacs=loud")), "warn");
    assert_eq!(filter_directives(Some("info"), false), "warn");
    assert_eq!(make_env_filter(Some("")), "");
    assert_eq!(make_env_filter(Some("[span{field=1}]=info")), "[span{field=1}]=info");
    assert_eq!(make_env_filter(Some("aé=info")), "aé=info");
    assert_eq!(filter_directives(Some("info"), true), "info");
}

#[test]
fn a_panic_is_recorded() {
    let site = Some(PanicSite {
        file: "main.rs".to_string(),
        line: 3,
        column: 9,
    });
    assert_eq!(
        panic_record(&site, Some("boom"), "trace"),
        "=== PANIC ===\nAT: main.rs:3:9\nPAYLOAD: boom\nBACKTRACE:\ntrace\n\n"
    );
    assert_eq!(
        panic_record(&None, None, ""),
        "=== PANIC ===\nAT: <unknown>\nPAYLOAD: <non-string payload>\nBACKTRACE:\n\n\n"
    );
}
