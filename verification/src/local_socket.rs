//! Local stream sockets: where their files stand, which paths they may have, and
//! which directories are private enough for them.
use vstd::prelude::*;
use vstd::string::{StringExecFns, StringSliceAdditionalSpecFns};

use crate::build_options;
use crate::paths;
use crate::text;

verus! {

/// What kind of failure an error stands for.
#[derive(Debug, Clone, Copy, PartialEq, Eq, Structural)]
pub enum SocketErrorKind {
    InvalidInput,
    PermissionDenied,
}

/// Why a socket path or directory cannot be used.
#[derive(Debug)]
pub struct SocketError {
    pub kind: SocketErrorKind,
    pub message: String,
}

/// The error says that a path is unfit, in these words.
pub open spec fn is_invalid(e: SocketError, message: Seq<char>) -> bool {
    e.kind == SocketErrorKind::InvalidInput && e.message@ == message
}

/// The error says that a system call failed with a code.
pub open spec fn is_windows_error(e: SocketError, operation: Seq<char>, code: u32) -> bool {
    e.kind == SocketErrorKind::PermissionDenied && e.message@ == operation + " (Windows error "@
        + text::decimal(code as nat) + ")"@
}

pub fn invalid_path(message: &str) -> (r: SocketError)
    ensures
        is_invalid(r, message@),
{
    SocketError { kind: SocketErrorKind::InvalidInput, message: text::copy(message) }
}

pub fn windows_error(operation: &str, code: u32) -> (r: SocketError)
    ensures
        is_windows_error(r, operation@, code),
{
    let mut message: String = text::copy(operation);
    message.append(" (Windows error ");
    message.append(text::decimal_text(code as u64).as_str());
    message.append(")");
    SocketError { kind: SocketErrorKind::PermissionDenied, message: message }
}

/// The system that the sockets are for.
#[derive(Debug, Clone, Copy, PartialEq, Eq, Structural)]
pub enum Platform {
    Unix,
    Windows,
    Other,
}

/// Whether the system has local stream sockets. On Windows that is whether one could
/// be made, which `made` says.
pub fn stream_supported(platform: Platform, made: bool) -> (r: bool)
    ensures
        r == match platform {
            Platform::Unix => true,
            Platform::Windows => made,
            Platform::Other => false,
        },
{
    match platform {
        Platform::Unix => true,
        Platform::Windows => made,
        Platform::Other => false,
    }
}

/// What the process was started with, as far as sockets go. `capacity` is the room
/// that an address has for a path and the zero byte behind it.
#[derive(Debug)]
pub struct SocketEnvironment {
    pub xdg_runtime_dir: Option<String>,
    pub tmp_dir: Option<String>,
    pub local_app_data: Option<String>,
    pub override_dir: Option<String>,
    pub user_id: u32,
    pub capacity: usize,
}

/// What was found of a directory on Windows: fit to be used, or why not.
#[derive(Debug)]
pub struct WindowsProbe {
    pub override_dir: Result<(), SocketError>,
    pub tmp_dir: bool,
    pub local_app_data: bool,
}

pub open spec fn has_nul(s: Seq<char>) -> bool {
    exists|i: int| 0 <= i < s.len() && #[trigger] s[i] == '\0'
}

fn contains_nul(s: &str) -> (r: bool)
    ensures
        r == has_nul(s@),
{
    has_char(s, '\0')
}

pub open spec fn has(s: Seq<char>, c: char) -> bool {
    exists|i: int| 0 <= i < s.len() && #[trigger] s[i] == c
}

fn has_char(s: &str, c: char) -> (r: bool)
    ensures
        r == has(s@, c),
{
    let chars: Vec<char> = text::chars_of(s);
    let i: usize = text::char_index(chars.as_slice(), c);
    i < chars.len()
}

/// A path that an address can hold: no zero byte, and room for one behind it.
pub open spec fn fits(path: &str, capacity: usize) -> bool {
    !has_nul(path@) && path.spec_bytes().len() + 1 <= capacity
}

/// Checks that an address can hold `path`.
pub fn validate_path(path: &str, capacity: usize) -> (r: Result<(), SocketError>)
    ensures
        if has_nul(path@) {
            r matches Err(e) && is_invalid(e, "local socket path contains NUL"@)
        } else if !fits(path, capacity) {
            r matches Err(e) && is_invalid(
                e,
                "local socket path exceeds sockaddr_un path length"@,
            )
        } else {
            r is Ok
        },
{
    if contains_nul(path) {
        return Err(invalid_path("local socket path contains NUL"));
    }
    let bytes: &[u8] = path.as_bytes();
    if bytes.len() >= capacity {
        return Err(invalid_path("local socket path exceeds sockaddr_un path length"));
    }
    Ok(())
}

/// The text of a setting that is not empty.
pub open spec fn setting(s: Option<String>) -> Option<Seq<char>> {
    match s {
        Some(t) => if t@.len() > 0 {
            Some(t@)
        } else {
            None
        },
        None => None,
    }
}

fn nonempty(s: &Option<String>) -> (r: Option<&str>)
    ensures
        match r {
            Some(t) => setting(*s) == Some(t@),
            None => setting(*s) is None,
        },
{
    match s {
        Some(t) => if t.as_str().is_empty() {
            None
        } else {
            Some(t.as_str())
        },
        None => None,
    }
}

/// The directory for sockets: what was asked for, else one in the user's runtime
/// directory, else one in the directory for temporary files that bears the user's
/// number.
pub open spec fn unix_directory(env: SocketEnvironment) -> Option<Seq<char>> {
    match (setting(env.override_dir), setting(env.xdg_runtime_dir), setting(env.tmp_dir)) {
        (Some(d), _, _) => Some(d),
        (None, Some(x), _) => Some(paths::joined_path(x, "emacs"@)),
        (None, None, Some(t)) => Some(
            paths::joined_path(t, "emacs"@ + text::decimal(env.user_id as nat)),
        ),
        (None, None, None) => None,
    }
}

fn unix_socket_directory(env: &SocketEnvironment) -> (r: Result<String, SocketError>)
    ensures
        match unix_directory(*env) {
            Some(d) => r matches Ok(s) && s@ == d,
            None => r matches Err(e) && is_invalid(e, "no usable local socket directory"@),
        },
{
    match nonempty(&env.override_dir) {
        Some(d) => {
            return Ok(text::copy(d));
        },
        None => {},
    }
    match nonempty(&env.xdg_runtime_dir) {
        Some(x) => {
            return Ok(paths::join(x, "emacs"));
        },
        None => {},
    }
    match nonempty(&env.tmp_dir) {
        Some(t) => {
            let name: String = text::concat(
                "emacs",
                text::decimal_text(env.user_id as u64).as_str(),
            );
            Ok(paths::join(t, name.as_str()))
        },
        None => Err(invalid_path("no usable local socket directory")),
    }
}

pub open spec fn is_drive(s: Seq<char>) -> bool {
    s.len() >= 2 && s[1] == ':' && ('a' <= s[0] <= 'z' || 'A' <= s[0] <= 'Z')
}

/// `rel` seen from `base` on Windows: a name with a drive stands for itself, and a
/// drive needs no separator behind it.
pub open spec fn windows_joined(base: Seq<char>, rel: Seq<char>) -> Seq<char> {
    if is_drive(rel) {
        rel
    } else if base.len() == 0 || base.last() == '\\' || base.last() == '/' || (is_drive(base)
        && base.len() == 2) {
        base + rel
    } else {
        base.push('\\') + rel
    }
}

fn starts_with_drive(s: &[char]) -> (r: bool)
    ensures
        r == is_drive(s@),
{
    s.len() >= 2 && s[1] == ':' && (('a' <= s[0] && s[0] <= 'z') || ('A' <= s[0] && s[0] <= 'Z'))
}

pub fn windows_join(base: &str, rel: &str) -> (r: String)
    ensures
        r@ == windows_joined(base@, rel@),
{
    let b: Vec<char> = text::chars_of(base);
    let n: Vec<char> = text::chars_of(rel);
    if starts_with_drive(n.as_slice()) {
        return text::copy(rel);
    }
    let mut out: String = text::copy(base);
    let bare: bool = b.len() == 0 || b[b.len() - 1] == '\\' || b[b.len() - 1] == '/' || (
    starts_with_drive(b.as_slice()) && b.len() == 2);
    if !bare {
        out.push('\\');
    }
    out.append(rel);
    out
}

/// The directory under the one for temporary files.
pub open spec fn windows_tmp(env: SocketEnvironment) -> Option<Seq<char>> {
    match setting(env.tmp_dir) {
        Some(t) => Some(windows_joined(t, "emacs-server"@)),
        None => None,
    }
}

/// The directory under the user's application data.
pub open spec fn windows_local(env: SocketEnvironment) -> Option<Seq<char>> {
    match setting(env.local_app_data) {
        Some(l) => Some(windows_joined(windows_joined(l, "emacs"@), "server"@)),
        None => None,
    }
}

/// How many bytes a text takes.
pub open spec fn byte_len(s: Seq<char>) -> nat {
    vstd::utf8::encode_utf8(s).len()
}

pub open spec fn text_fits(s: Seq<char>, capacity: usize) -> bool {
    !has_nul(s) && byte_len(s) + 1 <= capacity
}

/// A candidate that an address can hold and that was found fit.
pub open spec fn usable(c: Option<Seq<char>>, found: bool, capacity: usize) -> Option<Seq<char>> {
    match c {
        Some(d) => if found && text_fits(d, capacity) {
            Some(d)
        } else {
            None
        },
        None => None,
    }
}

/// The shorter of the candidates, the first of two that are as long.
pub open spec fn windows_choice(env: SocketEnvironment, probe: WindowsProbe) -> Option<Seq<char>> {
    match (
        usable(windows_tmp(env), probe.tmp_dir, env.capacity),
        usable(windows_local(env), probe.local_app_data, env.capacity),
    ) {
        (Some(a), Some(b)) => if byte_len(b) < byte_len(a) {
            Some(b)
        } else {
            Some(a)
        },
        (Some(a), None) => Some(a),
        (None, Some(b)) => Some(b),
        (None, None) => None,
    }
}

fn usable_candidate(c: Option<String>, found: bool, capacity: usize) -> (r: Option<String>)
    ensures
        ({
            let m = match c {
                Some(s) => Some(s@),
                None => None,
            };
            match r {
                Some(d) => usable(m, found, capacity) == Some(d@),
                None => usable(m, found, capacity) is None,
            }
        }),
{
    match c {
        Some(d) => if found && validate_path(d.as_str(), capacity).is_ok() {
            Some(d)
        } else {
            None
        },
        None => None,
    }
}

fn windows_socket_directory(env: &SocketEnvironment, probe: &WindowsProbe) -> (r: Result<
    String,
    SocketError,
>)
    ensures
        match setting(env.override_dir) {
            Some(d) => if has_nul(d) {
                r matches Err(e) && is_invalid(e, "local socket path contains NUL"@)
            } else if !text_fits(d, env.capacity) {
                r matches Err(e) && is_invalid(
                    e,
                    "local socket path exceeds sockaddr_un path length"@,
                )
            } else {
                match probe.override_dir {
                    Ok(()) => r matches Ok(s) && s@ == d,
                    Err(p) => r matches Err(e) && e.kind == p.kind && e.message@ == p.message@,
                }
            },
            None => match windows_choice(*env, *probe) {
                Some(d) => r matches Ok(s) && s@ == d,
                None => r matches Err(e) && is_invalid(e, "no usable local socket directory"@),
            },
        },
{
    match nonempty(&env.override_dir) {
        Some(d) => {
            match validate_path(d, env.capacity) {
                Ok(()) => {},
                Err(e) => {
                    return Err(e);
                },
            }
            return match &probe.override_dir {
                Ok(()) => Ok(text::copy(d)),
                Err(p) => Err(
                    SocketError { kind: p.kind, message: text::copy(p.message.as_str()) },
                ),
            };
        },
        None => {},
    }
    let tmp: Option<String> = match nonempty(&env.tmp_dir) {
        Some(t) => Some(windows_join(t, "emacs-server")),
        None => None,
    };
    let local: Option<String> = match nonempty(&env.local_app_data) {
        Some(l) => Some(windows_join(windows_join(l, "emacs").as_str(), "server")),
        None => None,
    };
    let first: Option<String> = usable_candidate(tmp, probe.tmp_dir, env.capacity);
    let second: Option<String> = usable_candidate(local, probe.local_app_data, env.capacity);
    match (first, second) {
        (Some(a), Some(b)) => {
            let x: &[u8] = a.as_str().as_bytes();
            let y: &[u8] = b.as_str().as_bytes();
            if y.len() < x.len() {
                Ok(b)
            } else {
                Ok(a)
            }
        },
        (Some(a), None) => Ok(a),
        (None, Some(b)) => Ok(b),
        (None, None) => Err(invalid_path("no usable local socket directory")),
    }
}

/// What the directory for sockets is, by the rules of the system.
pub open spec fn is_directory(
    r: Result<String, SocketError>,
    platform: Platform,
    env: SocketEnvironment,
    probe: WindowsProbe,
) -> bool {
    match platform {
        Platform::Unix => match unix_directory(env) {
            Some(d) => r matches Ok(s) && s@ == d,
            None => r matches Err(e) && is_invalid(e, "no usable local socket directory"@),
        },
        Platform::Windows => match setting(env.override_dir) {
            Some(d) => if has_nul(d) {
                r matches Err(e) && is_invalid(e, "local socket path contains NUL"@)
            } else if !text_fits(d, env.capacity) {
                r matches Err(e) && is_invalid(
                    e,
                    "local socket path exceeds sockaddr_un path length"@,
                )
            } else {
                match probe.override_dir {
                    Ok(()) => r matches Ok(s) && s@ == d,
                    Err(p) => r matches Err(e) && e.kind == p.kind && e.message@ == p.message@,
                }
            },
            None => match windows_choice(env, probe) {
                Some(d) => r matches Ok(s) && s@ == d,
                None => r matches Err(e) && is_invalid(e, "no usable local socket directory"@),
            },
        },
        Platform::Other => r matches Err(e) && is_invalid(
            e,
            "local sockets are unsupported on this platform"@,
        ),
    }
}

/// The directory for a local server's socket.
pub fn socket_directory(platform: Platform, env: &SocketEnvironment, probe: &WindowsProbe) -> (r:
    Result<String, SocketError>)
    ensures
        is_directory(r, platform, *env, *probe),
{
    match platform {
        Platform::Unix => unix_socket_directory(env),
        Platform::Windows => windows_socket_directory(env, probe),
        Platform::Other => Err(invalid_path("local sockets are unsupported on this platform")),
    }
}

/// The directory for a local server's socket, and whether it has to be made private
/// before it is used.
pub fn prepare_socket_directory(
    platform: Platform,
    env: &SocketEnvironment,
    probe: &WindowsProbe,
) -> (r: Result<(String, bool), SocketError>)
    ensures
        match r {
            Ok((d, private)) => is_directory(Ok(d), platform, *env, *probe) && private == (platform
                == Platform::Windows),
            Err(e) => is_directory(Err(e), platform, *env, *probe),
        },
{
    match socket_directory(platform, env, probe) {
        Ok(d) => Ok((d, platform == Platform::Windows)),
        Err(e) => Err(e),
    }
}

/// A path in which backslashes separate, as one in which slashes do.
pub open spec fn with_slashes(s: Seq<char>) -> Seq<char> {
    text::with_char_replaced(s, '\\', '/')
}

/// The same directory on Windows.
pub open spec fn same_directory(a: Seq<char>, b: Seq<char>) -> bool {
    paths::same_name(paths::Collation::Path, with_slashes(a), with_slashes(b))
}

fn is_same_directory(a: &str, b: &str) -> (r: bool)
    ensures
        r == same_directory(a@, b@),
{
    let x: Vec<char> = text::chars_of(a);
    let y: Vec<char> = text::chars_of(b);
    let p: String = text::string_of(text::replace_char(x.as_slice(), '\\', '/').as_slice());
    let q: String = text::string_of(text::replace_char(y.as_slice(), '\\', '/').as_slice());
    paths::same_path(p.as_str(), q.as_str())
}

/// The directory to make private before a socket in `parent` is bound: the directory
/// for sockets, if that is where the socket goes. `directory` is that directory,
/// where there is one; it counts only where none was asked for.
pub fn prepare_server_path(
    platform: Platform,
    parent: Option<&str>,
    override_dir: &Option<String>,
    directory: Option<&str>,
) -> (r: Option<String>)
    ensures
        ({
            let chosen = match setting(*override_dir) {
                Some(d) => Some(d),
                None => build_options::opt_text(directory),
            };
            match (platform, parent, chosen) {
                (Platform::Windows, Some(p), Some(d)) => if same_directory(p@, d) {
                    r matches Some(s) && s@ == d
                } else {
                    r is None
                },
                _ => r is None,
            }
        }),
{
    match platform {
        Platform::Windows => {},
        _ => {
            return None;
        },
    }
    let chosen: Option<&str> = match nonempty(override_dir) {
        Some(d) => Some(d),
        None => directory,
    };
    match (parent, chosen) {
        (Some(p), Some(d)) => if is_same_directory(p, d) {
            Some(text::copy(d))
        } else {
            None
        },
        _ => None,
    }
}

/// A name that is a path already.
pub open spec fn names_path(name: Seq<char>) -> bool {
    has(name, '/') || has(name, '\\')
}

/// The file name for a socket in a directory.
pub open spec fn in_directory(platform: Platform, dir: Seq<char>, name: Seq<char>) -> Seq<char> {
    if platform == Platform::Windows {
        windows_joined(dir, name)
    } else {
        paths::joined_path(dir, name)
    }
}

/// The outcome of checking `path`.
pub open spec fn checked_path(r: Result<String, SocketError>, path: Seq<char>, capacity: usize) -> bool {
    if has_nul(path) {
        r matches Err(e) && is_invalid(e, "local socket path contains NUL"@)
    } else if !text_fits(path, capacity) {
        r matches Err(e) && is_invalid(e, "local socket path exceeds sockaddr_un path length"@)
    } else {
        r matches Ok(s) && s@ == path
    }
}

fn check_path(path: String, capacity: usize) -> (r: Result<String, SocketError>)
    ensures
        checked_path(r, path@, capacity),
{
    match validate_path(path.as_str(), capacity) {
        Ok(()) => Ok(path),
        Err(e) => Err(e),
    }
}

/// The path of the socket `name`: the name itself where it is a path, else a file in
/// the directory for sockets.
pub fn socket_path_for_name(
    name: &str,
    platform: Platform,
    env: &SocketEnvironment,
    probe: &WindowsProbe,
) -> (r: Result<String, SocketError>)
    ensures
        if has_nul(name@) {
            r matches Err(e) && is_invalid(e, "local socket name contains NUL"@)
        } else if names_path(name@) {
            checked_path(r, name@, env.capacity)
        } else {
            exists|d: Result<String, SocketError>| #[trigger]
                is_directory(d, platform, *env, *probe) && match d {
                    Ok(dir) => checked_path(
                        r,
                        in_directory(platform, dir@, name@),
                        env.capacity,
                    ),
                    Err(e) => r matches Err(f) && f.kind == e.kind && f.message@ == e.message@,
                }
        },
{
    if contains_nul(name) {
        return Err(invalid_path("local socket name contains NUL"));
    }
    if has_char(name, '/') || has_char(name, '\\') {
        return check_path(text::copy(name), env.capacity);
    }
    let directory: Result<String, SocketError> = socket_directory(platform, env, probe);
    let ghost d = directory;
    match directory {
        Ok(dir) => {
            let path: String = match platform {
                Platform::Windows => windows_join(dir.as_str(), name),
                _ => paths::join(dir.as_str(), name),
            };
            let r: Result<String, SocketError> = check_path(path, env.capacity);
            proof {
                assert(is_directory(d, platform, *env, *probe));
            }
            r
        },
        Err(e) => {
            proof {
                assert(is_directory(d, platform, *env, *probe));
            }
            Err(e)
        },
    }
}

/// A path that comes out of a socket name fits an address, so that binding it cannot
/// fail for its length.
pub proof fn law_socket_paths_fit(r: Result<String, SocketError>, path: Seq<char>, capacity: usize)
    requires
        checked_path(r, path, capacity),
        r is Ok,
    ensures
        text_fits(r->Ok_0@, capacity),
{
}

/// On Unix what was asked for wins over the runtime directory, and that over the
/// directory for temporary files.
pub proof fn law_directory_precedence(env: SocketEnvironment)
    ensures
        setting(env.override_dir) is Some ==> unix_directory(env) == setting(env.override_dir),
        setting(env.override_dir) is None && setting(env.xdg_runtime_dir) is Some
            ==> unix_directory(env) == Some(
            paths::joined_path(setting(env.xdg_runtime_dir)->0, "emacs"@),
        ),
        unix_directory(env) is None <==> setting(env.override_dir) is None && setting(
            env.xdg_runtime_dir,
        ) is None && setting(env.tmp_dir) is None,
{
}

/// A socket address.
#[verifier::external_type_specification]
#[verifier::external_body]
pub struct ExSockAddr(socket2::SockAddr);

/// The address that stands for a path.
pub uninterp spec fn address_of(path: Seq<char>) -> socket2::SockAddr;

/// `socket2::SockAddr::unix`: the address of a path, made from nothing but the path.
/// There is none where the path does not fit the system's addresses, whose room differs
/// from system to system; when that is, is not said here.
#[verifier::external_body]
fn unix_address(path: &str) -> (r: Result<socket2::SockAddr, std::io::Error>)
    ensures
        r matches Ok(a) ==> a == address_of(path@),
{
    socket2::SockAddr::unix(path)
}

/// `std::io::Error`'s own text for itself, of which nothing is said.
#[verifier::external_body]
fn io_error_text(error: &std::io::Error) -> (r: String) {
    format!("{error}")
}

/// What the library says where no address could be made, from what the system said.
pub fn address_error(cause: &str) -> (r: SocketError)
    ensures
        is_invalid(r, "invalid sockaddr_un local socket path: "@ + cause@),
{
    SocketError {
        kind: SocketErrorKind::InvalidInput,
        message: text::concat("invalid sockaddr_un local socket path: ", cause),
    }
}

/// The address of a path; only a path that fits is tried.
pub fn sockaddr_for_path(path: &str, capacity: usize) -> (r: Result<socket2::SockAddr, SocketError>)
    ensures
        if has_nul(path@) {
            r matches Err(e) && is_invalid(e, "local socket path contains NUL"@)
        } else if !fits(path, capacity) {
            r matches Err(e) && is_invalid(
                e,
                "local socket path exceeds sockaddr_un path length"@,
            )
        } else {
            match r {
                Ok(a) => a == address_of(path@),
                Err(e) => exists|cause: Seq<char>| #[trigger]
                    is_invalid(e, "invalid sockaddr_un local socket path: "@ + cause),
            }
        },
{
    match validate_path(path, capacity) {
        Ok(()) => {},
        Err(e) => {
            return Err(e);
        },
    }
    match unix_address(path) {
        Ok(a) => Ok(a),
        Err(e) => Err(address_error(io_error_text(&e).as_str())),
    }
}

/// The letter `b`, in either case.
pub open spec fn is_unit(u: u16, b: u8) -> bool {
    u == b || u == b + 32
}

/// The code units before the first zero.
pub open spec fn units_before_zero(v: Seq<u16>) -> Seq<u16>
    decreases v.len(),
{
    if v.len() == 0 || v[0] == 0 {
        Seq::empty()
    } else {
        seq![v[0]] + units_before_zero(v.subrange(1, v.len() as int))
    }
}

/// The name `NTFS`, in any case.
pub open spec fn is_ntfs(v: Seq<u16>) -> bool {
    v.len() == 4 && is_unit(v[0], 78) && is_unit(v[1], 84) && is_unit(v[2], 70) && is_unit(
        v[3],
        83,
    )
}

proof fn lemma_units(v: Seq<u16>, n: int)
    requires
        0 <= n <= v.len(),
        forall|i: int| 0 <= i < n ==> v[i] != 0,
        n < v.len() ==> v[n] == 0,
    ensures
        units_before_zero(v) == v.subrange(0, n),
    decreases n,
{
    if n > 0 {
        let t = v.subrange(1, v.len() as int);
        assert forall|i: int| 0 <= i < n - 1 implies t[i] != 0 by {
            assert(t[i] == v[i + 1]);
        }
        if n < v.len() {
            assert(t[n - 1] == v[n]);
        }
        lemma_units(t, n - 1);
        assert(seq![v[0]] + t.subrange(0, n - 1) =~= v.subrange(0, n));
    } else {
        assert(v.subrange(0, 0) =~= Seq::empty());
    }
}

fn unit_is(u: u16, b: u8) -> (r: bool)
    requires
        b < 128,
    ensures
        r == is_unit(u, b),
{
    u == b as u16 || u == b as u16 + 32
}

/// What the two questions about a directory's volume come to; `name` holds the name
/// of its file system up to a zero.
pub fn ensure_windows_ntfs(volume: Result<(), u32>, name: Result<Vec<u16>, u32>) -> (r: Result<
    (),
    SocketError,
>)
    ensures
        match (volume, name) {
            (Err(code), _) => r matches Err(e) && is_windows_error(
                e,
                "cannot determine local socket directory volume"@,
                code,
            ),
            (Ok(_), Err(code)) => r matches Err(e) && is_windows_error(
                e,
                "cannot determine local socket directory filesystem"@,
                code,
            ),
            (Ok(_), Ok(v)) => if is_ntfs(units_before_zero(v@)) {
                r is Ok
            } else {
                r matches Err(e) && is_invalid(
                    e,
                    "local socket directory must reside on an NTFS volume"@,
                )
            },
        },
{
    match volume {
        Err(code) => {
            return Err(windows_error("cannot determine local socket directory volume", code));
        },
        Ok(_) => {},
    }
    let v: Vec<u16> = match name {
        Err(code) => {
            return Err(windows_error("cannot determine local socket directory filesystem", code));
        },
        Ok(v) => v,
    };
    let mut n: usize = 0;
    while n < v.len() && v[n] != 0
        invariant
            n <= v.len(),
            forall|i: int| 0 <= i < n ==> v@[i] != 0,
        decreases v.len() - n,
    {
        n += 1;
    }
    proof {
        lemma_units(v@, n as int);
    }
    if n == 4 && unit_is(v[0], 78) && unit_is(v[1], 84) && unit_is(v[2], 70) && unit_is(v[3], 83) {
        Ok(())
    } else {
        Err(invalid_path("local socket directory must reside on an NTFS volume"))
    }
}

pub const ERROR_FILE_NOT_FOUND: u32 = 2;

pub const ERROR_PATH_NOT_FOUND: u32 = 3;

pub const ERROR_ALREADY_EXISTS: u32 = 183;

pub const FILE_ATTRIBUTE_DIRECTORY: u32 = 0x10;

pub const FILE_ATTRIBUTE_REPARSE_POINT: u32 = 0x400;

pub const SE_DACL_PROTECTED: u16 = 0x1000;

pub const GENERIC_ALL: u32 = 0x1000_0000;

pub const FILE_ALL_ACCESS: u32 = 0x1f_01ff;

/// What opening a candidate came to, before its handle is looked at: whether there is
/// a handle. A directory that is not there yet is no obstacle.
pub fn inspect_windows_socket_directory(opened: Result<(), u32>) -> (r: Result<bool, SocketError>)
    ensures
        match opened {
            Ok(_) => r == Ok::<bool, SocketError>(true),
            Err(code) => if code == ERROR_FILE_NOT_FOUND || code == ERROR_PATH_NOT_FOUND {
                r == Ok::<bool, SocketError>(false)
            } else {
                r matches Err(e) && is_windows_error(
                    e,
                    "cannot inspect local socket directory"@,
                    code,
                )
            },
        },
{
    match opened {
        Ok(_) => Ok(true),
        Err(code) => if code == ERROR_FILE_NOT_FOUND || code == ERROR_PATH_NOT_FOUND {
            Ok(false)
        } else {
            Err(windows_error("cannot inspect local socket directory", code))
        },
    }
}

/// What making the directory came to: whether it was made, or was there already.
pub fn create_windows_socket_directory(made: Result<(), u32>) -> (r: Result<bool, SocketError>)
    ensures
        match made {
            Ok(_) => r == Ok::<bool, SocketError>(true),
            Err(code) => if code == ERROR_ALREADY_EXISTS {
                r == Ok::<bool, SocketError>(false)
            } else {
                r matches Err(e) && is_windows_error(
                    e,
                    "cannot create local socket directory"@,
                    code,
                )
            },
        },
{
    match made {
        Ok(_) => Ok(true),
        Err(code) => if code == ERROR_ALREADY_EXISTS {
            Ok(false)
        } else {
            Err(windows_error("cannot create local socket directory", code))
        },
    }
}

/// How many words of eight bytes hold `size` bytes.
pub fn token_word_count(size: u32) -> (r: usize)
    ensures
        8 * r >= size,
        8 * r < size + 8,
{
    let n: u64 = size as u64;
    ((n + 7) / 8) as usize
}

/// Whom an access entry names.
#[derive(Debug, Clone, Copy, PartialEq, Eq, Structural)]
pub enum Trustee {
    CurrentUser,
    System,
    Other,
}

/// One entry of an access list.
#[derive(Debug, Clone, Copy, PartialEq, Eq, Structural)]
pub struct AccessEntry {
    pub ace_type: u8,
    pub ace_flags: u8,
    pub mask: u32,
    pub trustee: Trustee,
}

/// What the system says of an open directory. Each answer is a value or the code that
/// the question failed with; an answer behind a failed one is not looked at.
#[derive(Debug)]
pub struct DirectoryFacts {
    pub attributes: Result<u32, u32>,
    /// Whether there is a security descriptor.
    pub descriptor: Result<bool, u32>,
    pub control: Result<u16, u32>,
    /// Whether there is an access list.
    pub dacl: Result<bool, u32>,
    pub acl_size: Result<(), u32>,
    /// Who the current user and the system are.
    pub identities: Result<(), SocketError>,
    pub entries: Vec<Result<AccessEntry, u32>>,
}

/// An entry gives everything that there is to give.
pub open spec fn grants_all(mask: u32) -> bool {
    mask & GENERIC_ALL == GENERIC_ALL || mask & FILE_ALL_ACCESS == FILE_ALL_ACCESS
}

/// What is wrong with an entry.
pub open spec fn entry_fault(r: Result<(), SocketError>, e: Result<AccessEntry, u32>) -> bool {
    match e {
        Err(code) => r matches Err(x) && is_windows_error(
            x,
            "cannot inspect local socket directory DACL ACE"@,
            code,
        ),
        Ok(a) => if a.ace_type != 0 || a.ace_flags != 0 {
            r matches Err(x) && is_invalid(
                x,
                "local socket directory DACL contains an unsupported ACE"@,
            )
        } else if !grants_all(a.mask) {
            r matches Err(x) && is_invalid(x, "local socket directory DACL ACE lacks full access"@)
        } else {
            r matches Err(x) && is_invalid(
                x,
                "local socket directory DACL contains an unexpected trustee"@,
            )
        },
    }
}

/// A plain entry that gives everything to the current user or to the system.
pub open spec fn entry_is_fit(e: Result<AccessEntry, u32>) -> bool {
    e matches Ok(a) && a.ace_type == 0 && a.ace_flags == 0 && grants_all(a.mask) && a.trustee
        != Trustee::Other
}

/// One of the entries names this trustee.
pub open spec fn names_trustee(v: Seq<Result<AccessEntry, u32>>, t: Trustee) -> bool {
    exists|i: int| 0 <= i < v.len() && (#[trigger] v[i] matches Ok(a) && a.trustee == t)
}

/// The access list is fit: every entry is, and both the current user and the system
/// are named.
pub open spec fn access_is_private(v: Seq<Result<AccessEntry, u32>>) -> bool {
    &&& forall|i: int| 0 <= i < v.len() ==> entry_is_fit(#[trigger] v[i])
    &&& names_trustee(v, Trustee::CurrentUser)
    &&& names_trustee(v, Trustee::System)
}

/// The first entry that is not fit.
pub open spec fn first_unfit(v: Seq<Result<AccessEntry, u32>>, i: int) -> bool {
    &&& 0 <= i < v.len()
    &&& !entry_is_fit(v[i])
    &&& forall|k: int| 0 <= k < i ==> entry_is_fit(#[trigger] v[k])
}

pub open spec fn entries_outcome(r: Result<(), SocketError>, v: Seq<Result<AccessEntry, u32>>) -> bool {
    if access_is_private(v) {
        r is Ok
    } else if forall|i: int| 0 <= i < v.len() ==> entry_is_fit(#[trigger] v[i]) {
        r matches Err(e) && is_invalid(
            e,
            "local socket directory DACL must grant current user and SYSTEM"@,
        )
    } else {
        exists|i: int| #[trigger] first_unfit(v, i) && entry_fault(r, v[i])
    }
}

fn validate_access_entries(entries: &Vec<Result<AccessEntry, u32>>) -> (r: Result<(), SocketError>)
    ensures
        entries_outcome(r, entries@),
{
    let mut saw_user: bool = false;
    let mut saw_system: bool = false;
    let mut i: usize = 0;
    while i < entries.len()
        invariant
            i <= entries.len(),
            forall|k: int| 0 <= k < i ==> entry_is_fit(#[trigger] entries@[k]),
            saw_user == exists|k: int|
                0 <= k < i && (#[trigger] entries@[k] matches Ok(a) && a.trustee
                    == Trustee::CurrentUser),
            saw_system == exists|k: int|
                0 <= k < i && (#[trigger] entries@[k] matches Ok(a) && a.trustee
                    == Trustee::System),
        decreases entries.len() - i,
    {
        let ghost e = entries@[i as int];
        let r: Result<(), SocketError> = match &entries[i] {
            Err(code) => Err(
                windows_error("cannot inspect local socket directory DACL ACE", *code),
            ),
            Ok(a) => if a.ace_type != 0 || a.ace_flags != 0 {
                Err(invalid_path("local socket directory DACL contains an unsupported ACE"))
            } else if a.mask & GENERIC_ALL != GENERIC_ALL && a.mask & FILE_ALL_ACCESS
                != FILE_ALL_ACCESS {
                Err(invalid_path("local socket directory DACL ACE lacks full access"))
            } else {
                match a.trustee {
                    Trustee::CurrentUser => {
                        saw_user = true;
                        Ok(())
                    },
                    Trustee::System => {
                        saw_system = true;
                        Ok(())
                    },
                    Trustee::Other => Err(
                        invalid_path("local socket directory DACL contains an unexpected trustee"),
                    ),
                }
            },
        };
        match r {
            Ok(()) => {
                proof {
                    assert(entry_is_fit(e));
                }
            },
            Err(x) => {
                let out: Result<(), SocketError> = Err(x);
                proof {
                    assert(!entry_is_fit(entries@[i as int]));
                    assert(first_unfit(entries@, i as int));
                    assert(entry_fault(out, entries@[i as int]));
                }
                return out;
            },
        }
        i += 1;
    }
    if !saw_user || !saw_system {
        return Err(
            invalid_path("local socket directory DACL must grant current user and SYSTEM"),
        );
    }
    Ok(())
}

/// What an open directory comes to: fit for sockets only if it is a plain directory
/// whose protected access list gives everything to the current user and to the
/// system, and nothing to anybody else.
pub open spec fn directory_outcome(r: Result<(), SocketError>, f: DirectoryFacts) -> bool {
    match f.attributes {
        Err(code) => r matches Err(e) && is_windows_error(
            e,
            "cannot inspect local socket directory handle"@,
            code,
        ),
        Ok(attributes) => if attributes & FILE_ATTRIBUTE_REPARSE_POINT != 0 {
            r matches Err(e) && is_invalid(
                e,
                "local socket directory must not be a reparse point"@,
            )
        } else if attributes & FILE_ATTRIBUTE_DIRECTORY == 0 {
            r matches Err(e) && is_invalid(e, "local socket directory handle is not a directory"@)
        } else {
            security_outcome(r, f)
        },
    }
}

pub open spec fn security_outcome(r: Result<(), SocketError>, f: DirectoryFacts) -> bool {
    match (f.descriptor, f.control, f.dacl) {
        (Err(code), _, _) => r matches Err(e) && is_windows_error(
            e,
            "cannot read local socket directory DACL"@,
            code,
        ),
        (Ok(false), _, _) => r matches Err(e) && is_invalid(
            e,
            "local socket directory security descriptor is missing"@,
        ),
        (Ok(true), Err(code), _) => r matches Err(e) && is_windows_error(
            e,
            "cannot inspect local socket directory DACL protection"@,
            code,
        ),
        (Ok(true), Ok(control), dacl) => if control & SE_DACL_PROTECTED == 0 {
            r matches Err(e) && is_invalid(e, "local socket directory DACL must be protected"@)
        } else {
            match dacl {
                Err(code) => r matches Err(e) && is_windows_error(
                    e,
                    "cannot inspect local socket directory DACL"@,
                    code,
                ),
                Ok(false) => r matches Err(e) && is_invalid(
                    e,
                    "local socket directory DACL is not present"@,
                ),
                Ok(true) => access_outcome(r, f),
            }
        },
    }
}

pub open spec fn access_outcome(r: Result<(), SocketError>, f: DirectoryFacts) -> bool {
    match (f.acl_size, f.identities) {
        (Err(code), _) => r matches Err(e) && is_windows_error(
            e,
            "cannot inspect local socket directory DACL entries"@,
            code,
        ),
        (Ok(_), Err(p)) => r matches Err(e) && e.kind == p.kind && e.message@ == p.message@,
        (Ok(_), Ok(_)) => entries_outcome(r, f.entries@),
    }
}

fn validate_directory_access(f: &DirectoryFacts) -> (r: Result<(), SocketError>)
    ensures
        access_outcome(r, *f),
{
    match f.acl_size {
        Err(code) => {
            return Err(
                windows_error("cannot inspect local socket directory DACL entries", code),
            );
        },
        Ok(_) => {},
    }
    match &f.identities {
        Err(p) => Err(SocketError { kind: p.kind, message: text::copy(p.message.as_str()) }),
        Ok(_) => validate_access_entries(&f.entries),
    }
}

fn validate_directory_security(f: &DirectoryFacts) -> (r: Result<(), SocketError>)
    ensures
        security_outcome(r, *f),
{
    match f.descriptor {
        Err(code) => {
            return Err(windows_error("cannot read local socket directory DACL", code));
        },
        Ok(present) => {
            if !present {
                return Err(invalid_path("local socket directory security descriptor is missing"));
            }
        },
    }
    match f.control {
        Err(code) => {
            return Err(
                windows_error("cannot inspect local socket directory DACL protection", code),
            );
        },
        Ok(control) => {
            if control & SE_DACL_PROTECTED == 0 {
                return Err(invalid_path("local socket directory DACL must be protected"));
            }
        },
    }
    match f.dacl {
        Err(code) => Err(windows_error("cannot inspect local socket directory DACL", code)),
        Ok(present) => if present {
            validate_directory_access(f)
        } else {
            Err(invalid_path("local socket directory DACL is not present"))
        },
    }
}

/// Whether an open directory is fit for sockets.
pub fn validate_windows_socket_directory_handle(f: &DirectoryFacts) -> (r: Result<(), SocketError>)
    ensures
        directory_outcome(r, *f),
{
    match f.attributes {
        Err(code) => Err(windows_error("cannot inspect local socket directory handle", code)),
        Ok(attributes) => if attributes & FILE_ATTRIBUTE_REPARSE_POINT != 0 {
            Err(invalid_path("local socket directory must not be a reparse point"))
        } else if attributes & FILE_ATTRIBUTE_DIRECTORY == 0 {
            Err(invalid_path("local socket directory handle is not a directory"))
        } else {
            validate_directory_security(f)
        },
    }
}

/// A directory that passes gives access to nobody but the current user and the system,
/// and to both of them.
pub proof fn law_accepted_directory_is_private(r: Result<(), SocketError>, f: DirectoryFacts)
    requires
        directory_outcome(r, f),
        r is Ok,
    ensures
        access_is_private(f.entries@),
        f.attributes matches Ok(a) && a & FILE_ATTRIBUTE_REPARSE_POINT == 0 && a
            & FILE_ATTRIBUTE_DIRECTORY != 0,
        f.control matches Ok(c) && c & SE_DACL_PROTECTED != 0,
{
}

} // verus!
