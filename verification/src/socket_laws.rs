//! What the place of a local socket is for: it is where it was asked for, in a directory that
//! is the user's alone, under a path that an address has room for.
use vstd::prelude::*;
use vstd::string::StringSliceAdditionalSpecFns;

use crate::local_socket;
use crate::local_socket::{
    DirectoryFacts, Platform, SocketEnvironment, SocketError, SocketErrorKind, Trustee,
    WindowsProbe,
};
use crate::paths;
use crate::text;

verus! {

/// A setting that is there and not empty.
pub open spec fn is_set(s: Option<String>) -> bool {
    s is Some && (s->0)@.len() > 0
}

/// The directory for sockets on Unix: the one that is set; else `emacs` in the runtime
/// directory; else, in the one for temporary files, one with the user's number. Without any
/// of them there is none.
pub proof fn law_directory_on_unix(
    env: &SocketEnvironment,
    probe: &WindowsProbe,
    r: Result<String, SocketError>,
)
    requires
        call_ensures(local_socket::socket_directory, (Platform::Unix, env, probe), r),
    ensures
        is_set(env.override_dir) ==> r is Ok && (r->Ok_0)@ == (env.override_dir->0)@,
        !is_set(env.override_dir) && is_set(env.xdg_runtime_dir) ==> r is Ok && (r->Ok_0)@
            == paths::joined_path((env.xdg_runtime_dir->0)@, "emacs"@),
        !is_set(env.override_dir) && !is_set(env.xdg_runtime_dir) && is_set(env.tmp_dir) ==> r is Ok
            && (r->Ok_0)@ == paths::joined_path(
            (env.tmp_dir->0)@,
            "emacs"@ + text::decimal(env.user_id as nat),
        ),
        !is_set(env.override_dir) && !is_set(env.xdg_runtime_dir) && !is_set(env.tmp_dir) ==> r
            is Err && r->Err_0.kind is InvalidInput,
{
}

/// The directory on Windows, where none is set: of the two that can be used, the one with
/// the shorter path; one can be used where it was found and there is room for its path.
pub proof fn law_directory_on_windows(
    env: &SocketEnvironment,
    probe: &WindowsProbe,
    r: Result<String, SocketError>,
)
    requires
        call_ensures(local_socket::socket_directory, (Platform::Windows, env, probe), r),
        !is_set(env.override_dir),
    ensures
        r is Ok ==> local_socket::byte_len((r->Ok_0)@) + 1 <= env.capacity && !(r->Ok_0)@.contains(
            '\0',
        ),
        r is Ok ==> (probe.tmp_dir && is_set(env.tmp_dir) && (r->Ok_0)@
            == local_socket::windows_joined((env.tmp_dir->0)@, "emacs-server"@)) || (
        probe.local_app_data && is_set(env.local_app_data) && (r->Ok_0)@
            == local_socket::windows_joined(
            local_socket::windows_joined((env.local_app_data->0)@, "emacs"@),
            "server"@,
        )),
        !probe.tmp_dir && !probe.local_app_data ==> r is Err,
{
    if r is Ok {
        let d = (r->Ok_0)@;
        if d.contains('\0') {
            let k = choose|k: int| 0 <= k < d.len() && d[k] == '\0';
            assert(local_socket::has_nul(d));
        }
    }
}

/// What an address has room for: a path without a zero character whose bytes, and one more,
/// fit in. That, and the rest, is refused as such.
pub proof fn law_room_for_a_path(path: &str, capacity: usize, r: Result<(), SocketError>)
    requires
        call_ensures(local_socket::validate_path, (path, capacity), r),
    ensures
        r is Ok <==> !path@.contains('\0') && path.spec_bytes().len() + 1 <= capacity,
        r is Err ==> r->Err_0.kind is InvalidInput,
{
    if path@.contains('\0') {
        let k = choose|k: int| 0 <= k < path@.len() && path@[k] == '\0';
        assert(path@[k] == '\0');
    }
    if local_socket::has_nul(path@) {
        let k = choose|k: int| 0 <= k < path@.len() && #[trigger] path@[k] == '\0';
        assert(path@.contains('\0'));
    }
}

/// The path of a socket: a name with a slash is a path already; any other is in the
/// directory for sockets. What comes out has room in an address.
pub proof fn law_path_of_a_socket(
    name: &str,
    env: &SocketEnvironment,
    probe: &WindowsProbe,
    r: Result<String, SocketError>,
)
    requires
        call_ensures(
            local_socket::socket_path_for_name,
            (name, Platform::Unix, env, probe),
            r,
        ),
    ensures
        r is Ok ==> !(r->Ok_0)@.contains('\0') && local_socket::byte_len((r->Ok_0)@) + 1
            <= env.capacity,
        name@.contains('\0') ==> r is Err,
        r is Ok && name@.contains('/') ==> (r->Ok_0)@ == name@,
        r is Ok && !name@.contains('/') && !name@.contains('\\') && is_set(env.override_dir)
            ==> (r->Ok_0)@ == paths::joined_path((env.override_dir->0)@, name@),
        r is Ok && !name@.contains('/') && !name@.contains('\\') && !is_set(env.override_dir)
            && is_set(env.xdg_runtime_dir) ==> (r->Ok_0)@ == paths::joined_path(
            paths::joined_path((env.xdg_runtime_dir->0)@, "emacs"@),
            name@,
        ),
        !name@.contains('/') && !name@.contains('\\') && !is_set(env.override_dir) && !is_set(
            env.xdg_runtime_dir,
        ) && !is_set(env.tmp_dir) ==> r is Err,
        r is Err ==> r->Err_0.kind is InvalidInput,
{
    lemma_has(name@);
    if r is Ok {
        let d = (r->Ok_0)@;
        if d.contains('\0') {
            let k = choose|k: int| 0 <= k < d.len() && d[k] == '\0';
            assert(local_socket::has_nul(d));
        }
    }
}

proof fn lemma_has(s: Seq<char>)
    ensures
        local_socket::has_nul(s) == s.contains('\0'),
        local_socket::has(s, '/') == s.contains('/'),
        local_socket::has(s, '\\') == s.contains('\\'),
{
    if s.contains('\0') {
        let k = choose|k: int| 0 <= k < s.len() && s[k] == '\0';
        assert(s[k] == '\0');
    }
    if s.contains('/') {
        let k = choose|k: int| 0 <= k < s.len() && s[k] == '/';
        assert(s[k] == '/');
    }
    if s.contains('\\') {
        let k = choose|k: int| 0 <= k < s.len() && s[k] == '\\';
        assert(s[k] == '\\');
    }
}

/// A directory on Windows is accepted if and only if it is the user's alone: a directory and
/// no link, with an access list of its own that inherits nothing, in which every entry
/// allows everything, to the user or the system and to nobody else, and both are there.
pub proof fn law_directory_is_private(f: &DirectoryFacts, r: Result<(), SocketError>)
    requires
        call_ensures(local_socket::validate_windows_socket_directory_handle, (f,), r),
    ensures
        r is Ok ==> {
            &&& f.attributes is Ok && f.attributes->Ok_0 & 0x400u32 == 0 && f.attributes->Ok_0
                & 0x10u32 != 0
            &&& f.descriptor == Ok::<bool, u32>(true)
            &&& f.control is Ok && f.control->Ok_0 & 0x1000u16 != 0
            &&& f.dacl == Ok::<bool, u32>(true)
            &&& f.acl_size is Ok && f.identities is Ok
            &&& forall|i: int|
                0 <= i < f.entries@.len() ==> {
                    &&& #[trigger] f.entries@[i] is Ok
                    &&& f.entries@[i]->Ok_0.ace_type == 0 && f.entries@[i]->Ok_0.ace_flags == 0
                    &&& !(f.entries@[i]->Ok_0.trustee is Other)
                    &&& (f.entries@[i]->Ok_0.mask & 0x1000_0000u32 == 0x1000_0000u32
                        || f.entries@[i]->Ok_0.mask & 0x1f_01ffu32 == 0x1f_01ffu32)
                }
            &&& exists|i: int|
                0 <= i < f.entries@.len() && #[trigger] f.entries@[i] is Ok
                    && f.entries@[i]->Ok_0.trustee is CurrentUser
            &&& exists|i: int|
                0 <= i < f.entries@.len() && #[trigger] f.entries@[i] is Ok
                    && f.entries@[i]->Ok_0.trustee is System
        },
        r is Err && f.attributes is Ok && f.attributes->Ok_0 & 0x400u32 == 0 && f.attributes->Ok_0
            & 0x10u32 != 0 && f.descriptor == Ok::<bool, u32>(true) && f.control is Ok
            && f.control->Ok_0 & 0x1000u16 != 0 && f.dacl == Ok::<bool, u32>(true) && f.acl_size
            is Ok && f.identities is Ok ==> !local_socket::access_is_private(f.entries@),
{
    if r is Ok {
        assert(local_socket::access_is_private(f.entries@));
        let v = f.entries@;
        assert forall|i: int| 0 <= i < v.len() implies {
            &&& #[trigger] v[i] is Ok
            &&& v[i]->Ok_0.ace_type == 0 && v[i]->Ok_0.ace_flags == 0
            &&& !(v[i]->Ok_0.trustee is Other)
            &&& (v[i]->Ok_0.mask & 0x1000_0000u32 == 0x1000_0000u32 || v[i]->Ok_0.mask
                & 0x1f_01ffu32 == 0x1f_01ffu32)
        } by {
            assert(local_socket::entry_is_fit(v[i]));
        }
        let i = choose|i: int|
            0 <= i < v.len() && (#[trigger] v[i] matches Ok(a) && a.trustee
                == Trustee::CurrentUser);
        assert(v[i] is Ok && v[i]->Ok_0.trustee is CurrentUser);
        let j = choose|j: int|
            0 <= j < v.len() && (#[trigger] v[j] matches Ok(a) && a.trustee == Trustee::System);
        assert(v[j] is Ok && v[j]->Ok_0.trustee is System);
    }
}

/// What is found out of a directory: whether it is there; any other trouble is an error.
pub proof fn law_directory_is_inspected(
    opened: Result<(), u32>,
    r: Result<bool, SocketError>,
    q: Result<bool, SocketError>,
)
    requires
        call_ensures(local_socket::inspect_windows_socket_directory, (opened,), r),
        call_ensures(local_socket::create_windows_socket_directory, (opened,), q),
    ensures
        opened is Ok ==> r == Ok::<bool, SocketError>(true) && q == Ok::<bool, SocketError>(true),
        opened is Err && (opened->Err_0 == 2 || opened->Err_0 == 3) ==> r == Ok::<
            bool,
            SocketError,
        >(false),
        opened is Err && opened->Err_0 != 2 && opened->Err_0 != 3 ==> r is Err && r->Err_0.kind
            is PermissionDenied,
        opened is Err && opened->Err_0 == 183 ==> q == Ok::<bool, SocketError>(false),
        opened is Err && opened->Err_0 != 183 ==> q is Err && q->Err_0.kind is PermissionDenied,
{
}

/// A socket of the server is prepared where its directory is the one for sockets, and on
/// Windows alone.
pub proof fn law_server_path_is_prepared(
    platform: Platform,
    parent: Option<&str>,
    override_dir: &Option<String>,
    directory: Option<&str>,
    r: Option<String>,
)
    requires
        call_ensures(
            local_socket::prepare_server_path,
            (platform, parent, override_dir, directory),
            r,
        ),
    ensures
        r is Some ==> platform is Windows && parent is Some,
        r is Some && is_set(*override_dir) ==> (r->0)@ == (override_dir->0)@,
        r is Some && !is_set(*override_dir) ==> directory is Some && (r->0)@ == (directory->0)@,
        platform is Windows && parent is Some && is_set(*override_dir) && (parent->0)@ == (
        override_dir->0)@ ==> r is Some,
        parent is None ==> r is None,
{
}

/// Local sockets are there on Unix, on Windows where one could be made, and nowhere else.
pub proof fn law_where_there_are_sockets(
    platform: Platform,
    made: bool,
    r: bool,
    e: SocketError,
    message: &str,
)
    requires
        call_ensures(local_socket::stream_supported, (platform, made), r),
        call_ensures(local_socket::invalid_path, (message,), e),
    ensures
        r <==> platform is Unix || (platform is Windows && made),
        e.kind == SocketErrorKind::InvalidInput && e.message@ == message@,
{
}

} // verus!
