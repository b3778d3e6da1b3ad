use vstd::prelude::*;
use crate::text::has_prefix;

verus! {

/// The operating-system family whose conventions apply.
#[derive(Clone, Copy, Debug, PartialEq, Eq, Structural)]
pub enum Platform {
    Unix,
    Windows,
}

/// The start of every Windows named-pipe path, `\\.\pipe\`.
pub open spec fn pipe_prefix() -> Seq<char> {
    seq!['\\', '\\', '.', '\\', 'p', 'i', 'p', 'e', '\\']
}

fn pipe_prefix_string() -> (s: String)
    ensures
        s@ == pipe_prefix(),
{
    let mut s = String::new();
    crate::text::push_char(&mut s, '\\');
    crate::text::push_char(&mut s, '\\');
    crate::text::push_char(&mut s, '.');
    crate::text::push_char(&mut s, '\\');
    crate::text::push_char(&mut s, 'p');
    crate::text::push_char(&mut s, 'i');
    crate::text::push_char(&mut s, 'p');
    crate::text::push_char(&mut s, 'e');
    crate::text::push_char(&mut s, '\\');
    assert(s@ =~= pipe_prefix());
    s
}

/// The local control endpoint the client names, as the daemon's platform
/// expects it: on Windows a bare pipe name becomes a full named-pipe path;
/// on Unix the path is used as it is.
pub open spec fn normalized_endpoint(platform: Platform, endpoint: Seq<char>) -> Seq<char> {
    match platform {
        Platform::Unix => endpoint,
        Platform::Windows => if has_prefix(endpoint, pipe_prefix()) {
            endpoint
        } else {
            pipe_prefix() + endpoint
        },
    }
}

/// See `normalized_endpoint`.
pub fn normalize_ipc_endpoint(platform: Platform, endpoint: &str) -> (s: String)
    ensures
        s@ == normalized_endpoint(platform, endpoint@),
{
    match platform {
        Platform::Unix => crate::text::owned(endpoint),
        Platform::Windows => {
            let prefix = pipe_prefix_string();
            if crate::text::starts_with(endpoint, prefix.as_str()) {
                crate::text::owned(endpoint)
            } else {
                let mut s = prefix;
                crate::text::append_str(&mut s, endpoint);
                s
            }
        },
    }
}

/// A path separator on `platform`.
pub open spec fn is_separator(platform: Platform, c: char) -> bool {
    c == '/' || (platform == Platform::Windows && c == '\\')
}

/// The separator `platform` inserts.
pub open spec fn main_separator(platform: Platform) -> char {
    match platform {
        Platform::Unix => '/',
        Platform::Windows => '\\',
    }
}

/// `s` starts with a Windows drive such as `C:`.
pub open spec fn starts_with_drive(s: Seq<char>) -> bool {
    s.len() >= 2 && s[1] == ':' && (('a' <= s[0] && s[0] <= 'z') || ('A' <= s[0] && s[0] <= 'Z'))
}

/// A bare Windows drive prefix such as `C:`.
pub open spec fn is_drive_only(dir: Seq<char>) -> bool {
    dir.len() == 2 && starts_with_drive(dir)
}

/// The start of a Windows verbatim path, `\\?\`.
pub open spec fn verbatim_prefix() -> Seq<char> {
    seq!['\\', '\\', '?', '\\']
}

/// A Windows verbatim path (`\\?\...`).
pub open spec fn is_verbatim(platform: Platform, dir: Seq<char>) -> bool {
    platform == Platform::Windows && has_prefix(dir, verbatim_prefix())
}

/// See `is_verbatim`.
pub fn is_verbatim_path(platform: Platform, dir: &str) -> (b: bool)
    ensures
        b == is_verbatim(platform, dir@),
{
    match platform {
        Platform::Unix => false,
        Platform::Windows => {
            let mut p = String::new();
            crate::text::push_char(&mut p, '\\');
            crate::text::push_char(&mut p, '\\');
            crate::text::push_char(&mut p, '?');
            crate::text::push_char(&mut p, '\\');
            assert(p@ =~= verbatim_prefix());
            crate::text::starts_with(dir, p.as_str())
        },
    }
}

/// `s` starts with two separators.
pub open spec fn starts_with_two_separators(platform: Platform, s: Seq<char>) -> bool {
    s.len() >= 2 && is_separator(platform, s[0]) && is_separator(platform, s[1])
}

/// `name` has a Windows prefix as `std::path::Prefix` documents them: a
/// drive (`C:`) or one that starts with `\\` (UNC, device, verbatim).
pub open spec fn has_path_prefix(platform: Platform, name: Seq<char>) -> bool {
    platform == Platform::Windows && (starts_with_drive(name) || (name.len() >= 2 && name[0] == '\\'
        && name[1] == '\\'))
}

/// `name` starts at a root: it begins with a separator.
pub open spec fn is_rooted(platform: Platform, name: Seq<char>) -> bool {
    name.len() > 0 && is_separator(platform, name[0])
}

/// The joins that `joined_path` states.  Left out, on Windows only: a name
/// that starts with two separators other than `\\` (whether that is a
/// prefix the documentation does not say), a name without prefix joined
/// onto a verbatim path (the whole path is then rebuilt from its
/// components), and a rooted name without prefix joined onto a directory
/// that starts with two separators (the length of its prefix is then not
/// given by the documentation).
pub open spec fn join_stated(platform: Platform, dir: Seq<char>, name: Seq<char>) -> bool {
    platform == Platform::Unix || (!(starts_with_two_separators(platform, name) && !has_path_prefix(
        platform,
        name,
    )) && (has_path_prefix(platform, name) || (!(is_verbatim(platform, dir) && name.len() > 0)
        && !(is_rooted(platform, name) && starts_with_two_separators(platform, dir)))))
}

/// `dir` needs a separator before a relative name is appended: it is not
/// empty, does not end in one, and is no bare Windows drive.
pub open spec fn needs_separator(platform: Platform, dir: Seq<char>) -> bool {
    dir.len() > 0 && !is_separator(platform, dir.last()) && !(platform == Platform::Windows
        && is_drive_only(dir))
}

/// `dir` joined with `name` (`Path::join`, where `join_stated`): a name
/// with a prefix, or an absolute Unix name, replaces `dir`; a rooted
/// Windows name keeps only the drive of `dir`; any other name is appended
/// after one separator when `dir` needs one.
pub open spec fn joined_path(platform: Platform, dir: Seq<char>, name: Seq<char>) -> Seq<char> {
    if has_path_prefix(platform, name) || (platform == Platform::Unix && is_rooted(platform, name)) {
        name
    } else if is_rooted(platform, name) {
        if starts_with_drive(dir) {
            dir.take(2) + name
        } else {
            name
        }
    } else if needs_separator(platform, dir) {
        dir.push(main_separator(platform)) + name
    } else {
        dir + name
    }
}

/// `std::path::Path::join` on the platform this program runs on, for the
/// joins that `joined_path` does not describe.  Nothing is promised of the
/// result.
#[verifier::external_body]
fn native_join(dir: &str, name: &str) -> String {
    std::path::Path::new(dir).join(name).to_string_lossy().into_owned()
}

fn is_sep(windows: bool, c: char) -> (b: bool)
    ensures
        b == (c == '/' || (windows && c == '\\')),
{
    c == '/' || (windows && c == '\\')
}

fn drive_start(v: &Vec<char>) -> (b: bool)
    ensures
        b == starts_with_drive(v@),
{
    v.len() >= 2 && v[1] == ':' && (('a' <= v[0] && v[0] <= 'z') || ('A' <= v[0] && v[0] <= 'Z'))
}

/// See `joined_path`.  Where `join_stated` does not hold, the platform's own
/// `Path::join` gives the result.
pub fn join_path(platform: Platform, dir: &str, name: &str) -> (s: String)
    ensures
        join_stated(platform, dir@, name@) ==> s@ == joined_path(platform, dir@, name@),
{
    let d = crate::text::chars_of(dir);
    let n = crate::text::chars_of(name);
    let windows = match platform {
        Platform::Windows => true,
        Platform::Unix => false,
    };
    let name_two_seps = n.len() >= 2 && is_sep(windows, n[0]) && is_sep(windows, n[1]);
    let dir_two_seps = d.len() >= 2 && is_sep(windows, d[0]) && is_sep(windows, d[1]);
    let name_prefix = windows && (drive_start(&n) || (n.len() >= 2 && n[0] == '\\' && n[1] == '\\'));
    let name_rooted = n.len() > 0 && is_sep(windows, n[0]);
    let dir_verbatim = is_verbatim_path(platform, dir);
    let stated = !windows || (!(name_two_seps && !name_prefix) && (name_prefix || (!(dir_verbatim
        && n.len() > 0) && !(name_rooted && dir_two_seps))));
    if !stated {
        return native_join(dir, name);
    }
    if name_prefix || (!windows && name_rooted) {
        return crate::text::owned(name);
    }
    if name_rooted {
        if drive_start(&d) {
            let mut s = crate::text::string_from_range(&d, 0, 2);
            crate::text::append_str(&mut s, name);
            return s;
        }
        return crate::text::owned(name);
    }
    let mut needs_sep = false;
    if d.len() > 0 {
        let last_is_sep = is_sep(windows, d[d.len() - 1]);
        let drive = windows && d.len() == 2 && drive_start(&d);
        needs_sep = !last_is_sep && !drive;
    }
    let mut s = crate::text::owned(dir);
    if needs_sep {
        if windows {
            crate::text::push_char(&mut s, '\\');
        } else {
            crate::text::push_char(&mut s, '/');
        }
    }
    crate::text::append_str(&mut s, name);
    proof {
        if needs_sep {
            assert(needs_separator(platform, dir@));
        }
    }
    s
}

/// The name of the daemon's control socket on Unix.
pub open spec fn socket_name() -> Seq<char> {
    "supervisord.sock"@
}

/// The daemon's named pipe on Windows, `\\.\pipe\supervisord`.
pub open spec fn default_pipe() -> Seq<char> {
    pipe_prefix() + "supervisord"@
}

/// The default local control endpoint: on Unix `supervisord.sock` in the
/// temporary directory `temp_dir`, on Windows the named pipe
/// `\\.\pipe\supervisord`.
pub fn default_ipc_endpoint(platform: Platform, temp_dir: &str) -> (s: String)
    ensures
        platform == Platform::Unix ==> s@ == joined_path(platform, temp_dir@, socket_name()),
        platform == Platform::Windows ==> s@ == default_pipe(),
{
    match platform {
        Platform::Unix => {
            proof {
                reveal_strlit("supervisord.sock");
            }
            join_path(platform, temp_dir, "supervisord.sock")
        },
        Platform::Windows => {
            let mut s = pipe_prefix_string();
            crate::text::append_str(&mut s, "supervisord");
            s
        },
    }
}

/// The endpoint the client connects to: the one configured in its
/// environment, or the default, normalized for the platform.
pub fn client_endpoint(platform: Platform, configured: Option<&str>, temp_dir: &str) -> (s: String)
    ensures
        match configured {
            Some(c) => s@ == normalized_endpoint(platform, c@),
            None => platform == Platform::Unix ==> s@ == joined_path(platform, temp_dir@, socket_name()),
        },
        configured is None && platform == Platform::Windows ==> s@ == normalized_endpoint(platform, default_pipe()),
{
    match configured {
        Some(c) => normalize_ipc_endpoint(platform, c),
        None => {
            let d = default_ipc_endpoint(platform, temp_dir);
            normalize_ipc_endpoint(platform, d.as_str())
        },
    }
}

/// A program and its arguments, to be spawned.
#[derive(Clone, Debug)]
pub struct CommandLine {
    pub program: String,
    pub args: Vec<String>,
}

/// The view of a command line: program and arguments as text.
pub open spec fn command_view(c: CommandLine) -> (Seq<char>, Seq<Seq<char>>) {
    (c.program@, c.args@.map_values(|a: String| a@))
}

/// How a configured command line is run: through `sh -c` on Unix and
/// through `cmd.exe /D /S /C` on Windows.
pub open spec fn shell_command(platform: Platform, line: Seq<char>) -> (Seq<char>, Seq<Seq<char>>) {
    match platform {
        Platform::Unix => ("sh"@, seq!["-c"@, line]),
        Platform::Windows => ("cmd.exe"@, seq!["/D"@, "/S"@, "/C"@, line]),
    }
}

/// See `shell_command`.
pub fn command(platform: Platform, command_line: &str) -> (c: CommandLine)
    ensures
        command_view(c) == shell_command(platform, command_line@),
{
    match platform {
        Platform::Unix => {
            let mut args: Vec<String> = Vec::new();
            args.push(crate::text::owned("-c"));
            args.push(crate::text::owned(command_line));
            let c = CommandLine { program: crate::text::owned("sh"), args };
            assert(command_view(c).1 =~= seq!["-c"@, command_line@]);
            c
        },
        Platform::Windows => {
            let mut args: Vec<String> = Vec::new();
            args.push(crate::text::owned("/D"));
            args.push(crate::text::owned("/S"));
            args.push(crate::text::owned("/C"));
            args.push(crate::text::owned(command_line));
            let c = CommandLine { program: crate::text::owned("cmd.exe"), args };
            assert(command_view(c).1 =~= seq!["/D"@, "/S"@, "/C"@, command_line@]);
            c
        },
    }
}

/// The configuration directory to use: the one given on the command line,
/// or else `etc` beside the executable, or `./etc` when the executable's
/// directory is unknown.
pub fn resolve_config_path(platform: Platform, given: Option<&str>, exe_dir: Option<&str>) -> (s: String)
    ensures
        match given {
            Some(g) => s@ == g@,
            None => match exe_dir {
                Some(d) => join_stated(platform, d@, "etc"@) ==> s@ == joined_path(platform, d@, "etc"@),
                None => s@ == "./etc"@,
            },
        },
{
    match given {
        Some(g) => crate::text::owned(g),
        None => match exe_dir {
            Some(d) => {
                proof {
                    reveal_strlit("etc");
                }
                join_path(platform, d, "etc")
            },
            None => crate::text::owned("./etc"),
        },
    }
}

} // verus!
