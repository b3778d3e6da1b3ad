use vstd::prelude::*;
use vstd::utf8::{decode_utf8, valid_utf8};
use crate::platform::{join_stated, joined_path, starts_with_drive, Platform};
use crate::text::{has_sub, joined, lines_of, replaced, trimmed};

verus! {

// ---------------------------------------------------------------------------
// The service installers' settings
// ---------------------------------------------------------------------------

/// Installer for RK3588 boards (not available there yet).
pub struct Rk3588Install {
    pub exe_name: String,
    pub exe_configs_dirs: Vec<String>,
}

/// Installer as a systemd unit.
pub struct SystemdInstall {
    /// The executable's name, also the service's name.
    pub exe_name: String,
    /// Configuration directories, relative to the executable.
    pub exe_configs_dirs: Vec<String>,
}

/// Installer as a Windows service.
pub struct WindowsInstall {
    /// The executable's name, also the service's name.
    pub exe_name: String,
    /// Configuration directories, relative to the executable.
    pub exe_configs_dirs: Vec<String>,
}

/// The settings every installer of this daemon uses: the executable
/// `supervisord` and its configuration directory `./etc`.
pub open spec fn is_supervisord_setup(exe_name: String, dirs: Vec<String>) -> bool {
    exe_name@ == "supervisord"@ && dirs@.len() == 1 && dirs@[0]@ == "./etc"@
}

fn supervisord_setup() -> (r: (String, Vec<String>))
    ensures
        is_supervisord_setup(r.0, r.1),
{
    let mut dirs: Vec<String> = Vec::new();
    dirs.push(crate::text::owned("./etc"));
    (crate::text::owned("supervisord"), dirs)
}

impl Rk3588Install {
    /// The installer for this daemon.
    pub fn supervisord() -> (s: Self)
        ensures
            is_supervisord_setup(s.exe_name, s.exe_configs_dirs),
    {
        let (exe_name, exe_configs_dirs) = supervisord_setup();
        Self { exe_name, exe_configs_dirs }
    }

    /// The service's name: the executable's.
    pub fn get_service_name(&self) -> (n: &str)
        ensures
            n@ == self.exe_name@,
    {
        self.exe_name.as_str()
    }
}

impl SystemdInstall {
    /// The installer for this daemon.
    pub fn supervisord() -> (s: Self)
        ensures
            is_supervisord_setup(s.exe_name, s.exe_configs_dirs),
    {
        let (exe_name, exe_configs_dirs) = supervisord_setup();
        Self { exe_name, exe_configs_dirs }
    }

    /// The service's name: the executable's.
    pub fn get_service_name(&self) -> (n: &str)
        ensures
            n@ == self.exe_name@,
    {
        self.exe_name.as_str()
    }
}

impl WindowsInstall {
    /// The installer for this daemon.
    pub fn supervisord() -> (s: Self)
        ensures
            is_supervisord_setup(s.exe_name, s.exe_configs_dirs),
    {
        let (exe_name, exe_configs_dirs) = supervisord_setup();
        Self { exe_name, exe_configs_dirs }
    }

    /// The service's name: the executable's.
    pub fn get_service_name(&self) -> (n: &str)
        ensures
            n@ == self.exe_name@,
    {
        self.exe_name.as_str()
    }
}

// ---------------------------------------------------------------------------
// systemd
// ---------------------------------------------------------------------------

/// Where the systemd unit is written.
pub fn systemd_unit_path() -> (s: String)
    ensures
        s@ == "/etc/systemd/system/supervisord.service"@,
{
    crate::text::owned("/etc/systemd/system/supervisord.service")
}

/// Where the executable is installed when it cannot run from where it is.
pub fn cli_exe_path() -> (s: String)
    ensures
        s@ == "/usr/local/bin/supervisord"@,
{
    crate::text::owned("/usr/local/bin/supervisord")
}

/// The unit file: the template with every `{{exe_path}}` replaced by the
/// path of the executable.
pub fn unit_file_text(template: &str, exe_path: &str) -> (s: String)
    ensures
        s@ == replaced(template@, "{{exe_path}}"@, exe_path@),
{
    proof {
        reveal_strlit("{{exe_path}}");
    }
    crate::text::replace_all(template, "{{exe_path}}", exe_path)
}

/// Every ancestor directory of the executable (their permission bits, or
/// `None` where they could not be read) lets other users pass (`o+x`).
pub open spec fn all_traversable(modes: Seq<Option<u32>>) -> bool {
    forall|i: int| 0 <= i < modes.len() ==> (#[trigger] modes[i] matches Some(m) && m & 1u32 != 0)
}

/// See `all_traversable`.
pub fn world_traversable(modes: &Vec<Option<u32>>) -> (b: bool)
    ensures
        b == all_traversable(modes@),
{
    let mut i: usize = 0;
    while i < modes.len()
        invariant
            i <= modes.len(),
            forall|k: int| 0 <= k < i ==> (#[trigger] modes@[k] matches Some(m) && m & 1u32 != 0),
        decreases modes.len() - i,
    {
        match modes[i] {
            Some(m) => {
                if m & 1 == 0 {
                    return false;
                }
            },
            None => {
                return false;
            },
        }
        i = i + 1;
    }
    true
}

/// Which executable the unit runs.
#[derive(Clone, Copy, Debug, PartialEq, Eq, Structural)]
pub enum BinaryPlan {
    /// The running executable, where it is.
    UseCurrent,
    /// The installed copy, which is the running executable.
    UseInstalled,
    /// A fresh copy at the install path.
    CopyToInstalled,
}

/// An executable that every user can reach is used where it is; else the
/// installed copy, copied afresh unless it is the running executable.
pub fn binary_plan(traversable: bool, running_is_installed: bool) -> (p: BinaryPlan)
    ensures
        traversable ==> p == BinaryPlan::UseCurrent,
        !traversable && running_is_installed ==> p == BinaryPlan::UseInstalled,
        !traversable && !running_is_installed ==> p == BinaryPlan::CopyToInstalled,
{
    if traversable {
        BinaryPlan::UseCurrent
    } else if running_is_installed {
        BinaryPlan::UseInstalled
    } else {
        BinaryPlan::CopyToInstalled
    }
}

/// The arguments of a command, as `args.join(" ")` shows them.
pub open spec fn args_text(args: Seq<String>) -> Seq<char> {
    joined(args.map_values(|a: String| a@), " "@)
}

/// The error for a `systemctl` run that could not start (`spawned` false,
/// with the system's message) or that exited unsuccessfully (with its
/// exit status).
pub fn systemctl_error(args: &Vec<String>, spawned: bool, detail: &str) -> (s: String)
    ensures
        !spawned ==> s@ == "systemctl "@ + args_text(args@) + " failed: "@ + detail@,
        spawned ==> s@ == "systemctl "@ + args_text(args@) + " exited with "@ + detail@,
{
    let mut s = crate::text::owned("systemctl ");
    let a = crate::text::join(args, " ");
    crate::text::append_str(&mut s, a.as_str());
    if spawned {
        crate::text::append_str(&mut s, " exited with ");
    } else {
        crate::text::append_str(&mut s, " failed: ");
    }
    crate::text::append_str(&mut s, detail);
    s
}

// ---------------------------------------------------------------------------
// Windows services
// ---------------------------------------------------------------------------

/// The default data directory when `PROGRAMDATA` is not set.
pub open spec fn default_program_data() -> Seq<char> {
    seq!['C', ':', '\\', 'P', 'r', 'o', 'g', 'r', 'a', 'm', 'D', 'a', 't', 'a']
}

fn default_program_data_string() -> (s: String)
    ensures
        s@ == default_program_data(),
{
    let mut s = crate::text::owned("C:");
    crate::text::push_char(&mut s, '\\');
    crate::text::append_str(&mut s, "ProgramData");
    proof {
        reveal_strlit("C:");
        reveal_strlit("ProgramData");
    }
    assert(s@ =~= default_program_data());
    s
}

/// The data directory: `PROGRAMDATA`, or `C:\ProgramData` when it is unset.
pub open spec fn program_data_dir(program_data: Option<Seq<char>>) -> Seq<char> {
    match program_data {
        Some(p) => p,
        None => default_program_data(),
    }
}

pub open spec fn opt_str_view(o: Option<&str>) -> Option<Seq<char>> {
    match o {
        Some(p) => Some(p@),
        None => None,
    }
}

/// The directory the service is installed into: the data directory joined
/// with the service's name (see `join_path` for the joins it states).
pub fn install_default_dir(program_data: Option<&str>, service_name: &str) -> (s: String)
    ensures
        join_stated(Platform::Windows, program_data_dir(opt_str_view(program_data)), service_name@)
            ==> s@ == joined_path(Platform::Windows, program_data_dir(opt_str_view(program_data)), service_name@),
{
    match program_data {
        Some(p) => crate::platform::join_path(Platform::Windows, p, service_name),
        None => {
            let d = default_program_data_string();
            crate::platform::join_path(Platform::Windows, d.as_str(), service_name)
        },
    }
}

/// The installed executable: `<service>.exe` joined onto the install
/// directory.
pub fn exe_path(program_data: Option<&str>, service_name: &str) -> (s: String)
    ensures
        ({
            let dir = joined_path(Platform::Windows, program_data_dir(opt_str_view(program_data)), service_name@);
            join_stated(Platform::Windows, program_data_dir(opt_str_view(program_data)), service_name@)
                && join_stated(Platform::Windows, dir, service_name@ + ".exe"@)
                ==> s@ == joined_path(Platform::Windows, dir, service_name@ + ".exe"@)
        }),
{
    let dir = install_default_dir(program_data, service_name);
    let file = crate::text::concat(service_name, ".exe");
    crate::platform::join_path(Platform::Windows, dir.as_str(), file.as_str())
}

/// The service's command line: the quoted executable, `service` and the
/// service's name.
pub fn service_bin_path(exe: &str, service_name: &str) -> (s: String)
    ensures
        s@ == "\""@ + exe@ + "\" service "@ + service_name@,
{
    let mut s = crate::text::owned("\"");
    crate::text::append_str(&mut s, exe);
    crate::text::append_str(&mut s, "\" service ");
    crate::text::append_str(&mut s, service_name);
    s
}

/// The text `sc.exe` printed: UTF-8 when it is that, else GBK (the
/// console code page of Chinese Windows).
pub uninterp spec fn gbk_decoded(bytes: Seq<u8>) -> Seq<char>;

/// `std::str::from_utf8`: text exactly when the bytes are valid UTF-8.
#[verifier::external_body]
fn utf8_text(bytes: &[u8]) -> (r: Option<String>)
    ensures
        r is Some <==> valid_utf8(bytes@),
        r matches Some(s) ==> s@ == decode_utf8(bytes@),
{
    match std::str::from_utf8(bytes) {
        Ok(t) => Some(t.to_owned()),
        Err(_) => None,
    }
}

/// `encoding_rs::GBK.decode`: the bytes decoded as GBK (a byte-order mark
/// selects its encoding instead), malformed sequences replaced by U+FFFD.
/// The crate panics only when the size it computes for the output buffer
/// (about three bytes per input byte, plus the input that is already valid)
/// overflows `usize` or exceeds `isize::MAX`; at most `usize::MAX / 8` input
/// bytes rules that out.
#[verifier::external_body]
fn gbk_decode(bytes: &[u8]) -> (s: String)
    requires
        bytes@.len() <= usize::MAX / 8,
    ensures
        s@ == gbk_decoded(bytes@),
{
    let (text, _, _) = encoding_rs::GBK.decode(bytes);
    text.into_owned()
}

/// What a Windows tool printed, as text: UTF-8 when the bytes are valid
/// UTF-8, GBK otherwise.
pub fn decode_windows_output(bytes: &[u8]) -> (s: String)
    requires
        bytes@.len() <= usize::MAX / 8,
    ensures
        valid_utf8(bytes@) ==> s@ == decode_utf8(bytes@),
        !valid_utf8(bytes@) ==> s@ == gbk_decoded(bytes@),
{
    match utf8_text(bytes) {
        Some(t) => t,
        None => gbk_decode(bytes),
    }
}

/// `sc query` output that says the service is unknown (error 1060).
pub open spec fn says_not_installed(out: Seq<char>) -> bool {
    has_sub(out, "1060"@)
}

/// A service is registered unless `sc query` failed saying it does not
/// exist.
pub fn parse_sc_registered(exit_success: bool, stdout: &str) -> (b: bool)
    ensures
        b == (exit_success || !says_not_installed(stdout@)),
{
    if exit_success {
        return true;
    }
    !crate::text::contains(stdout, "1060")
}

/// The position of the first line of `ls` that contains `p`.
pub open spec fn first_line_with(ls: Seq<Seq<char>>, p: Seq<char>) -> Option<int> {
    if exists|i: int| 0 <= i < ls.len() && has_sub(#[trigger] ls[i], p) {
        Some(choose|i: int| 0 <= i < ls.len() && has_sub(#[trigger] ls[i], p) && forall|k: int| 0 <= k < i ==> !has_sub(#[trigger] ls[k], p))
    } else {
        None
    }
}

/// What `sc query` says of the service's state: that it is not installed,
/// its first `STATE` line trimmed, or `unknown`.
pub open spec fn sc_state_text(out: Seq<char>) -> Seq<char> {
    if says_not_installed(out) {
        "Service is not installed."@
    } else {
        match first_line_with(lines_of(out), "STATE"@) {
            Some(i) => trimmed(lines_of(out)[i]),
            None => "unknown"@,
        }
    }
}

/// See `sc_state_text`.
pub fn parse_sc_state(sc_output: &str) -> (s: String)
    ensures
        s@ == sc_state_text(sc_output@),
{
    if crate::text::contains(sc_output, "1060") {
        return crate::text::owned("Service is not installed.");
    }
    let lines = split_lines(sc_output);
    let ghost ls = lines_of(sc_output@);
    let mut i: usize = 0;
    while i < lines.len()
        invariant
            !says_not_installed(sc_output@),
            ls == lines_of(sc_output@),
            lines@.len() == ls.len(),
            forall|k: int| 0 <= k < ls.len() ==> #[trigger] lines@[k]@ == ls[k],
            i <= lines.len(),
            forall|k: int| 0 <= k < i ==> !has_sub(#[trigger] ls[k], "STATE"@),
        decreases lines.len() - i,
    {
        if crate::text::contains(lines[i].as_str(), "STATE") {
            proof {
                assert(has_sub(ls[i as int], "STATE"@));
                let c = choose|c: int| 0 <= c < ls.len() && has_sub(#[trigger] ls[c], "STATE"@) && forall|k: int| 0 <= k < c ==> !has_sub(#[trigger] ls[k], "STATE"@);
                assert(0 <= c < ls.len() && has_sub(ls[c], "STATE"@) && forall|k: int| 0 <= k < c ==> !has_sub(#[trigger] ls[k], "STATE"@));
                if c < i {
                    assert(!has_sub(ls[c], "STATE"@));
                } else if c > i {
                    assert(!has_sub(ls[i as int], "STATE"@));
                }
                assert(first_line_with(ls, "STATE"@) == Some(i as int));
                assert(lines@[i as int]@ == ls[i as int]);
                assert(!says_not_installed(sc_output@));
                assert(sc_state_text(sc_output@) == trimmed(ls[i as int]));
            }
            return crate::text::trim(lines[i].as_str());
        }
        i = i + 1;
    }
    crate::text::owned("unknown")
}

/// `str::lines`, one string per line.
pub fn split_lines(s: &str) -> (out: Vec<String>)
    ensures
        out@.len() == lines_of(s@).len(),
        forall|k: int| 0 <= k < out@.len() ==> #[trigger] out@[k]@ == lines_of(s@)[k],
{
    let v = crate::text::chars_of(s);
    let mut out: Vec<String> = Vec::new();
    let mut start: usize = 0;
    let mut i: usize = 0;
    let ghost whole = s@;
    proof {
        assert(whole.skip(0) =~= whole);
        assert(out@.map_values(|l: String| l@) + lines_of(whole) =~= lines_of(whole));
    }
    while i < v.len()
        invariant
            v@ == whole,
            whole == s@,
            start <= i <= v.len(),
            forall|k: int| start <= k < i ==> v@[k] != '\n',
            lines_of(whole) == out@.map_values(|l: String| l@) + lines_of(whole.skip(start as int)),
        decreases v.len() - i,
    {
        if v[i] == '\n' {
            let end = if i > start && v[i - 1] == '\r' { i - 1 } else { i };
            let line = crate::text::string_from_range(&v, start, end);
            proof {
                let rest = whole.skip(start as int);
                let j = i - start;
                assert forall|k: int| 0 <= k < j implies rest[k] != '\n' by {
                    assert(rest[k] == v@[start + k]);
                }
                assert(rest[j] == '\n');
                crate::text::lemma_index_of_found(rest, '\n', j as int);
                assert(rest.take(j as int) =~= v@.subrange(start as int, i as int));
                assert(rest.skip(j + 1) =~= whole.skip(i + 1));
                if i > start && v@[i - 1] == '\r' {
                    assert(v@.subrange(start as int, i as int).drop_last() =~= v@.subrange(start as int, end as int));
                } else {
                    assert(v@.subrange(start as int, end as int) =~= v@.subrange(start as int, i as int));
                }
                assert(line@ == crate::text::strip_cr(rest.take(j as int)));
                assert(lines_of(rest) == seq![line@] + lines_of(whole.skip(i + 1)));
            }
            let ghost before = out@;
            out.push(line);
            proof {
                assert(out@.map_values(|l: String| l@) =~= before.map_values(|l: String| l@).push(line@));
                assert(out@.map_values(|l: String| l@) + lines_of(whole.skip(i + 1)) =~= before.map_values(|l: String| l@) + (seq![line@] + lines_of(whole.skip(i + 1))));
            }
            start = i + 1;
        }
        i = i + 1;
    }
    if start < v.len() {
        let line = crate::text::string_from_range(&v, start, v.len());
        proof {
            let rest = whole.skip(start as int);
            assert forall|k: int| 0 <= k < rest.len() implies rest[k] != '\n' by {
                assert(rest[k] == v@[start + k]);
            }
            crate::text::lemma_index_of_absent(rest, '\n');
            assert(rest =~= v@.subrange(start as int, v.len() as int));
            assert(lines_of(rest) == seq![line@]);
        }
        let ghost before = out@;
        out.push(line);
        proof {
            assert(out@.map_values(|l: String| l@) =~= before.map_values(|l: String| l@).push(line@));
            assert(lines_of(whole) =~= out@.map_values(|l: String| l@));
        }
    } else {
        proof {
            assert(whole.skip(start as int) =~= Seq::<char>::empty());
            assert(lines_of(whole) =~= out@.map_values(|l: String| l@));
        }
    }
    proof {
        assert forall|k: int| 0 <= k < out@.len() implies #[trigger] out@[k]@ == lines_of(s@)[k] by {
            assert(out@.map_values(|l: String| l@)[k] == out@[k]@);
        }
    }
    out
}

/// One argument as the `sc.exe` command line shows it: quoted, with its
/// quotes escaped, when it holds white space.
pub open spec fn sc_arg_text(a: Seq<char>) -> Seq<char> {
    if exists|i: int| 0 <= i < a.len() && crate::text::is_ws(#[trigger] a[i]) {
        "\""@ + replaced(a, "\""@, "\\\""@) + "\""@
    } else {
        a
    }
}

/// The `sc.exe` command line that is logged before a run: the arguments,
/// each shown as `sc_arg_text` says, separated by spaces.
pub fn sc_command_line(args: &Vec<String>) -> (s: String)
    ensures
        s@ == joined(args@.map_values(|a: String| sc_arg_text(a@)), " "@),
{
    let mut shown: Vec<String> = Vec::new();
    let mut i: usize = 0;
    while i < args.len()
        invariant
            i <= args.len(),
            shown@.map_values(|a: String| a@) == args@.take(i as int).map_values(|a: String| sc_arg_text(a@)),
        decreases args.len() - i,
    {
        let a = args[i].as_str();
        let t = if crate::text::has_whitespace(a) {
            proof {
                reveal_strlit("\"");
            }
            let mut t = crate::text::owned("\"");
            let inner = crate::text::replace_all(a, "\"", "\\\"");
            crate::text::append_str(&mut t, inner.as_str());
            crate::text::append_str(&mut t, "\"");
            t
        } else {
            crate::text::owned(a)
        };
        let ghost before = shown@;
        shown.push(t);
        proof {
            assert(shown@.map_values(|a: String| a@) =~= before.map_values(|a: String| a@).push(sc_arg_text(args@[i as int]@)));
            assert(args@.take(i + 1) =~= args@.take(i as int).push(args@[i as int]));
            assert(args@.take(i + 1).map_values(|a: String| sc_arg_text(a@)) =~= args@.take(i as int).map_values(|a: String| sc_arg_text(a@)).push(sc_arg_text(args@[i as int]@)));
        }
        i = i + 1;
    }
    proof {
        assert(args@.take(args@.len() as int) =~= args@);
    }
    crate::text::join(&shown, " ")
}

/// The outcome of `sc create`: success, or a failure that says the service
/// already exists (1073), is fine; anything else is an error with the
/// trimmed output.
pub fn sc_create_result(exit_success: bool, stdout: &str) -> (r: Result<(), String>)
    ensures
        (exit_success || has_sub(stdout@, "1073"@)) ==> r is Ok,
        !(exit_success || has_sub(stdout@, "1073"@)) ==> (r matches Err(e) && e@ == "sc create failed: "@ + trimmed(stdout@)),
{
    if !exit_success && !crate::text::contains(stdout, "1073") {
        let t = crate::text::trim(stdout);
        return Err(crate::text::concat("sc create failed: ", t.as_str()));
    }
    Ok(())
}

/// The outcome of `sc start`: success, or a failure that says the service
/// already runs (1056), is fine; anything else is an error with the
/// trimmed output.
pub fn sc_start_result(exit_success: bool, stdout: &str) -> (r: Result<(), String>)
    ensures
        (exit_success || has_sub(stdout@, "1056"@)) ==> r is Ok,
        !(exit_success || has_sub(stdout@, "1056"@)) ==> (r matches Err(e) && e@ == "sc start failed: "@ + trimmed(stdout@)),
{
    if !exit_success {
        if crate::text::contains(stdout, "1056") {
            return Ok(());
        }
        let t = crate::text::trim(stdout);
        return Err(crate::text::concat("sc start failed: ", t.as_str()));
    }
    Ok(())
}

/// `sc query` output that shows the service stopped or gone.
pub fn sc_query_stopped(stdout: &str) -> (b: bool)
    ensures
        b == (has_sub(stdout@, "STOPPED"@) || has_sub(stdout@, "1060"@)),
{
    crate::text::contains(stdout, "STOPPED") || crate::text::contains(stdout, "1060")
}

/// How many times `stop_service` asks whether the service stopped, half a
/// second apart.
pub fn stop_poll_limit() -> (n: u32)
    ensures
        n == 20,
{
    20
}

/// `dir` holds a `..` component: two dots standing alone between
/// separators (or the ends of the path).
pub open spec fn has_parent_component(platform: Platform, dir: Seq<char>) -> bool {
    exists|i: int|
        0 <= i && i + 2 <= dir.len() && #[trigger] dir[i] == '.' && dir[i + 1] == '.' && (i == 0
            || crate::platform::is_separator(platform, dir[i - 1])) && (i + 2 == dir.len()
            || crate::platform::is_separator(platform, dir[i + 2]))
}

/// A configuration directory that may be copied beside the installed
/// executable: relative to the executable, i.e. not absolute and with no
/// root, drive or other prefix, and no `..` component.  Every Windows
/// prefix starts with a separator or a drive.
pub open spec fn copyable_config_dir(platform: Platform, dir: Seq<char>) -> bool {
    &&& !(dir.len() > 0 && crate::platform::is_separator(platform, dir[0]))
    &&& !(platform == Platform::Windows && starts_with_drive(dir))
    &&& !has_parent_component(platform, dir)
}

fn is_sep_char(platform: Platform, c: char) -> (b: bool)
    ensures
        b == crate::platform::is_separator(platform, c),
{
    c == '/' || (platform == Platform::Windows && c == '\\')
}

/// See `copyable_config_dir`.
pub fn config_dir_is_copyable(platform: Platform, dir: &str) -> (b: bool)
    ensures
        b == copyable_config_dir(platform, dir@),
{
    let v = crate::text::chars_of(dir);
    if v.len() > 0 && is_sep_char(platform, v[0]) {
        return false;
    }
    let windows = platform == Platform::Windows;
    if windows && v.len() >= 2 && v[1] == ':' && (('a' <= v[0] && v[0] <= 'z') || ('A' <= v[0]
        && v[0] <= 'Z')) {
        return false;
    }
    let mut i: usize = 0;
    while v.len() >= 2 && i <= v.len() - 2
        invariant
            v@ == dir@,
            i <= v.len(),
            forall|k: int|
                0 <= k < i && k + 2 <= v.len() ==> !(#[trigger] v@[k] == '.' && v@[k + 1] == '.' && (k
                    == 0 || crate::platform::is_separator(platform, v@[k - 1])) && (k + 2 == v.len()
                    || crate::platform::is_separator(platform, v@[k + 2]))),
        decreases v.len() - i,
    {
        if v[i] == '.' && v[i + 1] == '.' && (i == 0 || is_sep_char(platform, v[i - 1])) && (i + 2
            == v.len() || is_sep_char(platform, v[i + 2])) {
            return false;
        }
        i = i + 1;
    }
    true
}

/// The words of `v`.
pub open spec fn words(v: Seq<String>) -> Seq<Seq<char>> {
    v.map_values(|a: String| a@)
}

fn strings(parts: &[&str]) -> (v: Vec<String>)
    ensures
        v@.len() == parts@.len(),
        forall|i: int| 0 <= i < parts@.len() ==> #[trigger] v@[i]@ == parts@[i]@,
{
    let mut v: Vec<String> = Vec::new();
    let mut i: usize = 0;
    while i < parts.len()
        invariant
            i <= parts@.len(),
            v@.len() == i,
            forall|k: int| 0 <= k < i ==> #[trigger] v@[k]@ == parts@[k]@,
        decreases parts@.len() - i,
    {
        v.push(crate::text::owned(parts[i]));
        i = i + 1;
    }
    v
}

/// The arguments of `sc create`: the service, its command line, its display
/// name, automatic start, and the local system account.
pub fn sc_create_args(service_name: &str, bin_path: &str) -> (v: Vec<String>)
    ensures
        words(v@) == seq![
            "create"@,
            service_name@,
            "binPath="@,
            bin_path@,
            "DisplayName="@,
            "Supervisord"@,
            "start="@,
            "auto"@,
            "obj="@,
            "LocalSystem"@,
        ],
{
    let v = strings(
        &[
            "create",
            service_name,
            "binPath=",
            bin_path,
            "DisplayName=",
            "Supervisord",
            "start=",
            "auto",
            "obj=",
            "LocalSystem",
        ],
    );
    assert(words(v@) =~= seq![
        "create"@,
        service_name@,
        "binPath="@,
        bin_path@,
        "DisplayName="@,
        "Supervisord"@,
        "start="@,
        "auto"@,
        "obj="@,
        "LocalSystem"@,
    ]);
    v
}

/// The arguments of `sc description`: the service and what it is.
pub fn sc_description_args(service_name: &str) -> (v: Vec<String>)
    ensures
        words(v@) == seq![
            "description"@,
            service_name@,
            "A watchdog developed by Rust, guarding the base system"@,
        ],
{
    let v = strings(&["description", service_name, "A watchdog developed by Rust, guarding the base system"]);
    assert(words(v@) =~= seq![
        "description"@,
        service_name@,
        "A watchdog developed by Rust, guarding the base system"@,
    ]);
    v
}

/// The arguments of `sc failure`: restart after 5 s, 5 s and 10 s, and
/// forget failures after 60 s.
pub fn sc_failure_args(service_name: &str) -> (v: Vec<String>)
    ensures
        words(v@) == seq![
            "failure"@,
            service_name@,
            "reset="@,
            "60"@,
            "actions="@,
            "restart/5000/restart/5000/restart/10000"@,
        ],
{
    let v = strings(
        &["failure", service_name, "reset=", "60", "actions=", "restart/5000/restart/5000/restart/10000"],
    );
    assert(words(v@) =~= seq![
        "failure"@,
        service_name@,
        "reset="@,
        "60"@,
        "actions="@,
        "restart/5000/restart/5000/restart/10000"@,
    ]);
    v
}

/// The arguments of `sc <verb> <service>` (`start`, `stop`, `query`,
/// `delete`).
pub fn sc_service_args(verb: &str, service_name: &str) -> (v: Vec<String>)
    ensures
        words(v@) == seq![verb@, service_name@],
{
    let v = strings(&[verb, service_name]);
    assert(words(v@) =~= seq![verb@, service_name@]);
    v
}

/// A control request the Windows service manager sends.
#[derive(Clone, Copy, Debug, PartialEq, Eq, Structural)]
pub enum ServiceControlEvent {
    Stop,
    Shutdown,
    Interrogate,
    /// Any other request.
    Other,
}

/// How the service answers a control request.
#[derive(Clone, Copy, Debug, PartialEq, Eq, Structural)]
pub struct ControlDecision {
    /// The request is handled (`NoError`); otherwise it is not implemented.
    pub handled: bool,
    /// The daemon is to shut down.
    pub shut_down: bool,
}

/// `Stop` and `Shutdown` are handled and shut the daemon down;
/// `Interrogate` is handled; anything else is not implemented.
pub fn service_control_decision(event: ServiceControlEvent) -> (d: ControlDecision)
    ensures
        d.handled == (event != ServiceControlEvent::Other),
        d.shut_down == (event == ServiceControlEvent::Stop || event == ServiceControlEvent::Shutdown),
{
    match event {
        ServiceControlEvent::Stop | ServiceControlEvent::Shutdown => ControlDecision { handled: true, shut_down: true },
        ServiceControlEvent::Interrogate => ControlDecision { handled: true, shut_down: false },
        ServiceControlEvent::Other => ControlDecision { handled: false, shut_down: false },
    }
}

} // verus!
