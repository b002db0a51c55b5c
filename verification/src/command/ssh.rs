//! Ssh destinations, authentication and the command lines of ssh sessions.
use vstd::prelude::*;
use crate::command::builder::{command_text, command_text_with_env, strings_view, CommandBuilder, CommandBuilderView};
use crate::command::env::{env_insert, lookup, EnvVars};
use crate::command::local::{apply_env, envs_inserted};
use crate::path::{joined, path_join};
use crate::text::{decimal, push_decimal, push_str, to_owned_string};

verus! {

/// Settings for ssh sessions.
#[derive(Debug, Clone)]
pub struct SshConfig {
    socket_dir: String,
    ssh_cmd: String,
    runas_cmd: String,
    shell_cmd: String,
    cache_limit: usize,
}

/// What an ssh configuration holds.
pub struct SshConfigView {
    pub socket_dir: Seq<char>,
    pub ssh_cmd: Seq<char>,
    pub runas_cmd: Seq<char>,
    pub shell_cmd: Seq<char>,
    pub cache_limit: usize,
}

impl View for SshConfig {
    type V = SshConfigView;

    closed spec fn view(&self) -> SshConfigView {
        SshConfigView {
            socket_dir: self.socket_dir@,
            ssh_cmd: self.ssh_cmd@,
            runas_cmd: self.runas_cmd@,
            shell_cmd: self.shell_cmd@,
            cache_limit: self.cache_limit,
        }
    }
}

impl SshConfig {
    /// A configuration with the given values.
    pub fn new(socket_dir: String, ssh_cmd: String, runas_cmd: String, shell_cmd: String, cache_limit: usize) -> (c: SshConfig)
        ensures
            c@ == (SshConfigView {
                socket_dir: socket_dir@,
                ssh_cmd: ssh_cmd@,
                runas_cmd: runas_cmd@,
                shell_cmd: shell_cmd@,
                cache_limit,
            }),
    {
        SshConfig { socket_dir, ssh_cmd, runas_cmd, shell_cmd, cache_limit }
    }

    /// The directory of the master-connection sockets.
    pub fn socket_dir(&self) -> (s: &str)
        ensures
            s@ == self@.socket_dir,
    {
        self.socket_dir.as_str()
    }

    /// The ssh program.
    pub fn ssh_cmd(&self) -> (s: &str)
        ensures
            s@ == self@.ssh_cmd,
    {
        self.ssh_cmd.as_str()
    }

    /// The command for running as another user.
    pub fn runas_cmd(&self) -> (s: &str)
        ensures
            s@ == self@.runas_cmd,
    {
        self.runas_cmd.as_str()
    }

    /// The remote shell.
    pub fn shell_cmd(&self) -> (s: &str)
        ensures
            s@ == self@.shell_cmd,
    {
        self.shell_cmd.as_str()
    }

    /// How many sessions the cache keeps.
    pub fn cache_limit(&self) -> (n: usize)
        ensures
            n == self@.cache_limit,
    {
        self.cache_limit
    }

    /// Sets the directory of the master-connection sockets.
    pub fn set_socket_dir(&mut self, socket_dir: &str)
        ensures
            final(self)@ == (SshConfigView { socket_dir: socket_dir@, ..old(self)@ }),
    {
        self.socket_dir = to_owned_string(socket_dir);
    }
}

impl Default for SshConfig {
    fn default() -> (c: SshConfig)
        ensures
            c@ == (SshConfigView {
                socket_dir: "/var/run/opereon/ssh"@,
                ssh_cmd: "/bin/ssh"@,
                runas_cmd: "/bin/sudo"@,
                shell_cmd: "/bin/bash"@,
                cache_limit: 10,
            }),
    {
        SshConfig {
            socket_dir: to_owned_string("/var/run/opereon/ssh"),
            ssh_cmd: to_owned_string("/bin/ssh"),
            runas_cmd: to_owned_string("/bin/sudo"),
            shell_cmd: to_owned_string("/bin/bash"),
            cache_limit: 10,
        }
    }
}

/// How ssh authenticates.
#[derive(Debug, Clone, PartialEq, Eq)]
pub enum SshAuth {
    /// Whatever ssh does by default.
    Default,
    /// A private key file.
    PublicKey { identity_file: String },
    /// A password, handed to ssh through an askpass program.
    Password { password: String },
}

impl Default for SshAuth {
    fn default() -> (a: SshAuth)
        ensures
            a == SshAuth::Default,
    {
        SshAuth::Default
    }
}

/// The command line after `auth` has set it up; `ask_path` is the askpass program.
pub open spec fn with_auth(b: CommandBuilderView, auth: SshAuth, ask_path: Seq<char>) -> CommandBuilderView {
    match auth {
        SshAuth::Default => b,
        SshAuth::PublicKey { identity_file } => CommandBuilderView {
            args: b.args.push("-i"@).push(identity_file@),
            ..b
        },
        SshAuth::Password { password } => CommandBuilderView {
            args: b.args.push("-o"@).push("NumberOfPasswordPrompts=1"@),
            envs: env_insert(env_insert(env_insert(b.envs, "DISPLAY"@, ":0"@), "SSH_ASKPASS"@, ask_path), "OPEREON_PASSWD"@, password@),
            setsid: true,
            ..b
        },
    }
}

impl SshAuth {
    /// Adds to `cmd` what this authentication needs; `ask_path` is the askpass
    /// program that hands the password to ssh.
    pub fn set_auth(&self, cmd: &mut CommandBuilder, ask_path: &str)
        ensures
            final(cmd)@ == with_auth(old(cmd)@, *self, ask_path@),
    {
        match self {
            SshAuth::Default => {},
            SshAuth::PublicKey { identity_file } => {
                cmd.arg("-i").arg(identity_file.as_str());
            },
            SshAuth::Password { password } => {
                cmd.arg("-o").arg("NumberOfPasswordPrompts=1");
                cmd.env("DISPLAY", ":0");
                cmd.env("SSH_ASKPASS", ask_path);
                cmd.env("OPEREON_PASSWD", password.as_str());
                cmd.setsid(true);
            },
        }
    }
}

/// A user at a host and port, with the way to authenticate.
#[derive(Debug, Clone, PartialEq, Eq)]
pub struct SshDest {
    hostname: String,
    port: u16,
    username: String,
    auth: SshAuth,
}

/// What an ssh destination holds.
pub struct SshDestView {
    pub hostname: Seq<char>,
    pub port: u16,
    pub username: Seq<char>,
    pub auth: SshAuth,
}

impl View for SshDest {
    type V = SshDestView;

    closed spec fn view(&self) -> SshDestView {
        SshDestView { hostname: self.hostname@, port: self.port, username: self.username@, auth: self.auth }
    }
}

/// `ssh://user@host`, with `:port` unless the port is 22.
pub open spec fn dest_url(d: SshDestView) -> Seq<char> {
    if d.port == 22 {
        "ssh://"@ + d.username + "@"@ + d.hostname
    } else {
        "ssh://"@ + d.username + "@"@ + d.hostname + ":"@ + decimal(d.port as nat)
    }
}

/// `user-host-port`, the key of a destination in the session cache.
pub open spec fn dest_id(d: SshDestView) -> Seq<char> {
    d.username + "-"@ + d.hostname + "-"@ + decimal(d.port as nat)
}

/// The command line after the destination has been added: `user@host` when
/// `target`, `-p port` unless the port is 22, then the authentication.
pub open spec fn with_dest(b: CommandBuilderView, d: SshDestView, target: bool, ask_path: Seq<char>) -> CommandBuilderView {
    let b1 = if target {
        CommandBuilderView { args: b.args.push(d.username + "@"@ + d.hostname), ..b }
    } else {
        b
    };
    let b2 = if d.port != 22 {
        CommandBuilderView { args: b1.args.push("-p"@).push(decimal(d.port as nat)), ..b1 }
    } else {
        b1
    };
    with_auth(b2, d.auth, ask_path)
}

/// The name of the user this process runs as, from the `users` crate.
#[verifier::external_body]
pub(crate) fn current_username() -> Option<String> {
    match users::get_current_username() {
        Some(u) => u.to_str().map(|s| s.to_string()),
        None => None,
    }
}

impl SshDest {
    /// A destination with the given values.
    pub fn new(hostname: &str, port: u16, username: &str, auth: SshAuth) -> (d: SshDest)
        ensures
            d@ == (SshDestView { hostname: hostname@, port, username: username@, auth }),
    {
        SshDest { hostname: to_owned_string(hostname), port, username: to_owned_string(username), auth }
    }

    /// The destination named by the parts of an ssh url: a url without a user
    /// name stands for the user this process runs as, one without a port for
    /// port 22. None when the url names no user and the current user is unknown.
    pub fn from_url(hostname: &str, url_username: &str, port: Option<u16>, auth: SshAuth) -> (d: Option<SshDest>)
        ensures
            url_username@.len() > 0 ==> d is Some,
            d is Some ==> d.unwrap()@.hostname == hostname@,
            d is Some ==> d.unwrap()@.port == match port { Some(p) => p, None => 22u16 },
            d is Some ==> d.unwrap()@.auth == auth,
            url_username@.len() > 0 ==> d.unwrap()@.username == url_username@,
    {
        let username = if url_username.unicode_len() == 0 {
            match current_username() {
                Some(u) => u,
                None => return None,
            }
        } else {
            to_owned_string(url_username)
        };
        let port = match port {
            Some(p) => p,
            None => 22,
        };
        Some(SshDest { hostname: to_owned_string(hostname), port, username, auth })
    }

    /// The destination as an ssh url.
    pub fn to_url(&self) -> (s: String)
        ensures
            s@ == dest_url(self@),
    {
        let mut out = String::new();
        push_str(&mut out, "ssh://");
        push_str(&mut out, self.username.as_str());
        push_str(&mut out, "@");
        push_str(&mut out, self.hostname.as_str());
        if self.port != 22 {
            push_str(&mut out, ":");
            push_decimal(&mut out, self.port as u64);
        }
        assert(out@ =~= dest_url(self@));
        out
    }

    /// Adds the destination to an ssh command line; `ask_path` is the askpass program.
    pub fn set_dest(&self, target: bool, cmd: &mut CommandBuilder, ask_path: &str)
        ensures
            final(cmd)@ == with_dest(old(cmd)@, self@, target, ask_path@),
    {
        if target {
            let mut t = String::new();
            push_str(&mut t, self.username.as_str());
            push_str(&mut t, "@");
            push_str(&mut t, self.hostname.as_str());
            cmd.arg(t.as_str());
        }
        if self.port != 22 {
            let mut p = String::new();
            push_decimal(&mut p, self.port as u64);
            assert(p@ =~= decimal(self.port as nat));
            cmd.arg("-p").arg(p.as_str());
        }
        self.auth.set_auth(cmd, ask_path);
    }

    /// The key of the destination in the session cache: `user-host-port`.
    pub fn to_id_string(&self) -> (s: String)
        ensures
            s@ == dest_id(self@),
    {
        let mut out = String::new();
        push_str(&mut out, self.username.as_str());
        push_str(&mut out, "-");
        push_str(&mut out, self.hostname.as_str());
        push_str(&mut out, "-");
        push_decimal(&mut out, self.port as u64);
        assert(out@ =~= dest_id(self@));
        out
    }

    /// The host name.
    pub fn hostname(&self) -> (s: &str)
        ensures
            s@ == self@.hostname,
    {
        self.hostname.as_str()
    }

    /// Sets the host name.
    pub fn set_hostname(&mut self, hostname: &str)
        ensures
            final(self)@ == (SshDestView { hostname: hostname@, ..old(self)@ }),
    {
        self.hostname = to_owned_string(hostname);
    }

    /// The port.
    pub fn port(&self) -> (p: u16)
        ensures
            p == self@.port,
    {
        self.port
    }

    /// Sets the port.
    pub fn set_port(&mut self, port: u16)
        ensures
            final(self)@ == (SshDestView { port, ..old(self)@ }),
    {
        self.port = port;
    }

    /// The user name.
    pub fn username(&self) -> (s: &str)
        ensures
            s@ == self@.username,
    {
        self.username.as_str()
    }

    /// Sets the user name.
    pub fn set_username(&mut self, username: &str)
        ensures
            final(self)@ == (SshDestView { username: username@, ..old(self)@ }),
    {
        self.username = to_owned_string(username);
    }

    /// Sets the user name to `name`, the name the system reports for this
    /// process; false, and the destination unchanged, where it reports none.
    pub fn set_username_from(&mut self, name: Option<String>) -> (ok: bool)
        ensures
            ok == name is Some,
            match name {
                Some(n) => final(self)@ == (SshDestView { username: n@, ..old(self)@ }),
                None => final(self)@ == old(self)@,
            },
    {
        match name {
            Some(u) => {
                self.username = u;
                true
            },
            None => false,
        }
    }

    /// Sets the user name to that of the user this process runs as; false, and
    /// the destination unchanged, when that user is unknown.
    pub fn set_username_current(&mut self) -> (ok: bool)
        ensures
            !ok ==> final(self)@ == old(self)@,
            ok ==> final(self)@.hostname == old(self)@.hostname
                && final(self)@.port == old(self)@.port
                && final(self)@.auth == old(self)@.auth,
    {
        self.set_username_from(current_username())
    }

    /// The authentication.
    pub fn auth(&self) -> (a: &SshAuth)
        ensures
            *a == self@.auth,
    {
        &self.auth
    }

    /// The authentication, for changing it in place.
    pub fn auth_mut(&mut self) -> (a: &mut SshAuth)
        ensures
            *a == old(self)@.auth,
            final(self)@ == (SshDestView { auth: *final(a), ..old(self)@ }),
    {
        &mut self.auth
    }

    /// Sets the authentication.
    pub fn set_auth(&mut self, auth: SshAuth)
        ensures
            final(self)@ == (SshDestView { auth, ..old(self)@ }),
    {
        self.auth = auth;
    }
}

impl Default for SshDest {
    fn default() -> (d: SshDest)
        ensures
            d@ == (SshDestView { hostname: Seq::empty(), port: 22, username: Seq::empty(), auth: SshAuth::Default }),
    {
        SshDest { hostname: String::new(), port: 22, username: String::new(), auth: SshAuth::Default }
    }
}

/// The kinds of error of an ssh session.
#[derive(Debug, Clone, PartialEq, Eq)]
pub enum SshErrorDetail {
    /// The ssh process did not exit successfully; its standard error.
    SshProcess { stderr: String },
    /// The session is not open.
    SshClosed,
    /// The ssh process could not be spawned.
    SshSpawn,
    /// The socket directory could not be created.
    SocketDir,
}

/// An error of an ssh session, with the I/O error that caused it, if any.
#[derive(Debug)]
pub struct SshError {
    pub detail: SshErrorDetail,
    pub cause: Option<std::io::Error>,
}

impl SshErrorDetail {
    /// The error for a session that is not open.
    pub fn closed<T>() -> (r: Result<T, SshError>)
        ensures
            r matches Err(e) && e.detail == SshErrorDetail::SshClosed && e.cause is None,
    {
        Err(SshError { detail: SshErrorDetail::SshClosed, cause: None })
    }

    /// The error for an ssh process that exited unsuccessfully with `stderr`.
    pub fn process_exit<T>(stderr: String) -> (r: Result<T, SshError>)
        ensures
            r matches Err(e) && e.detail == (SshErrorDetail::SshProcess { stderr }) && e.cause is None,
    {
        Err(SshError { detail: SshErrorDetail::SshProcess { stderr }, cause: None })
    }

    /// The error for an ssh process that could not be spawned, caused by `err`.
    pub fn spawn_err(err: std::io::Error) -> (e: SshError)
        ensures
            e.detail == SshErrorDetail::SshSpawn,
            e.cause == Some(err),
    {
        SshError { detail: SshErrorDetail::SshSpawn, cause: Some(err) }
    }
}

/// A session through an ssh master connection to one destination.
#[derive(Debug)]
pub struct SshSession {
    opened: bool,
    config: SshConfig,
    id: String,
    socket_path: String,
    dest: SshDest,
}

/// What a session holds.
pub struct SshSessionView {
    pub opened: bool,
    pub config: SshConfigView,
    pub id: Seq<char>,
    pub socket_path: Seq<char>,
    pub dest: SshDestView,
}

impl View for SshSession {
    type V = SshSessionView;

    closed spec fn view(&self) -> SshSessionView {
        SshSessionView {
            opened: self.opened,
            config: self.config@,
            id: self.id@,
            socket_path: self.socket_path@,
            dest: self.dest@,
        }
    }
}

/// The base ssh command line of a session: the destination, then
/// `-S socket -T -o StrictHostKeyChecking=yes`.
pub open spec fn session_command(s: SshSessionView, target: bool, ask_path: Seq<char>) -> CommandBuilderView {
    let b = with_dest(
        CommandBuilderView { cmd: s.config.ssh_cmd, args: Seq::empty(), envs: Seq::empty(), setsid: false },
        s.dest,
        target,
        ask_path,
    );
    CommandBuilderView {
        args: b.args + seq!["-S"@, s.socket_path, "-T"@, "-o"@, "StrictHostKeyChecking=yes"@],
        ..b
    }
}

/// `b` with `extra` appended to its arguments.
pub open spec fn with_more_args(b: CommandBuilderView, extra: Seq<Seq<char>>) -> CommandBuilderView {
    CommandBuilderView { args: b.args + extra, ..b }
}

/// The command line a user command runs as on the remote side: variables first.
pub open spec fn remote_user_command(cmd: Seq<char>, args: Seq<Seq<char>>, env: Option<Seq<(Seq<char>, Seq<char>)>>) -> Seq<char> {
    command_text_with_env(CommandBuilderView {
        cmd,
        args,
        envs: match env { Some(e) => envs_inserted(Seq::empty(), e), None => Seq::empty() },
        setsid: false,
    })
}

/// The remote shell that reads a script from standard input, as `run_as` where given.
pub open spec fn remote_script_command(config: SshConfigView, run_as: Option<Seq<char>>) -> Seq<char> {
    match run_as {
        Some(user) => command_text(CommandBuilderView {
            cmd: config.runas_cmd,
            args: seq!["-u"@, user, config.shell_cmd, "/dev/stdin"@],
            envs: Seq::empty(),
            setsid: false,
        }),
        None => command_text(CommandBuilderView {
            cmd: config.shell_cmd,
            args: seq!["/dev/stdin"@],
            envs: Seq::empty(),
            setsid: false,
        }),
    }
}

fn push_args(cmd: &mut CommandBuilder, extra: &[&str])
    ensures
        final(cmd)@ == with_more_args(old(cmd)@, extra@.map_values(|s: &str| s@)),
{
    let n = extra.len();
    let mut i: usize = 0;
    while i < n
        invariant
            n == extra@.len(),
            i <= n,
            cmd@ == with_more_args(old(cmd)@, extra@.map_values(|s: &str| s@).take(i as int)),
        decreases n - i,
    {
        cmd.arg(extra[i]);
        assert(old(cmd)@.args + extra@.map_values(|s: &str| s@).take((i + 1) as int)
            =~= (old(cmd)@.args + extra@.map_values(|s: &str| s@).take(i as int)).push(extra@[i as int]@));
        i = i + 1;
    }
    assert(extra@.map_values(|s: &str| s@).take(n as int) =~= extra@.map_values(|s: &str| s@));
}

/// No `user@host` target is the argument `-p`.
proof fn lemma_target_not_port_flag(u: Seq<char>, h: Seq<char>)
    ensures
        u + "@"@ + h != "-p"@,
{
    reveal_strlit("@");
    reveal_strlit("-p");
    let t = u + "@"@ + h;
    assert(t[u.len() as int] == '@');
    if t == "-p"@ {
        assert(t.len() == 2);
        if u.len() == 0 {
            assert(t[0] == '-');
        } else {
            assert(t[1] == 'p');
        }
    }
}

/// An ssh command line names the destination's port exactly when it is not
/// ssh's default: for a port other than 22 the arguments hold `-p` and the
/// port in decimal, right after the `user@host` target where there is one;
/// for port 22 no argument is `-p`, unless the identity file or the socket
/// path is itself so named.
pub proof fn law_session_port(s: SshSessionView, target: bool, ask_path: Seq<char>)
    ensures
        ({
            let a = session_command(s, target, ask_path).args;
            let i: int = if target { 1 } else { 0 };
            &&& target ==> a.len() > 0 && a[0] == s.dest.username + "@"@ + s.dest.hostname
            &&& s.dest.port != 22 ==> a.len() > i + 1 && a[i] == "-p"@ && a[i + 1] == decimal(s.dest.port as nat)
        }),
        (s.dest.port == 22 && s.socket_path != "-p"@
            && !(s.dest.auth matches SshAuth::PublicKey { identity_file } && identity_file@ == "-p"@))
            ==> !session_command(s, target, ask_path).args.contains("-p"@),
{
    reveal_strlit("-p");
    reveal_strlit("-i");
    reveal_strlit("-o");
    reveal_strlit("-S");
    reveal_strlit("-T");
    reveal_strlit("NumberOfPasswordPrompts=1");
    reveal_strlit("StrictHostKeyChecking=yes");
    let d = s.dest;
    let b0 = CommandBuilderView { cmd: s.config.ssh_cmd, args: Seq::empty(), envs: Seq::empty(), setsid: false };
    let t = d.username + "@"@ + d.hostname;
    let b1 = if target { CommandBuilderView { args: b0.args.push(t), ..b0 } } else { b0 };
    let b2 = if d.port != 22 {
        CommandBuilderView { args: b1.args.push("-p"@).push(decimal(d.port as nat)), ..b1 }
    } else {
        b1
    };
    let extra: Seq<Seq<char>> = match d.auth {
        SshAuth::Default => Seq::empty(),
        SshAuth::PublicKey { identity_file } => seq!["-i"@, identity_file@],
        SshAuth::Password { password } => seq!["-o"@, "NumberOfPasswordPrompts=1"@],
    };
    assert(with_dest(b0, d, target, ask_path).args =~= b2.args + extra);
    let tail = seq!["-S"@, s.socket_path, "-T"@, "-o"@, "StrictHostKeyChecking=yes"@];
    let a = session_command(s, target, ask_path).args;
    assert(a =~= b2.args + extra + tail);
    if target {
        assert(a[0] == t);
    }
    if d.port != 22 {
        let i: int = if target { 1 } else { 0 };
        assert(a[i] == "-p"@);
        assert(a[i + 1] == decimal(d.port as nat));
    }
    if d.port == 22 && s.socket_path != "-p"@ && !(d.auth matches SshAuth::PublicKey { identity_file } && identity_file@ == "-p"@) {
        lemma_target_not_port_flag(d.username, d.hostname);
        assert forall|k: int| 0 <= k < a.len() implies a[k] != "-p"@ by {
            let n1 = b2.args.len();
            let n2 = n1 + extra.len();
            if k < n1 {
                assert(a[k] == t);
            } else if k < n2 {
                assert(a[k] == extra[k - n1]);
                if k - n1 == 0 {
                    assert(a[k][1] != 'p');
                } else {
                    match d.auth {
                        SshAuth::Password { password } => {
                            assert(a[k].len() != 2);
                        },
                        _ => {},
                    }
                }
            } else {
                assert(a[k] == tail[k - n2]);
                if k - n2 == 1 {
                } else if k - n2 == 4 {
                    assert(a[k].len() != 2);
                } else {
                    assert(a[k][1] != 'p');
                }
            }
        }
    }
}

/// An ssh command line authenticates as the destination says, right after
/// the target and the port: with a key, `-i` and the identity file; with a
/// password, a single password prompt, answered by the askpass program from
/// the `OPEREON_PASSWD` variable, in a session of its own; by default, with
/// nothing added and no variables set.
pub proof fn law_session_auth(s: SshSessionView, target: bool, ask_path: Seq<char>)
    ensures
        ({
            let b = session_command(s, target, ask_path);
            let i: int = (if target { 1int } else { 0int }) + (if s.dest.port != 22 { 2int } else { 0int });
            &&& s.dest.auth matches SshAuth::PublicKey { identity_file } ==> b.args.len() > i + 1
                && b.args[i] == "-i"@ && b.args[i + 1] == identity_file@
            &&& s.dest.auth matches SshAuth::Password { password } ==> b.args.len() > i + 1
                && b.args[i] == "-o"@ && b.args[i + 1] == "NumberOfPasswordPrompts=1"@
                && lookup(b.envs, "OPEREON_PASSWD"@) == Some(password@) && b.setsid
            &&& s.dest.auth is Default ==> b.envs.len() == 0 && !b.setsid && b.args[i] == "-S"@
        }),
{
    let d = s.dest;
    let b0 = CommandBuilderView { cmd: s.config.ssh_cmd, args: Seq::empty(), envs: Seq::empty(), setsid: false };
    let t = d.username + "@"@ + d.hostname;
    let b1 = if target { CommandBuilderView { args: b0.args.push(t), ..b0 } } else { b0 };
    let b2 = if d.port != 22 {
        CommandBuilderView { args: b1.args.push("-p"@).push(decimal(d.port as nat)), ..b1 }
    } else {
        b1
    };
    let i: int = (if target { 1int } else { 0int }) + (if d.port != 22 { 2int } else { 0int });
    assert(b2.args.len() == i);
    let b = session_command(s, target, ask_path);
    let tail = seq!["-S"@, s.socket_path, "-T"@, "-o"@, "StrictHostKeyChecking=yes"@];
    match d.auth {
        SshAuth::Default => {
            assert(b.args =~= b2.args + tail);
            assert(b.args[i] == tail[0]);
        },
        SshAuth::PublicKey { identity_file } => {
            assert(b.args =~= b2.args + seq!["-i"@, identity_file@] + tail);
            assert(b.args[i] == "-i"@);
            assert(b.args[i + 1] == identity_file@);
        },
        SshAuth::Password { password } => {
            assert(b.args =~= b2.args + seq!["-o"@, "NumberOfPasswordPrompts=1"@] + tail);
            assert(b.args[i] == "-o"@);
            assert(b.args[i + 1] == "NumberOfPasswordPrompts=1"@);
        },
    }
}

impl SshSession {
    /// A closed session to `dest`; its socket is named after the destination.
    pub fn new(dest: SshDest, config: SshConfig) -> (s: SshSession)
        ensures
            s@ == (SshSessionView {
                opened: false,
                config: config@,
                id: dest_id(dest@),
                socket_path: joined(config@.socket_dir, dest_id(dest@) + ".sock"@),
                dest: dest@,
            }),
    {
        let id = dest.to_id_string();
        let mut sock = to_owned_string(id.as_str());
        push_str(&mut sock, ".sock");
        let socket_path = path_join(config.socket_dir(), sock.as_str());
        SshSession { opened: false, config, id, socket_path, dest }
    }

    /// Whether the master connection is open.
    pub fn is_opened(&self) -> (b: bool)
        ensures
            b == self@.opened,
    {
        self.opened
    }

    /// Records that the master connection was opened.
    pub fn set_opened(&mut self, opened: bool)
        ensures
            final(self)@ == (SshSessionView { opened, ..old(self)@ }),
    {
        self.opened = opened;
    }

    /// The session key: `user-host-port`.
    pub fn id(&self) -> (s: &str)
        ensures
            s@ == self@.id,
    {
        self.id.as_str()
    }

    /// The destination.
    pub fn dest(&self) -> (d: &SshDest)
        ensures
            d@ == self@.dest,
    {
        &self.dest
    }

    /// The configuration.
    pub fn config(&self) -> (c: &SshConfig)
        ensures
            c@ == self@.config,
    {
        &self.config
    }

    /// The base ssh command line; with `include_target` false the `user@host` argument is left out.
    pub fn ssh_cmd(&self, include_target: bool, ask_path: &str) -> (b: CommandBuilder)
        ensures
            b@ == session_command(self@, include_target, ask_path@),
    {
        let mut cmd = CommandBuilder::new(self.config.ssh_cmd());
        self.dest.set_dest(include_target, &mut cmd, ask_path);
        cmd.arg("-S").arg(self.socket_path.as_str()).arg("-T").arg("-o").arg("StrictHostKeyChecking=yes");
        proof {
            let b = with_dest(
                CommandBuilderView { cmd: self@.config.ssh_cmd, args: Seq::empty(), envs: Seq::empty(), setsid: false },
                self@.dest,
                include_target,
                ask_path@,
            );
            assert(cmd@.args =~= b.args + seq!["-S"@, self@.socket_path, "-T"@, "-o"@, "StrictHostKeyChecking=yes"@]);
        }
        cmd
    }

    /// The ssh command string without the target host and user name.
    pub fn remote_shell_cmd(&self, ask_path: &str) -> (s: String)
        ensures
            s@ == command_text(session_command(self@, false, ask_path@)),
    {
        let cmd = self.ssh_cmd(false, ask_path);
        cmd.to_string()
    }

    /// The command line that opens the master connection.
    pub fn open_cmd(&self, ask_path: &str) -> (b: CommandBuilder)
        ensures
            b@ == with_more_args(session_command(self@, true, ask_path@), seq![
                "-n"@, "-M"@, "-N"@, "-o"@, "ControlMaster=auto"@, "-o"@, "ControlPersist=yes"@, "-o"@, "ConnectTimeout=2"@,
            ]),
    {
        let mut cmd = self.ssh_cmd(true, ask_path);
        let extra: [&str; 9] = ["-n", "-M", "-N", "-o", "ControlMaster=auto", "-o", "ControlPersist=yes", "-o", "ConnectTimeout=2"];
        push_args(&mut cmd, &extra);
        assert(extra@.map_values(|s: &str| s@) =~= seq![
            "-n"@, "-M"@, "-N"@, "-o"@, "ControlMaster=auto"@, "-o"@, "ControlPersist=yes"@, "-o"@, "ConnectTimeout=2"@,
        ]);
        cmd
    }

    /// The command line that checks the master connection; an error when the session is not open.
    pub fn check_cmd(&self, ask_path: &str) -> (r: Result<CommandBuilder, SshErrorDetail>)
        ensures
            !self@.opened <==> r is Err,
            r is Err ==> r == Err::<CommandBuilder, SshErrorDetail>(SshErrorDetail::SshClosed),
            r matches Ok(b) ==> b@ == with_more_args(session_command(self@, true, ask_path@), seq![
                "-O"@, "check"@, "-o"@, "ConnectTimeout=2"@,
            ]),
    {
        if !self.opened {
            return Err(SshErrorDetail::SshClosed);
        }
        let mut cmd = self.ssh_cmd(true, ask_path);
        let extra: [&str; 4] = ["-O", "check", "-o", "ConnectTimeout=2"];
        push_args(&mut cmd, &extra);
        assert(extra@.map_values(|s: &str| s@) =~= seq!["-O"@, "check"@, "-o"@, "ConnectTimeout=2"@]);
        Ok(cmd)
    }

    /// The command line that closes the master connection; none when the session is not open.
    pub fn close_cmd(&self, ask_path: &str) -> (r: Option<CommandBuilder>)
        ensures
            !self@.opened <==> r is None,
            r matches Some(b) ==> b@ == with_more_args(session_command(self@, true, ask_path@), seq![
                "-O"@, "exit"@, "-o"@, "ConnectTimeout=2"@,
            ]),
    {
        if !self.opened {
            return None;
        }
        let mut cmd = self.ssh_cmd(true, ask_path);
        let extra: [&str; 4] = ["-O", "exit", "-o", "ConnectTimeout=2"];
        push_args(&mut cmd, &extra);
        assert(extra@.map_values(|s: &str| s@) =~= seq!["-O"@, "exit"@, "-o"@, "ConnectTimeout=2"@]);
        Some(cmd)
    }

    /// The command line that runs `cmd` with `args` and `env` on the remote
    /// host; an error when the session is not open.
    pub fn command_cmd(&self, cmd: &str, args: &[String], env: Option<&EnvVars>, ask_path: &str) -> (r: Result<CommandBuilder, SshErrorDetail>)
        ensures
            !self@.opened <==> r is Err,
            r is Err ==> r == Err::<CommandBuilder, SshErrorDetail>(SshErrorDetail::SshClosed),
            r matches Ok(b) ==> b@ == with_more_args(session_command(self@, true, ask_path@), seq![
                "-o"@, "BatchMode=yes"@,
                remote_user_command(cmd@, strings_view(args@), crate::command::script::opt_env_view(env)),
            ]),
    {
        if !self.opened {
            return Err(SshErrorDetail::SshClosed);
        }
        let mut builder = CommandBuilder::new(cmd);
        match env {
            Some(e) => apply_env(&mut builder, e),
            None => {},
        }
        builder.args(args);
        let usr_cmd = builder.to_string_with_env();
        let mut ssh = self.ssh_cmd(true, ask_path);
        let ghost base = ssh@;
        ssh.arg("-o").arg("BatchMode=yes").arg(usr_cmd.as_str());
        assert(ssh@.args =~= base.args + seq!["-o"@, "BatchMode=yes"@, usr_cmd@]);
        proof {
            assert(builder@.envs == match crate::command::script::opt_env_view(env) {
                Some(e) => envs_inserted(Seq::empty(), e),
                None => Seq::empty(),
            });
        }
        Ok(ssh)
    }

    /// The command line that runs a shell reading a script from standard input
    /// on the remote host, as `run_as` where given; an error when the session is not open.
    pub fn script_cmd(&self, run_as: Option<&str>, ask_path: &str) -> (r: Result<CommandBuilder, SshErrorDetail>)
        ensures
            !self@.opened <==> r is Err,
            r is Err ==> r == Err::<CommandBuilder, SshErrorDetail>(SshErrorDetail::SshClosed),
            r matches Ok(b) ==> b@ == with_more_args(session_command(self@, true, ask_path@), seq![
                "-o"@, "BatchMode=yes"@,
                remote_script_command(self@.config, crate::command::script::opt_str_view(run_as)),
            ]),
    {
        if !self.opened {
            return Err(SshErrorDetail::SshClosed);
        }
        let mut builder = match run_as {
            Some(user) => {
                let mut b = CommandBuilder::new(self.config.runas_cmd());
                b.arg("-u").arg(user).arg(self.config.shell_cmd());
                b
            },
            None => CommandBuilder::new(self.config.shell_cmd()),
        };
        builder.arg("/dev/stdin");
        proof {
            match run_as {
                Some(user) => {
                    assert(builder@.args =~= seq!["-u"@, user@, self@.config.shell_cmd, "/dev/stdin"@]);
                },
                None => {
                    assert(builder@.args =~= seq!["/dev/stdin"@]);
                },
            }
        }
        let usr_cmd = builder.to_string();
        let mut ssh = self.ssh_cmd(true, ask_path);
        let ghost base = ssh@;
        ssh.arg("-o").arg("BatchMode=yes").arg(usr_cmd.as_str());
        assert(ssh@.args =~= base.args + seq!["-o"@, "BatchMode=yes"@, usr_cmd@]);
        Ok(ssh)
    }
}

} // verus!
