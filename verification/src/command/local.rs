//! Commands and scripts run on the local host, possibly as another user.
use vstd::prelude::*;
use crate::command::builder::{strings_view, CommandBuilder, CommandBuilderView};
use crate::command::env::{env_insert, pairs_view, EnvVars};
use crate::command::SourceRef;
use crate::text::push_str;

verus! {

/// Settings for running local commands.
#[derive(Debug, Clone)]
pub struct LocalConfig {
    runas_cmd: String,
}

impl LocalConfig {
    /// A configuration with the given command for running as another user.
    pub fn new(runas_cmd: String) -> (c: LocalConfig)
        ensures
            c.runas_cmd_view() == runas_cmd@,
    {
        LocalConfig { runas_cmd }
    }

    /// The command for running as another user.
    pub closed spec fn runas_cmd_view(&self) -> Seq<char> {
        self.runas_cmd@
    }

    /// The command for running as another user.
    pub fn runas_cmd(&self) -> (s: &str)
        ensures
            s@ == self.runas_cmd_view(),
    {
        self.runas_cmd.as_str()
    }
}

impl Default for LocalConfig {
    fn default() -> (c: LocalConfig)
        ensures
            c.runas_cmd_view() == "/bin/sudo"@,
    {
        LocalConfig { runas_cmd: crate::text::to_owned_string("/bin/sudo") }
    }
}

/// The keys of an environment joined with commas.
pub open spec fn keys_joined(envs: Seq<(Seq<char>, Seq<char>)>) -> Seq<char>
    decreases envs.len(),
{
    if envs.len() == 0 {
        Seq::empty()
    } else if envs.len() == 1 {
        envs[0].0
    } else {
        keys_joined(envs.drop_last()) + seq![','] + envs.last().0
    }
}

/// The command that `prepare_builder` makes: `cmd` itself, or, to run as `user`,
/// `runas -u user [--preserve-env=K1,K2] cmd`.
pub open spec fn prepared_command(
    cmd: Seq<char>,
    env: Option<Seq<(Seq<char>, Seq<char>)>>,
    run_as: Option<Seq<char>>,
    runas_cmd: Seq<char>,
) -> CommandBuilderView {
    match run_as {
        Some(user) => CommandBuilderView {
            cmd: runas_cmd,
            args: seq!["-u"@, user] + (match env {
                Some(e) => seq!["--preserve-env="@ + keys_joined(e)],
                None => Seq::empty(),
            }) + seq![cmd],
            envs: Seq::empty(),
            setsid: false,
        },
        None => CommandBuilderView {
            cmd: cmd,
            args: Seq::empty(),
            envs: Seq::empty(),
            setsid: false,
        },
    }
}

fn push_keys_joined(out: &mut String, env: &EnvVars)
    ensures
        final(out)@ == old(out)@ + keys_joined(env@),
{
    let entries = env.entries();
    let n = entries.len();
    let mut i: usize = 0;
    while i < n
        invariant
            n == entries@.len(),
            pairs_view(entries@) == env@,
            i <= n,
            out@ == old(out)@ + keys_joined(env@.take(i as int)),
        decreases n - i,
    {
        if i > 0 {
            crate::text::push_char(out, ',');
        }
        push_str(out, entries[i].0.as_str());
        proof {
            let t = env@.take((i + 1) as int);
            assert(t.drop_last() =~= env@.take(i as int));
            assert(t.last() == (entries@[i as int].0@, entries@[i as int].1@));
            if i == 0 {
                assert(t[0] == t.last());
            }
            assert(out@ =~= old(out)@ + keys_joined(t));
        }
        i = i + 1;
    }
    assert(env@.take(n as int) =~= env@);
}

/// The command running `cmd`, as `run_as` where given.
pub fn prepare_builder(cmd: &str, env: Option<&EnvVars>, run_as: Option<&str>, config: &LocalConfig) -> (b: CommandBuilder)
    ensures
        b@ == prepared_command(
            cmd@,
            crate::command::script::opt_env_view(env),
            crate::command::script::opt_str_view(run_as),
            config.runas_cmd_view(),
        ),
{
    match run_as {
        Some(user) => {
            let mut builder = CommandBuilder::new(config.runas_cmd());
            builder.arg("-u").arg(user);
            let ghost mid = builder@.args;
            match env {
                Some(e) => {
                    let mut pe = String::new();
                    push_str(&mut pe, "--preserve-env=");
                    push_keys_joined(&mut pe, e);
                    builder.arg(pe.as_str());
                },
                None => {},
            }
            builder.arg(cmd);
            assert(builder@.args =~= prepared_command(
                cmd@,
                crate::command::script::opt_env_view(env),
                crate::command::script::opt_str_view(run_as),
                config.runas_cmd_view(),
            ).args);
            builder
        },
        None => CommandBuilder::new(cmd),
    }
}

/// `b` with the arguments appended and the variables set in order.
pub open spec fn with_args_and_env(b: CommandBuilderView, args: Seq<Seq<char>>, env: Option<Seq<(Seq<char>, Seq<char>)>>) -> CommandBuilderView {
    CommandBuilderView {
        args: b.args + args,
        envs: match env { Some(e) => envs_inserted(b.envs, e), None => b.envs },
        ..b
    }
}

/// `envs` after inserting each entry of `e` in order.
pub open spec fn envs_inserted(envs: Seq<(Seq<char>, Seq<char>)>, e: Seq<(Seq<char>, Seq<char>)>) -> Seq<(Seq<char>, Seq<char>)>
    decreases e.len(),
{
    if e.len() == 0 {
        envs
    } else {
        env_insert(envs_inserted(envs, e.drop_last()), e.last().0, e.last().1)
    }
}

/// Sets each variable of `env` on `builder`, in order.
pub fn apply_env(builder: &mut CommandBuilder, env: &EnvVars)
    ensures
        final(builder)@ == (CommandBuilderView { envs: envs_inserted(old(builder)@.envs, env@), ..old(builder)@ }),
{
    let entries = env.entries();
    let n = entries.len();
    let mut i: usize = 0;
    while i < n
        invariant
            n == entries@.len(),
            pairs_view(entries@) == env@,
            i <= n,
            builder@ == (CommandBuilderView { envs: envs_inserted(old(builder)@.envs, env@.take(i as int)), ..old(builder)@ }),
        decreases n - i,
    {
        builder.env(entries[i].0.as_str(), entries[i].1.as_str());
        proof {
            let t = env@.take((i + 1) as int);
            assert(t.drop_last() =~= env@.take(i as int));
            assert(t.last() == (entries@[i as int].0@, entries@[i as int].1@));
        }
        i = i + 1;
    }
    assert(env@.take(n as int) =~= env@);
}

/// The command line for running `cmd` with `args` and `env` on the local host.
pub fn local_command_builder(
    cmd: &str,
    args: &[String],
    env: Option<&EnvVars>,
    run_as: Option<&str>,
    config: &LocalConfig,
) -> (b: CommandBuilder)
    ensures
        b@ == with_args_and_env(
            prepared_command(
                cmd@,
                crate::command::script::opt_env_view(env),
                crate::command::script::opt_str_view(run_as),
                config.runas_cmd_view(),
            ),
            strings_view(args@),
            crate::command::script::opt_env_view(env),
        ),
{
    let mut builder = prepare_builder(cmd, env, run_as, config);
    builder.args(args);
    match env {
        Some(e) => apply_env(&mut builder, e),
        None => {},
    }
    builder
}

/// The argument naming the script: its path, or standard input for inline source.
pub open spec fn script_arg(script: SourceRef) -> Seq<char> {
    match script {
        SourceRef::Path(p) => p@,
        SourceRef::Source(_) => "/dev/stdin"@,
    }
}

/// The command line for running a script with `shell_cmd` on the local host:
/// the script is named by its path, or read from standard input.
pub fn local_script_builder(
    shell_cmd: &str,
    script: SourceRef,
    args: &[String],
    env: Option<&EnvVars>,
    run_as: Option<&str>,
    config: &LocalConfig,
) -> (b: CommandBuilder)
    ensures
        b@ == with_args_and_env(
            CommandBuilderView {
                args: prepared_command(
                    shell_cmd@,
                    crate::command::script::opt_env_view(env),
                    crate::command::script::opt_str_view(run_as),
                    config.runas_cmd_view(),
                ).args.push(script_arg(script)),
                ..prepared_command(
                    shell_cmd@,
                    crate::command::script::opt_env_view(env),
                    crate::command::script::opt_str_view(run_as),
                    config.runas_cmd_view(),
                )
            },
            strings_view(args@),
            crate::command::script::opt_env_view(env),
        ),
{
    let mut builder = prepare_builder(shell_cmd, env, run_as, config);
    match script {
        SourceRef::Path(p) => {
            builder.arg(p);
        },
        SourceRef::Source(_) => {
            builder.arg("/dev/stdin");
        },
    }
    builder.args(args);
    match env {
        Some(e) => apply_env(&mut builder, e),
        None => {},
    }
    builder
}

} // verus!
