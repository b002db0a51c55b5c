//! A command line under construction: program, arguments, environment.
use vstd::prelude::*;
use crate::command::env::{env_insert, pairs_view, EnvVars};
use crate::text::{contains_char, has_char, push_str, to_owned_string};

verus! {

/// What a command builder holds.
pub struct CommandBuilderView {
    pub cmd: Seq<char>,
    pub args: Seq<Seq<char>>,
    pub envs: Seq<(Seq<char>, Seq<char>)>,
    pub setsid: bool,
}

/// A command line: program, arguments, environment and whether it runs in a new session.
#[derive(Debug, Clone)]
pub struct CommandBuilder {
    cmd: String,
    args: Vec<String>,
    envs: EnvVars,
    setsid: bool,
}

/// The view of a list of strings.
pub open spec fn strings_view(v: Seq<String>) -> Seq<Seq<char>> {
    v.map_values(|s: String| s@)
}

impl View for CommandBuilder {
    type V = CommandBuilderView;

    closed spec fn view(&self) -> CommandBuilderView {
        CommandBuilderView {
            cmd: self.cmd@,
            args: strings_view(self.args@),
            envs: self.envs@,
            setsid: self.setsid,
        }
    }
}

/// An argument as a command line shows it: after a space, and in double
/// quotes when it holds a space.
pub open spec fn arg_text(a: Seq<char>) -> Seq<char> {
    if has_char(a, ' ') {
        seq![' ', '"'] + a + seq!['"']
    } else {
        seq![' '] + a
    }
}

/// The arguments as a command line shows them.
pub open spec fn args_text(args: Seq<Seq<char>>) -> Seq<char>
    decreases args.len(),
{
    if args.len() == 0 {
        Seq::empty()
    } else {
        args_text(args.drop_last()) + arg_text(args.last())
    }
}

/// One variable as `NAME='value'`.
pub open spec fn env_text(e: (Seq<char>, Seq<char>)) -> Seq<char> {
    e.0 + seq!['=', '\''] + e.1 + seq!['\'']
}

/// The variables as `A='x' B='y'`.
pub open spec fn envs_text(envs: Seq<(Seq<char>, Seq<char>)>) -> Seq<char>
    decreases envs.len(),
{
    if envs.len() == 0 {
        Seq::empty()
    } else if envs.len() == 1 {
        env_text(envs[0])
    } else {
        envs_text(envs.drop_last()) + seq![' '] + env_text(envs.last())
    }
}

/// The command line: program followed by its arguments.
pub open spec fn command_text(b: CommandBuilderView) -> Seq<char> {
    b.cmd + args_text(b.args)
}

/// The command line preceded by its environment.
pub open spec fn command_text_with_env(b: CommandBuilderView) -> Seq<char> {
    envs_text(b.envs) + seq![' '] + b.cmd + args_text(b.args)
}

fn push_args_text(out: &mut String, args: &Vec<String>)
    ensures
        final(out)@ == old(out)@ + args_text(strings_view(args@)),
{
    let n = args.len();
    let mut i: usize = 0;
    while i < n
        invariant
            n == args.len(),
            i <= n,
            out@ == old(out)@ + args_text(strings_view(args@).take(i as int)),
        decreases n - i,
    {
        let ghost before = out@;
        let a = args[i].as_str();
        let sp = contains_char(a, ' ');
        if sp {
            push_str(out, " \"");
            push_str(out, a);
            push_str(out, "\"");
        } else {
            push_str(out, " ");
            push_str(out, a);
        }
        proof {
            reveal_strlit(" \"");
            reveal_strlit("\"");
            reveal_strlit(" ");
            let t = strings_view(args@).take((i + 1) as int);
            assert(t.drop_last() =~= strings_view(args@).take(i as int));
            assert(t.last() == args@[i as int]@);
            assert(out@ =~= before + arg_text(args@[i as int]@));
        }
        i = i + 1;
    }
    assert(strings_view(args@).take(n as int) =~= strings_view(args@));
}

fn push_envs_text(out: &mut String, envs: &Vec<(String, String)>)
    ensures
        final(out)@ == old(out)@ + envs_text(pairs_view(envs@)),
{
    let n = envs.len();
    let mut i: usize = 0;
    while i < n
        invariant
            n == envs.len(),
            i <= n,
            out@ == old(out)@ + envs_text(pairs_view(envs@).take(i as int)),
        decreases n - i,
    {
        let ghost before = out@;
        if i > 0 {
            push_str(out, " ");
        }
        push_str(out, envs[i].0.as_str());
        push_str(out, "='");
        push_str(out, envs[i].1.as_str());
        push_str(out, "'");
        proof {
            reveal_strlit(" ");
            reveal_strlit("='");
            reveal_strlit("'");
            let t = pairs_view(envs@).take((i + 1) as int);
            assert(t.drop_last() =~= pairs_view(envs@).take(i as int));
            assert(t.last() == (envs@[i as int].0@, envs@[i as int].1@));
            if i == 0 {
                assert(t.len() == 1);
                assert(t[0] == t.last());
                assert(pairs_view(envs@).take(0) =~= Seq::empty());
            }
            assert(out@ =~= old(out)@ + envs_text(t));
        }
        i = i + 1;
    }
    assert(pairs_view(envs@).take(n as int) =~= pairs_view(envs@));
}

impl CommandBuilder {
    /// A command running `cmd` with no arguments, no extra environment and no new session.
    pub fn new(cmd: &str) -> (b: CommandBuilder)
        ensures
            b@.cmd == cmd@,
            b@.args == Seq::<Seq<char>>::empty(),
            b@.envs == Seq::<(Seq<char>, Seq<char>)>::empty(),
            !b@.setsid,
    {
        let b = CommandBuilder {
            cmd: to_owned_string(cmd),
            args: Vec::new(),
            envs: EnvVars::new(),
            setsid: false,
        };
        assert(b@.args =~= Seq::<Seq<char>>::empty());
        b
    }

    /// Appends one argument.
    pub fn arg(&mut self, arg: &str) -> (r: &mut CommandBuilder)
        ensures
            r@ == (CommandBuilderView { args: old(self)@.args.push(arg@), ..old(self)@ }),
            *final(self) == *final(r),
    {
        self.push_arg(arg);
        self
    }

    fn push_arg(&mut self, arg: &str)
        ensures
            final(self)@ == (CommandBuilderView { args: old(self)@.args.push(arg@), ..old(self)@ }),
    {
        self.args.push(to_owned_string(arg));
        assert(strings_view(self.args@) =~= strings_view(old(self).args@).push(arg@));
    }

    /// Appends the arguments in order.
    pub fn args(&mut self, args: &[String]) -> (r: &mut CommandBuilder)
        ensures
            r@ == (CommandBuilderView { args: old(self)@.args + strings_view(args@), ..old(self)@ }),
            *final(self) == *final(r),
    {
        let n = args.len();
        let mut i: usize = 0;
        while i < n
            invariant
                n == args@.len(),
                i <= n,
                self@ == (CommandBuilderView { args: old(self)@.args + strings_view(args@).take(i as int), ..old(self)@ }),
            decreases n - i,
        {
            self.push_arg(args[i].as_str());
            assert(strings_view(args@).take((i + 1) as int) =~= strings_view(args@).take(i as int).push(args@[i as int]@));
            assert(old(self)@.args + strings_view(args@).take((i + 1) as int) =~= (old(self)@.args + strings_view(args@).take(i as int)).push(args@[i as int]@));
            i = i + 1;
        }
        assert(strings_view(args@).take(n as int) =~= strings_view(args@));
        self
    }

    /// Sets an environment variable; a variable already set is replaced and moves to the back.
    pub fn env(&mut self, key: &str, value: &str) -> (r: &mut CommandBuilder)
        ensures
            r@ == (CommandBuilderView { envs: env_insert(old(self)@.envs, key@, value@), ..old(self)@ }),
            *final(self) == *final(r),
    {
        self.envs.insert(to_owned_string(key), to_owned_string(value));
        self
    }

    /// Whether the command runs in a new session.
    pub fn setsid(&mut self, enable: bool) -> (r: &mut CommandBuilder)
        ensures
            r@ == (CommandBuilderView { setsid: enable, ..old(self)@ }),
            *final(self) == *final(r),
    {
        self.setsid = enable;
        self
    }

    /// The program.
    pub fn cmd(&self) -> (c: &String)
        ensures
            c@ == self@.cmd,
    {
        &self.cmd
    }

    /// The arguments in order.
    pub fn get_args(&self) -> (a: &Vec<String>)
        ensures
            strings_view(a@) == self@.args,
    {
        &self.args
    }

    /// The environment variables in insertion order.
    pub fn get_envs(&self) -> (e: &EnvVars)
        ensures
            e@ == self@.envs,
    {
        &self.envs
    }

    /// Whether the command runs in a new session.
    pub fn get_setsid(&self) -> (s: bool)
        ensures
            s == self@.setsid,
    {
        self.setsid
    }

    /// The command line with its environment first, e.g. `ENV1='some value' printenv`.
    pub fn to_string_with_env(&self) -> (s: String)
        ensures
            s@ == command_text_with_env(self@),
    {
        let mut out = String::new();
        push_envs_text(&mut out, self.envs.entries());
        push_str(&mut out, " ");
        push_str(&mut out, self.cmd.as_str());
        push_args_text(&mut out, &self.args);
        proof {
            reveal_strlit(" ");
            assert(out@ =~= command_text_with_env(self@));
        }
        out
    }

    /// The command line: program and arguments, arguments with spaces in double quotes.
    pub fn to_string(&self) -> (s: String)
        ensures
            s@ == command_text(self@),
    {
        let mut out = String::new();
        push_str(&mut out, self.cmd.as_str());
        push_args_text(&mut out, &self.args);
        assert(out@ =~= command_text(self@));
        out
    }
}

} // verus!
