//! The bash wrapper script that runs a user script from a temporary file.
use vstd::prelude::*;
use crate::command::env::{pairs_view, EnvVars};
use crate::text::{hex, push_hex, push_str, trim, trimmed};
use rand::Rng;

verus! {

/// A random number from the thread-local generator of the `rand` crate.
#[verifier::external_body]
fn random_u64() -> u64 {
    rand::thread_rng().gen::<u64>()
}

/// `export NAME='value'` lines for each variable, in order.
pub open spec fn exports_text(envs: Seq<(Seq<char>, Seq<char>)>) -> Seq<char>
    decreases envs.len(),
{
    if envs.len() == 0 {
        Seq::empty()
    } else {
        exports_text(envs.drop_last()) + "export "@ + envs.last().0 + "='"@ + envs.last().1 + "'\n"@
    }
}

/// Each argument as ` 'arg'`.
pub open spec fn single_quoted_args(args: Seq<Seq<char>>) -> Seq<char>
    decreases args.len(),
{
    if args.len() == 0 {
        Seq::empty()
    } else {
        single_quoted_args(args.drop_last()) + " '"@ + args.last() + "'"@
    }
}

/// The view of an optional environment.
pub open spec fn opt_env_view(env: Option<&EnvVars>) -> Option<Seq<(Seq<char>, Seq<char>)>> {
    match env { Some(e) => Some(e@), None => None }
}

/// The view of an optional string slice.
pub open spec fn opt_str_view(s: Option<&str>) -> Option<Seq<char>> {
    match s { Some(c) => Some(c@), None => None }
}

/// The path of the temporary script file.
pub open spec fn tmp_script_path(id: u64) -> Seq<char> {
    "/dev/shm/op_"@ + hex(id as nat)
}

/// The wrapper script: it changes to `cwd`, exports the variables, writes the
/// trimmed user script to a temporary file, runs it with the arguments, removes
/// the file and exits with the script's status.
pub open spec fn script_text(
    script: Seq<char>,
    args: Seq<Seq<char>>,
    envs: Option<Seq<(Seq<char>, Seq<char>)>>,
    cwd: Option<Seq<char>>,
    id: u64,
) -> Seq<char> {
    let tmp = tmp_script_path(id);
    "#!/usr/bin/env bash\n"@
    + (match cwd { Some(c) => "cd \""@ + c + "\"\n"@, None => Seq::empty() })
    + (match envs { Some(e) => exports_text(e), None => Seq::empty() })
    + "cat > "@ + tmp + " <<-'%%EOF%%'\n"@
    + trimmed(script) + "\n"@
    + "%%EOF%%\n"@
    + "chmod +x "@ + tmp + "\n"@
    + (if args.len() == 0 { "("@ + tmp + ")\n"@ } else { "("@ + tmp + single_quoted_args(args) + ")\n"@ })
    + "STATUS=$?\n"@
    + "rm -f "@ + tmp + "\n"@
    + "exit $STATUS\n"@
}

fn push_exports(out: &mut String, envs: &EnvVars)
    ensures
        final(out)@ == old(out)@ + exports_text(envs@),
{
    let entries = envs.entries();
    let n = entries.len();
    let mut i: usize = 0;
    while i < n
        invariant
            n == entries@.len(),
            pairs_view(entries@) == envs@,
            i <= n,
            out@ == old(out)@ + exports_text(envs@.take(i as int)),
        decreases n - i,
    {
        let ghost before = out@;
        push_str(out, "export ");
        push_str(out, entries[i].0.as_str());
        push_str(out, "='");
        push_str(out, entries[i].1.as_str());
        push_str(out, "'\n");
        proof {
            let t = envs@.take((i + 1) as int);
            assert(t.drop_last() =~= envs@.take(i as int));
            assert(t.last() == (entries@[i as int].0@, entries@[i as int].1@));
            assert(out@ =~= old(out)@ + exports_text(t));
        }
        i = i + 1;
    }
    assert(envs@.take(n as int) =~= envs@);
}

fn push_single_quoted_args(out: &mut String, args: &[String])
    ensures
        final(out)@ == old(out)@ + single_quoted_args(crate::command::builder::strings_view(args@)),
{
    let ghost sv = crate::command::builder::strings_view(args@);
    let n = args.len();
    let mut i: usize = 0;
    while i < n
        invariant
            n == args@.len(),
            sv == crate::command::builder::strings_view(args@),
            i <= n,
            out@ == old(out)@ + single_quoted_args(sv.take(i as int)),
        decreases n - i,
    {
        push_str(out, " '");
        push_str(out, args[i].as_str());
        push_str(out, "'");
        proof {
            let t = sv.take((i + 1) as int);
            assert(t.drop_last() =~= sv.take(i as int));
            assert(t.last() == args@[i as int]@);
            assert(out@ =~= old(out)@ + single_quoted_args(t));
        }
        i = i + 1;
    }
    assert(sv.take(n as int) =~= sv);
}

/// The wrapper script for a user script, its arguments, environment and
/// working directory; `id` names the temporary file.
pub fn render_script(
    script: &str,
    args: &[String],
    env: Option<&EnvVars>,
    cwd: Option<&str>,
    id: u64,
) -> (s: String)
    ensures
        s@ == script_text(
            script@,
            crate::command::builder::strings_view(args@),
            opt_env_view(env),
            opt_str_view(cwd),
            id,
        ),
{
    let mut out = String::new();
    let mut tmp = String::new();
    push_str(&mut tmp, "/dev/shm/op_");
    push_hex(&mut tmp, id);
    assert(tmp@ =~= tmp_script_path(id));

    push_str(&mut out, "#!/usr/bin/env bash\n");
    let ghost p1 = out@;
    match cwd {
        Some(c) => {
            push_str(&mut out, "cd \"");
            push_str(&mut out, c);
            push_str(&mut out, "\"\n");
        },
        None => {},
    }
    let ghost p2 = out@;
    match env {
        Some(e) => {
            push_exports(&mut out, e);
        },
        None => {},
    }
    let ghost p3 = out@;
    push_str(&mut out, "cat > ");
    push_str(&mut out, tmp.as_str());
    push_str(&mut out, " <<-'%%EOF%%'\n");
    push_str(&mut out, trim(script));
    push_str(&mut out, "\n");
    push_str(&mut out, "%%EOF%%\n");
    push_str(&mut out, "chmod +x ");
    push_str(&mut out, tmp.as_str());
    push_str(&mut out, "\n");
    let ghost p4 = out@;
    if args.len() == 0 {
        push_str(&mut out, "(");
        push_str(&mut out, tmp.as_str());
        push_str(&mut out, ")\n");
    } else {
        push_str(&mut out, "(");
        push_str(&mut out, tmp.as_str());
        push_single_quoted_args(&mut out, args);
        push_str(&mut out, ")\n");
    }
    let ghost p5 = out@;
    push_str(&mut out, "STATUS=$?\n");
    push_str(&mut out, "rm -f ");
    push_str(&mut out, tmp.as_str());
    push_str(&mut out, "\n");
    push_str(&mut out, "exit $STATUS\n");
    proof {
        let sv = crate::command::builder::strings_view(args@);
        assert(sv.len() == args@.len());
        let e = match env { Some(e) => Some(e@), None => None };
        let c = match cwd { Some(c) => Some(c@), None => None };
        assert(p1 =~= "#!/usr/bin/env bash\n"@);
        assert(p2 =~= p1 + (match c { Some(c) => "cd \""@ + c + "\"\n"@, None => Seq::empty() }));
        assert(p3 =~= p2 + (match e { Some(e) => exports_text(e), None => Seq::empty() }));
        assert(out@ =~= script_text(script@, sv, e, c, id));
    }
    out
}

/// The wrapper script for a user script, with a temporary file named by a random number.
pub fn prepare_script(script: &str, args: &[String], env: Option<&EnvVars>, cwd: Option<&str>) -> (s: String)
    ensures
        exists|id: u64| s@ == #[trigger] script_text(
            script@,
            crate::command::builder::strings_view(args@),
            opt_env_view(env),
            opt_str_view(cwd),
            id,
        ),
{
    let id = random_u64();
    render_script(script, args, env, cwd, id)
}

} // verus!
