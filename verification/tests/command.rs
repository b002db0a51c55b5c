use opereon::command::builder::CommandBuilder;
use opereon::command::env::EnvVars;
use opereon::command::lru::{lru_get, lru_insert};
use opereon::command::local::{local_command_builder, local_script_builder, prepare_builder, LocalConfig};
use opereon::command::script::{prepare_script, render_script};
use opereon::command::ssh::{SshAuth, SshConfig, SshDest, SshErrorDetail, SshSession};
use opereon::command::{CommandOutput, Source, SourceRef};

fn env(pairs: &[(&str, &str)]) -> EnvVars {
    let mut e = EnvVars::new();
    for (k, v) in pairs {
        e.insert(k.to_string(), v.to_string());
    }
    e
}

fn strings(v: &[&str]) -> Vec<String> {
    v.iter().map(|s| s.to_string()).collect()
}

#[test]
fn env_vars_keep_order_and_move_reset_keys_to_the_end() {
    let mut e = env(&[("A", "1"), ("B", "2")]);
    assert_eq!(e.len(), 2);
    assert!(!e.is_empty());
    e.insert("A".to_string(), "3".to_string());
    let pairs: Vec<(String, String)> = e.entries().clone();
    assert_eq!(pairs, vec![("B".to_string(), "2".to_string()), ("A".to_string(), "3".to_string())]);
    assert_eq!(e.get("A").map(|s| s.as_str()), Some("3"));
    assert!(e.get("C").is_none());
    assert!(EnvVars::new().is_empty());
}

#[test]
fn command_line_text() {
    let mut b = CommandBuilder::new("ls");
    b.arg("-l").arg("my dir").env("A", "x").env("B", "y z");
    assert_eq!(b.to_string(), "ls -l \"my dir\"");
    assert_eq!(b.to_string_with_env(), "A='x' B='y z' ls -l \"my dir\"");
    assert_eq!(b.cmd(), "ls");
    assert_eq!(b.get_args(), &strings(&["-l", "my dir"]));
    assert_eq!(b.get_envs().len(), 2);
    assert!(!b.get_setsid());
    b.setsid(true);
    assert!(b.get_setsid());
    b.args(&strings(&["a", "b"]));
    assert_eq!(b.to_string(), "ls -l \"my dir\" a b");
}

#[test]
fn local_commands_as_another_user() {
    let config = LocalConfig::default();
    assert_eq!(config.runas_cmd(), "/bin/sudo");
    let e = env(&[("K1", "v1"), ("K2", "v2")]);
    let b = prepare_builder("echo", Some(&e), Some("bob"), &config);
    assert_eq!(b.to_string(), "/bin/sudo -u bob --preserve-env=K1,K2 echo");
    let plain = prepare_builder("echo", None, None, &config);
    assert_eq!(plain.to_string(), "echo");

    let c = local_command_builder("echo", &strings(&["hi"]), Some(&e), Some("bob"), &config);
    assert_eq!(c.to_string_with_env(), "K1='v1' K2='v2' /bin/sudo -u bob --preserve-env=K1,K2 echo hi");

    let other = LocalConfig::new("/usr/bin/doas".to_string());
    let s = local_script_builder("/bin/bash", SourceRef::Source("echo 1"), &strings(&["x"]), None, Some("amy"), &other);
    assert_eq!(s.to_string(), "/usr/bin/doas -u amy /bin/bash /dev/stdin x");
    let p = local_script_builder("/bin/bash", SourceRef::Path("/tmp/s.sh"), &[], None, None, &config);
    assert_eq!(p.to_string(), "/bin/bash /tmp/s.sh");
}

#[test]
fn script_wrapper_text() {
    let e = env(&[("A", "1")]);
    let s = render_script("  echo $1\n", &strings(&["x y"]), Some(&e), Some("/work"), 0xab);
    let expected = "#!/usr/bin/env bash\n\
cd \"/work\"\n\
export A='1'\n\
cat > /dev/shm/op_ab <<-'%%EOF%%'\n\
echo $1\n\
%%EOF%%\n\
chmod +x /dev/shm/op_ab\n\
(/dev/shm/op_ab 'x y')\n\
STATUS=$?\n\
rm -f /dev/shm/op_ab\n\
exit $STATUS\n";
    assert_eq!(s, expected);
    let bare = render_script("true", &[], None, None, 0);
    assert!(bare.starts_with("#!/usr/bin/env bash\ncat > /dev/shm/op_0 <<-'%%EOF%%'\ntrue\n"));
    assert!(bare.contains("(/dev/shm/op_0)\n"));
}

#[test]
fn prepared_script_uses_one_temporary_file() {
    let s = prepare_script("echo hi", &[], None, None);
    let line = s.lines().nth(1).unwrap();
    assert!(line.starts_with("cat > /dev/shm/op_"));
    let tmp = &line["cat > ".len()..line.len() - " <<-'%%EOF%%'".len()];
    assert!(s.contains(&format!("chmod +x {}\n", tmp)));
    assert!(s.contains(&format!("rm -f {}\n", tmp)));
}

#[test]
fn sources_read_their_text() {
    let src = SourceRef::Source("echo 1");
    let read = src.read(|_: &str| -> Result<String, String> { panic!("no file is read for inline source") });
    assert_eq!(read, Ok("echo 1".to_string()));
    let path = SourceRef::Path("/scripts/a.sh");
    let read = path.read(|p: &str| -> Result<String, String> { Ok(format!("contents of {}", p)) });
    assert_eq!(read, Ok("contents of /scripts/a.sh".to_string()));
    let failed = path.read(|_: &str| -> Result<String, String> { Err("missing".to_string()) });
    assert_eq!(failed, Err("missing".to_string()));

    let mut buf = "#".to_string();
    path.read_to(&mut buf, |_: &str| -> Result<String, String> { Ok("x".to_string()) }).unwrap();
    src.read_to(&mut buf, |_: &str| -> Result<String, String> { Err("unused".to_string()) }).unwrap();
    assert_eq!(buf, "#xecho 1");
    assert!(path.read_to(&mut buf, |_: &str| -> Result<String, String> { Err("e".to_string()) }).is_err());
    assert_eq!(buf, "#xecho 1");

    match path.to_owned() {
        Source::Path(p) => assert_eq!(p, "/scripts/a.sh"),
        Source::Source(_) => panic!("expected a path"),
    }
    let owned = Source::Source("s".to_string());
    assert!(matches!(owned.as_ref(), SourceRef::Source("s")));
}

#[test]
fn command_output_fields() {
    let o = CommandOutput::new(Some(3), "out".to_string(), "err".to_string());
    assert_eq!(o.code(), Some(3));
    assert_eq!(o.stdout(), "out");
    assert_eq!(o.stderr(), "err");
}

#[test]
fn ssh_destinations() {
    let d = SshDest::new("host.example", 2222, "root", SshAuth::Default);
    assert_eq!(d.to_url(), "ssh://root@host.example:2222");
    assert_eq!(d.to_id_string(), "root-host.example-2222");
    let d22 = SshDest::new("h", 22, "u", SshAuth::Default);
    assert_eq!(d22.to_url(), "ssh://u@h");
    let parsed = SshDest::from_url("h", "u", None, SshAuth::Default).unwrap();
    assert_eq!(parsed, d22);
    let mut m = d22.clone();
    m.set_port(2200);
    m.set_username("v");
    m.set_hostname("g");
    assert_eq!(m.to_url(), "ssh://v@g:2200");
    assert_eq!(*m.auth(), SshAuth::Default);
}

#[test]
fn ssh_authentication_arguments() {
    let mut b = CommandBuilder::new("/bin/ssh");
    SshAuth::PublicKey { identity_file: "/k".to_string() }.set_auth(&mut b, "/ask");
    assert_eq!(b.to_string(), "/bin/ssh -i /k");
    let mut p = CommandBuilder::new("/bin/ssh");
    SshAuth::Password { password: "pw".to_string() }.set_auth(&mut p, "/ask");
    assert_eq!(
        p.to_string_with_env(),
        "DISPLAY=':0' SSH_ASKPASS='/ask' OPEREON_PASSWD='pw' /bin/ssh -o NumberOfPasswordPrompts=1"
    );
    assert!(p.get_setsid());
}

#[test]
fn ssh_session_commands() {
    let config = SshConfig::new("/run/ssh".to_string(), "/bin/ssh".to_string(), "/bin/sudo".to_string(), "/bin/bash".to_string(), 5);
    let mut s = SshSession::new(SshDest::new("h", 22, "u", SshAuth::Default), config);
    assert_eq!(s.id(), "u-h-22");
    assert!(!s.is_opened());
    assert_eq!(s.check_cmd("/ask").unwrap_err(), SshErrorDetail::SshClosed);
    assert!(s.close_cmd("/ask").is_none());
    assert_eq!(s.command_cmd("ls", &[], None, "/ask").unwrap_err(), SshErrorDetail::SshClosed);
    assert_eq!(
        s.open_cmd("/ask").to_string(),
        "/bin/ssh u@h -S /run/ssh/u-h-22.sock -T -o StrictHostKeyChecking=yes -n -M -N -o ControlMaster=auto -o ControlPersist=yes -o ConnectTimeout=2"
    );
    assert_eq!(s.remote_shell_cmd("/ask"), "/bin/ssh -S /run/ssh/u-h-22.sock -T -o StrictHostKeyChecking=yes");
    s.set_opened(true);
    assert_eq!(
        s.check_cmd("/ask").unwrap().to_string(),
        "/bin/ssh u@h -S /run/ssh/u-h-22.sock -T -o StrictHostKeyChecking=yes -O check -o ConnectTimeout=2"
    );
    let e = env(&[("A", "1")]);
    let c = s.command_cmd("echo", &strings(&["hi"]), Some(&e), "/ask").unwrap();
    assert_eq!(c.get_args().last().unwrap(), "A='1' echo hi");
    let r = s.script_cmd(Some("bob"), "/ask").unwrap();
    assert_eq!(r.get_args().last().unwrap(), "/bin/sudo -u bob /bin/bash /dev/stdin");
    let r = s.script_cmd(None, "/ask").unwrap();
    assert_eq!(r.get_args().last().unwrap(), "/bin/bash /dev/stdin");
}

#[test]
fn ssh_user_name_from_what_the_system_reports() {
    let mut d = SshDest::new("h", 22, "u", SshAuth::Default);
    assert!(!d.set_username_from(None));
    assert_eq!(d.username(), "u");
    assert!(d.set_username_from(Some("w".to_string())));
    assert_eq!(d, SshDest::new("h", 22, "w", SshAuth::Default));
}

#[test]
fn least_recently_used_keys_go_first() {
    let mut order: Vec<String> = Vec::new();
    assert_eq!(lru_insert(&mut order, "a", 2), None);
    assert_eq!(lru_insert(&mut order, "b", 2), None);
    assert!(lru_get(&mut order, "a"));
    assert_eq!(order, vec!["b", "a"]);
    assert!(!lru_get(&mut order, "c"));
    assert_eq!(lru_insert(&mut order, "c", 2), Some("b".to_string()));
    assert_eq!(order, vec!["a", "c"]);
    assert_eq!(lru_insert(&mut order, "a", 2), None);
    assert_eq!(order, vec!["c", "a"]);
    let mut none: Vec<String> = Vec::new();
    assert_eq!(lru_insert(&mut none, "x", 0), Some("x".to_string()));
    assert!(none.is_empty());
}
