use modtree::module::{ExecType, Module, ModuleContent, ModuleError, ModuleProps, python_command};
use modtree::registry::ModuleTree;
use modtree::session::{Action, AuthType, CommandOutput, Event, ExecError, Execution, Failure};

fn agent() -> AuthType {
    AuthType::AgentFirst("deploy".to_string())
}

fn bash_module(table: &str) -> Module {
    let props = ModuleProps::from_toml("module_type = \"bash\"\nexec_path = \"cmds.toml\"\n").unwrap();
    Module::new(props, Some(table.to_string())).unwrap()
}

/// Drives an execution to its end, answering each action with `answer`,
/// and returns the actions asked for.
fn drive(exec: &mut Execution, mut answer: impl FnMut(&Execution, Action) -> Event) -> Vec<Action> {
    let mut actions = Vec::new();
    let mut event = Event::Completed;
    for _ in 0..100 {
        let a = exec.next(event);
        actions.push(a);
        if a == Action::Done {
            break;
        }
        event = answer(exec, a);
    }
    actions
}

fn phase(r: &Result<CommandOutput, Failure>) -> Option<ExecError> {
    match r {
        Err(f) => Some(f.phase),
        Ok(_) => None,
    }
}

fn count(actions: &[Action], a: Action) -> usize {
    actions.iter().filter(|x| **x == a).count()
}

#[test]
fn module_type_names_ignore_case() {
    assert_eq!(ExecType::from_name("BASH"), Some(ExecType::Bash));
    assert_eq!(ExecType::from_name("Sh"), Some(ExecType::Bash));
    assert_eq!(ExecType::from_name("py"), Some(ExecType::Python));
    assert_eq!(ExecType::from_name("PYTHON"), Some(ExecType::Python));
    assert_eq!(ExecType::from_name("bin"), Some(ExecType::Bin));
    assert_eq!(ExecType::from_name("frobnicate"), None);
    assert_eq!(ExecType::from_lowered("BASH"), None);
}

#[test]
fn descriptor_parses() {
    let p = ModuleProps::from_toml("module_type = \"Bash\"\nexec_path = \"cmds.toml\"\n").unwrap();
    assert_eq!(p.module_type, ExecType::Bash);
    assert_eq!(p.exec_path, "cmds.toml");
    assert!(p.reads_payload());
    let b = ModuleProps::from_toml("module_type = \"bin\"\nexec_path = \"/opt/tool\"\n").unwrap();
    assert!(!b.reads_payload());
}

#[test]
fn unknown_module_type_is_a_config_error() {
    let r = ModuleProps::from_toml("module_type = \"frobnicate\"\nexec_path = \"x\"\n");
    assert!(matches!(r, Err(ModuleError::UnknownModuleType(ref s)) if s == "frobnicate"));
}

#[test]
fn descriptor_faults() {
    assert!(matches!(ModuleProps::from_toml("exec_path = \"x\"\n"), Err(ModuleError::MissingModuleType)));
    assert!(matches!(ModuleProps::from_toml("module_type = \"sh\"\n"), Err(ModuleError::MissingExecPath)));
    match ModuleProps::from_toml("module_type = = \"sh\"\n") {
        Err(ModuleError::Parse(msg)) => assert!(!msg.is_empty()),
        _ => panic!("malformed descriptor accepted"),
    }
    assert!(matches!(ModuleProps::from_toml("module_type = 3\nexec_path = \"x\"\n"), Err(ModuleError::Parse(_))));
    assert!(matches!(ModuleProps::from_toml("[module_type]\nx = \"sh\"\n"), Err(ModuleError::Parse(_))));
}

#[test]
fn module_file_names() {
    assert_eq!(ModuleProps::check_filename("uptime.mod"), Some("uptime".to_string()));
    assert_eq!(ModuleProps::check_filename("Upper.MOD"), Some("Upper".to_string()));
    assert_eq!(ModuleProps::check_filename("a.b.mod"), Some("a.b".to_string()));
    assert_eq!(ModuleProps::check_filename(".mod"), None);
    assert_eq!(ModuleProps::check_filename("cmds.toml"), None);
    assert_eq!(ModuleProps::check_filename("mod"), None);
    assert_eq!(ModuleProps::check_filename("x.mod.bak"), None);
}

#[test]
fn module_contents() {
    let m = bash_module("hostname = \"hostname\"\ndate = \"date\"\n");
    assert_eq!(m.module_type(), ExecType::Bash);
    match m.content() {
        ModuleContent::Shell(t) => {
            assert_eq!(t.len(), 2);
            assert_eq!(t[0].0, "hostname");
            assert_eq!(t[1].0, "date");
            assert!(t.contains(&("hostname".to_string(), "hostname".to_string())));
            assert!(t.contains(&("date".to_string(), "date".to_string())));
        }
        _ => panic!("not a shell module"),
    }
    let bin = ModuleProps::from_toml("module_type = \"bin\"\nexec_path = \"/opt/tool\"\n").unwrap();
    let m = Module::new(bin, None).unwrap();
    assert!(matches!(m.content(), ModuleContent::Binary(p) if p == "/opt/tool"));
    let py = ModuleProps::from_toml("module_type = \"py\"\nexec_path = \"s.py\"\n").unwrap();
    assert!(matches!(Module::new(py, None), Err(ModuleError::PayloadUnavailable)));
    let sh = ModuleProps::from_toml("module_type = \"sh\"\nexec_path = \"c.toml\"\n").unwrap();
    assert!(matches!(Module::new(sh, Some("a = [1]".to_string())), Err(ModuleError::Parse(_))));
}

#[test]
fn python_command_encodes_script() {
    assert_eq!(python_command("print(1)"), "python2 -c \"exec('cHJpbnQoMSk='.decode('base64'))\"");
}

#[test]
fn bash_module_answers_each_command() {
    let m = bash_module("hostname = \"hostname\"\ndate = \"date\"\n");
    let mut exec = m.execute(&agent());
    let actions = drive(&mut exec, |e, a| match a {
        Action::Run(i) => Event::Output(format!("{} output\n", e.command(i))),
        _ => Event::Completed,
    });
    assert_eq!(
        actions,
        vec![
            Action::AcquireSlot,
            Action::Connect,
            Action::Handshake,
            Action::AcquireAgent,
            Action::Authenticate,
            Action::ReleaseAgent,
            Action::Run(0),
            Action::Run(1),
            Action::ReleaseSlot,
            Action::Done,
        ]
    );
    assert_eq!(exec.user(), "deploy");
    match exec.outcome() {
        Ok(CommandOutput::Multi(m)) => {
            assert_eq!(m.len(), 2);
            assert!(m.contains(&("hostname".to_string(), "hostname output\n".to_string())));
            assert!(m.contains(&("date".to_string(), "date output\n".to_string())));
        }
        _ => panic!("expected per-command output"),
    }
}

#[test]
fn commands_run_in_declared_order() {
    let m = bash_module("write = \"echo 1 > f\"\nread = \"cat f\"\n");
    let mut exec = m.execute(&agent());
    let mut file = String::new();
    let mut order = Vec::new();
    let actions = drive(&mut exec, |e, a| match a {
        Action::Run(i) => {
            order.push(e.command(i).clone());
            if e.command_name(i) == "write" {
                file = "1\n".to_string();
                Event::Output(String::new())
            } else {
                Event::Output(file.clone())
            }
        }
        _ => Event::Completed,
    });
    let runs: Vec<usize> = actions.iter().filter_map(|a| if let Action::Run(i) = a { Some(*i) } else { None }).collect();
    assert_eq!(runs, vec![0, 1]);
    assert_eq!(order, vec!["echo 1 > f".to_string(), "cat f".to_string()]);
    match exec.outcome() {
        Ok(CommandOutput::Multi(m)) => {
            assert_eq!(m[0], ("write".to_string(), String::new()));
            assert_eq!(m[1], ("read".to_string(), "1\n".to_string()));
        }
        _ => panic!("expected per-command output"),
    }
}

#[test]
fn unreachable_host_releases_slot_once() {
    let m = bash_module("hostname = \"hostname\"\n");
    let mut exec = m.execute(&agent());
    let actions = drive(&mut exec, |_, a| if a == Action::Connect { Event::Failed } else { Event::Completed });
    assert_eq!(actions, vec![Action::AcquireSlot, Action::Connect, Action::ReleaseSlot, Action::Done]);
    assert_eq!(count(&actions, Action::ReleaseSlot), 1);
    assert!(phase(&exec.outcome()) == Some(ExecError::Connection));
}

#[test]
fn handshake_failure() {
    let m = bash_module("hostname = \"hostname\"\n");
    let mut exec = m.execute(&agent());
    let actions = drive(&mut exec, |_, a| if a == Action::Handshake { Event::Failed } else { Event::Completed });
    assert_eq!(count(&actions, Action::AcquireSlot), count(&actions, Action::ReleaseSlot));
    assert_eq!(count(&actions, Action::AcquireAgent), 0);
    assert!(phase(&exec.outcome()) == Some(ExecError::Handshake));
}

#[test]
fn authentication_failure_releases_agent_and_slot() {
    let m = bash_module("hostname = \"hostname\"\n");
    let mut exec = m.execute(&agent());
    let actions = drive(&mut exec, |_, a| if a == Action::Authenticate { Event::Failed } else { Event::Completed });
    assert_eq!(
        actions,
        vec![
            Action::AcquireSlot,
            Action::Connect,
            Action::Handshake,
            Action::AcquireAgent,
            Action::Authenticate,
            Action::ReleaseAgent,
            Action::ReleaseSlot,
            Action::Done,
        ]
    );
    assert!(phase(&exec.outcome()) == Some(ExecError::Authentication));
}

#[test]
fn failed_command_fails_the_execution() {
    let m = bash_module("a = \"true\"\nb = \"false\"\nc = \"true\"\n");
    let mut exec = m.execute(&agent());
    let actions = drive(&mut exec, |_, a| match a {
        Action::Run(1) => Event::Failed,
        Action::Run(_) => Event::Output("ok".to_string()),
        _ => Event::Completed,
    });
    assert_eq!(count(&actions, Action::Run(2)), 0);
    assert_eq!(count(&actions, Action::ReleaseSlot), 1);
    assert!(phase(&exec.outcome()) == Some(ExecError::CommandFailed(1)));
}

#[test]
fn python_module_runs_one_invocation() {
    let py = ModuleProps::from_toml("module_type = \"python\"\nexec_path = \"s.py\"\n").unwrap();
    let m = Module::new(py, Some("print(1)".to_string())).unwrap();
    let mut exec = m.execute(&agent());
    let mut sent = String::new();
    drive(&mut exec, |e, a| match a {
        Action::Run(i) => {
            sent = e.command(i).clone();
            Event::Output("1\n".to_string())
        }
        _ => Event::Completed,
    });
    assert_eq!(sent, "python2 -c \"exec('cHJpbnQoMSk='.decode('base64'))\"");
    assert!(matches!(exec.outcome(), Ok(CommandOutput::Single(s)) if s == "1\n"));
}

#[test]
fn unsupported_requests_take_nothing() {
    let bin = ModuleProps::from_toml("module_type = \"bin\"\nexec_path = \"/opt/tool\"\n").unwrap();
    let m = Module::new(bin, None).unwrap();
    let mut exec = m.execute(&agent());
    assert!(exec.is_finished());
    assert_eq!(drive(&mut exec, |_, _| Event::Completed), vec![Action::Done]);
    assert!(phase(&exec.outcome()) == Some(ExecError::Unsupported));

    let m = bash_module("a = \"true\"\n");
    let keyed = AuthType::AgentWithKeyName("deploy".to_string(), "ops".to_string());
    assert!(matches!(keyed.auth(), Err(ExecError::Unsupported)));
    let mut exec = m.execute(&keyed);
    assert_eq!(drive(&mut exec, |_, _| Event::Completed), vec![Action::Done]);
    assert!(phase(&exec.outcome()) == Some(ExecError::Unsupported));
}

#[test]
fn registry_skips_bad_files() {
    let good = bash_module("a = \"true\"\n");
    let bad = ModuleProps::from_toml("module_type = \"frobnicate\"\nexec_path = \"x\"\n").map(|p| Module::new(p, None).unwrap());
    let other = bash_module("b = \"true\"\n");
    let (tree, diags) = ModuleTree::new(vec![
        ("good".to_string(), Ok(good)),
        ("bad".to_string(), bad),
        ("other".to_string(), Ok(other)),
    ]);
    assert!(tree.check_module("good"));
    assert!(tree.check_module("other"));
    assert!(!tree.check_module("bad"));
    assert_eq!(diags.len(), 1);
    assert_eq!(diags[0].0, "bad");
    assert!(matches!(diags[0].1, ModuleError::UnknownModuleType(_)));
}

#[test]
fn missing_module_is_not_found() {
    let (tree, _) = ModuleTree::new(vec![("good".to_string(), Ok(bash_module("a = \"true\"\n")))]);
    match tree.run_module("absent", "10.0.0.1:22", &agent()) {
        Err(f) => {
            assert_eq!(f.phase, ExecError::ModuleNotFound);
            assert_eq!(f.module, "absent");
            assert_eq!(f.target, "10.0.0.1:22");
        }
        Ok(_) => panic!("absent module found"),
    }
    assert!(tree.get("absent").is_none());
    let mut exec = tree.run_module("good", "10.0.0.1:22", &agent()).unwrap();
    let actions = drive(&mut exec, |_, a| if a == Action::Connect { Event::Failed } else { Event::Completed });
    assert_eq!(actions[0], Action::AcquireSlot);
    match exec.outcome() {
        Err(f) => {
            assert_eq!(f.phase, ExecError::Connection);
            assert_eq!(f.module, "good");
            assert_eq!(f.target, "10.0.0.1:22");
        }
        Ok(_) => panic!("unreachable host answered"),
    }
    assert!(matches!(tree.run_all(&agent()), Err(ExecError::Unsupported)));
}

#[test]
fn later_file_replaces_earlier_key() {
    let (tree, diags) = ModuleTree::new(vec![
        ("k".to_string(), Ok(bash_module("a = \"one\"\n"))),
        ("k".to_string(), Ok(bash_module("b = \"two\"\n"))),
    ]);
    assert!(diags.is_empty());
    match tree.get("k").unwrap().content() {
        ModuleContent::Shell(t) => assert_eq!(t[0].0, "b"),
        _ => panic!("not a shell module"),
    }
}
