use laurn::config::{Config, LaurnConfig, Mode, NetworkConfig};
use laurn::container::{Build, Container};
use laurn::mount::{Exposure, MountMode, SetupError};
use laurn::run::{
    command_line, decimal_of, exit_code, id_map, namespaces, project_dir, sandbox_plan,
    ChildStatus, Step,
};
use laurn::strategy::{ExposedPath, Strategy};

fn container(expr: &[u8]) -> Container {
    Container { laurn_expr: expr.to_vec(), output: Build { output: b"/nix/store/entry".to_vec() } }
}

fn closure() -> Vec<Vec<u8>> {
    vec![b"/nix/store/entry".to_vec(), b"/nix/store/lib".to_vec()]
}

#[test]
fn isolated_network_gets_its_own_namespace() {
    let ns = namespaces(&Config::default());
    assert!(ns.mount && ns.user && ns.pid && ns.ipc);
    assert!(ns.net);
}

#[test]
fn exposed_network_shares_the_host_namespace() {
    let config = Config { laurn: LaurnConfig { mode: Mode::Rust, network: NetworkConfig::Exposed } };
    assert!(!namespaces(&config).net);
    let strategy = Strategy::from(config.laurn.mode);
    assert!(strategy.rw_paths.contains(&ExposedPath::user_home(".cargo")));
}

#[test]
fn uid_map_line() {
    assert_eq!(id_map(1000), b"0 1000 1".to_vec());
    assert_eq!(id_map(0), b"0 0 1".to_vec());
    assert_eq!(decimal_of(4294967295), b"4294967295".to_vec());
}

#[test]
fn exit_code_of_children() {
    assert_eq!(exit_code(ChildStatus::Exited(0)), 0);
    assert_eq!(exit_code(ChildStatus::Exited(42)), 42);
}

#[test]
fn command_line_prefixes_shell_name() {
    assert_eq!(command_line(None), Ok(vec![]));
    let tokens = vec![b"echo I run in a container".to_vec()];
    assert_eq!(
        command_line(Some(&tokens)),
        Ok(vec![b"laurn-shell".to_vec(), b"echo I run in a container".to_vec()])
    );
    let bad = vec![b"ok".to_vec(), b"a\0b".to_vec()];
    assert_eq!(command_line(Some(&bad)), Err(SetupError::Nul));
}

#[test]
fn project_dir_of_expression() {
    assert_eq!(project_dir(b"/home/u/p/laurn.nix"), Ok(b"/home/u/p".to_vec()));
    assert_eq!(project_dir(b"/laurn.nix"), Err(SetupError::Mkdir));
    assert_eq!(project_dir(b"laurn.nix"), Err(SetupError::Mkdir));
}

#[test]
fn expression_at_filesystem_root_fails_before_any_step() {
    let r = sandbox_plan(
        b"/tmp/laurn.x",
        &container(b"/laurn.nix"),
        &closure(),
        &Strategy::default(),
        &None,
        None,
    );
    assert_eq!(r, Err(SetupError::Mkdir));
}

#[test]
fn home_relative_item_needs_a_home() {
    let r = sandbox_plan(
        b"/tmp/laurn.x",
        &container(b"/home/u/p/laurn.nix"),
        &closure(),
        &Strategy::for_mode(Mode::Rust),
        &None,
        None,
    );
    assert_eq!(r, Err(SetupError::GuessHomeDir));
}

#[test]
fn nul_in_command_is_rejected() {
    let tokens = vec![b"a\0".to_vec()];
    let r = sandbox_plan(
        b"/tmp/laurn.x",
        &container(b"/home/u/p/laurn.nix"),
        &closure(),
        &Strategy::default(),
        &None,
        Some(&tokens),
    );
    assert_eq!(r, Err(SetupError::Nul));
}

fn position(plan: &[Step], f: impl Fn(&Step) -> bool) -> Vec<usize> {
    plan.iter().enumerate().filter(|(_, s)| f(s)).map(|(i, _)| i).collect()
}

#[test]
fn binds_come_before_chroot_and_fresh_mounts_after() {
    let tokens = vec![b"echo I run in a container".to_vec()];
    let plan = sandbox_plan(
        b"/tmp/laurn.x",
        &container(b"/home/u/p/laurn.nix"),
        &closure(),
        &Strategy::for_mode(Mode::Rust),
        &Some(b"/home/u".to_vec()),
        Some(&tokens),
    )
    .expect("plan");
    let chroot = position(&plan, |s| matches!(s, Step::Chroot(_)));
    assert_eq!(chroot.len(), 1);
    let c = chroot[0];
    assert!(position(&plan, |s| matches!(s, Step::Expose(_))).iter().all(|&i| i < c));
    let fresh = position(&plan, |s| matches!(s, Step::MountFresh { .. }));
    assert_eq!(fresh.len(), 3);
    assert!(fresh.iter().all(|&i| i > c));
    assert_eq!(plan[c], Step::Chroot(b"/tmp/laurn.x".to_vec()));
    assert_eq!(plan[c + 1], Step::Chdir(b"/home/u/p".to_vec()));
    assert_eq!(
        plan[plan.len() - 1],
        Step::Exec {
            program: b"/nix/store/entry".to_vec(),
            argv: vec![b"laurn-shell".to_vec(), b"echo I run in a container".to_vec()],
        }
    );
}

#[test]
fn plan_lists_closure_read_only_first() {
    let plan = sandbox_plan(
        b"/tmp/laurn.x",
        &container(b"/home/u/p/laurn.nix"),
        &closure(),
        &Strategy::default(),
        &None,
        None,
    )
    .expect("plan");
    assert_eq!(
        plan[0],
        Step::Expose(Exposure {
            source: b"/nix/store/entry".to_vec(),
            target: b"/tmp/laurn.x/nix/store/entry".to_vec(),
            mode: MountMode::RO,
            optional: false,
        })
    );
    assert_eq!(
        plan[1],
        Step::Expose(Exposure {
            source: b"/nix/store/lib".to_vec(),
            target: b"/tmp/laurn.x/nix/store/lib".to_vec(),
            mode: MountMode::RO,
            optional: false,
        })
    );
    assert_eq!(
        plan[2],
        Step::Expose(Exposure {
            source: b"/etc/resolv.conf".to_vec(),
            target: b"/tmp/laurn.x/etc/resolv.conf".to_vec(),
            mode: MountMode::RW,
            optional: false,
        })
    );
    assert_eq!(
        plan[3],
        Step::Expose(Exposure {
            source: b"/home/u/p".to_vec(),
            target: b"/tmp/laurn.x/home/u/p".to_vec(),
            mode: MountMode::RW,
            optional: false,
        })
    );
    assert_eq!(plan[4], Step::MakeDir(b"/tmp/laurn.x/proc".to_vec()));
    assert_eq!(plan[8], Step::MakeDir(b"/tmp/laurn.x/dev/shm".to_vec()));
    // 2 closure + 2 fixed + 5 scratch + 8 devices + 8 inside
    assert_eq!(plan.len(), 25);
    let last = plan[plan.len() - 1].clone();
    assert_eq!(last, Step::Exec { program: b"/nix/store/entry".to_vec(), argv: vec![] });
}

#[test]
fn home_item_is_optional_and_placed_under_root() {
    let strategy = Strategy::new(vec![], vec![ExposedPath::user_home(".nonexistent-xyz")]);
    let plan = sandbox_plan(
        b"/tmp/laurn.x",
        &container(b"/home/u/p/laurn.nix"),
        &closure(),
        &strategy,
        &Some(b"/home/u".to_vec()),
        None,
    )
    .expect("plan");
    let expected = Step::Expose(Exposure {
        source: b"/home/u/.nonexistent-xyz".to_vec(),
        target: b"/tmp/laurn.x/home/u/.nonexistent-xyz".to_vec(),
        mode: MountMode::RW,
        optional: true,
    });
    assert!(plan.contains(&expected));
    let project_git = Step::Expose(Exposure {
        source: b"/home/u/p/.git".to_vec(),
        target: b"/tmp/laurn.x/home/u/p/.git".to_vec(),
        mode: MountMode::RO,
        optional: true,
    });
    assert!(plan.contains(&project_git));
}

#[test]
fn fake_root_denies_setgroups_first() {
    let writes = laurn::run::fake_root(1000, 100);
    assert_eq!(writes.len(), 3);
    assert_eq!(writes[0].path, b"/proc/self/setgroups".to_vec());
    assert_eq!(writes[0].contents, b"deny".to_vec());
    assert_eq!(writes[1].path, b"/proc/self/uid_map".to_vec());
    assert_eq!(writes[1].contents, b"0 1000 1".to_vec());
    assert_eq!(writes[2].path, b"/proc/self/gid_map".to_vec());
    assert_eq!(writes[2].contents, b"0 100 1".to_vec());
}
