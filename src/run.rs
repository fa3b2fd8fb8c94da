//! The sandbox launcher's decisions: which namespaces to enter, how the
//! user is mapped, the strict order of the steps that build the sandbox
//! root and start the entrypoint, and how a child's end is read.
use vstd::prelude::*;
use vstd::string::StringSliceAdditionalSpecFns;

use crate::config::{Config, NetworkConfig};
use crate::container::Container;
use crate::mount::{
    ancestors, bind_ops, mount_ops, node_for, Exposure, ExposureView, MountMode, MountOpView,
    SetupError, SourceKind,
};
use crate::strategy::{views, ExposedPath, ExposedPathView, Strategy};
use crate::utils::{byte_views, bytes_of, join, merge, merged, push_from, SEPARATOR};

verus! {

/// The namespaces that the middle process unshares.
#[derive(PartialEq, Eq, Structural, Debug, Copy, Clone)]
pub struct Namespaces {
    pub mount: bool,
    pub user: bool,
    pub pid: bool,
    pub ipc: bool,
    pub net: bool,
}

/// Mount, user, pid and ipc namespaces always; a network namespace of its
/// own only when the policy isolates the network.
pub fn namespaces(config: &Config) -> (r: Namespaces)
    ensures
        r.mount && r.user && r.pid && r.ipc,
        r.net <==> config.laurn.network == NetworkConfig::Isolated,
{
    Namespaces {
        mount: true,
        user: true,
        pid: true,
        ipc: true,
        net: config.laurn.network == NetworkConfig::Isolated,
    }
}

/// The decimal digits of `n`, most significant first.
pub open spec fn decimal(n: nat) -> Seq<u8>
    decreases n,
{
    if n < 10 {
        seq![(48 + n) as u8]
    } else {
        decimal(n / 10).push((48 + n % 10) as u8)
    }
}

/// The decimal digits of `n`.
pub fn decimal_of(n: u32) -> (r: Vec<u8>)
    ensures
        r@ == decimal(n as nat),
    decreases n,
{
    if n < 10 {
        let mut r: Vec<u8> = Vec::new();
        r.push(48u8 + n as u8);
        r
    } else {
        let mut r = decimal_of(n / 10);
        r.push(48u8 + (n % 10) as u8);
        r
    }
}

/// The line written to `uid_map` or `gid_map` to present the outside id
/// `id` as 0 inside: `0 <id> 1`.
pub fn id_map(id: u32) -> (r: Vec<u8>)
    ensures
        r@ == "0 ".spec_bytes() + decimal(id as nat) + " 1".spec_bytes(),
{
    let head = "0 ".as_bytes();
    let tail = " 1".as_bytes();
    let digits = decimal_of(id);
    let mut r = bytes_of(head);
    push_from(&mut r, digits.as_slice(), 0);
    push_from(&mut r, tail, 0);
    assert(digits@.subrange(0, digits@.len() as int) =~= digits@);
    assert(tail@.subrange(0, tail@.len() as int) =~= tail@);
    r
}

/// A write of `contents` to the file at `path`.
#[derive(PartialEq, Eq, Debug, Clone)]
pub struct FileWrite {
    pub path: Vec<u8>,
    pub contents: Vec<u8>,
}

/// The writes that present the outside user `uid` and group `gid` as root
/// inside a new user namespace. `setgroups` is denied before `gid_map` is
/// written: the kernel refuses the map otherwise.
pub fn fake_root(uid: u32, gid: u32) -> (r: Vec<FileWrite>)
    ensures
        r@.len() == 3,
        r@[0].path@ == "/proc/self/setgroups".spec_bytes(),
        r@[0].contents@ == "deny".spec_bytes(),
        r@[1].path@ == "/proc/self/uid_map".spec_bytes(),
        r@[1].contents@ == "0 ".spec_bytes() + decimal(uid as nat) + " 1".spec_bytes(),
        r@[2].path@ == "/proc/self/gid_map".spec_bytes(),
        r@[2].contents@ == "0 ".spec_bytes() + decimal(gid as nat) + " 1".spec_bytes(),
{
    let mut r: Vec<FileWrite> = Vec::new();
    r.push(
        FileWrite {
            path: bytes_of("/proc/self/setgroups".as_bytes()),
            contents: bytes_of("deny".as_bytes()),
        },
    );
    r.push(FileWrite { path: bytes_of("/proc/self/uid_map".as_bytes()), contents: id_map(uid) });
    r.push(FileWrite { path: bytes_of("/proc/self/gid_map".as_bytes()), contents: id_map(gid) });
    r
}

/// How a waited-for child ended.
#[derive(PartialEq, Eq, Structural, Debug, Copy, Clone)]
pub enum ChildStatus {
    Exited(i32),
    Signaled,
    Stopped,
    Continued,
    Traced,
}

/// A waiter passes on the exit code of a child that exited. Any other end
/// is not handled: the caller aborts on it before asking.
pub fn exit_code(status: ChildStatus) -> (r: i32)
    requires
        status is Exited,
    ensures
        status == ChildStatus::Exited(r),
{
    match status {
        ChildStatus::Exited(c) => c,
        _ => 0,
    }
}

/// The index of the last separator of `p`, or -1 where it has none.
pub open spec fn last_separator(p: Seq<u8>) -> int
    decreases p.len(),
{
    if p.len() == 0 {
        -1
    } else if p.last() == SEPARATOR {
        p.len() - 1
    } else {
        last_separator(p.drop_last())
    }
}

/// The project directory of a canonical expression path: the part before
/// its last separator. A file directly under the root, or a path without a
/// separator, has none.
pub open spec fn project_dir_of(laurn_expr: Seq<u8>) -> Option<Seq<u8>> {
    if last_separator(laurn_expr) <= 0 {
        None
    } else {
        Some(laurn_expr.subrange(0, last_separator(laurn_expr)))
    }
}

/// The project directory of `laurn_expr`, or `Mkdir` where it has none.
pub fn project_dir(laurn_expr: &[u8]) -> (r: Result<Vec<u8>, SetupError>)
    ensures
        project_dir_of(laurn_expr@) is None ==> r == Err::<Vec<u8>, SetupError>(SetupError::Mkdir),
        project_dir_of(laurn_expr@) matches Some(d) ==> (r matches Ok(v) && v@ == d),
{
    let mut i: usize = laurn_expr.len();
    assert(laurn_expr@.subrange(0, i as int) =~= laurn_expr@);
    while i > 0 && laurn_expr[i - 1] != SEPARATOR
        invariant
            i <= laurn_expr@.len(),
            last_separator(laurn_expr@) == last_separator(laurn_expr@.subrange(0, i as int)),
        decreases i,
    {
        assert(laurn_expr@.subrange(0, i as int).drop_last() =~= laurn_expr@.subrange(
            0,
            i - 1,
        ));
        i = i - 1;
    }
    proof {
        if i > 0 {
            assert(laurn_expr@.subrange(0, i as int).last() == SEPARATOR);
        } else {
            assert(laurn_expr@.subrange(0, 0) =~= Seq::<u8>::empty());
        }
    }
    if i <= 1 {
        Err(SetupError::Mkdir)
    } else {
        let mut d: Vec<u8> = Vec::new();
        push_from(&mut d, &laurn_expr[0..i - 1], 0);
        assert(d@ =~= laurn_expr@.subrange(0, i - 1));
        Ok(d)
    }
}


/// The name the entrypoint is started under when a command is given.
pub const SHELL_NAME: &'static str = "laurn-shell";

/// `s` holds a NUL byte.
pub open spec fn has_nul(s: Seq<u8>) -> bool {
    exists|i: int| 0 <= i < s.len() && s[i] == 0
}

/// Some command token holds a NUL byte.
pub open spec fn command_has_nul(command: Option<Seq<Seq<u8>>>) -> bool {
    &&& command is Some
    &&& exists|i: int| 0 <= i < command->0.len() && has_nul(#[trigger] command->0[i])
}

/// The argument vector of the entrypoint: empty without a command, else the
/// shell's name followed by the command's tokens.
pub open spec fn argv_of(command: Option<Seq<Seq<u8>>>) -> Seq<Seq<u8>> {
    match command {
        None => seq![],
        Some(t) => seq![SHELL_NAME.spec_bytes()] + t,
    }
}

/// The byte contents of an optional command.
pub open spec fn command_view(command: Option<&Vec<Vec<u8>>>) -> Option<Seq<Seq<u8>>> {
    match command {
        None => None,
        Some(t) => Some(byte_views(t@)),
    }
}

fn contains_nul(s: &[u8]) -> (r: bool)
    ensures
        r <==> has_nul(s@),
{
    let mut i: usize = 0;
    while i < s.len()
        invariant
            i <= s@.len(),
            forall|j: int| 0 <= j < i ==> s@[j] != 0,
        decreases s@.len() - i,
    {
        if s[i] == 0 {
            return true;
        }
        i = i + 1;
    }
    false
}

/// The argument vector for `command`, or `Nul` where a token holds a NUL
/// byte.
pub fn command_line(command: Option<&Vec<Vec<u8>>>) -> (r: Result<Vec<Vec<u8>>, SetupError>)
    ensures
        command_has_nul(command_view(command)) ==> r == Err::<Vec<Vec<u8>>, SetupError>(
            SetupError::Nul,
        ),
        !command_has_nul(command_view(command)) ==> (r matches Ok(a) && byte_views(a@) == argv_of(
            command_view(command),
        )),
{
    match command {
        None => {
            let a: Vec<Vec<u8>> = Vec::new();
            assert(byte_views(a@) =~= seq![]);
            Ok(a)
        },
        Some(tokens) => {
            let mut a: Vec<Vec<u8>> = Vec::new();
            a.push(bytes_of(SHELL_NAME.as_bytes()));
            let mut i: usize = 0;
            assert(byte_views(a@) =~= seq![SHELL_NAME.spec_bytes()] + byte_views(tokens@).take(0));
            while i < tokens.len()
                invariant
                    command == Some(tokens),
                    i <= tokens@.len(),
                    forall|j: int| 0 <= j < i ==> !has_nul(#[trigger] tokens@[j]@),
                    byte_views(a@) == seq![SHELL_NAME.spec_bytes()] + byte_views(tokens@).take(
                        i as int,
                    ),
                decreases tokens@.len() - i,
            {
                if contains_nul(tokens[i].as_slice()) {
                    assert(byte_views(tokens@)[i as int] == tokens@[i as int]@);
                    assert(has_nul(byte_views(tokens@)[i as int]));
                    let ghost tv = byte_views(tokens@);
                    assert(command_view(command) == Some(tv));
                    assert(0 <= i < tv.len() && has_nul(tv[i as int]));
                    assert(command_has_nul(command_view(command))) by {
                        let t = command_view(command)->0;
                        assert(t == tv);
                        assert(has_nul(t[i as int]));
                    }
                    return Err(SetupError::Nul);
                }
                let t = bytes_of(tokens[i].as_slice());
                let ghost before = a@;
                a.push(t);
                assert(byte_views(tokens@).take(i + 1) =~= byte_views(tokens@).take(i as int).push(
                    t@,
                ));
                assert(byte_views(a@) =~= byte_views(before).push(t@));
                i = i + 1;
            }
            assert(byte_views(tokens@).take(i as int) =~= byte_views(tokens@));
            assert forall|j: int| 0 <= j < byte_views(tokens@).len() implies !has_nul(
                #[trigger] byte_views(tokens@)[j],
            ) by {
                assert(byte_views(tokens@)[j] == tokens@[j]@);
            }
            Ok(a)
        },
    }
}


/// One step of setting up the sandbox, in the order the plan lists them.
#[derive(PartialEq, Eq, Debug, Clone)]
pub enum Step {
    /// Bind a host path under the sandbox root (see `Exposure::ops`).
    Expose(Exposure),
    /// Create a directory with `DIR_MODE`; any failure is fatal.
    MakeDir(Vec<u8>),
    /// Change the root directory of the process.
    Chroot(Vec<u8>),
    /// Change the working directory of the process.
    Chdir(Vec<u8>),
    /// Mount a fresh filesystem, with `nosuid`, `nodev` and `noexec`.
    MountFresh { source: Vec<u8>, target: Vec<u8>, fstype: Vec<u8>, data: Option<Vec<u8>> },
    /// Create an empty regular file with `FILE_MODE`.
    MakeFile(Vec<u8>),
    /// Bind a path of the new root over another, private and recursive.
    BindInside { source: Vec<u8>, target: Vec<u8> },
    /// Replace the process with `program`, started with `argv`.
    Exec { program: Vec<u8>, argv: Vec<Vec<u8>> },
}

/// What a `Step` stands for.
pub enum StepView {
    Expose(ExposureView),
    MakeDir(Seq<u8>),
    Chroot(Seq<u8>),
    Chdir(Seq<u8>),
    MountFresh { source: Seq<u8>, target: Seq<u8>, fstype: Seq<u8>, data: Option<Seq<u8>> },
    MakeFile(Seq<u8>),
    BindInside { source: Seq<u8>, target: Seq<u8> },
    Exec { program: Seq<u8>, argv: Seq<Seq<u8>> },
}

impl View for Step {
    type V = StepView;

    open spec fn view(&self) -> StepView {
        match self {
            Step::Expose(e) => StepView::Expose(e@),
            Step::MakeDir(p) => StepView::MakeDir(p@),
            Step::Chroot(p) => StepView::Chroot(p@),
            Step::Chdir(p) => StepView::Chdir(p@),
            Step::MountFresh { source, target, fstype, data } => StepView::MountFresh {
                source: source@,
                target: target@,
                fstype: fstype@,
                data: match data {
                    Some(d) => Some(d@),
                    None => None,
                },
            },
            Step::MakeFile(p) => StepView::MakeFile(p@),
            Step::BindInside { source, target } => StepView::BindInside {
                source: source@,
                target: target@,
            },
            Step::Exec { program, argv } => StepView::Exec { program: program@, argv: byte_views(argv@) },
        }
    }
}

/// The views of a sequence of steps.
pub open spec fn step_views(s: Seq<Step>) -> Seq<StepView> {
    s.map_values(|st: Step| st@)
}

/// A host path bound at the same place under the sandbox root; it must exist.
pub open spec fn host_exposure(p: Seq<u8>, root: Seq<u8>, mode: MountMode) -> StepView {
    StepView::Expose(
        ExposureView { source: p, target: merged(root, p), mode: mode, optional: false },
    )
}

/// A policy item: `s` under the project or the home directory, bound at the
/// same place under the sandbox root, skipped where its source is missing.
pub open spec fn policy_exposure(
    item: ExposedPathView,
    root: Seq<u8>,
    project: Seq<u8>,
    home: Seq<u8>,
    mode: MountMode,
) -> StepView {
    let (base, s) = match item {
        ExposedPathView::Project(s) => (project, s),
        ExposedPathView::UserHome(s) => (home, s),
    };
    StepView::Expose(
        ExposureView {
            source: merged(base, s),
            target: merged(merged(root, base), s),
            mode: mode,
            optional: true,
        },
    )
}

/// The closure's store paths, each bound read-only.
pub open spec fn closure_steps(closure: Seq<Seq<u8>>, root: Seq<u8>) -> Seq<StepView> {
    closure.map_values(|p: Seq<u8>| host_exposure(p, root, MountMode::RO))
}

/// The policy items of one list, each bound with `mode`.
pub open spec fn policy_steps(
    items: Seq<ExposedPathView>,
    root: Seq<u8>,
    project: Seq<u8>,
    home: Seq<u8>,
    mode: MountMode,
) -> Seq<StepView> {
    items.map_values(|e: ExposedPathView| policy_exposure(e, root, project, home, mode))
}

/// The empty directories for the fresh filesystems and the devices.
pub open spec fn scratch_steps(root: Seq<u8>) -> Seq<StepView> {
    seq![
        StepView::MakeDir(join(root, "proc".spec_bytes())),
        StepView::MakeDir(join(root, "sys".spec_bytes())),
        StepView::MakeDir(join(root, "dev".spec_bytes())),
        StepView::MakeDir(join(root, "dev/pts".spec_bytes())),
        StepView::MakeDir(join(root, "dev/shm".spec_bytes())),
    ]
}

/// The host devices and `/sys`, bound writable: an unprivileged user
/// namespace cannot create device nodes.
pub open spec fn device_steps(root: Seq<u8>) -> Seq<StepView> {
    seq![
        host_exposure("/dev/null".spec_bytes(), root, MountMode::RW),
        host_exposure("/dev/zero".spec_bytes(), root, MountMode::RW),
        host_exposure("/dev/full".spec_bytes(), root, MountMode::RW),
        host_exposure("/dev/random".spec_bytes(), root, MountMode::RW),
        host_exposure("/dev/urandom".spec_bytes(), root, MountMode::RW),
        host_exposure("/dev/tty".spec_bytes(), root, MountMode::RW),
        host_exposure("/dev/console".spec_bytes(), root, MountMode::RW),
        host_exposure("/sys".spec_bytes(), root, MountMode::RW),
    ]
}

/// What happens from the change of root on: fresh `proc`, `devpts` and
/// `tmpfs` mounts, the pseudo-terminal multiplexer, and the entrypoint.
pub open spec fn inside_steps(
    root: Seq<u8>,
    project: Seq<u8>,
    entrypoint: Seq<u8>,
    argv: Seq<Seq<u8>>,
) -> Seq<StepView> {
    seq![
        StepView::Chroot(root),
        StepView::Chdir(project),
        StepView::MountFresh {
            source: "proc".spec_bytes(),
            target: "/proc".spec_bytes(),
            fstype: "proc".spec_bytes(),
            data: None,
        },
        StepView::MountFresh {
            source: "devpts".spec_bytes(),
            target: "/dev/pts".spec_bytes(),
            fstype: "devpts".spec_bytes(),
            data: Some("mode=620,ptmxmode=666".spec_bytes()),
        },
        StepView::MakeFile("/dev/ptmx".spec_bytes()),
        StepView::BindInside {
            source: "/dev/pts/ptmx".spec_bytes(),
            target: "/dev/ptmx".spec_bytes(),
        },
        StepView::MountFresh {
            source: "shm".spec_bytes(),
            target: "/dev/shm".spec_bytes(),
            fstype: "tmpfs".spec_bytes(),
            data: Some("size=65536k".spec_bytes()),
        },
        StepView::Exec { program: entrypoint, argv: argv },
    ]
}

/// Every step before the change of root: the closure read-only, then
/// `resolv.conf` and the project writable, the policy's read-only and
/// read-write items, the scratch directories, the devices and `/sys`.
pub open spec fn outside_steps(
    root: Seq<u8>,
    project: Seq<u8>,
    home: Seq<u8>,
    closure: Seq<Seq<u8>>,
    ro: Seq<ExposedPathView>,
    rw: Seq<ExposedPathView>,
) -> Seq<StepView> {
    closure_steps(closure, root) + seq![
        host_exposure("/etc/resolv.conf".spec_bytes(), root, MountMode::RW),
        host_exposure(project, root, MountMode::RW),
    ] + policy_steps(ro, root, project, home, MountMode::RO) + policy_steps(
        rw,
        root,
        project,
        home,
        MountMode::RW,
    ) + scratch_steps(root) + device_steps(root)
}

/// The whole plan of the innermost process.
pub open spec fn sandbox_steps(
    root: Seq<u8>,
    project: Seq<u8>,
    home: Seq<u8>,
    closure: Seq<Seq<u8>>,
    ro: Seq<ExposedPathView>,
    rw: Seq<ExposedPathView>,
    entrypoint: Seq<u8>,
    argv: Seq<Seq<u8>>,
) -> Seq<StepView> {
    outside_steps(root, project, home, closure, ro, rw) + inside_steps(
        root,
        project,
        entrypoint,
        argv,
    )
}

/// Some item of the list is relative to the home directory.
pub open spec fn uses_home(items: Seq<ExposedPathView>) -> bool {
    exists|i: int| 0 <= i < items.len() && #[trigger] items[i] is UserHome
}

/// The home directory's bytes, empty where none is known.
pub open spec fn home_view(home: Option<Vec<u8>>) -> Seq<u8> {
    match home {
        Some(h) => h@,
        None => Seq::empty(),
    }
}

fn literal(s: &str) -> (r: Vec<u8>)
    ensures
        r@ == s.spec_bytes(),
{
    bytes_of(s.as_bytes())
}

fn host_step(p: &[u8], root: &[u8], mode: MountMode) -> (r: Step)
    ensures
        r@ == host_exposure(p@, root@, mode),
{
    Step::Expose(Exposure { source: bytes_of(p), target: merge(root, p), mode, optional: false })
}

fn policy_step(item: &ExposedPath, root: &[u8], project: &[u8], home: &[u8], mode: MountMode) -> (r:
    Step)
    ensures
        r@ == policy_exposure(item@, root@, project@, home@, mode),
{
    let (base, s) = match item {
        ExposedPath::Project(s) => (project, s),
        ExposedPath::UserHome(s) => (home, s),
    };
    let inner = merge(root, base);
    Step::Expose(
        Exposure {
            source: merge(base, s.as_slice()),
            target: merge(inner.as_slice(), s.as_slice()),
            mode,
            optional: true,
        },
    )
}

fn push_policy(
    plan: &mut Vec<Step>,
    items: &Vec<ExposedPath>,
    root: &[u8],
    project: &[u8],
    home: &[u8],
    mode: MountMode,
)
    ensures
        step_views(final(plan)@) == step_views(old(plan)@) + policy_steps(
            views(items@),
            root@,
            project@,
            home@,
            mode,
        ),
{
    let ghost start = step_views(plan@);
    let ghost all = policy_steps(views(items@), root@, project@, home@, mode);
    let mut i: usize = 0;
    assert(step_views(plan@) =~= start + all.take(0));
    while i < items.len()
        invariant
            i <= items@.len(),
            all == policy_steps(views(items@), root@, project@, home@, mode),
            step_views(plan@) == start + all.take(i as int),
        decreases items@.len() - i,
    {
        let st = policy_step(&items[i], root, project, home, mode);
        let ghost before = plan@;
        plan.push(st);
        assert(all[i as int] == st@);
        assert(all.take(i + 1) =~= all.take(i as int).push(st@));
        assert(step_views(plan@) =~= step_views(before).push(st@));
        i = i + 1;
    }
    assert(all.take(i as int) =~= all);
}

fn push_closure(plan: &mut Vec<Step>, closure: &Vec<Vec<u8>>, root: &[u8])
    ensures
        step_views(final(plan)@) == step_views(old(plan)@) + closure_steps(
            byte_views(closure@),
            root@,
        ),
{
    let ghost start = step_views(plan@);
    let ghost all = closure_steps(byte_views(closure@), root@);
    let mut i: usize = 0;
    assert(step_views(plan@) =~= start + all.take(0));
    while i < closure.len()
        invariant
            i <= closure@.len(),
            all == closure_steps(byte_views(closure@), root@),
            step_views(plan@) == start + all.take(i as int),
        decreases closure@.len() - i,
    {
        let st = host_step(closure[i].as_slice(), root, MountMode::RO);
        let ghost before = plan@;
        plan.push(st);
        assert(byte_views(closure@)[i as int] == closure@[i as int]@);
        assert(all[i as int] == st@);
        assert(all.take(i + 1) =~= all.take(i as int).push(st@));
        assert(step_views(plan@) =~= step_views(before).push(st@));
        i = i + 1;
    }
    assert(all.take(i as int) =~= all);
}


fn any_user_home(items: &Vec<ExposedPath>) -> (r: bool)
    ensures
        r == uses_home(views(items@)),
{
    let mut i: usize = 0;
    while i < items.len()
        invariant
            i <= items@.len(),
            forall|j: int| 0 <= j < i ==> !(#[trigger] views(items@)[j] is UserHome),
        decreases items@.len() - i,
    {
        if let ExposedPath::UserHome(_) = &items[i] {
            assert(views(items@)[i as int] is UserHome);
            return true;
        }
        assert(!(views(items@)[i as int] is UserHome));
        i = i + 1;
    }
    false
}

/// The steps of the innermost process, in the order in which they must
/// run, for the sandbox root `root`, a built container, its closure, the
/// policy, the home directory where one is known, and the command.
///
/// It fails, before any step is taken, with `Mkdir` where the expression
/// file has no parent directory below the root; else with `GuessHomeDir`
/// where a policy item is home-relative and no home directory is known;
/// else with `Nul` where the entrypoint or a command token holds a NUL byte.
pub fn sandbox_plan(
    root: &[u8],
    container: &Container,
    closure: &Vec<Vec<u8>>,
    strategy: &Strategy,
    home: &Option<Vec<u8>>,
    command: Option<&Vec<Vec<u8>>>,
) -> (r: Result<Vec<Step>, SetupError>)
    ensures
        project_dir_of(container.laurn_expr@) is None ==> r == Err::<Vec<Step>, SetupError>(
            SetupError::Mkdir,
        ),
        project_dir_of(container.laurn_expr@) is Some && home is None && (uses_home(
            views(strategy.ro_paths@),
        ) || uses_home(views(strategy.rw_paths@))) ==> r == Err::<Vec<Step>, SetupError>(
            SetupError::GuessHomeDir,
        ),
        project_dir_of(container.laurn_expr@) is Some && !(home is None && (uses_home(
            views(strategy.ro_paths@),
        ) || uses_home(views(strategy.rw_paths@)))) && (has_nul(container.output.output@)
            || command_has_nul(command_view(command))) ==> r == Err::<Vec<Step>, SetupError>(
            SetupError::Nul,
        ),
        project_dir_of(container.laurn_expr@) is Some && !(home is None && (uses_home(
            views(strategy.ro_paths@),
        ) || uses_home(views(strategy.rw_paths@)))) && !has_nul(container.output.output@)
            && !command_has_nul(command_view(command)) ==> (r matches Ok(plan) && step_views(plan@)
            == sandbox_steps(
            root@,
            project_dir_of(container.laurn_expr@)->0,
            home_view(*home),
            byte_views(closure@),
            views(strategy.ro_paths@),
            views(strategy.rw_paths@),
            container.output.output@,
            argv_of(command_view(command)),
        )),
{
    let project = project_dir(container.laurn_expr.as_slice())?;
    let needs_home = any_user_home(&strategy.ro_paths) || any_user_home(&strategy.rw_paths);
    let home_dir: Vec<u8> = match home {
        Some(h) => bytes_of(h.as_slice()),
        None => {
            if needs_home {
                return Err(SetupError::GuessHomeDir);
            }
            Vec::new()
        },
    };
    assert(home_dir@ == home_view(*home));
    if contains_nul(container.output.output.as_slice()) {
        return Err(SetupError::Nul);
    }
    let argv = command_line(command)?;

    let mut plan = outside_plan(root, project.as_slice(), home_dir.as_slice(), closure, strategy);
    push_inside(&mut plan, root, project.as_slice(), container.output.output.as_slice(), argv);
    Ok(plan)
}

fn outside_plan(
    root: &[u8],
    project: &[u8],
    home: &[u8],
    closure: &Vec<Vec<u8>>,
    strategy: &Strategy,
) -> (plan: Vec<Step>)
    ensures
        step_views(plan@) == outside_steps(
            root@,
            project@,
            home@,
            byte_views(closure@),
            views(strategy.ro_paths@),
            views(strategy.rw_paths@),
        ),
{
    let mut plan: Vec<Step> = Vec::new();
    assert(step_views(plan@) =~= seq![]);
    push_closure(&mut plan, closure, root);
    push_step(&mut plan, host_step(literal("/etc/resolv.conf").as_slice(), root, MountMode::RW));
    push_step(&mut plan, host_step(project, root, MountMode::RW));
    push_policy(&mut plan, &strategy.ro_paths, root, project, home, MountMode::RO);
    push_policy(&mut plan, &strategy.rw_paths, root, project, home, MountMode::RW);
    push_scratch(&mut plan, root);
    push_devices(&mut plan, root);
    assert(step_views(plan@) =~= outside_steps(
        root@,
        project@,
        home@,
        byte_views(closure@),
        views(strategy.ro_paths@),
        views(strategy.rw_paths@),
    ));
    plan
}

fn push_scratch(plan: &mut Vec<Step>, root: &[u8])
    ensures
        step_views(final(plan)@) == step_views(old(plan)@) + scratch_steps(root@),
{
    let ghost start = step_views(plan@);
    push_step(plan, Step::MakeDir(join_dir(root, "proc")));
    push_step(plan, Step::MakeDir(join_dir(root, "sys")));
    push_step(plan, Step::MakeDir(join_dir(root, "dev")));
    push_step(plan, Step::MakeDir(join_dir(root, "dev/pts")));
    push_step(plan, Step::MakeDir(join_dir(root, "dev/shm")));
    assert(step_views(plan@) =~= start + scratch_steps(root@));
}

fn push_devices(plan: &mut Vec<Step>, root: &[u8])
    ensures
        step_views(final(plan)@) == step_views(old(plan)@) + device_steps(root@),
{
    let ghost start = step_views(plan@);
    push_step(plan, host_step(literal("/dev/null").as_slice(), root, MountMode::RW));
    push_step(plan, host_step(literal("/dev/zero").as_slice(), root, MountMode::RW));
    push_step(plan, host_step(literal("/dev/full").as_slice(), root, MountMode::RW));
    push_step(plan, host_step(literal("/dev/random").as_slice(), root, MountMode::RW));
    push_step(plan, host_step(literal("/dev/urandom").as_slice(), root, MountMode::RW));
    push_step(plan, host_step(literal("/dev/tty").as_slice(), root, MountMode::RW));
    push_step(plan, host_step(literal("/dev/console").as_slice(), root, MountMode::RW));
    push_step(plan, host_step(literal("/sys").as_slice(), root, MountMode::RW));
    assert(step_views(plan@) =~= start + device_steps(root@));
}

fn push_inside(plan: &mut Vec<Step>, root: &[u8], project: &[u8], entrypoint: &[u8], argv: Vec<Vec<u8>>)
    ensures
        step_views(final(plan)@) == step_views(old(plan)@) + inside_steps(
            root@,
            project@,
            entrypoint@,
            byte_views(argv@),
        ),
{
    let ghost start = step_views(plan@);
    let ghost args = byte_views(argv@);
    push_step(plan, Step::Chroot(bytes_of(root)));
    push_step(plan, Step::Chdir(bytes_of(project)));
    push_step(
        plan,
        Step::MountFresh {
            source: literal("proc"),
            target: literal("/proc"),
            fstype: literal("proc"),
            data: None,
        },
    );
    push_step(
        plan,
        Step::MountFresh {
            source: literal("devpts"),
            target: literal("/dev/pts"),
            fstype: literal("devpts"),
            data: Some(literal("mode=620,ptmxmode=666")),
        },
    );
    push_step(plan, Step::MakeFile(literal("/dev/ptmx")));
    push_step(plan, Step::BindInside { source: literal("/dev/pts/ptmx"), target: literal("/dev/ptmx") });
    push_step(
        plan,
        Step::MountFresh {
            source: literal("shm"),
            target: literal("/dev/shm"),
            fstype: literal("tmpfs"),
            data: Some(literal("size=65536k")),
        },
    );
    push_step(plan, Step::Exec { program: bytes_of(entrypoint), argv });
    assert(step_views(plan@) =~= start + inside_steps(root@, project@, entrypoint@, args));
}

fn push_step(plan: &mut Vec<Step>, st: Step)
    ensures
        step_views(final(plan)@) == step_views(old(plan)@).push(st@),
{
    let ghost before = plan@;
    plan.push(st);
    assert(step_views(plan@) =~= step_views(before).push(st@));
}

fn join_dir(root: &[u8], name: &str) -> (r: Vec<u8>)
    ensures
        r@ == join(root@, name.spec_bytes()),
{
    let tail = name.as_bytes();
    let mut r = bytes_of(root);
    if tail.len() > 0 && tail[0] == SEPARATOR {
        return bytes_of(tail);
    }
    if root.len() > 0 && root[root.len() - 1] != SEPARATOR {
        r.push(SEPARATOR);
    }
    push_from(&mut r, tail, 0);
    assert(tail@.subrange(0, tail@.len() as int) =~= tail@);
    r
}


/// In `plan`, the change of root stands at `c` and only there, every bind
/// under the sandbox root comes before it, and every fresh filesystem
/// mount after it.
pub open spec fn binds_then_chroot(plan: Seq<StepView>, c: int) -> bool {
    &&& 0 <= c < plan.len()
    &&& plan[c] is Chroot
    &&& forall|i: int| 0 <= i < plan.len() && (#[trigger] plan[i]) is Expose ==> i < c
    &&& forall|i: int| 0 <= i < plan.len() && (#[trigger] plan[i]) is MountFresh ==> c < i
    &&& forall|i: int| 0 <= i < plan.len() && (#[trigger] plan[i]) is Chroot ==> i == c
}

proof fn lemma_outside_kinds(
    root: Seq<u8>,
    project: Seq<u8>,
    home: Seq<u8>,
    closure: Seq<Seq<u8>>,
    ro: Seq<ExposedPathView>,
    rw: Seq<ExposedPathView>,
)
    ensures
        forall|i: int|
            0 <= i < outside_steps(root, project, home, closure, ro, rw).len() ==> (
            #[trigger] outside_steps(root, project, home, closure, ro, rw)[i] is Expose
                || outside_steps(root, project, home, closure, ro, rw)[i] is MakeDir),
{
    let a = closure_steps(closure, root);
    let b = seq![
        host_exposure("/etc/resolv.conf".spec_bytes(), root, MountMode::RW),
        host_exposure(project, root, MountMode::RW),
    ];
    let c = policy_steps(ro, root, project, home, MountMode::RO);
    let d = policy_steps(rw, root, project, home, MountMode::RW);
    let e = scratch_steps(root);
    let f = device_steps(root);
    let all = outside_steps(root, project, home, closure, ro, rw);
    assert(all == a + b + c + d + e + f);
    assert forall|i: int| 0 <= i < all.len() implies (#[trigger] all[i] is Expose || all[i] is MakeDir) by {
        let n1 = a.len();
        let n2 = n1 + b.len();
        let n3 = n2 + c.len();
        let n4 = n3 + d.len();
        let n5 = n4 + e.len();
        if i < n1 {
            assert(all[i] == a[i]);
        } else if i < n2 {
            assert(all[i] == b[i - n1]);
        } else if i < n3 {
            assert(all[i] == c[i - n2]);
        } else if i < n4 {
            assert(all[i] == d[i - n3]);
        } else if i < n5 {
            assert(all[i] == e[i - n4]);
        } else {
            assert(all[i] == f[i - n5]);
        }
    }
}

/// Every bind mount under the sandbox root is set up before the change of
/// root, and the fresh `proc`, `devpts` and `tmpfs` mounts after it.
pub proof fn lemma_mount_order(
    root: Seq<u8>,
    project: Seq<u8>,
    home: Seq<u8>,
    closure: Seq<Seq<u8>>,
    ro: Seq<ExposedPathView>,
    rw: Seq<ExposedPathView>,
    entrypoint: Seq<u8>,
    argv: Seq<Seq<u8>>,
)
    ensures
        binds_then_chroot(
            sandbox_steps(root, project, home, closure, ro, rw, entrypoint, argv),
            outside_steps(root, project, home, closure, ro, rw).len() as int,
        ),
{
    let out = outside_steps(root, project, home, closure, ro, rw);
    let ins = inside_steps(root, project, entrypoint, argv);
    let plan = sandbox_steps(root, project, home, closure, ro, rw, entrypoint, argv);
    let c = out.len() as int;
    lemma_outside_kinds(root, project, home, closure, ro, rw);
    assert(plan == out + ins);
    assert(plan[c] == ins[0]);
    assert forall|i: int| 0 <= i < plan.len() implies {
        &&& ((#[trigger] plan[i]) is Expose ==> i < c)
        &&& (plan[i] is MountFresh ==> c < i)
        &&& (plan[i] is Chroot ==> i == c)
    } by {
        if i < c {
            assert(plan[i] == out[i]);
        } else {
            assert(plan[i] == ins[i - c]);
        }
    }
}

/// Every store path of the closure is bound read-only, and the operations
/// of any read-only exposure end with its bind mount followed by the
/// read-only remount of its target.
pub proof fn lemma_closure_read_only(
    root: Seq<u8>,
    project: Seq<u8>,
    home: Seq<u8>,
    closure: Seq<Seq<u8>>,
    ro: Seq<ExposedPathView>,
    rw: Seq<ExposedPathView>,
    entrypoint: Seq<u8>,
    argv: Seq<Seq<u8>>,
)
    ensures
        forall|j: int|
            0 <= j < closure.len() ==> #[trigger] sandbox_steps(
                root,
                project,
                home,
                closure,
                ro,
                rw,
                entrypoint,
                argv,
            )[j] == host_exposure(closure[j], root, MountMode::RO),
        forall|e: ExposureView, k: SourceKind|
            e.mode == MountMode::RO ==> {
                let ops = #[trigger] mount_ops(e, k);
                &&& ops.len() >= 2
                &&& ops[ops.len() - 2] == MountOpView::Bind { source: e.source, target: e.target }
                &&& ops.last() == MountOpView::RemountReadOnly(e.target)
            },
{
    let plan = sandbox_steps(root, project, home, closure, ro, rw, entrypoint, argv);
    let a = closure_steps(closure, root);
    assert forall|j: int| 0 <= j < closure.len() implies #[trigger] plan[j] == host_exposure(
        closure[j],
        root,
        MountMode::RO,
    ) by {
        assert(plan[j] == a[j]);
    }
    assert forall|e: ExposureView, k: SourceKind| e.mode == MountMode::RO implies {
        let ops = #[trigger] mount_ops(e, k);
        &&& ops.len() >= 2
        &&& ops[ops.len() - 2] == MountOpView::Bind { source: e.source, target: e.target }
        &&& ops.last() == MountOpView::RemountReadOnly(e.target)
    } by {
        let ops = mount_ops(e, k);
        let head = ancestors(e.target).map_values(|d: Seq<u8>| MountOpView::MakeDir(d)) + seq![
            node_for(k, e.target),
        ];
        assert(ops == head + bind_ops(e));
        assert(ops[ops.len() - 2] == bind_ops(e)[0]);
        assert(ops.last() == bind_ops(e)[1]);
    }
}

} // verus!
