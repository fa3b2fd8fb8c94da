//! Which host paths a policy mode exposes inside the sandbox.
use vstd::prelude::*;
use vstd::string::StringSliceAdditionalSpecFns;

use crate::config::Mode;
use crate::utils::bytes_of;

verus! {

/// The policy file of a project, relative to the project directory.
pub const POLICY_FILE: &'static str = ".laurnrc";

/// The package-set expression of a project, relative to the project directory.
pub const EXPRESSION_FILE: &'static str = "laurn.nix";

/// A host path to expose, given relative to the project or to the home directory.
#[derive(PartialEq, Eq, Debug, Clone)]
pub enum ExposedPath {
    Project(Vec<u8>),
    UserHome(Vec<u8>),
}

/// What an `ExposedPath` stands for, as plain byte sequences.
pub enum ExposedPathView {
    Project(Seq<u8>),
    UserHome(Seq<u8>),
}

impl View for ExposedPath {
    type V = ExposedPathView;

    open spec fn view(&self) -> ExposedPathView {
        match self {
            ExposedPath::Project(p) => ExposedPathView::Project(p@),
            ExposedPath::UserHome(p) => ExposedPathView::UserHome(p@),
        }
    }
}

/// The views of a sequence of exposed paths.
pub open spec fn views(s: Seq<ExposedPath>) -> Seq<ExposedPathView> {
    s.map_values(|e: ExposedPath| e@)
}

/// The project files that every non-empty policy exposes read-only, in order.
pub open spec fn builtin_ro() -> Seq<ExposedPathView> {
    seq![
        ExposedPathView::Project(".git".spec_bytes()),
        ExposedPathView::Project(POLICY_FILE.spec_bytes()),
        ExposedPathView::Project(EXPRESSION_FILE.spec_bytes()),
        ExposedPathView::Project("nix".spec_bytes()),
    ]
}

/// What a mode adds on its own to the read-only and read-write lists.
pub open spec fn mode_additions(mode: Mode) -> (Seq<ExposedPathView>, Seq<ExposedPathView>) {
    match mode {
        Mode::Bare => (seq![], seq![]),
        Mode::Rust => (seq![], seq![ExposedPathView::UserHome(".cargo".spec_bytes())]),
    }
}

/// The policy that a mode resolves to: `(ro_paths, rw_paths)`.
pub open spec fn policy_of(mode: Mode) -> (Seq<ExposedPathView>, Seq<ExposedPathView>) {
    match mode {
        Mode::Bare => (seq![], seq![]),
        _ => (mode_additions(mode).0 + builtin_ro(), mode_additions(mode).1),
    }
}

impl ExposedPath {
    /// A path relative to the project directory.
    pub fn project(input: &str) -> (r: Self)
        ensures
            r@ == ExposedPathView::Project(input.spec_bytes()),
    {
        ExposedPath::Project(bytes_of(input.as_bytes()))
    }

    /// A path relative to the invoking user's home directory.
    pub fn user_home(input: &str) -> (r: Self)
        ensures
            r@ == ExposedPathView::UserHome(input.spec_bytes()),
    {
        ExposedPath::UserHome(bytes_of(input.as_bytes()))
    }
}

/// The host paths to expose read-only and read-write.
#[derive(Debug)]
pub struct Strategy {
    pub ro_paths: Vec<ExposedPath>,
    pub rw_paths: Vec<ExposedPath>,
}

impl Strategy {
    /// A policy with the given entries, the built-in project files appended
    /// to the read-only list.
    pub fn new(ro_paths: Vec<ExposedPath>, rw_paths: Vec<ExposedPath>) -> (r: Self)
        ensures
            views(r.ro_paths@) == views(ro_paths@) + builtin_ro(),
            views(r.rw_paths@) == views(rw_paths@),
    {
        let ghost given = ro_paths@;
        let mut ro_paths = ro_paths;
        ro_paths.push(ExposedPath::project(".git"));
        ro_paths.push(ExposedPath::project(POLICY_FILE));
        ro_paths.push(ExposedPath::project(EXPRESSION_FILE));
        ro_paths.push(ExposedPath::project("nix"));
        assert(views(ro_paths@) =~= views(given) + builtin_ro());
        Strategy { ro_paths, rw_paths }
    }
}

impl Default for Strategy {
    /// The empty policy.
    fn default() -> (r: Self)
        ensures
            r.ro_paths@.len() == 0,
            r.rw_paths@.len() == 0,
    {
        Strategy { ro_paths: Vec::new(), rw_paths: Vec::new() }
    }
}

impl Strategy {
    /// The policy that `mode` selects. `Mode::Bare` is the empty policy as it
    /// stands; any other mode goes through `Strategy::new`.
    pub fn for_mode(mode: Mode) -> (r: Self)
        ensures
            views(r.ro_paths@) == policy_of(mode).0,
            views(r.rw_paths@) == policy_of(mode).1,
    {
        match mode {
            Mode::Bare => {
                let r = Strategy::default();
                assert(views(r.ro_paths@) =~= seq![]);
                assert(views(r.rw_paths@) =~= seq![]);
                r
            },
            Mode::Rust => {
                let mut rw: Vec<ExposedPath> = Vec::new();
                rw.push(ExposedPath::user_home(".cargo"));
                let none: Vec<ExposedPath> = Vec::new();
                assert(views(none@) =~= seq![]);
                assert(views(rw@) =~= mode_additions(mode).1);
                Strategy::new(none, rw)
            },
        }
    }
}

/// The policy that `mode` selects, as `Strategy::for_mode` gives it.
impl From<Mode> for Strategy {
    fn from(mode: Mode) -> (r: Self)
        ensures
            views(r.ro_paths@) == policy_of(mode).0,
            views(r.rw_paths@) == policy_of(mode).1,
    {
        Strategy::for_mode(mode)
    }
}

impl vstd::std_specs::convert::FromSpecImpl<Mode> for Strategy {
    open spec fn obeys_from_spec() -> bool {
        false
    }

    open spec fn from_spec(v: Mode) -> Strategy {
        arbitrary()
    }
}


/// For every mode but `Bare`, the read-only list is the mode's own
/// read-only additions followed by exactly the four built-in project files
/// (`.git`, the policy file, the expression file, `nix`), in that order,
/// and the read-write list is the mode's own additions. `Bare` resolves to
/// two empty lists.
pub proof fn lemma_policy_content(mode: Mode)
    ensures
        mode != Mode::Bare ==> policy_of(mode).0 == mode_additions(mode).0 + builtin_ro(),
        mode != Mode::Bare ==> policy_of(mode).1 == mode_additions(mode).1,
        mode == Mode::Bare ==> policy_of(mode).0.len() == 0 && policy_of(mode).1.len() == 0,
        builtin_ro().len() == 4,
        builtin_ro()[0] == ExposedPathView::Project(".git".spec_bytes()),
        builtin_ro()[1] == ExposedPathView::Project(POLICY_FILE.spec_bytes()),
        builtin_ro()[2] == ExposedPathView::Project(EXPRESSION_FILE.spec_bytes()),
        builtin_ro()[3] == ExposedPathView::Project("nix".spec_bytes()),
        mode == Mode::Rust ==> policy_of(mode).0 == builtin_ro() && policy_of(mode).1 == seq![
            ExposedPathView::UserHome(".cargo".spec_bytes()),
        ],
{
    assert(Seq::<ExposedPathView>::empty() + builtin_ro() =~= builtin_ro());
}

} // verus!
