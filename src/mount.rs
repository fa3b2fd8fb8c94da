//! The mount planner: for one exposed host path, the operations that make
//! it appear under the sandbox root.
use vstd::prelude::*;

use crate::utils::{byte_views, bytes_of, push_from, SEPARATOR};

verus! {

/// Mode of the directories created under the sandbox root (`rwxr-xr-x`).
pub const DIR_MODE: u32 = 0o755;

/// Mode of the empty files created as mount points (`rw-r--r--`).
pub const FILE_MODE: u32 = 0o644;

/// Whether a bind mount is left writable or remounted read-only.
#[derive(PartialEq, Eq, Structural, Debug, Copy, Clone)]
pub enum MountMode {
    RW,
    RO,
}

/// A host path to bind under the sandbox root. An optional one whose
/// source is missing is skipped; a required one must exist.
#[derive(PartialEq, Eq, Debug, Clone)]
pub struct Exposure {
    pub source: Vec<u8>,
    pub target: Vec<u8>,
    pub mode: MountMode,
    pub optional: bool,
}

/// What an `Exposure` stands for.
pub struct ExposureView {
    pub source: Seq<u8>,
    pub target: Seq<u8>,
    pub mode: MountMode,
    pub optional: bool,
}

impl View for Exposure {
    type V = ExposureView;

    open spec fn view(&self) -> ExposureView {
        ExposureView {
            source: self.source@,
            target: self.target@,
            mode: self.mode,
            optional: self.optional,
        }
    }
}

/// The kind of file found at an exposure's source.
#[derive(PartialEq, Eq, Structural, Debug, Copy, Clone)]
pub enum SourceKind {
    Directory,
    File,
    CharDevice,
    Other,
}

/// The file-type bits of a mode (`S_IFMT`).
pub const S_IFMT: u32 = 0o170000;

/// The file type of a directory (`S_IFDIR`).
pub const S_IFDIR: u32 = 0o040000;

/// The file type of a regular file (`S_IFREG`).
pub const S_IFREG: u32 = 0o100000;

/// The file type of a character device (`S_IFCHR`).
pub const S_IFCHR: u32 = 0o020000;

/// The kind of file that a `st_mode` value describes.
pub open spec fn kind_of_mode(st_mode: u32) -> SourceKind {
    let t = st_mode & S_IFMT;
    if t == S_IFDIR {
        SourceKind::Directory
    } else if t == S_IFREG {
        SourceKind::File
    } else if t == S_IFCHR {
        SourceKind::CharDevice
    } else {
        SourceKind::Other
    }
}

impl SourceKind {
    /// The kind of file that the `st_mode` field of a `stat` result describes.
    pub fn of_mode(st_mode: u32) -> (r: SourceKind)
        ensures
            r == kind_of_mode(st_mode),
    {
        let t = st_mode & S_IFMT;
        if t == S_IFDIR {
            SourceKind::Directory
        } else if t == S_IFREG {
            SourceKind::File
        } else if t == S_IFCHR {
            SourceKind::CharDevice
        } else {
            SourceKind::Other
        }
    }
}

/// One filesystem operation of a mount.
#[derive(PartialEq, Eq, Debug, Clone)]
pub enum MountOp {
    /// Create a directory with `DIR_MODE`; one that exists already is fine.
    MakeDir(Vec<u8>),
    /// Create an empty regular file with `FILE_MODE`; one that exists already is fine.
    MakeFile(Vec<u8>),
    /// Bind `source` at `target`, private and recursive.
    Bind { source: Vec<u8>, target: Vec<u8> },
    /// Remount the bind mount at the path read-only.
    RemountReadOnly(Vec<u8>),
}

/// What a `MountOp` stands for.
pub enum MountOpView {
    MakeDir(Seq<u8>),
    MakeFile(Seq<u8>),
    Bind { source: Seq<u8>, target: Seq<u8> },
    RemountReadOnly(Seq<u8>),
}

impl View for MountOp {
    type V = MountOpView;

    open spec fn view(&self) -> MountOpView {
        match self {
            MountOp::MakeDir(p) => MountOpView::MakeDir(p@),
            MountOp::MakeFile(p) => MountOpView::MakeFile(p@),
            MountOp::Bind { source, target } => MountOpView::Bind {
                source: source@,
                target: target@,
            },
            MountOp::RemountReadOnly(p) => MountOpView::RemountReadOnly(p@),
        }
    }
}

/// The views of a sequence of operations.
pub open spec fn op_views(s: Seq<MountOp>) -> Seq<MountOpView> {
    s.map_values(|o: MountOp| o@)
}

/// Why a mount, or the sandbox around it, cannot be set up.
#[derive(PartialEq, Eq, Structural, Debug, Copy, Clone)]
pub enum SetupError {
    /// The expression file has no parent directory below the filesystem root.
    Mkdir,
    /// A home-relative path is exposed, and no home directory is known.
    GuessHomeDir,
    /// A command token or the entrypoint holds a NUL byte.
    Nul,
    /// A required source could not be examined.
    Stat,
}

/// The directories above `t`, outermost first: each prefix of `t` that ends
/// a component and is followed by a separator.
pub open spec fn ancestors(t: Seq<u8>) -> Seq<Seq<u8>>
    decreases t.len(),
{
    if t.len() == 0 {
        seq![]
    } else {
        let k = t.len() - 1;
        let a = ancestors(t.drop_last());
        if t[k] == SEPARATOR && k > 0 && t[k - 1] != SEPARATOR {
            a.push(t.drop_last())
        } else {
            a
        }
    }
}

/// The directories to create, outermost first, so that `t`'s parent exists.
pub fn ancestors_of(t: &[u8]) -> (r: Vec<Vec<u8>>)
    ensures
        byte_views(r@) == ancestors(t@),
{
    let mut r: Vec<Vec<u8>> = Vec::new();
    let mut k: usize = 0;
    assert(t@.subrange(0, 0) =~= Seq::<u8>::empty());
    assert(byte_views(r@) =~= seq![]);
    while k < t.len()
        invariant
            k <= t@.len(),
            byte_views(r@) == ancestors(t@.subrange(0, k as int)),
        decreases t@.len() - k,
    {
        let ghost next = t@.subrange(0, k + 1);
        assert(next.drop_last() =~= t@.subrange(0, k as int));
        if t[k] == SEPARATOR && k > 0 && t[k - 1] != SEPARATOR {
            let mut dir: Vec<u8> = Vec::new();
            push_from(&mut dir, &t[0..k], 0);
            assert(dir@ =~= next.drop_last());
            let ghost before = r@;
            r.push(dir);
            assert(byte_views(r@) =~= byte_views(before).push(dir@));
        }
        k = k + 1;
    }
    assert(t@.subrange(0, t@.len() as int) =~= t@);
    r
}

/// The node created at a mount target for a source of the given kind.
pub open spec fn node_for(kind: SourceKind, target: Seq<u8>) -> MountOpView {
    match kind {
        SourceKind::Directory => MountOpView::MakeDir(target),
        _ => MountOpView::MakeFile(target),
    }
}

/// The bind mount of an exposure, and its read-only remount where asked.
pub open spec fn bind_ops(e: ExposureView) -> Seq<MountOpView> {
    let bind = MountOpView::Bind { source: e.source, target: e.target };
    match e.mode {
        MountMode::RW => seq![bind],
        MountMode::RO => seq![bind, MountOpView::RemountReadOnly(e.target)],
    }
}

/// The operations that mount an exposure whose source is of kind `kind`:
/// the target's ancestors, the target node, then the mount itself.
pub open spec fn mount_ops(e: ExposureView, kind: SourceKind) -> Seq<MountOpView> {
    ancestors(e.target).map_values(|d: Seq<u8>| MountOpView::MakeDir(d)) + seq![
        node_for(kind, e.target),
    ] + bind_ops(e)
}

impl Exposure {
    /// The operations that set up this exposure, given what examining its
    /// source found (`None`: it could not be examined). A missing optional
    /// source gives no operation at all; a missing required one is `Stat`.
    /// A source of another kind than directory, regular file or character
    /// device is not supported: the caller aborts on it before asking.
    pub fn ops(&self, kind: Option<SourceKind>) -> (r: Result<Vec<MountOp>, SetupError>)
        requires
            kind != Some(SourceKind::Other),
        ensures
            kind is None && self.optional ==> (r matches Ok(ops) && ops@.len() == 0),
            kind is None && !self.optional ==> r == Err::<Vec<MountOp>, SetupError>(
                SetupError::Stat,
            ),
            kind is Some ==> (r matches Ok(ops) && op_views(ops@)
                == mount_ops(self@, kind->0)),
    {
        let k = match kind {
            None => {
                if self.optional {
                    return Ok(Vec::new());
                } else {
                    return Err(SetupError::Stat);
                }
            },
            Some(k) => k,
        };
        let dirs = ancestors_of(self.target.as_slice());
        let mut ops: Vec<MountOp> = Vec::new();
        let mut i: usize = 0;
        while i < dirs.len()
            invariant
                i <= dirs@.len(),
                byte_views(dirs@) == ancestors(self.target@),
                op_views(ops@) == ancestors(self.target@).take(i as int).map_values(
                    |d: Seq<u8>| MountOpView::MakeDir(d),
                ),
            decreases dirs@.len() - i,
        {
            let ghost before = ops@;
            let dir = bytes_of(dirs[i].as_slice());
            assert(byte_views(dirs@)[i as int] == dirs@[i as int]@);
            assert(ancestors(self.target@)[i as int] == dir@);
            assert(ancestors(self.target@).take(i + 1) =~= ancestors(self.target@).take(
                i as int,
            ).push(dir@));
            ops.push(MountOp::MakeDir(dir));
            assert(op_views(ops@) =~= op_views(before).push(MountOpView::MakeDir(dir@)));
            assert(op_views(ops@) =~= ancestors(self.target@).take(i + 1).map_values(
                |d: Seq<u8>| MountOpView::MakeDir(d),
            ));
            i = i + 1;
        }
        assert(ancestors(self.target@).take(i as int) =~= ancestors(self.target@));
        let ghost dir_ops = op_views(ops@);
        if k == SourceKind::Directory {
            ops.push(MountOp::MakeDir(bytes_of(self.target.as_slice())));
        } else {
            ops.push(MountOp::MakeFile(bytes_of(self.target.as_slice())));
        }
        ops.push(
            MountOp::Bind {
                source: bytes_of(self.source.as_slice()),
                target: bytes_of(self.target.as_slice()),
            },
        );
        if self.mode == MountMode::RO {
            ops.push(MountOp::RemountReadOnly(bytes_of(self.target.as_slice())));
        }
        assert(op_views(ops@) =~= mount_ops(self@, k));
        Ok(ops)
    }
}

} // verus!
