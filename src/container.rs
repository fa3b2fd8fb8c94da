//! The closure realiser: the wrapper expression handed to the evaluator,
//! and the reading of what the evaluator and the realiser print.
use vstd::prelude::*;
use vstd::string::StringSliceAdditionalSpecFns;

use crate::utils::{byte_views, push_from};

verus! {

/// The line feed that ends each line of a tool's output.
pub const NEWLINE: u8 = 0x0a;

/// What an external tool left behind: its exit code and its standard output.
#[derive(PartialEq, Eq, Debug, Clone)]
pub struct ToolOutput {
    pub code: i32,
    pub stdout: Vec<u8>,
}

/// A requisites listing that does not have the expected shape.
#[derive(PartialEq, Eq, Structural, Debug, Copy, Clone)]
pub struct ParseError;

/// `s` split at every line feed: `n` line feeds give `n + 1` pieces.
pub open spec fn lines(s: Seq<u8>) -> Seq<Seq<u8>>
    decreases s.len(),
{
    if s.len() == 0 {
        seq![Seq::empty()]
    } else {
        let l = lines(s.drop_last());
        if s.last() == NEWLINE {
            l.push(Seq::empty())
        } else {
            l.update(l.len() - 1, l.last().push(s.last()))
        }
    }
}

/// `s` without one trailing line feed, if it has one.
pub open spec fn body(s: Seq<u8>) -> Seq<u8> {
    if s.len() > 0 && s.last() == NEWLINE {
        s.drop_last()
    } else {
        s
    }
}

/// The paths of a requisites listing, one per line.
pub open spec fn listed_paths(s: Seq<u8>) -> Seq<Seq<u8>> {
    lines(body(s))
}

/// A requisites listing is well formed: at least one path, no blank line,
/// at most one trailing line feed.
pub open spec fn is_listing(s: Seq<u8>) -> bool {
    forall|i: int| 0 <= i < listed_paths(s).len() ==> #[trigger] listed_paths(s)[i].len() > 0
}

proof fn lemma_lines_len(s: Seq<u8>)
    ensures
        lines(s).len() >= 1,
    decreases s.len(),
{
    if s.len() > 0 {
        lemma_lines_len(s.drop_last());
    }
}

/// Reads a requisites listing: one path per line, with an optional trailing
/// line feed. The whole input is consumed, so the rest that comes back is
/// always empty.
pub fn references(input: &[u8]) -> (r: Result<(&[u8], Vec<Vec<u8>>), ParseError>)
    ensures
        r is Ok <==> is_listing(input@),
        r matches Ok((rest, paths)) ==> rest@.len() == 0 && byte_views(paths@) == listed_paths(
            input@,
        ),
{
    let len = input.len();
    let n: usize = if len > 0 && input[len - 1] == NEWLINE {
        len - 1
    } else {
        len
    };
    let ghost b = body(input@);
    assert(b =~= input@.subrange(0, n as int));
    let mut out: Vec<Vec<u8>> = Vec::new();
    let mut cur: Vec<u8> = Vec::new();
    let mut blank = false;
    let mut i: usize = 0;
    assert(b.subrange(0, 0) =~= Seq::<u8>::empty());
    assert(byte_views(out@).push(cur@) =~= seq![Seq::<u8>::empty()]);
    while i < n
        invariant
            n <= input@.len(),
            i <= n,
            b == input@.subrange(0, n as int),
            lines(b.subrange(0, i as int)) == byte_views(out@).push(cur@),
            blank <==> exists|k: int| 0 <= k < out@.len() && (#[trigger] out@[k])@.len() == 0,
        decreases n - i,
    {
        let c = input[i];
        let ghost prev = b.subrange(0, i as int);
        let ghost next = b.subrange(0, i + 1);
        assert(next.drop_last() =~= prev);
        assert(next.last() == c);
        proof {
            lemma_lines_len(prev);
        }
        if c == NEWLINE {
            let ghost old_out = out@;
            let was_empty = cur.len() == 0;
            if was_empty {
                blank = true;
            }
            out.push(cur);
            cur = Vec::new();
            proof {
                assert(byte_views(out@) =~= byte_views(old_out).push(out@[old_out.len() as int]@));
                assert(lines(next) =~= byte_views(out@).push(cur@));
                if blank {
                    if was_empty {
                        assert(out@[old_out.len() as int]@.len() == 0);
                    } else {
                        let k = choose|k: int|
                            0 <= k < old_out.len() && (#[trigger] old_out[k])@.len() == 0;
                        assert(out@[k] == old_out[k]);
                    }
                }
                assert forall|k: int| 0 <= k < out@.len() && (#[trigger] out@[k])@.len() == 0 implies blank by {
                    if k < old_out.len() {
                        assert(out@[k] == old_out[k]);
                    }
                }
            }
        } else {
            cur.push(c);
            assert(lines(next) =~= byte_views(out@).push(cur@));
        }
        i = i + 1;
    }
    assert(b.subrange(0, n as int) =~= b);
    let ghost all = byte_views(out@).push(cur@);
    assert(all.len() == out@.len() + 1);
    if blank || cur.len() == 0 {
        proof {
            if blank {
                let k = choose|k: int| 0 <= k < out@.len() && (#[trigger] out@[k])@.len() == 0;
                assert(all[k] == out@[k]@);
                assert(listed_paths(input@)[k].len() == 0);
            } else {
                assert(all[out@.len() as int] == cur@);
                assert(listed_paths(input@)[out@.len() as int].len() == 0);
            }
        }
        Err(ParseError)
    } else {
        out.push(cur);
        assert(byte_views(out@) =~= all);
        assert forall|i: int| 0 <= i < all.len() implies #[trigger] all[i].len() > 0 by {
            if i < all.len() - 1 {
                assert(all[i] == out@[i]@);
            }
        }
        Ok((&input[len..len], out))
    }
}


/// The first part of the wrapper expression, up to the user's expression path.
pub const WRAPPER_HEAD: &'static str = "
{ system ? builtins.currentSystem }:

let
  pkgs = import <nixpkgs> { inherit system; };
  bash = (import <nixpkgs> {}).bashInteractive;
  origShell = (import ";

/// The rest of the wrapper expression, after the user's expression path.
pub const WRAPPER_TAIL: &'static str = ");
in pkgs.stdenv.mkDerivation rec {
  name = \"laurn-shell\";

  buildInputs = origShell.buildInputs;

  src = pkgs.writeScriptBin \"start\" ''
#!/bin/bash

export PATH=@binpath@

if [ $# -gt 0 ]; then
    exec @bashShell@/bin/bash -c \"$*\"
else
    exec @bashShell@/bin/bash -i
fi
'';

  binpath = pkgs.lib.makeBinPath (origShell.buildInputs ++ [
    pkgs.coreutils
    pkgs.procps
    pkgs.iproute
    pkgs.mount
    pkgs.which
    bash
  ]);
  bashShell = bash;

  buildPhase = \"\";
  installPhase = ''
    cp -r ./bin/start $out
    chmod +x $out
    substituteAllInPlace $out
  '';
}
";

/// The expression handed to the evaluator for the user expression at
/// `laurn_expr`: it adds the sandbox's utilities to the user's build inputs
/// and yields one start script.
pub fn source_input(laurn_expr: &[u8]) -> (r: Vec<u8>)
    ensures
        r@ == WRAPPER_HEAD.spec_bytes() + laurn_expr@ + WRAPPER_TAIL.spec_bytes(),
{
    let head = WRAPPER_HEAD.as_bytes();
    let tail = WRAPPER_TAIL.as_bytes();
    let mut r: Vec<u8> = Vec::new();
    push_from(&mut r, head, 0);
    push_from(&mut r, laurn_expr, 0);
    push_from(&mut r, tail, 0);
    assert(head@.subrange(0, head@.len() as int) =~= head@);
    assert(laurn_expr@.subrange(0, laurn_expr@.len() as int) =~= laurn_expr@);
    assert(tail@.subrange(0, tail@.len() as int) =~= tail@);
    r
}

/// The path printed by a tool that prints one line: its output without
/// the trailing line feed.
pub open spec fn printed_path(stdout: Seq<u8>) -> Seq<u8> {
    body(stdout)
}

/// `s` without one trailing line feed, if it has one.
fn strip_newline(s: Vec<u8>) -> (r: Vec<u8>)
    ensures
        r@ == body(s@),
{
    let mut s = s;
    if s.len() > 0 && s[s.len() - 1] == NEWLINE {
        let _ = s.pop();
    }
    s
}

/// Why the evaluator did not yield a derivation.
#[derive(Debug)]
pub enum InstantiationFailed {
    Truncated,
    Code { exit_status: i32 },
    Exec(std::io::Error),
    Write(std::io::Error),
    StdinNotCaptured,
}

/// Why the realiser did not yield an output path.
#[derive(Debug)]
pub enum BuildFailed {
    Code { exit_status: i32 },
    Exec(std::io::Error),
    Truncated,
}

/// Why no container could be built.
#[derive(Debug)]
pub enum BuildError {
    Source(std::io::Error),
    Instantiation(InstantiationFailed),
    Build(BuildFailed),
}

/// Why the closure of a container could not be listed.
#[derive(Debug)]
pub enum Error {
    Exec(std::io::Error),
    Code { exit_status: i32 },
    Truncated,
    ParsingFailed,
}

/// The derivation path printed by the evaluator.
#[derive(PartialEq, Eq, Debug, Clone)]
pub struct Instantiate(pub Vec<u8>);

/// The entrypoint store path printed by the realiser.
#[derive(PartialEq, Eq, Debug, Clone)]
pub struct Build {
    pub output: Vec<u8>,
}

impl Instantiate {
    /// Reads the evaluator's output: a non-zero exit is `Code`, an empty
    /// output `Truncated`; otherwise the derivation path is the output
    /// without its trailing line feed.
    pub fn new(out: ToolOutput) -> (r: Result<Self, InstantiationFailed>)
        ensures
            out.code != 0 ==> (r matches Err(InstantiationFailed::Code { exit_status }) && exit_status
                == out.code),
            out.code == 0 && out.stdout@.len() == 0 ==> (r matches Err(
                InstantiationFailed::Truncated,
            )),
            out.code == 0 && out.stdout@.len() > 0 ==> (r matches Ok(i) && i.0@ == printed_path(
                out.stdout@,
            )),
    {
        if out.code != 0 {
            Err(InstantiationFailed::Code { exit_status: out.code })
        } else if out.stdout.len() == 0 {
            Err(InstantiationFailed::Truncated)
        } else {
            Ok(Instantiate(strip_newline(out.stdout)))
        }
    }
}

impl Build {
    /// Reads the realiser's output in the same way as `Instantiate::new`.
    pub fn realize(out: ToolOutput) -> (r: Result<Self, BuildFailed>)
        ensures
            out.code != 0 ==> (r matches Err(BuildFailed::Code { exit_status }) && exit_status
                == out.code),
            out.code == 0 && out.stdout@.len() == 0 ==> (r matches Err(BuildFailed::Truncated)),
            out.code == 0 && out.stdout@.len() > 0 ==> (r matches Ok(b) && b.output@ == printed_path(
                out.stdout@,
            )),
    {
        if out.code != 0 {
            Err(BuildFailed::Code { exit_status: out.code })
        } else if out.stdout.len() == 0 {
            Err(BuildFailed::Truncated)
        } else {
            Ok(Build { output: strip_newline(out.stdout) })
        }
    }
}

/// A built sandbox: the user expression it came from and its entrypoint.
#[derive(Debug)]
pub struct Container {
    pub laurn_expr: Vec<u8>,
    pub output: Build,
}

impl Container {
    /// Builds a container from the canonical path of the user expression,
    /// what the evaluator printed for `source_input(laurn_expr)`, and what
    /// the realiser printed for the derivation that the evaluator named.
    pub fn build(laurn_expr: Vec<u8>, instantiated: ToolOutput, realised: ToolOutput) -> (r: Result<
        Container,
        BuildError,
    >)
        ensures
            instantiated.code != 0 ==> (r matches Err(
                BuildError::Instantiation(InstantiationFailed::Code { exit_status }),
            ) && exit_status == instantiated.code),
            instantiated.code == 0 && instantiated.stdout@.len() == 0 ==> (r matches Err(
                BuildError::Instantiation(InstantiationFailed::Truncated),
            )),
            instantiated.code == 0 && instantiated.stdout@.len() > 0 && realised.code != 0 ==> (r matches Err(
                BuildError::Build(BuildFailed::Code { exit_status }),
            ) && exit_status == realised.code),
            instantiated.code == 0 && instantiated.stdout@.len() > 0 && realised.code == 0
                && realised.stdout@.len() == 0 ==> (r matches Err(
                BuildError::Build(BuildFailed::Truncated),
            )),
            instantiated.code == 0 && instantiated.stdout@.len() > 0 && realised.code == 0
                && realised.stdout@.len() > 0 ==> (r matches Ok(c) && c.laurn_expr@ == laurn_expr@
                && c.output.output@ == printed_path(realised.stdout@)),
    {
        let _instantiation = match Instantiate::new(instantiated) {
            Ok(i) => i,
            Err(e) => {
                return Err(BuildError::Instantiation(e));
            },
        };
        let output = match Build::realize(realised) {
            Ok(b) => b,
            Err(e) => {
                return Err(BuildError::Build(e));
            },
        };
        Ok(Container { laurn_expr, output })
    }

    /// Reads the realiser's listing of this container's closure: a non-zero
    /// exit is `Code`, a listing of the wrong shape `ParsingFailed`.
    pub fn references(&self, out: ToolOutput) -> (r: Result<Vec<Vec<u8>>, Error>)
        ensures
            out.code != 0 ==> (r matches Err(Error::Code { exit_status }) && exit_status == out.code),
            out.code == 0 && !is_listing(out.stdout@) ==> (r matches Err(Error::ParsingFailed)),
            out.code == 0 && is_listing(out.stdout@) ==> (r matches Ok(paths) && byte_views(paths@)
                == listed_paths(out.stdout@)),
    {
        if out.code != 0 {
            return Err(Error::Code { exit_status: out.code });
        }
        match references(out.stdout.as_slice()) {
            Ok((_rest, paths)) => Ok(paths),
            Err(_) => Err(Error::ParsingFailed),
        }
    }
}


/// The paths of `p` written one per line, without a final line feed.
pub open spec fn joined(p: Seq<Seq<u8>>) -> Seq<u8>
    decreases p.len(),
{
    if p.len() == 0 {
        Seq::empty()
    } else if p.len() == 1 {
        p[0]
    } else {
        joined(p.drop_last()) + seq![NEWLINE] + p.last()
    }
}

/// `s` holds no line feed.
pub open spec fn is_line(s: Seq<u8>) -> bool {
    forall|i: int| 0 <= i < s.len() ==> s[i] != NEWLINE
}

/// `s` holds a blank line: it starts with a line feed, or holds two in a row.
pub open spec fn has_blank_line(s: Seq<u8>) -> bool {
    ||| (s.len() > 0 && s[0] == NEWLINE)
    ||| exists|i: int| 0 <= i && i + 1 < s.len() && s[i] == NEWLINE && #[trigger] s[i + 1] == NEWLINE
}

proof fn lemma_lines_of_line(y: Seq<u8>)
    requires
        is_line(y),
    ensures
        lines(y) == seq![y],
    decreases y.len(),
{
    if y.len() > 0 {
        lemma_lines_of_line(y.drop_last());
        assert(y.drop_last().push(y.last()) =~= y);
        assert(lines(y) =~= seq![y]);
    } else {
        assert(y =~= Seq::<u8>::empty());
    }
}

proof fn lemma_lines_after_newline(x: Seq<u8>, y: Seq<u8>)
    requires
        is_line(y),
    ensures
        lines(x + seq![NEWLINE] + y) == lines(x).push(y),
    decreases y.len(),
{
    let s = x + seq![NEWLINE] + y;
    if y.len() == 0 {
        assert(s.drop_last() =~= x);
        assert(y =~= Seq::<u8>::empty());
    } else {
        lemma_lines_after_newline(x, y.drop_last());
        assert(s.drop_last() =~= x + seq![NEWLINE] + y.drop_last());
        assert(y.drop_last().push(y.last()) =~= y);
        assert(lines(s) =~= lines(x).push(y));
    }
}

proof fn lemma_lines_of_joined(p: Seq<Seq<u8>>)
    requires
        p.len() >= 1,
        forall|i: int| 0 <= i < p.len() ==> is_line(#[trigger] p[i]),
    ensures
        lines(joined(p)) == p,
    decreases p.len(),
{
    if p.len() == 1 {
        lemma_lines_of_line(p[0]);
        assert(p =~= seq![p[0]]);
    } else {
        let q = p.drop_last();
        assert forall|i: int| 0 <= i < q.len() implies is_line(#[trigger] q[i]) by {
            assert(q[i] == p[i]);
        }
        lemma_lines_of_joined(q);
        lemma_lines_after_newline(joined(q), p.last());
        assert(q.push(p.last()) =~= p);
    }
}

proof fn lemma_lines_prefix(s: Seq<u8>, j: int)
    requires
        0 <= j <= s.len(),
    ensures
        lines(s).len() >= lines(s.subrange(0, j)).len(),
        forall|k: int|
            0 <= k < lines(s.subrange(0, j)).len() - 1 ==> #[trigger] lines(s)[k] == lines(
                s.subrange(0, j),
            )[k],
    decreases s.len(),
{
    lemma_lines_len(s);
    if j == s.len() {
        assert(s.subrange(0, j) =~= s);
    } else {
        let t = s.drop_last();
        assert(t.subrange(0, j) =~= s.subrange(0, j));
        lemma_lines_prefix(t, j);
        lemma_lines_len(t);
    }
}

proof fn lemma_joined_lines(s: Seq<u8>)
    ensures
        joined(lines(s)) == s,
        forall|i: int| 0 <= i < lines(s).len() ==> is_line(#[trigger] lines(s)[i]),
    decreases s.len(),
{
    if s.len() == 0 {
        assert(lines(s)[0] =~= Seq::<u8>::empty());
        assert(s =~= Seq::<u8>::empty());
    } else {
        let t = s.drop_last();
        let c = s.last();
        let l = lines(t);
        lemma_joined_lines(t);
        lemma_lines_len(t);
        assert(t.push(c) =~= s);
        if c == NEWLINE {
            let m = l.push(Seq::<u8>::empty());
            assert(m.drop_last() =~= l);
            assert(joined(m) == joined(l) + seq![NEWLINE] + Seq::<u8>::empty());
            assert(joined(m) =~= s);
            assert forall|i: int| 0 <= i < m.len() implies is_line(#[trigger] m[i]) by {
                if i < l.len() {
                    assert(m[i] == l[i]);
                }
            }
        } else {
            let last = l.last().push(c);
            let m = l.update(l.len() - 1, last);
            assert(is_line(l[l.len() - 1]));
            assert(is_line(last));
            if l.len() == 1 {
                assert(joined(m) == m[0]);
                assert(joined(l) == l[0]);
                assert(joined(m) =~= s);
            } else {
                assert(m.drop_last() =~= l.drop_last());
                assert(joined(m) == joined(l.drop_last()) + seq![NEWLINE] + last);
                assert(joined(l) == joined(l.drop_last()) + seq![NEWLINE] + l.last());
                assert(joined(m) =~= s);
            }
            assert forall|i: int| 0 <= i < m.len() implies is_line(#[trigger] m[i]) by {
                if i < l.len() - 1 {
                    assert(m[i] == l[i]);
                }
            }
        }
    }
}

/// Every accepted listing has that shape: its paths are not empty, hold
/// no line feed, and written one per line give the input back, with or
/// without one trailing line feed.
pub proof fn lemma_listing_shape(s: Seq<u8>)
    requires
        is_listing(s),
    ensures
        listed_paths(s).len() >= 1,
        forall|i: int|
            0 <= i < listed_paths(s).len() ==> #[trigger] listed_paths(s)[i].len() > 0 && is_line(
                listed_paths(s)[i],
            ),
        s == joined(listed_paths(s)) || s == joined(listed_paths(s)).push(NEWLINE),
{
    let b = body(s);
    lemma_lines_len(b);
    lemma_joined_lines(b);
    if s.len() > 0 && s.last() == NEWLINE {
        assert(b.push(NEWLINE) =~= s);
    }
}

/// Paths that are not empty and hold no line feed, written one per line,
/// are read back as they are, with or without one trailing line feed.
pub proof fn lemma_listing_accepted(p: Seq<Seq<u8>>)
    requires
        p.len() >= 1,
        forall|i: int| 0 <= i < p.len() ==> #[trigger] p[i].len() > 0 && is_line(p[i]),
    ensures
        is_listing(joined(p)),
        listed_paths(joined(p)) == p,
        is_listing(joined(p).push(NEWLINE)),
        listed_paths(joined(p).push(NEWLINE)) == p,
{
    assert forall|i: int| 0 <= i < p.len() implies is_line(#[trigger] p[i]) by {}
    lemma_lines_of_joined(p);
    let s = joined(p);
    let l = p.last();
    assert(p[p.len() - 1].len() > 0);
    assert(is_line(l));
    if p.len() == 1 {
        assert(s == l);
    } else {
        assert(s == joined(p.drop_last()) + seq![NEWLINE] + l);
    }
    assert(s.len() > 0 && s.last() == l.last()) by {
        if p.len() > 1 {
            assert(s.last() == l[l.len() - 1]);
        }
    }
    assert(l[l.len() - 1] != NEWLINE);
    assert(body(s) == s);
    assert(body(s.push(NEWLINE)) =~= s);
}

/// The empty input, a lone line feed, and any input with a blank line are
/// rejected.
pub proof fn lemma_listing_rejected(s: Seq<u8>)
    requires
        s.len() == 0 || has_blank_line(s),
    ensures
        !is_listing(s),
{
    let t = body(s);
    if t.len() == 0 {
        assert(lines(t)[0].len() == 0);
        assert(listed_paths(s)[0].len() == 0);
    } else if s[0] == NEWLINE {
        assert(t[0] == NEWLINE);
        let pre = t.subrange(0, 1);
        assert(pre.drop_last() =~= Seq::<u8>::empty());
        assert(pre.last() == NEWLINE);
        assert(lines(pre.drop_last()) == seq![Seq::<u8>::empty()]);
        assert(lines(pre) =~= seq![Seq::<u8>::empty(), Seq::<u8>::empty()]);
        lemma_lines_prefix(t, 1);
        assert(listed_paths(s)[0].len() == 0);
    } else {
        let i = choose|i: int| 0 <= i && i + 1 < s.len() && s[i] == NEWLINE && #[trigger] s[i + 1] == NEWLINE;
        if i + 2 == s.len() {
            assert(t =~= s.subrange(0, i + 1));
            let u = s.subrange(0, i);
            assert(t.drop_last() =~= u);
            lemma_lines_len(u);
            assert(lines(t) == lines(u).push(Seq::empty()));
            assert(listed_paths(s)[lines(t).len() - 1].len() == 0);
        } else {
            assert(t[i] == NEWLINE && t[i + 1] == NEWLINE);
            let u = t.subrange(0, i);
            let v = t.subrange(0, i + 1);
            let w = t.subrange(0, i + 2);
            assert(v.drop_last() =~= u);
            assert(w.drop_last() =~= v);
            lemma_lines_len(u);
            assert(v.last() == NEWLINE);
            assert(w.last() == NEWLINE);
            assert(lines(v) == lines(u).push(Seq::empty()));
            assert(lines(w) == lines(u).push(Seq::empty()).push(Seq::empty()));
            let k = lines(u).len() as int;
            assert(lines(w)[k].len() == 0);
            lemma_lines_prefix(t, i + 2);
            assert(listed_paths(s)[k].len() == 0);
        }
    }
}

} // verus!
