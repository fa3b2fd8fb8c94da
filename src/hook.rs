//! The bash snippet that enters the sandbox on changing into a project.
use vstd::prelude::*;
use vstd::string::StringSliceAdditionalSpecFns;

use crate::utils::push_from;

verus! {

/// The snippet up to the path of the launcher.
pub const HOOK_HEAD: &'static str = "
LAURN_PREVIOUS_PATH=\"\"
_laurn_hook() {
    local previous_exit_status=$?;
    if [ \"$(pwd)\" != \"$LAURN_PREVIOUS_PATH\" ]; then
        LAURN_PREVIOUS_PATH=\"$(pwd)\";
        if [ -e .laurnrc ]; then
           ";

/// The snippet after the path of the launcher.
pub const HOOK_TAIL: &'static str = " shell;
        else
            return $previous_exit_status;
        fi
    else
        return $previous_exit_status;
    fi
}
if ! [[ \"${PROMPT_COMMAND:-}\" =~ _laurn_hook ]]; then
  PROMPT_COMMAND=\"_laurn_hook${PROMPT_COMMAND:+;$PROMPT_COMMAND}\"
fi
";

/// The bash snippet for `PROMPT_COMMAND` that runs `<launcher> shell` when
/// the shell moves into a directory holding a policy file.
pub fn hook_bash(launcher: &[u8]) -> (r: Vec<u8>)
    ensures
        r@ == HOOK_HEAD.spec_bytes() + launcher@ + HOOK_TAIL.spec_bytes(),
{
    let head = HOOK_HEAD.as_bytes();
    let tail = HOOK_TAIL.as_bytes();
    let mut r: Vec<u8> = Vec::new();
    push_from(&mut r, head, 0);
    push_from(&mut r, launcher, 0);
    push_from(&mut r, tail, 0);
    assert(head@.subrange(0, head@.len() as int) =~= head@);
    assert(launcher@.subrange(0, launcher@.len() as int) =~= launcher@);
    assert(tail@.subrange(0, tail@.len() as int) =~= tail@);
    r
}

} // verus!
