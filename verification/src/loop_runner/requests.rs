//! What is asked of the process that runs a lifecycle hook.
use crate::config::hooks::{phase_key, EnvVar};
use crate::event_loop::routing::clone_texts;
use crate::loop_runner::hooks::ResolvedHook;
use crate::text::{opt_text, texts};
use serde_json::Value;
use vstd::prelude::*;

verus! {

/// One run of a hook.
#[derive(Debug)]
pub struct HookRunRequest {
    /// Key of the phase-event.
    pub phase_event: String,
    pub hook_name: String,
    pub command: Vec<String>,
    pub workspace_root: String,
    pub cwd: Option<String>,
    pub env: Vec<EnvVar>,
    pub timeout_seconds: u64,
    pub max_output_bytes: u64,
    /// What the hook gets on its standard input.
    pub stdin_payload: Value,
}

/// Environment variables as pairs of name and value.
pub open spec fn env_pairs(env: Seq<EnvVar>) -> Seq<(Seq<char>, Seq<char>)> {
    env.map_values(|variable: EnvVar| (variable.name@, variable.value@))
}

/// Whether a request runs a hook in a workspace on a payload.
pub open spec fn runs(
    request: HookRunRequest,
    hook: ResolvedHook,
    workspace_root: Seq<char>,
    payload: Value,
) -> bool {
    &&& request.phase_event@ == phase_key(hook.phase_event)
    &&& request.hook_name@ == hook.name@
    &&& texts(request.command@) == texts(hook.command@)
    &&& request.workspace_root@ == workspace_root
    &&& opt_text(request.cwd) == opt_text(hook.cwd)
    &&& env_pairs(request.env@) == env_pairs(hook.env@)
    &&& request.timeout_seconds == hook.timeout_seconds
    &&& request.max_output_bytes == hook.max_output_bytes
    &&& request.stdin_payload == payload
}

/// Copies environment variables.
pub fn clone_env(env: &Vec<EnvVar>) -> (r: Vec<EnvVar>)
    ensures
        env_pairs(r@) == env_pairs(env@),
{
    let mut r: Vec<EnvVar> = Vec::new();
    let mut i: usize = 0;
    while i < env.len()
        invariant
            i <= env.len(),
            r.len() == i,
            forall|j: int|
                0 <= j < i ==> (#[trigger] r@[j]).name@ == env@[j].name@ && r@[j].value@
                    == env@[j].value@,
        decreases env.len() - i,
    {
        r.push(EnvVar { name: env[i].name.clone(), value: env[i].value.clone() });
        i = i + 1;
    }
    assert(env_pairs(r@) == env_pairs(env@));
    r
}

/// Makes the request that runs a hook.
pub fn run_request(hook: &ResolvedHook, workspace_root: &str, payload: &Value) -> (r:
    HookRunRequest)
    ensures
        runs(r, *hook, workspace_root@, *payload),
{
    HookRunRequest {
        phase_event: hook.phase_event.as_str().to_owned(),
        hook_name: hook.name.clone(),
        command: clone_texts(&hook.command),
        workspace_root: workspace_root.to_owned(),
        cwd: match &hook.cwd {
            Some(dir) => Some(dir.clone()),
            None => None,
        },
        env: clone_env(&hook.env),
        timeout_seconds: hook.timeout_seconds,
        max_output_bytes: hook.max_output_bytes,
        stdin_payload: payload.clone(),
    }
}

/// Plans the runs of the hooks of a phase-event, in their order. No hook runs where hooks are
/// disabled or where the payload could not be written.
pub fn dispatch_phase_event_hooks(
    hooks_enabled: bool,
    resolved: &Vec<ResolvedHook>,
    workspace_root: &str,
    payload: Option<&Value>,
) -> (r: Vec<HookRunRequest>)
    ensures
        r@.len() == (if hooks_enabled && payload is Some {
            resolved@.len()
        } else {
            0
        }),
        forall|i: int|
            0 <= i < r@.len() ==> runs(
                #[trigger] r@[i],
                resolved@[i],
                workspace_root@,
                *payload->0,
            ),
{
    let mut r: Vec<HookRunRequest> = Vec::new();
    if !hooks_enabled {
        return r;
    }
    match payload {
        Some(payload) => {
            let mut i: usize = 0;
            while i < resolved.len()
                invariant
                    i <= resolved.len(),
                    r.len() == i,
                    forall|j: int|
                        0 <= j < i ==> runs(
                            #[trigger] r@[j],
                            resolved@[j],
                            workspace_root@,
                            *payload,
                        ),
                decreases resolved.len() - i,
            {
                r.push(run_request(&resolved[i], workspace_root, payload));
                i = i + 1;
            }
        },
        None => {},
    }
    r
}

} // verus!
