//! Hook scripts: their kind, decided once from the file extension.
use vstd::prelude::*;
use crate::commands::verify::{PipelineAction, PipelineStep, Stage, hook_step, hook_steps, step_models};
use crate::text::{chars_of, string_of, slice_chars, last_index, find_last_char, lemma_last_index_bounds};

verus! {

/// What runs a hook script.
#[derive(Debug, Clone, Copy, PartialEq, Eq, Structural)]
pub enum ScriptType {
    /// A shell script (`.sh`).
    Shell,
    /// Anonymous platform code (`.apex`), run by the external tool.
    Apex,
    /// Anything else; it is skipped with a warning.
    Unknown,
}

/// A discovered hook script.
#[derive(Debug)]
pub struct Script {
    pub path: String,
    pub s_type: ScriptType,
}

/// The last component of a path: what follows its last `/`.
pub open spec fn file_name(path: Seq<char>) -> Seq<char> {
    path.subrange(last_index(path, '/', path.len() as int) + 1, path.len() as int)
}

/// The extension of a path: what follows the last `.` of its file name,
/// where that `.` is not the name's first character.
pub open spec fn extension(path: Seq<char>) -> Option<Seq<char>> {
    let name = file_name(path);
    let dot = last_index(name, '.', name.len() as int);
    if dot > 0 {
        Some(name.subrange(dot + 1, name.len() as int))
    } else {
        None
    }
}

/// The kind of a script, by its extension.
pub open spec fn script_type_of(path: Seq<char>) -> ScriptType {
    if extension(path) == Some("apex"@) {
        ScriptType::Apex
    } else if extension(path) == Some("sh"@) {
        ScriptType::Shell
    } else {
        ScriptType::Unknown
    }
}

/// The extension of a path, if it has one.
pub fn get_extension(path: &str) -> (r: Option<String>)
    ensures
        match extension(path@) {
            Some(e) => r is Some && r->0@ == e,
            None => r is None,
        },
{
    let cs = chars_of(path);
    proof {
        lemma_last_index_bounds(cs@, '/', cs@.len() as int);
    }
    let start = match find_last_char(&cs, '/') {
        Some(i) => i + 1,
        None => 0,
    };
    let name = slice_chars(&cs, start, cs.len());
    proof {
        lemma_last_index_bounds(name@, '.', name@.len() as int);
    }
    match find_last_char(&name, '.') {
        Some(dot) => {
            if dot > 0 {
                Some(string_of(&slice_chars(&name, dot + 1, name.len())))
            } else {
                None
            }
        },
        None => None,
    }
}

impl Script {
    /// A script at `path`, of the kind its extension gives.
    pub fn new(path: String) -> (r: Script)
        ensures
            r.path == path,
            r.s_type == script_type_of(path@),
    {
        let s_type = match get_extension(path.as_str()) {
            Some(e) => {
                let apex = "apex".to_owned();
                let sh = "sh".to_owned();
                if e == apex {
                    ScriptType::Apex
                } else if e == sh {
                    ScriptType::Shell
                } else {
                    ScriptType::Unknown
                }
            },
            None => ScriptType::Unknown,
        };
        Script { path, s_type }
    }
}

/// The scripts at the given paths, in order, each with its kind.
pub fn get_scripts(paths: Vec<String>) -> (r: Vec<Script>)
    ensures
        r@.len() == paths@.len(),
        forall|i: int| 0 <= i < paths@.len() ==> (#[trigger] r@[i]).path == paths@[i]
            && r@[i].s_type == script_type_of(paths@[i]@),
{
    let ghost input = paths@;
    let mut rest = paths;
    let mut out: Vec<Script> = Vec::new();
    while rest.len() > 0
        invariant
            out@.len() + rest@.len() == input.len(),
            rest@ == input.subrange(out@.len() as int, input.len() as int),
            forall|i: int| 0 <= i < out@.len() ==> (#[trigger] out@[i]).path == input[i]
                && out@[i].s_type == script_type_of(input[i]@),
        decreases rest@.len(),
    {
        let ghost n: int = out@.len() as int;
        let p = rest.remove(0);
        proof {
            assert(input[n] == p);
            assert(rest@ =~= input.subrange(n + 1, input.len() as int));
        }
        out.push(Script::new(p));
    }
    out
}

/// The steps that run the scripts of a hook stage, in order: platform
/// scripts through the external tool, shell scripts by the shell, and a
/// warning for any other file. None of them stops the run on failure.
pub fn hook_stage_steps(stage: Stage, scripts: &Vec<Script>) -> (r: Vec<PipelineStep>)
    ensures
        step_models(r@) == hook_steps(stage, scripts@),
{
    let mut out: Vec<PipelineStep> = Vec::new();
    let mut i: usize = 0;
    while i < scripts.len()
        invariant
            0 <= i <= scripts@.len(),
            out@.len() == i,
            forall|k: int| 0 <= k < i ==> (#[trigger] out@[k])@ == hook_step(stage, scripts@[k]),
        decreases scripts@.len() - i,
    {
        let script = &scripts[i];
        let path = script.path.clone();
        let action = match script.s_type {
            ScriptType::Apex => PipelineAction::ExecuteApex { path },
            ScriptType::Shell => PipelineAction::ExecuteShell { path },
            ScriptType::Unknown => PipelineAction::SkipScript { path },
        };
        out.push(PipelineStep { stage, action, fatal: false });
        i = i + 1;
    }
    proof {
        assert(step_models(out@) =~= hook_steps(stage, scripts@));
    }
    out
}

/// The steps of the pre-deploy hook stage.
pub fn exec_predeploy_scripts(scripts: &Vec<Script>) -> (r: Vec<PipelineStep>)
    ensures
        step_models(r@) == hook_steps(Stage::RunningPreHooks, scripts@),
{
    hook_stage_steps(Stage::RunningPreHooks, scripts)
}

/// The steps of the post-deploy hook stage.
pub fn exec_postdeploy_scripts(scripts: &Vec<Script>) -> (r: Vec<PipelineStep>)
    ensures
        step_models(r@) == hook_steps(Stage::RunningPostHooks, scripts@),
{
    hook_stage_steps(Stage::RunningPostHooks, scripts)
}

} // verus!
