//! The verify pipeline: provision an environment, install dependencies,
//! deploy unpackaged metadata, run pre-deploy hooks, deploy the packages,
//! run post-deploy hooks, run the tests. The pipeline decides; the caller
//! performs each step and reports whether it succeeded.
use vstd::prelude::*;
use crate::project::{Script, ScriptType, exec_predeploy_scripts, exec_postdeploy_scripts};
use crate::project_config::{Package, PackageDependency, SalesforceProjectConfig, all_declared,
    is_resolution_of};

verus! {

/// The stages, in the order they run.
#[derive(Debug, Clone, Copy, PartialEq, Eq, Structural)]
pub enum Stage {
    Provisioning,
    InstallingDependencies,
    DeployingUnpackaged,
    RunningPreHooks,
    DeployingPackages,
    RunningPostHooks,
    RunningTests,
}

/// One call to make on the environment.
#[derive(Debug)]
pub enum PipelineAction {
    /// Create an ephemeral environment under the devhub, with this name.
    CreateScratchOrg { devhub: String, name: String },
    /// Install a dependency by its install identifier.
    InstallPackage { id: String },
    /// Deploy the metadata at a path.
    DeployMetadata { path: String },
    /// Run a platform script through the external tool.
    ExecuteApex { path: String },
    /// Run a shell script.
    ExecuteShell { path: String },
    /// A script of unknown kind: warn and go on.
    SkipScript { path: String },
    /// Run the test suite.
    RunTests,
}

/// What an action is, over character sequences.
pub enum ActionModel {
    CreateScratchOrg(Seq<char>, Seq<char>),
    InstallPackage(Seq<char>),
    DeployMetadata(Seq<char>),
    ExecuteApex(Seq<char>),
    ExecuteShell(Seq<char>),
    SkipScript(Seq<char>),
    RunTests,
}

impl View for PipelineAction {
    type V = ActionModel;

    open spec fn view(&self) -> ActionModel {
        match self {
            PipelineAction::CreateScratchOrg { devhub, name } => ActionModel::CreateScratchOrg(devhub@, name@),
            PipelineAction::InstallPackage { id } => ActionModel::InstallPackage(id@),
            PipelineAction::DeployMetadata { path } => ActionModel::DeployMetadata(path@),
            PipelineAction::ExecuteApex { path } => ActionModel::ExecuteApex(path@),
            PipelineAction::ExecuteShell { path } => ActionModel::ExecuteShell(path@),
            PipelineAction::SkipScript { path } => ActionModel::SkipScript(path@),
            PipelineAction::RunTests => ActionModel::RunTests,
        }
    }
}

/// A step of the pipeline: its stage, its action, and whether its failure
/// stops the run.
#[derive(Debug)]
pub struct PipelineStep {
    pub stage: Stage,
    pub action: PipelineAction,
    pub fatal: bool,
}

pub type StepModel = (Stage, ActionModel, bool);

impl View for PipelineStep {
    type V = StepModel;

    open spec fn view(&self) -> StepModel {
        (self.stage, self.action@, self.fatal)
    }
}

pub open spec fn step_models(v: Seq<PipelineStep>) -> Seq<StepModel> {
    v.map_values(|s: PipelineStep| s@)
}

/// The step that runs a hook script; a hook's failure does not stop the run.
pub open spec fn hook_step(stage: Stage, script: Script) -> StepModel {
    match script.s_type {
        ScriptType::Apex => (stage, ActionModel::ExecuteApex(script.path@), false),
        ScriptType::Shell => (stage, ActionModel::ExecuteShell(script.path@), false),
        ScriptType::Unknown => (stage, ActionModel::SkipScript(script.path@), false),
    }
}

pub open spec fn hook_steps(stage: Stage, scripts: Seq<Script>) -> Seq<StepModel> {
    scripts.map_values(|s: Script| hook_step(stage, s))
}

pub open spec fn install_steps(deps: Seq<PackageDependency>) -> Seq<StepModel> {
    deps.map_values(|d: PackageDependency| (Stage::InstallingDependencies, ActionModel::InstallPackage(d.id@), true))
}

/// One deployment per package that names unpackaged metadata, in order.
pub open spec fn unpackaged_steps(packages: Seq<Package>) -> Seq<StepModel>
    decreases packages.len(),
{
    if packages.len() == 0 {
        Seq::empty()
    } else {
        unpackaged_steps(packages.drop_last()) + match packages.last().unpackaged_metadata {
            Some(p) => seq![(Stage::DeployingUnpackaged, ActionModel::DeployMetadata(p@), true)],
            None => Seq::empty(),
        }
    }
}

pub open spec fn deploy_steps(packages: Seq<Package>) -> Seq<StepModel> {
    packages.map_values(|p: Package| (Stage::DeployingPackages, ActionModel::DeployMetadata(p.path@), true))
}

/// The devhub alias to use: the given one, else `"DevHub"`.
pub open spec fn devhub_alias(devhub: Option<String>) -> Seq<char> {
    match devhub {
        Some(d) => d@,
        None => "DevHub"@,
    }
}

/// A fresh environment is provisioned only where no target was given.
pub open spec fn provisioning_steps(
    scratch_org_name: Seq<char>,
    devhub: Option<String>,
    target_org: Option<String>,
) -> Seq<StepModel> {
    if target_org is Some {
        Seq::empty()
    } else {
        seq![(Stage::Provisioning, ActionModel::CreateScratchOrg(devhub_alias(devhub), scratch_org_name), true)]
    }
}

/// Every step of a run, in order.
pub open spec fn planned_steps(
    scratch_org_name: Seq<char>,
    devhub: Option<String>,
    target_org: Option<String>,
    packages: Seq<Package>,
    dependencies: Seq<PackageDependency>,
    pre_scripts: Seq<Script>,
    post_scripts: Seq<Script>,
) -> Seq<StepModel> {
    provisioning_steps(scratch_org_name, devhub, target_org)
        + install_steps(dependencies)
        + unpackaged_steps(packages)
        + hook_steps(Stage::RunningPreHooks, pre_scripts)
        + deploy_steps(packages)
        + hook_steps(Stage::RunningPostHooks, post_scripts)
        + seq![(Stage::RunningTests, ActionModel::RunTests, true)]
}

/// The state of a run after one more step reported `succeeded`: nothing
/// changes once the run has stopped or every step has run; otherwise the
/// outcome is recorded, and a fatal step's failure stops the run there.
pub open spec fn record_model(
    fatal: Seq<bool>,
    state: (Seq<bool>, Option<int>),
    succeeded: bool,
) -> (Seq<bool>, Option<int>) {
    let (outcomes, failure) = state;
    if failure is Some || outcomes.len() >= fatal.len() {
        state
    } else if !succeeded && fatal[outcomes.len() as int] {
        (outcomes.push(succeeded), Some(outcomes.len() as int))
    } else {
        (outcomes.push(succeeded), None)
    }
}

/// The state after a sequence of reports, from a fresh run.
pub open spec fn replay(fatal: Seq<bool>, events: Seq<bool>) -> (Seq<bool>, Option<int>)
    decreases events.len(),
{
    if events.len() == 0 {
        (Seq::empty(), None)
    } else {
        record_model(fatal, replay(fatal, events.drop_last()), events.last())
    }
}

/// Once a fatal step fails, the run stops: whatever is reported afterwards,
/// no later step runs, and the recorded outcomes are those of the steps
/// that ran, ending with the failure.
pub proof fn lemma_fatal_failure_short_circuits(fatal: Seq<bool>, events: Seq<bool>, i: int, m: int)
    requires
        0 <= i < fatal.len(),
        i < m <= events.len(),
        fatal[i],
        !events[i],
        replay(fatal, events.subrange(0, i)) == (events.subrange(0, i), None::<int>),
    ensures
        replay(fatal, events.subrange(0, m)) == (events.subrange(0, i + 1), Some(i)),
    decreases m - i,
{
    let e = events.subrange(0, m);
    assert(e.drop_last() =~= events.subrange(0, m - 1));
    if m == i + 1 {
        assert(events.subrange(0, i).push(events[i]) =~= events.subrange(0, i + 1));
    } else {
        lemma_fatal_failure_short_circuits(fatal, events, i, m - 1);
    }
}

/// A run of the pipeline: its steps, the outcome of each step performed
/// so far, and the fatal failure that stopped it, if any.
#[derive(Debug)]
pub struct PipelineRun {
    /// The environment that every step acts on.
    pub target_org: String,
    pub steps: Vec<PipelineStep>,
    pub outcomes: Vec<bool>,
    pub failure: Option<usize>,
}

pub open spec fn fatal_flags(steps: Seq<PipelineStep>) -> Seq<bool> {
    steps.map_values(|s: PipelineStep| s.fatal)
}

impl PipelineRun {
    pub open spec fn state(&self) -> (Seq<bool>, Option<int>) {
        (
            self.outcomes@,
            match self.failure {
                Some(i) => Some(i as int),
                None => None,
            },
        )
    }

    /// Outcomes never outnumber steps, and a recorded failure is the last
    /// outcome, that of a fatal step.
    pub open spec fn wf(&self) -> bool {
        &&& self.outcomes@.len() <= self.steps@.len()
        &&& self.failure matches Some(i) ==> i + 1 == self.outcomes@.len() && self.steps@[i as int].fatal
            && !self.outcomes@[i as int]
    }

    /// Whether the run has stopped: a fatal step failed, or every step ran.
    pub open spec fn spec_is_finished(&self) -> bool {
        self.failure is Some || self.outcomes@.len() == self.steps@.len()
    }

    /// A run that has performed no step yet.
    pub fn new(target_org: String, steps: Vec<PipelineStep>) -> (r: PipelineRun)
        ensures
            r.wf(),
            r.target_org == target_org,
            r.steps == steps,
            r.state() == (Seq::<bool>::empty(), None::<int>),
    {
        PipelineRun { target_org, steps, outcomes: Vec::new(), failure: None }
    }

    pub fn is_finished(&self) -> (r: bool)
        requires
            self.wf(),
        ensures
            r == self.spec_is_finished(),
    {
        self.failure.is_some() || self.outcomes.len() == self.steps.len()
    }

    /// Whether the run went through every step with no fatal failure.
    pub fn succeeded(&self) -> (r: bool)
        requires
            self.wf(),
        ensures
            r == (self.failure is None && self.outcomes@.len() == self.steps@.len()),
    {
        self.failure.is_none() && self.outcomes.len() == self.steps.len()
    }

    /// The step to perform next; none once the run has stopped.
    pub fn next_step(&self) -> (r: Option<&PipelineStep>)
        requires
            self.wf(),
        ensures
            r is Some <==> !self.spec_is_finished(),
            r matches Some(s) ==> *s == self.steps@[self.outcomes@.len() as int],
    {
        if self.is_finished() {
            None
        } else {
            Some(&self.steps[self.outcomes.len()])
        }
    }

    /// Records whether the step just performed succeeded.
    pub fn record(&mut self, succeeded: bool)
        requires
            old(self).wf(),
        ensures
            final(self).wf(),
            final(self).steps == old(self).steps,
            final(self).target_org == old(self).target_org,
            final(self).state() == record_model(fatal_flags(old(self).steps@), old(self).state(), succeeded),
    {
        if self.is_finished() {
            return;
        }
        let index = self.outcomes.len();
        let fatal = self.steps[index].fatal;
        self.outcomes.push(succeeded);
        if !succeeded && fatal {
            self.failure = Some(index);
        }
        proof {
            assert(fatal_flags(self.steps@)[index as int] == fatal);
        }
    }
}

fn install_stage_steps(deps: &Vec<PackageDependency>) -> (r: Vec<PipelineStep>)
    ensures
        step_models(r@) == install_steps(deps@),
{
    let mut out: Vec<PipelineStep> = Vec::new();
    let mut i: usize = 0;
    while i < deps.len()
        invariant
            0 <= i <= deps@.len(),
            out@.len() == i,
            forall|k: int| 0 <= k < i ==> (#[trigger] out@[k])@ == (Stage::InstallingDependencies, ActionModel::InstallPackage(deps@[k].id@), true),
        decreases deps@.len() - i,
    {
        out.push(PipelineStep {
            stage: Stage::InstallingDependencies,
            action: PipelineAction::InstallPackage { id: deps[i].id.clone() },
            fatal: true,
        });
        i = i + 1;
    }
    proof {
        assert(step_models(out@) =~= install_steps(deps@));
    }
    out
}

fn unpackaged_stage_steps(packages: &Vec<Package>) -> (r: Vec<PipelineStep>)
    ensures
        step_models(r@) == unpackaged_steps(packages@),
{
    let mut out: Vec<PipelineStep> = Vec::new();
    let mut i: usize = 0;
    proof {
        assert(packages@.subrange(0, 0) =~= Seq::<Package>::empty());
        assert(step_models(out@) =~= Seq::<StepModel>::empty());
    }
    while i < packages.len()
        invariant
            0 <= i <= packages@.len(),
            step_models(out@) == unpackaged_steps(packages@.subrange(0, i as int)),
        decreases packages@.len() - i,
    {
        proof {
            assert(packages@.subrange(0, i + 1).drop_last() =~= packages@.subrange(0, i as int));
        }
        match &packages[i].unpackaged_metadata {
            Some(path) => {
                out.push(PipelineStep {
                    stage: Stage::DeployingUnpackaged,
                    action: PipelineAction::DeployMetadata { path: path.clone() },
                    fatal: true,
                });
            },
            None => {},
        }
        i = i + 1;
        proof {
            assert(step_models(out@) =~= unpackaged_steps(packages@.subrange(0, i as int)));
        }
    }
    proof {
        assert(packages@.subrange(0, packages@.len() as int) =~= packages@);
    }
    out
}

fn deploy_stage_steps(packages: &Vec<Package>) -> (r: Vec<PipelineStep>)
    ensures
        step_models(r@) == deploy_steps(packages@),
{
    let mut out: Vec<PipelineStep> = Vec::new();
    let mut i: usize = 0;
    while i < packages.len()
        invariant
            0 <= i <= packages@.len(),
            out@.len() == i,
            forall|k: int| 0 <= k < i ==> (#[trigger] out@[k])@ == (Stage::DeployingPackages, ActionModel::DeployMetadata(packages@[k].path@), true),
        decreases packages@.len() - i,
    {
        out.push(PipelineStep {
            stage: Stage::DeployingPackages,
            action: PipelineAction::DeployMetadata { path: packages[i].path.clone() },
            fatal: true,
        });
        i = i + 1;
    }
    proof {
        assert(step_models(out@) =~= deploy_steps(packages@));
    }
    out
}

fn append_steps(steps: &mut Vec<PipelineStep>, more: Vec<PipelineStep>)
    ensures
        step_models(final(steps)@) == step_models(old(steps)@) + step_models(more@),
{
    let ghost added = more@;
    let mut more = more;
    steps.append(&mut more);
    proof {
        assert forall|k: int| 0 <= k < steps@.len() implies #[trigger] step_models(steps@)[k]
            == (step_models(old(steps)@) + step_models(added))[k] by {
            if k < old(steps)@.len() {
                assert(steps@[k] == old(steps)@[k]);
            } else {
                assert(steps@[k] == added[k - old(steps)@.len()]);
            }
        }
        assert(step_models(steps@) =~= step_models(old(steps)@) + step_models(added));
    }
}

/// Plans a verify run. Where no target environment is given, the first
/// step provisions one named `scratch_org_name` under the devhub (by default
/// `"DevHub"`), and every step acts on it; otherwise every step acts on the
/// target. Then: install the resolved dependencies in name order, deploy
/// unpackaged metadata, run the pre-deploy hooks, deploy each package in
/// manifest order, run the post-deploy hooks, run the tests.
pub fn run(
    scratch_org_name: &String,
    devhub: &Option<String>,
    target_org: &Option<String>,
    project_config: &SalesforceProjectConfig,
    pre_scripts: &Vec<Script>,
    post_scripts: &Vec<Script>,
) -> (r: PipelineRun)
    ensures
        r.wf(),
        r.state() == (Seq::<bool>::empty(), None::<int>),
        r.target_org@ == match target_org {
            Some(t) => t@,
            None => scratch_org_name@,
        },
        exists|deps: Seq<PackageDependency>|
            #![trigger planned_steps(scratch_org_name@, *devhub, *target_org, project_config.packages@, deps, pre_scripts@, post_scripts@)]
        {
            &&& (all_declared(project_config.packages@).len() == 0 ==> deps.len() == 0)
            &&& (all_declared(project_config.packages@).len() > 0 ==> is_resolution_of(deps, all_declared(project_config.packages@)))
            &&& step_models(r.steps@) == planned_steps(
                scratch_org_name@,
                *devhub,
                *target_org,
                project_config.packages@,
                deps,
                pre_scripts@,
                post_scripts@,
            )
        },
{
    let mut steps: Vec<PipelineStep> = Vec::new();
    let target = match target_org {
        Some(t) => t.clone(),
        None => {
            let alias = match devhub {
                Some(d) => d.clone(),
                None => "DevHub".to_owned(),
            };
            steps.push(PipelineStep {
                stage: Stage::Provisioning,
                action: PipelineAction::CreateScratchOrg { devhub: alias, name: scratch_org_name.clone() },
                fatal: true,
            });
            scratch_org_name.clone()
        },
    };
    proof {
        assert(step_models(steps@) =~= provisioning_steps(scratch_org_name@, *devhub, *target_org));
    }
    let resolved = project_config.get_dependencies();
    let deps = match resolved {
        Some(d) => d,
        None => Vec::new(),
    };
    assert(all_declared(project_config.packages@).len() == 0 ==> deps@.len() == 0);
    assert(all_declared(project_config.packages@).len() > 0 ==> is_resolution_of(deps@, all_declared(project_config.packages@)));
    append_steps(&mut steps, install_stage_steps(&deps));
    append_steps(&mut steps, unpackaged_stage_steps(&project_config.packages));
    append_steps(&mut steps, exec_predeploy_scripts(pre_scripts));
    append_steps(&mut steps, deploy_stage_steps(&project_config.packages));
    append_steps(&mut steps, exec_postdeploy_scripts(post_scripts));
    let ghost before_tests = step_models(steps@);
    steps.push(PipelineStep { stage: Stage::RunningTests, action: PipelineAction::RunTests, fatal: true });
    proof {
        assert(step_models(steps@) =~= before_tests.push((Stage::RunningTests, ActionModel::RunTests, true)));
        assert(step_models(steps@) =~= planned_steps(
            scratch_org_name@,
            *devhub,
            *target_org,
            project_config.packages@,
            deps@,
            pre_scripts@,
            post_scripts@,
        ));
    }
    let r = PipelineRun::new(target, steps);
    proof {
        let w = deps@;
        assert(step_models(r.steps@) == planned_steps(
            scratch_org_name@,
            *devhub,
            *target_org,
            project_config.packages@,
            w,
            pre_scripts@,
            post_scripts@,
        ));
    }
    r
}

} // verus!
