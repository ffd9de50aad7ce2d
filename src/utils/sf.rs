//! The external platform tool: the arguments of each command, the results
//! it reports, and how a reported status is judged.
use vstd::prelude::*;
use crate::commands::verify::PipelineAction;
use crate::json::{JsonValue, member, str_member, opt_str_member, bool_member, u32_member, find_member,
    get_str, get_opt_str, get_bool, get_u32};
use crate::text::{push_str, string_of};

verus! {

#[derive(Debug)]
pub struct RunTestResult {
    pub outcome: String,
    pub message: Option<String>,
    pub method_name: String,
    pub full_name: String,
    pub stack_trace: Option<String>,
    pub run_time: u32,
}

#[derive(Debug)]
pub struct RunTestSummary {
    pub test_execution_time: String,
    pub failing: u32,
    pub fail_rate: String,
    pub tests_ran: u32,
    pub org_wide_coverage: String,
    pub test_run_coverage: String,
}

#[derive(Debug)]
pub struct MetadataComponent {
    pub component_type: String,
    pub full_name: String,
    pub problem: Option<String>,
    pub success: bool,
}

#[derive(Debug)]
pub struct DeployDetails {
    pub component_successes: Vec<MetadataComponent>,
    pub component_failures: Vec<MetadataComponent>,
}

#[derive(Debug)]
pub struct ScratchOrgInfo {
    pub id: String,
    pub features: String,
}

/// The result payload of a command, told apart by the fields it holds.
#[derive(Debug)]
pub enum CliResult {
    CreateScratchOrgResult { username: String, scratch_org_info: ScratchOrgInfo, org_id: String },
    AuthorizeResult { username: String, instance_url: String },
    ProjectDeployResult { details: DeployDetails },
    ExecuteAnonymousApexResult {
        success: bool,
        compile_problem: String,
        exception_message: String,
        exception_stack_trace: String,
    },
    DeleteScratchOrgResult { username: String, org_id: String },
    RunApexTestsResult { summary: RunTestSummary, tests: Vec<RunTestResult> },
    PackageInstallResult { status: String },
    /// A payload of none of the known shapes.
    Unknown,
}

/// What the tool prints for a command: its status, an optional message,
/// and the result payload.
#[derive(Debug)]
pub struct SfCliCommandOutput {
    pub name: Option<String>,
    pub message: Option<String>,
    pub result: Option<CliResult>,
    pub status: u32,
}

/// A command failed, with the reason.
#[derive(Debug)]
pub struct SfCliError {
    pub message: String,
}

pub open spec fn scratch_org_info_of(v: JsonValue) -> Option<ScratchOrgInfo> {
    match v {
        JsonValue::Object(f) => match (str_member(f@, "Id"@), str_member(f@, "Features"@)) {
            (Some(id), Some(features)) => Some(ScratchOrgInfo { id, features }),
            _ => None,
        },
        _ => None,
    }
}

pub open spec fn component_of(v: JsonValue) -> Option<MetadataComponent> {
    match v {
        JsonValue::Object(f) => match (
            str_member(f@, "componentType"@),
            str_member(f@, "fullName"@),
            opt_str_member(f@, "problem"@),
            bool_member(f@, "success"@),
        ) {
            (Some(component_type), Some(full_name), Some(problem), Some(success)) => Some(
                MetadataComponent { component_type, full_name, problem, success },
            ),
            _ => None,
        },
        _ => None,
    }
}

/// Every item decoded in order; none where one of them does not decode.
pub open spec fn components_of(items: Seq<JsonValue>) -> Option<Seq<MetadataComponent>>
    decreases items.len(),
{
    if items.len() == 0 {
        Some(Seq::empty())
    } else {
        match (components_of(items.drop_last()), component_of(items.last())) {
            (Some(p), Some(c)) => Some(p.push(c)),
            _ => None,
        }
    }
}

pub open spec fn summary_of(v: JsonValue) -> Option<RunTestSummary> {
    match v {
        JsonValue::Object(f) => match (
            str_member(f@, "testExecutionTime"@),
            u32_member(f@, "failing"@),
            str_member(f@, "failRate"@),
            u32_member(f@, "testsRan"@),
            str_member(f@, "orgWideCoverage"@),
            str_member(f@, "testRunCoverage"@),
        ) {
            (Some(a), Some(b), Some(c), Some(d), Some(e), Some(g)) => Some(
                RunTestSummary {
                    test_execution_time: a,
                    failing: b,
                    fail_rate: c,
                    tests_ran: d,
                    org_wide_coverage: e,
                    test_run_coverage: g,
                },
            ),
            _ => None,
        },
        _ => None,
    }
}

pub open spec fn test_result_of(v: JsonValue) -> Option<RunTestResult> {
    match v {
        JsonValue::Object(f) => match (
            str_member(f@, "Outcome"@),
            opt_str_member(f@, "Message"@),
            str_member(f@, "MethodName"@),
            str_member(f@, "FullName"@),
            opt_str_member(f@, "StackTrace"@),
            u32_member(f@, "RunTime"@),
        ) {
            (Some(outcome), Some(message), Some(method_name), Some(full_name), Some(stack_trace), Some(run_time)) => Some(
                RunTestResult { outcome, message, method_name, full_name, stack_trace, run_time },
            ),
            _ => None,
        },
        _ => None,
    }
}

pub open spec fn test_results_of(items: Seq<JsonValue>) -> Option<Seq<RunTestResult>>
    decreases items.len(),
{
    if items.len() == 0 {
        Some(Seq::empty())
    } else {
        match (test_results_of(items.drop_last()), test_result_of(items.last())) {
            (Some(p), Some(c)) => Some(p.push(c)),
            _ => None,
        }
    }
}

/// The items of a member that must be an array.
pub open spec fn array_items(fields: Seq<(String, JsonValue)>, key: Seq<char>) -> Option<Seq<JsonValue>> {
    match member(fields, key) {
        Some(JsonValue::Array(a)) => Some(a@),
        _ => None,
    }
}

/// The successful and the failed components of a deployment.
pub open spec fn details_of(v: JsonValue) -> Option<(Seq<MetadataComponent>, Seq<MetadataComponent>)> {
    match v {
        JsonValue::Object(f) => match (array_items(f@, "componentSuccesses"@), array_items(f@, "componentFailures"@)) {
            (Some(a), Some(b)) => match (components_of(a), components_of(b)) {
                (Some(x), Some(y)) => Some((x, y)),
                _ => None,
            },
            _ => None,
        },
        _ => None,
    }
}

pub open spec fn member_decodes<T>(fields: Seq<(String, JsonValue)>, key: Seq<char>, decode: spec_fn(JsonValue) -> Option<T>) -> Option<T> {
    match member(fields, key) {
        Some(v) => decode(v),
        None => None,
    }
}

/// The shapes of result payload, in the order they are tried.
#[derive(Debug, Clone, Copy, PartialEq, Eq, Structural)]
pub enum ResultShape {
    CreateScratchOrg,
    Authorize,
    ProjectDeploy,
    ExecuteAnonymousApex,
    DeleteScratchOrg,
    RunApexTests,
    PackageInstall,
    Unknown,
}

/// The first shape, in order, whose members the payload has with the
/// right kinds; `Unknown` where there is none.
pub open spec fn result_shape(v: JsonValue) -> ResultShape {
    match v {
        JsonValue::Object(f) => {
            let f = f@;
            if str_member(f, "username"@) is Some && member_decodes(f, "scratchOrgInfo"@, |x| scratch_org_info_of(x)) is Some
                && str_member(f, "orgId"@) is Some {
                ResultShape::CreateScratchOrg
            } else if str_member(f, "username"@) is Some && str_member(f, "instanceUrl"@) is Some {
                ResultShape::Authorize
            } else if member_decodes(f, "details"@, |x| details_of(x)) is Some {
                ResultShape::ProjectDeploy
            } else if bool_member(f, "success"@) is Some && str_member(f, "compileProblem"@) is Some && str_member(f, "exceptionMessage"@) is Some
                && str_member(f, "exceptionStackTrace"@) is Some {
                ResultShape::ExecuteAnonymousApex
            } else if str_member(f, "username"@) is Some && str_member(f, "orgId"@) is Some {
                ResultShape::DeleteScratchOrg
            } else if member_decodes(f, "summary"@, |x| summary_of(x)) is Some && array_items(f, "tests"@) is Some
                && test_results_of(array_items(f, "tests"@)->0) is Some {
                ResultShape::RunApexTests
            } else if str_member(f, "Status"@) is Some {
                ResultShape::PackageInstall
            } else {
                ResultShape::Unknown
            }
        },
        _ => ResultShape::Unknown,
    }
}

/// `r` is the payload `v` read as its shape: the members copied into the
/// variant of that shape.
pub open spec fn decodes(v: JsonValue, r: CliResult) -> bool {
    match v {
        JsonValue::Object(fields) => {
            let f = fields@;
            match result_shape(v) {
                ResultShape::CreateScratchOrg => r == CliResult::CreateScratchOrgResult {
                    username: str_member(f, "username"@)->0,
                    scratch_org_info: member_decodes(f, "scratchOrgInfo"@, |x| scratch_org_info_of(x))->0,
                    org_id: str_member(f, "orgId"@)->0,
                },
                ResultShape::Authorize => r == CliResult::AuthorizeResult {
                    username: str_member(f, "username"@)->0,
                    instance_url: str_member(f, "instanceUrl"@)->0,
                },
                ResultShape::ProjectDeploy => r matches CliResult::ProjectDeployResult { details }
                    && (details.component_successes@, details.component_failures@)
                    == member_decodes(f, "details"@, |x| details_of(x))->0,
                ResultShape::ExecuteAnonymousApex => r == CliResult::ExecuteAnonymousApexResult {
                    success: bool_member(f, "success"@)->0,
                    compile_problem: str_member(f, "compileProblem"@)->0,
                    exception_message: str_member(f, "exceptionMessage"@)->0,
                    exception_stack_trace: str_member(f, "exceptionStackTrace"@)->0,
                },
                ResultShape::DeleteScratchOrg => r == CliResult::DeleteScratchOrgResult {
                    username: str_member(f, "username"@)->0,
                    org_id: str_member(f, "orgId"@)->0,
                },
                ResultShape::RunApexTests => r matches CliResult::RunApexTestsResult { summary, tests }
                    && summary == member_decodes(f, "summary"@, |x| summary_of(x))->0
                    && tests@ == test_results_of(array_items(f, "tests"@)->0)->0,
                ResultShape::PackageInstall => r == CliResult::PackageInstallResult { status: str_member(f, "Status"@)->0 },
                ResultShape::Unknown => r is Unknown,
            }
        },
        _ => r is Unknown,
    }
}

/// What the tool prints has a status fitting a `u32`, and a name and a
/// message that are absent, null or strings.
pub open spec fn output_fits(v: JsonValue) -> bool {
    match v {
        JsonValue::Object(f) => u32_member(f@, "status"@) is Some && opt_str_member(f@, "name"@) is Some
            && opt_str_member(f@, "message"@) is Some,
        _ => false,
    }
}

/// `o` is what `v` says: its status, name and message, and its result
/// payload read by shape (none where it is absent or null).
pub open spec fn output_decodes(v: JsonValue, o: SfCliCommandOutput) -> bool {
    match v {
        JsonValue::Object(f) => {
            &&& o.status == u32_member(f@, "status"@)->0
            &&& o.name == opt_str_member(f@, "name"@)->0
            &&& o.message == opt_str_member(f@, "message"@)->0
            &&& match member(f@, "result"@) {
                None => o.result is None,
                Some(JsonValue::Null) => o.result is None,
                Some(x) => o.result matches Some(cr) && decodes(x, cr),
            }
        },
        _ => false,
    }
}

fn decode_scratch_org_info(v: &JsonValue) -> (r: Option<ScratchOrgInfo>)
    ensures
        r == scratch_org_info_of(*v),
{
    match v {
        JsonValue::Object(f) => match (get_str(f, "Id"), get_str(f, "Features")) {
            (Some(id), Some(features)) => Some(ScratchOrgInfo { id, features }),
            _ => None,
        },
        _ => None,
    }
}

fn decode_component(v: &JsonValue) -> (r: Option<MetadataComponent>)
    ensures
        r == component_of(*v),
{
    match v {
        JsonValue::Object(f) => match (get_str(f, "componentType"), get_str(f, "fullName"), get_opt_str(f, "problem"), get_bool(f, "success")) {
            (Some(component_type), Some(full_name), Some(problem), Some(success)) => Some(
                MetadataComponent { component_type, full_name, problem, success },
            ),
            _ => None,
        },
        _ => None,
    }
}

fn decode_summary(v: &JsonValue) -> (r: Option<RunTestSummary>)
    ensures
        r == summary_of(*v),
{
    match v {
        JsonValue::Object(f) => match (
            get_str(f, "testExecutionTime"),
            get_u32(f, "failing"),
            get_str(f, "failRate"),
            get_u32(f, "testsRan"),
            get_str(f, "orgWideCoverage"),
            get_str(f, "testRunCoverage"),
        ) {
            (Some(a), Some(b), Some(c), Some(d), Some(e), Some(g)) => Some(
                RunTestSummary {
                    test_execution_time: a,
                    failing: b,
                    fail_rate: c,
                    tests_ran: d,
                    org_wide_coverage: e,
                    test_run_coverage: g,
                },
            ),
            _ => None,
        },
        _ => None,
    }
}

fn decode_test_result(v: &JsonValue) -> (r: Option<RunTestResult>)
    ensures
        r == test_result_of(*v),
{
    match v {
        JsonValue::Object(f) => match (
            get_str(f, "Outcome"),
            get_opt_str(f, "Message"),
            get_str(f, "MethodName"),
            get_str(f, "FullName"),
            get_opt_str(f, "StackTrace"),
            get_u32(f, "RunTime"),
        ) {
            (Some(outcome), Some(message), Some(method_name), Some(full_name), Some(stack_trace), Some(run_time)) => Some(
                RunTestResult { outcome, message, method_name, full_name, stack_trace, run_time },
            ),
            _ => None,
        },
        _ => None,
    }
}

proof fn lemma_components_failure_persists(items: Seq<JsonValue>, k: int)
    requires
        0 <= k <= items.len(),
        components_of(items.subrange(0, k)) is None,
    ensures
        components_of(items) is None,
    decreases items.len(),
{
    if items.len() == k {
        assert(items.subrange(0, k) =~= items);
    } else {
        assert(items.drop_last().subrange(0, k) =~= items.subrange(0, k));
        lemma_components_failure_persists(items.drop_last(), k);
    }
}

proof fn lemma_test_results_failure_persists(items: Seq<JsonValue>, k: int)
    requires
        0 <= k <= items.len(),
        test_results_of(items.subrange(0, k)) is None,
    ensures
        test_results_of(items) is None,
    decreases items.len(),
{
    if items.len() == k {
        assert(items.subrange(0, k) =~= items);
    } else {
        assert(items.drop_last().subrange(0, k) =~= items.subrange(0, k));
        lemma_test_results_failure_persists(items.drop_last(), k);
    }
}

fn decode_components(items: &Vec<JsonValue>) -> (r: Option<Vec<MetadataComponent>>)
    ensures
        match components_of(items@) {
            Some(cs) => r is Some && r->0@ == cs,
            None => r is None,
        },
{
    let mut out: Vec<MetadataComponent> = Vec::new();
    let mut i: usize = 0;
    proof {
        assert(items@.subrange(0, 0) =~= Seq::<JsonValue>::empty());
    }
    while i < items.len()
        invariant
            0 <= i <= items@.len(),
            components_of(items@.subrange(0, i as int)) == Some(out@),
        decreases items@.len() - i,
    {
        proof {
            assert(items@.subrange(0, i + 1).drop_last() =~= items@.subrange(0, i as int));
        }
        match decode_component(&items[i]) {
            Some(c) => out.push(c),
            None => {
                proof {
                    lemma_components_failure_persists(items@, i + 1);
                }
                return None;
            },
        }
        i = i + 1;
    }
    proof {
        assert(items@.subrange(0, items@.len() as int) =~= items@);
    }
    Some(out)
}

fn decode_test_results(items: &Vec<JsonValue>) -> (r: Option<Vec<RunTestResult>>)
    ensures
        match test_results_of(items@) {
            Some(ts) => r is Some && r->0@ == ts,
            None => r is None,
        },
{
    let mut out: Vec<RunTestResult> = Vec::new();
    let mut i: usize = 0;
    proof {
        assert(items@.subrange(0, 0) =~= Seq::<JsonValue>::empty());
    }
    while i < items.len()
        invariant
            0 <= i <= items@.len(),
            test_results_of(items@.subrange(0, i as int)) == Some(out@),
        decreases items@.len() - i,
    {
        proof {
            assert(items@.subrange(0, i + 1).drop_last() =~= items@.subrange(0, i as int));
        }
        match decode_test_result(&items[i]) {
            Some(c) => out.push(c),
            None => {
                proof {
                    lemma_test_results_failure_persists(items@, i + 1);
                }
                return None;
            },
        }
        i = i + 1;
    }
    proof {
        assert(items@.subrange(0, items@.len() as int) =~= items@);
    }
    Some(out)
}

fn decode_details(v: &JsonValue) -> (r: Option<DeployDetails>)
    ensures
        match details_of(*v) {
            Some((a, b)) => r is Some && r->0.component_successes@ == a && r->0.component_failures@ == b,
            None => r is None,
        },
{
    match v {
        JsonValue::Object(f) => {
            let successes = match find_member(f, "componentSuccesses") {
                Some(JsonValue::Array(items)) => decode_components(items),
                _ => return None,
            };
            let failures = match find_member(f, "componentFailures") {
                Some(JsonValue::Array(items)) => decode_components(items),
                _ => return None,
            };
            match (successes, failures) {
                (Some(component_successes), Some(component_failures)) => Some(DeployDetails { component_successes, component_failures }),
                _ => None,
            }
        },
        _ => None,
    }
}

/// Reads a result payload as the first shape it fits, in the order of
/// `ResultShape`; a payload of no known shape is `Unknown`.
pub fn decode_result(v: &JsonValue) -> (r: CliResult)
    ensures
        decodes(*v, r),
{
    let f = match v {
        JsonValue::Object(f) => f,
        _ => return CliResult::Unknown,
    };
    if let Some(x) = find_member(f, "scratchOrgInfo") {
        if let (Some(username), Some(scratch_org_info), Some(org_id)) = (get_str(f, "username"), decode_scratch_org_info(x), get_str(f, "orgId")) {
            return CliResult::CreateScratchOrgResult { username, scratch_org_info, org_id };
        }
    }
    if let (Some(username), Some(instance_url)) = (get_str(f, "username"), get_str(f, "instanceUrl")) {
        return CliResult::AuthorizeResult { username, instance_url };
    }
    if let Some(x) = find_member(f, "details") {
        if let Some(details) = decode_details(x) {
            return CliResult::ProjectDeployResult { details };
        }
    }
    if let (Some(success), Some(compile_problem), Some(exception_message), Some(exception_stack_trace)) = (
        get_bool(f, "success"),
        get_str(f, "compileProblem"),
        get_str(f, "exceptionMessage"),
        get_str(f, "exceptionStackTrace"),
    ) {
        return CliResult::ExecuteAnonymousApexResult { success, compile_problem, exception_message, exception_stack_trace };
    }
    if let (Some(username), Some(org_id)) = (get_str(f, "username"), get_str(f, "orgId")) {
        return CliResult::DeleteScratchOrgResult { username, org_id };
    }
    if let (Some(x), Some(JsonValue::Array(items))) = (find_member(f, "summary"), find_member(f, "tests")) {
        if let (Some(summary), Some(tests)) = (decode_summary(x), decode_test_results(items)) {
            return CliResult::RunApexTestsResult { summary, tests };
        }
    }
    if let Some(status) = get_str(f, "Status") {
        return CliResult::PackageInstallResult { status };
    }
    CliResult::Unknown
}

impl SfCliCommandOutput {
    /// Reads what the tool printed: `None` where the status is missing or
    /// not a `u32`, or the name or message is neither absent, null nor a
    /// string.
    pub fn from_json(v: &JsonValue) -> (r: Option<SfCliCommandOutput>)
        ensures
            r is Some <==> output_fits(*v),
            r matches Some(o) ==> output_decodes(*v, o),
    {
        let f = match v {
            JsonValue::Object(f) => f,
            _ => return None,
        };
        let (status, name, message) = match (get_u32(f, "status"), get_opt_str(f, "name"), get_opt_str(f, "message")) {
            (Some(s), Some(n), Some(m)) => (s, n, m),
            _ => return None,
        };
        let result = match find_member(f, "result") {
            None => None,
            Some(JsonValue::Null) => None,
            Some(x) => Some(decode_result(x)),
        };
        Some(SfCliCommandOutput { name, message, result, status })
    }
}

/// A command of the external tool.
#[derive(Debug)]
pub enum SfCommand {
    CreateScratchOrg { devhub: String },
    DeleteScratchOrg,
    AuthDevhub { auth_file: String },
    ProjectDeploy { path: String },
    ExecAnonymous { path: String },
    RunTests,
    InstallPackage { id: String },
    CreatePackageVersion { package: String, devhub: String },
}

/// The status that a command reports when it did its work: the test run
/// reports 100, every other command 0.
pub open spec fn expected_status(command: SfCommand) -> u32 {
    match command {
        SfCommand::RunTests => 100,
        _ => 0,
    }
}

/// What failed, in words.
pub open spec fn failure_subject(command: SfCommand) -> Seq<char> {
    match command {
        SfCommand::CreateScratchOrg { .. } => "create scratch org"@,
        SfCommand::DeleteScratchOrg => "delete scratch org"@,
        SfCommand::AuthDevhub { .. } => "authorize devhub"@,
        SfCommand::ProjectDeploy { .. } => "deploy metadata"@,
        SfCommand::ExecAnonymous { .. } => "execute anonymous apex"@,
        SfCommand::RunTests => "run apex tests"@,
        SfCommand::InstallPackage { .. } => "install package"@,
        SfCommand::CreatePackageVersion { .. } => "create package version"@,
    }
}

/// `"could not <subject>: <message>"`, the tool's own message last.
pub open spec fn failure_message(command: SfCommand, message: Option<String>) -> Seq<char> {
    "could not "@ + failure_subject(command) + ": "@ + match message {
        Some(m) => m@,
        None => Seq::empty(),
    }
}

/// The arguments of a command, the target environment named where the
/// command acts on one.
pub open spec fn command_args(command: SfCommand, target_org: Seq<char>) -> Seq<Seq<char>> {
    match command {
        SfCommand::CreateScratchOrg { devhub } => seq![
            "org"@, "create"@, "scratch"@, "-v"@, devhub@, "--definition-file"@,
            "config/project-scratch-def.json"@, "--alias"@, target_org, "--set-default"@, "--json"@,
        ],
        SfCommand::DeleteScratchOrg => seq![
            "org"@, "delete"@, "scratch"@, "--target-org"@, target_org, "--no-prompt"@, "--json"@,
        ],
        SfCommand::AuthDevhub { auth_file } => seq![
            "org"@, "login"@, "sfdx-url"@, "--sfdx-url-file"@, auth_file@, "--json"@,
        ],
        SfCommand::ProjectDeploy { path } => seq![
            "project"@, "deploy"@, "start"@, "-d"@, path@, "--json"@, "-o"@, target_org,
        ],
        SfCommand::ExecAnonymous { path } => seq![
            "apex"@, "run"@, "--file"@, path@, "--json"@, "-o"@, target_org,
        ],
        SfCommand::RunTests => seq![
            "apex"@, "run"@, "test"@, "-c"@, "-l"@, "RunLocalTests"@, "-w"@, "60"@, "--json"@,
            "--target-org"@, target_org,
        ],
        SfCommand::InstallPackage { id } => seq![
            "package"@, "install"@, "--package"@, id@, "-w"@, "60"@, "--json"@, "-o"@, target_org,
        ],
        SfCommand::CreatePackageVersion { package, devhub } => seq![
            "package"@, "version"@, "create"@, "--package"@, package@, "--target-dev-hub"@, devhub@,
            "--wait"@, "60"@, "--json"@,
        ],
    }
}

pub open spec fn texts(v: Seq<String>) -> Seq<Seq<char>> {
    v.map_values(|s: String| s@)
}

fn push_arg(args: &mut Vec<String>, arg: &str)
    ensures
        texts(final(args)@) == texts(old(args)@).push(arg@),
{
    args.push(arg.to_owned());
    proof {
        assert(texts(args@) =~= texts(old(args)@).push(arg@));
    }
}

/// Judges a command's output: `Ok` where the status is the one the command
/// reports on success, else the failure with the tool's message.
pub fn check_output(command: &SfCommand, output: SfCliCommandOutput) -> (r: Result<SfCliCommandOutput, SfCliError>)
    ensures
        output.status == expected_status(*command) ==> r == Ok::<SfCliCommandOutput, SfCliError>(output),
        output.status != expected_status(*command) ==> r is Err && r->Err_0.message@ == failure_message(*command, output.message),
{
    let expected: u32 = match command {
        SfCommand::RunTests => 100,
        _ => 0,
    };
    if output.status == expected {
        return Ok(output);
    }
    let mut text: Vec<char> = Vec::new();
    push_str(&mut text, "could not ");
    let subject = match command {
        SfCommand::CreateScratchOrg { .. } => "create scratch org",
        SfCommand::DeleteScratchOrg => "delete scratch org",
        SfCommand::AuthDevhub { .. } => "authorize devhub",
        SfCommand::ProjectDeploy { .. } => "deploy metadata",
        SfCommand::ExecAnonymous { .. } => "execute anonymous apex",
        SfCommand::RunTests => "run apex tests",
        SfCommand::InstallPackage { .. } => "install package",
        SfCommand::CreatePackageVersion { .. } => "create package version",
    };
    push_str(&mut text, subject);
    push_str(&mut text, ": ");
    match &output.message {
        Some(m) => push_str(&mut text, m.as_str()),
        None => {},
    }
    proof {
        assert(text@ =~= failure_message(*command, output.message));
    }
    Err(SfCliError { message: string_of(&text) })
}

/// Whether the test run that this output reports had no failing test.
pub open spec fn no_failing_tests(output: SfCliCommandOutput) -> bool {
    match output.result {
        Some(CliResult::RunApexTestsResult { summary, .. }) => summary.failing == 0,
        _ => false,
    }
}

/// Whether a pipeline step succeeded, given what its command printed: the
/// status must be the expected one and, for the test run, no test may
/// fail.
pub fn step_succeeded(command: &SfCommand, output: SfCliCommandOutput) -> (r: bool)
    ensures
        r == (output.status == expected_status(*command) && (*command is RunTests ==> no_failing_tests(output))),
{
    let is_test_run = match command {
        SfCommand::RunTests => true,
        _ => false,
    };
    match check_output(command, output) {
        Err(_) => false,
        Ok(out) => {
            if !is_test_run {
                true
            } else {
                match &out.result {
                    Some(CliResult::RunApexTestsResult { summary, .. }) => summary.failing == 0,
                    _ => false,
                }
            }
        },
    }
}

/// The tool's command for a pipeline action; none for the actions that the
/// tool does not perform (shell scripts, skipped scripts).
pub fn command_for(action: &PipelineAction) -> (r: Option<SfCommand>)
    ensures
        match *action {
            PipelineAction::CreateScratchOrg { devhub, .. } => r matches Some(SfCommand::CreateScratchOrg { devhub: d }) && d == devhub,
            PipelineAction::InstallPackage { id } => r matches Some(SfCommand::InstallPackage { id: i }) && i == id,
            PipelineAction::DeployMetadata { path } => r matches Some(SfCommand::ProjectDeploy { path: p }) && p == path,
            PipelineAction::ExecuteApex { path } => r matches Some(SfCommand::ExecAnonymous { path: p }) && p == path,
            PipelineAction::RunTests => r matches Some(SfCommand::RunTests),
            _ => r is None,
        },
{
    match action {
        PipelineAction::CreateScratchOrg { devhub, .. } => Some(SfCommand::CreateScratchOrg { devhub: devhub.clone() }),
        PipelineAction::InstallPackage { id } => Some(SfCommand::InstallPackage { id: id.clone() }),
        PipelineAction::DeployMetadata { path } => Some(SfCommand::ProjectDeploy { path: path.clone() }),
        PipelineAction::ExecuteApex { path } => Some(SfCommand::ExecAnonymous { path: path.clone() }),
        PipelineAction::RunTests => Some(SfCommand::RunTests),
        _ => None,
    }
}

/// The tool, pointed at a target environment. A non-empty `output` is
/// used in place of running the tool.
#[derive(Debug)]
pub struct Cli {
    pub output: String,
    pub target_org: String,
}

impl Cli {
    pub fn new(target_org: String) -> (r: Cli)
        ensures
            r.output@ == Seq::<char>::empty(),
            r.target_org == target_org,
    {
        Cli { output: String::new(), target_org }
    }

    /// Uses `output` as what every command prints, instead of running the
    /// tool.
    pub fn mock_cli_output(&mut self, output: String)
        ensures
            final(self).output == output,
            final(self).target_org == old(self).target_org,
    {
        self.output = output;
    }

    /// The output to use instead of running the tool, if one was set.
    pub fn canned_output(&self) -> (r: Option<String>)
        ensures
            self.output@.len() == 0 ==> r is None,
            self.output@.len() > 0 ==> r == Some(self.output),
    {
        if self.output.as_str().is_empty() {
            None
        } else {
            Some(self.output.clone())
        }
    }

    /// The arguments to run `command` with.
    pub fn command_args(&self, command: &SfCommand) -> (r: Vec<String>)
        ensures
            texts(r@) == command_args(*command, self.target_org@),
    {
        let mut a: Vec<String> = Vec::new();
        let t = self.target_org.as_str();
        match command {
            SfCommand::CreateScratchOrg { devhub } => {
                push_arg(&mut a, "org");
                push_arg(&mut a, "create");
                push_arg(&mut a, "scratch");
                push_arg(&mut a, "-v");
                push_arg(&mut a, devhub.as_str());
                push_arg(&mut a, "--definition-file");
                push_arg(&mut a, "config/project-scratch-def.json");
                push_arg(&mut a, "--alias");
                push_arg(&mut a, t);
                push_arg(&mut a, "--set-default");
                push_arg(&mut a, "--json");
            },
            SfCommand::DeleteScratchOrg => {
                push_arg(&mut a, "org");
                push_arg(&mut a, "delete");
                push_arg(&mut a, "scratch");
                push_arg(&mut a, "--target-org");
                push_arg(&mut a, t);
                push_arg(&mut a, "--no-prompt");
                push_arg(&mut a, "--json");
            },
            SfCommand::AuthDevhub { auth_file } => {
                push_arg(&mut a, "org");
                push_arg(&mut a, "login");
                push_arg(&mut a, "sfdx-url");
                push_arg(&mut a, "--sfdx-url-file");
                push_arg(&mut a, auth_file.as_str());
                push_arg(&mut a, "--json");
            },
            SfCommand::ProjectDeploy { path } => {
                push_arg(&mut a, "project");
                push_arg(&mut a, "deploy");
                push_arg(&mut a, "start");
                push_arg(&mut a, "-d");
                push_arg(&mut a, path.as_str());
                push_arg(&mut a, "--json");
                push_arg(&mut a, "-o");
                push_arg(&mut a, t);
            },
            SfCommand::ExecAnonymous { path } => {
                push_arg(&mut a, "apex");
                push_arg(&mut a, "run");
                push_arg(&mut a, "--file");
                push_arg(&mut a, path.as_str());
                push_arg(&mut a, "--json");
                push_arg(&mut a, "-o");
                push_arg(&mut a, t);
            },
            SfCommand::RunTests => {
                push_arg(&mut a, "apex");
                push_arg(&mut a, "run");
                push_arg(&mut a, "test");
                push_arg(&mut a, "-c");
                push_arg(&mut a, "-l");
                push_arg(&mut a, "RunLocalTests");
                push_arg(&mut a, "-w");
                push_arg(&mut a, "60");
                push_arg(&mut a, "--json");
                push_arg(&mut a, "--target-org");
                push_arg(&mut a, t);
            },
            SfCommand::InstallPackage { id } => {
                push_arg(&mut a, "package");
                push_arg(&mut a, "install");
                push_arg(&mut a, "--package");
                push_arg(&mut a, id.as_str());
                push_arg(&mut a, "-w");
                push_arg(&mut a, "60");
                push_arg(&mut a, "--json");
                push_arg(&mut a, "-o");
                push_arg(&mut a, t);
            },
            SfCommand::CreatePackageVersion { package, devhub } => {
                push_arg(&mut a, "package");
                push_arg(&mut a, "version");
                push_arg(&mut a, "create");
                push_arg(&mut a, "--package");
                push_arg(&mut a, package.as_str());
                push_arg(&mut a, "--target-dev-hub");
                push_arg(&mut a, devhub.as_str());
                push_arg(&mut a, "--wait");
                push_arg(&mut a, "60");
                push_arg(&mut a, "--json");
            },
        }
        proof {
            assert(texts(a@) =~= command_args(*command, self.target_org@));
        }
        a
    }
}

} // verus!
