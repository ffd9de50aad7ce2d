use sf_release::json::JsonValue;
use sf_release::utils::sf::{check_output, decode_result, CliResult, SfCliCommandOutput, SfCommand};

fn model(v: serde_json::Value) -> JsonValue {
    match v {
        serde_json::Value::Null => JsonValue::Null,
        serde_json::Value::Bool(b) => JsonValue::Bool(b),
        serde_json::Value::Number(n) => JsonValue::Number(n.to_string()),
        serde_json::Value::String(s) => JsonValue::Str(s),
        serde_json::Value::Array(a) => JsonValue::Array(a.into_iter().map(model).collect()),
        serde_json::Value::Object(o) => JsonValue::Object(o.into_iter().map(|(k, v)| (k, model(v))).collect()),
    }
}

fn read(text: &str) -> SfCliCommandOutput {
    SfCliCommandOutput::from_json(&model(serde_json::from_str(text).unwrap())).unwrap()
}

const CREATE_OUTPUT: &str = r#"{
  "status": 0,
  "result": {
    "username": "test@example.com",
    "scratchOrgInfo": {
      "attributes": {
        "type": "ScratchOrgInfo",
        "url": "/services/data/v62.0/sobjects/ScratchOrgInfo/2SRbm000000H9ZxGAK"
      },
      "Id": "1",
      "OwnerId": "1",
      "IsDeleted": false,
      "Name": "00000005",
      "CreatedDate": "2025-01-01T05:29:34.000+0000",
      "CreatedById": "1",
      "LastModifiedDate": "2025-01-01T05:29:49.000+0000",
      "LastModifiedById": "1",
      "SystemModstamp": "2025-01-01T05:29:49.000+0000",
      "LastViewedDate": "2025-01-01T05:29:49.000+0000",
      "LastReferencedDate": "2025-01-01T05:29:49.000+0000",
      "Edition": "Developer",
      "Username": null,
      "AdminEmail": null,
      "OrgName": "Demo company",
      "DurationDays": 7,
      "ConnectedAppConsumerKey": "PlatformCLI",
      "ConnectedAppCallbackUrl": "http://localhost:1717/OauthRedirect",
      "Namespace": null,
      "Features": "EnableSetPasswordInApi;API",
      "Country": null,
      "Language": null,
      "Package2AncestorIds": null,
      "SourceOrg": null,
      "HasSampleData": false,
      "Release": "Current",
      "SignupUsername": "test@test.com",
      "Status": "Active",
      "ErrorCode": null,
      "ScratchOrg": "1",
      "SignupInstance": "USA260S",
      "SignupCountry": "US",
      "SignupLanguage": "en_US",
      "SignupEmail": "test@test.com",
      "SignupTrialDays": 7,
      "LoginUrl": "https://test.my.salesforce.com",
      "Description": null,
      "ExpirationDate": "2025-01-08",
      "LastLoginDate": null,
      "DeletedBy": null,
      "DeletedDate": null
    },
    "authFields": {
      "instanceUrl": "https://test.my.salesforce.com",
      "orgId": "1",
      "username": "test@example.com",
      "loginUrl": "https://test.my.salesforce.com",
      "clientId": "PlatformCLI",
      "isDevHub": false,
      "created": "1735709374000",
      "expirationDate": "2025-01-08",
      "createdOrgInstance": "USA260S",
      "isScratch": true,
      "isSandbox": false,
      "tracksSource": true,
      "instanceApiVersion": "62.0",
      "instanceApiVersionLastRetrieved": "12/31/2024, 10:29:51 PM"
    },
   "warnings": [],
    "orgId": "00DO4000009XSLJMA4"
  },
  "warnings": [
    "Record types defined in the scratch org definition file will stop being capitalized by default in a future release.\nSet the `org-capitalize-record-types` config var to `true` to enforce capitalization."
  ]
}
"#;

const DELETE_OUTPUT: &str = r#"{
          "status": 0,
          "result": {
            "username": "test@example.com",
            "orgId": "001"
          },
          "warnings": []
        }
"#;

const AUTHORIZE_OUTPUT: &str = r#"{
  "status": 0,
  "result": {
    "accessToken": "token",
    "instanceUrl": "https://test.salesforce.com",
    "orgId": "001",
    "username": "test.com.sandbox",
    "loginUrl": "https://login.salesforce.com",
    "refreshToken": "refreshToken",
    "clientId": "PlatformCLI",
    "isDevHub": true,
    "instanceApiVersion": "62.0",
    "instanceApiVersionLastRetrieved": "1/3/2025, 9:29:08 PM"
  },
  "warnings": []
}
"#;

const DEPLOY_OUTPUT: &str = r#"{
  "status": 0,
  "result": {
    "checkOnly": false,
    "completedDate": "2025-01-04T07:44:01.000Z",
    "createdBy": "005Rt00000CcLDd",
    "createdByName": "User User",
    "createdDate": "2025-01-04T07:44:00.000Z",
    "details": {
      "componentSuccesses": [
        {
          "changed": true,
          "componentType": "ApexClass",
          "created": true,
          "createdDate": "2025-01-04T07:44:01.000Z",
          "deleted": false,
          "fileName": "classes/Test.cls",
          "fullName": "Test",
          "id": "01pRt000009wnrBIAQ",
          "success": true
        },
        {
          "changed": true,
          "componentType": "",
          "created": false,
          "createdDate": "2025-01-04T07:44:01.000Z",
          "deleted": false,
          "fileName": "package.xml",
          "fullName": "package.xml",
          "success": true
        }
      ],
      "runTestResult": {
        "numFailures": 0,
        "numTestsRun": 0,
        "totalTime": 0,
        "codeCoverage": [],
        "codeCoverageWarnings": [],
        "failures": [],
        "flowCoverage": [],
        "flowCoverageWarnings": [],
        "successes": []
      },
      "componentFailures": []
    },
    "done": true,
    "id": "0AfRt00000PqprFKAR",
    "ignoreWarnings": false,
    "lastModifiedDate": "2025-01-04T07:44:01.000Z",
    "numberComponentErrors": 0,
    "numberComponentsDeployed": 1,
    "numberComponentsTotal": 1,
    "numberTestErrors": 0,
    "numberTestsCompleted": 0,
    "numberTestsTotal": 0,
    "rollbackOnError": true,
    "runTestsEnabled": false,
    "startDate": "2025-01-04T07:44:00.000Z",
    "status": "Succeeded",
    "success": true,
    "files": [
      {
        "fullName": "Test",
        "type": "ApexClass",
        "state": "Created",
        "filePath": "test/force-app/main/default/classes/Test.cls"
      },
      {
        "fullName": "Test",
        "type": "ApexClass",
        "state": "Created",
        "filePath": "test/force-app/main/default/classes/Test.cls-meta.xml"
      }
    ],
    "zipSize": 791,
    "zipFileCount": 3,
    "deployUrl": "https://ability-business-62982-dev-ed.scratch.my.salesforce.com/lightning/setup/DeployStatus/page?address=%2Fchangemgmt%2FmonitorDeploymentsDetails.apexp%3FasyncId%3D0AfRt00000PqprFKAR%26retURL%3D%252Fchangemgmt%252FmonitorDeployment.apexp"
  },
  "warnings": []
}
"#;

const APEX_OUTPUT: &str = r#"{
  "status": 0,
  "result": {
    "success": true,
    "compiled": true,
    "compileProblem": "",
    "exceptionMessage": "",
    "exceptionStackTrace": "",
    "line": -1,
    "column": -1,
    "logs": "logs"
  },
  "warnings": []
}
"#;

const TESTS_OUTPUT: &str = r#"{
  "status": 100,
  "result": {
    "summary": {
      "failRate": "50%",
      "failing": 1,
      "hostname": "https://ability-business-62982-dev-ed.scratch.my.salesforce.com",
      "orgId": "00DRt000008pQ2HMAU",
      "outcome": "Failed",
      "passRate": "50%",
      "passing": 1,
      "skipped": 0,
      "testRunId": "707Rt00000ZjIGa",
      "testStartTime": "2025-01-04T22:33:54.000Z",
      "testsRan": 2,
      "userId": "005Rt00000CcLDdIAN",
      "username": "test-vpfqm7c3a6cq@example.com",
      "commandTime": "169 ms",
      "testExecutionTime": "10 ms",
      "testTotalTime": "10 ms",
      "orgWideCoverage": "0%",
      "testRunCoverage": "0%"
    },
    "tests": [
      {
        "Id": "07MRt00000AbILBMA3",
        "QueueItemId": "709Rt00000ASqp7IAD",
        "StackTrace": null,
        "Message": null,
        "AsyncApexJobId": "707Rt00000ZjIGaIAN",
        "MethodName": "runTest",
        "Outcome": "Pass",
        "ApexClass": {
          "Id": "01pRt000009xaTnIAI",
          "Name": "TestClass",
          "NamespacePrefix": null
        },
        "RunTime": 8,
        "FullName": "TestClass.runTest"
      },
      {
        "Id": "07MRt00000AbILCMA3",
        "QueueItemId": "709Rt00000ASqp7IAD",
        "StackTrace": "Class.TestClass.runTest2: line 10, column 1",
        "Message": "System.AssertException: Assertion Failed: Expected: 2, Actual: 3",
        "AsyncApexJobId": "707Rt00000ZjIGaIAN",
        "MethodName": "runTest2",
        "Outcome": "Fail",
        "ApexClass": {
          "Id": "01pRt000009xaTnIAI",
          "Name": "TestClass",
          "NamespacePrefix": null
        },
        "RunTime": 2,
        "FullName": "TestClass.runTest2"
      }
    ],
    "coverage": {
      "coverage": [
        {
          "id": "01pRt000009wnrBIAQ",
          "name": "Test",
          "totalLines": 1,
          "lines": {
            "2": 0
          },
          "totalCovered": 0,
          "coveredPercent": 0
        }
      ],
      "records": [],
      "summary": {
        "totalLines": 1,
        "coveredLines": 0,
        "orgWideCoverage": "0%",
        "testRunCoverage": "0%"
      }
    }
  },
  "warnings": []
}
"#;

const INSTALL_OUTPUT: &str = r#"{
  "status": 0,
  "result": {
    "attributes": {
      "type": "PackageInstallRequest",
      "url": "/services/data/v62.0/tooling/sobjects/PackageInstallRequest/0Hfbm0000028WXpCAM"
    },
    "Id": "0Hfbm0000028WXpCAM",
    "IsDeleted": false,
    "CreatedDate": "2025-01-05T22:35:49.000+0000",
    "SkipHandlers": null,
    "Status": "SUCCESS",
    "Errors": null
  },
  "warnings": []
}
"#;

#[test]
fn it_should_create_a_scratch_org() {
    let command_output = &check_output(&SfCommand::CreateScratchOrg { devhub: "devhub".to_string() }, read(CREATE_OUTPUT));
    assert!(command_output.is_ok());

    let result = command_output.as_ref().unwrap().result.as_ref();
    assert!(result.is_some());
    assert!(matches!(result.unwrap(), CliResult::CreateScratchOrgResult { .. }));
    match result.unwrap() {
        CliResult::CreateScratchOrgResult { username, scratch_org_info, .. } => {
            assert_eq!("test@example.com", username);
            assert_eq!("EnableSetPasswordInApi;API", scratch_org_info.features);
        }
        _ => unreachable!(),
    }
}

#[test]
fn it_should_delete_a_scratch_org() {
    let command_output = &check_output(&SfCommand::DeleteScratchOrg, read(DELETE_OUTPUT));
    assert!(command_output.is_ok());

    let result = command_output.as_ref().unwrap().result.as_ref();
    assert!(result.is_some());
    assert!(matches!(result.unwrap(), CliResult::DeleteScratchOrgResult { .. }));
    match result.unwrap() {
        CliResult::DeleteScratchOrgResult { username, .. } => assert_eq!("test@example.com", username),
        _ => unreachable!(),
    }
}

#[test]
fn it_should_authorize_an_org() {
    let command_output = &check_output(&SfCommand::AuthDevhub { auth_file: "path".to_string() }, read(AUTHORIZE_OUTPUT));
    assert!(command_output.is_ok());

    let result = command_output.as_ref().unwrap().result.as_ref();
    assert!(result.is_some());
    assert!(matches!(result.unwrap(), CliResult::AuthorizeResult { .. }));
    match result.unwrap() {
        CliResult::AuthorizeResult { username, .. } => assert_eq!("test.com.sandbox", username),
        _ => unreachable!(),
    }
}

#[test]
fn it_should_deploy_metadata() {
    let command_output = &check_output(&SfCommand::ProjectDeploy { path: "path".to_string() }, read(DEPLOY_OUTPUT));
    assert!(command_output.is_ok());

    let result = command_output.as_ref().unwrap().result.as_ref();
    assert!(result.is_some());
    assert!(matches!(result.unwrap(), CliResult::ProjectDeployResult { .. }));
    match result.unwrap() {
        CliResult::ProjectDeployResult { details } => assert_eq!(2, details.component_successes.len()),
        _ => unreachable!(),
    }
}

#[test]
fn it_should_execute_anonymous_apex() {
    let command_output = &check_output(&SfCommand::ExecAnonymous { path: "path".to_string() }, read(APEX_OUTPUT));
    assert!(command_output.is_ok());

    let result = command_output.as_ref().unwrap().result.as_ref();
    assert!(result.is_some());
    assert!(matches!(result.unwrap(), CliResult::ExecuteAnonymousApexResult { .. }));
    match result.unwrap() {
        CliResult::ExecuteAnonymousApexResult { success, compile_problem, .. } => {
            assert!(*success);
            assert_eq!("", compile_problem);
        }
        _ => unreachable!(),
    }
}

#[test]
fn it_should_run_apex_tests() {
    let command_output = &check_output(&SfCommand::RunTests, read(TESTS_OUTPUT));
    assert!(command_output.is_ok());

    let result = command_output.as_ref().unwrap().result.as_ref();
    assert!(result.is_some());
    assert!(matches!(result.unwrap(), CliResult::RunApexTestsResult { .. }));
    match result.unwrap() {
        CliResult::RunApexTestsResult { summary, tests } => {
            assert_eq!(1, summary.failing);
            assert_eq!(2, tests.len());
            assert_eq!(Some("Class.TestClass.runTest2: line 10, column 1".to_string()), tests[1].stack_trace);
            assert_eq!(None, tests[0].message);
        }
        _ => unreachable!(),
    }
}

#[test]
fn installed_package_output_is_read() {
    let command_output = &check_output(&SfCommand::InstallPackage { id: "id".to_string() }, read(INSTALL_OUTPUT));
    assert!(command_output.is_ok());
    let result = command_output.as_ref().unwrap().result.as_ref();
    assert!(matches!(result, Some(CliResult::PackageInstallResult { status }) if status == "SUCCESS"));
}

#[test]
fn unknown_payload_is_unknown() {
    let v = model(serde_json::from_str(r#"{"something": 1}"#).unwrap());
    assert!(matches!(decode_result(&v), CliResult::Unknown));
    assert!(matches!(decode_result(&JsonValue::Null), CliResult::Unknown));
}

#[test]
fn output_needs_a_status() {
    let v = model(serde_json::from_str(r#"{"result": null}"#).unwrap());
    assert!(SfCliCommandOutput::from_json(&v).is_none());
    let v = model(serde_json::from_str(r#"{"status": -1}"#).unwrap());
    assert!(SfCliCommandOutput::from_json(&v).is_none());
    let v = model(serde_json::from_str(r#"{"status": 1, "message": "bad", "result": null}"#).unwrap());
    let o = SfCliCommandOutput::from_json(&v).unwrap();
    assert_eq!(o.status, 1);
    assert_eq!(o.message, Some("bad".to_string()));
    assert!(o.result.is_none());
}

#[test]
fn failed_deploy_component_is_read() {
    let text = r#"{"status": 1, "result": {"details": {"componentSuccesses": [], "componentFailures": [
        {"componentType": "ApexClass", "fullName": "A", "problem": "oops", "success": false}]}}}"#;
    let o = read(text);
    match o.result {
        Some(CliResult::ProjectDeployResult { details }) => {
            assert_eq!(details.component_failures.len(), 1);
            assert_eq!(details.component_failures[0].problem, Some("oops".to_string()));
            assert!(!details.component_failures[0].success);
        }
        _ => panic!("not a deploy result"),
    }
}
