use offsite_replication::command::CommandOutput;
use offsite_replication::prepare::{
    connect_error_code, copy_key_to_source_host, derived_public_key, fingerprint_of_text,
    generate_ssh_keypair, hop_script, install_key_script, key_check_error_code, key_of_text,
    plan_keygen, prepare_ssh, settle_key_script, ssh_keygen_fingerprint, ssh_prepare_step,
    ssh_prepare_step_err, ssh_prepare_step_err_with_code, ssh_prepare_step_skipped,
    ssh_prepare_user_remediation, stored_public_key, KeygenPlan, PrepareOutcomes, PrepareProgress,
    PrepareStage, PrepareWork,
};
use offsite_replication::types::{
    OffsiteSshKeygenRequest, OffsiteSshPrepareRequest, OffsiteSshPrepareResult,
    OffsiteSshPrepareStep,
};

fn request() -> OffsiteSshPrepareRequest {
    OffsiteSshPrepareRequest {
        source_remote: "src".to_string(),
        source_node: "a".to_string(),
        vmid: 100,
        target_remote: "dst".to_string(),
        target_node: "b".to_string(),
        source_user: "root".to_string(),
        target_user: "repl".to_string(),
        ssh_private_key: "/k".to_string(),
        install_authorized_keys: true,
        copy_key_to_source: true,
    }
}

fn host(name: &str) -> Option<(String, Option<u16>)> {
    Some((name.to_string(), Some(22)))
}

fn output(stdout: &str, stderr: &str, success: bool) -> CommandOutput {
    CommandOutput {
        stdout: stdout.as_bytes().to_vec(),
        stderr: stderr.as_bytes().to_vec(),
        success,
        code: Some(if success { 0 } else { 1 }),
    }
}

/// Runs a preparation in which the stages in `failing` fail; returns the stages that were worked on
/// and the result.
fn prepare(
    request: &OffsiteSshPrepareRequest,
    failing: &[PrepareStage],
    message: &str,
) -> (Vec<PrepareStage>, OffsiteSshPrepareResult) {
    let mut outcomes = PrepareOutcomes::new();
    let mut stages = Vec::new();
    loop {
        match prepare_ssh(request, &host("s"), &host("t"), &outcomes).unwrap() {
            PrepareProgress::Done(result) => return (stages, result),
            PrepareProgress::Work(stage, _) => {
                stages.push(stage);
                let failed = failing.contains(&stage);
                if stage == PrepareStage::ReadKey {
                    outcomes.key = Some(if failed {
                        Err(message.to_string())
                    } else {
                        Ok("ssh-ed25519 AAAA".to_string())
                    });
                } else if failed {
                    outcomes.record(stage, Err(message.to_string()));
                } else {
                    outcomes.record(stage, Ok(()));
                }
                assert!(stages.len() < 10);
            }
        }
    }
}

fn names(steps: &[OffsiteSshPrepareStep]) -> Vec<(String, bool, String)> {
    steps
        .iter()
        .map(|step| {
            (
                step.name.clone(),
                step.ok,
                step.code.clone().unwrap_or_default(),
            )
        })
        .collect()
}

#[test]
fn preparation_goes_through_all_stages() {
    let (stages, result) = prepare(&request(), &[], "");
    assert_eq!(
        stages,
        vec![
            PrepareStage::ReadKey,
            PrepareStage::SourceConnect,
            PrepareStage::TargetConnect,
            PrepareStage::SourceKeys,
            PrepareStage::TargetKeys,
            PrepareStage::CopyKey,
            PrepareStage::Hop,
        ]
    );
    assert!(result.ok);
    assert_eq!(result.source_host, "s");
    assert_eq!(result.target_host, "t");
    assert_eq!(result.steps.len(), 7);
    assert!(result.steps.iter().all(|step| step.ok));
}

#[test]
fn preparation_stops_without_a_key() {
    let (stages, result) = prepare(
        &request(),
        &[PrepareStage::ReadKey],
        "private key '/k' does not exist",
    );
    assert_eq!(stages, vec![PrepareStage::ReadKey]);
    assert!(!result.ok);
    assert_eq!(result.steps.len(), 1);
    let step = &result.steps[0];
    assert_eq!(step.name, "key-check");
    assert_eq!(step.code.as_deref(), Some("missing_private_key"));
    assert_eq!(step.field.as_deref(), Some("ssh-private-key"));
    assert_eq!(step.message, "private key '/k' does not exist");
    assert_eq!(
        step.remediation.as_deref(),
        Some("Ensure '/k' exists and is readable by the PDM service user.")
    );
}

#[test]
fn what_needs_the_source_is_skipped_without_it() {
    let (stages, result) =
        prepare(&request(), &[PrepareStage::SourceConnect], "Permission denied (publickey).");
    assert_eq!(
        stages,
        vec![
            PrepareStage::ReadKey,
            PrepareStage::SourceConnect,
            PrepareStage::TargetConnect,
            PrepareStage::TargetKeys,
        ]
    );
    assert!(!result.ok);
    assert_eq!(
        names(&result.steps),
        vec![
            ("key-check".to_string(), true, "key-check".to_string()),
            ("source-connect".to_string(), false, "connect_auth_failed".to_string()),
            ("target-connect".to_string(), true, "target-connect".to_string()),
            ("source-authorized-keys".to_string(), false, "skipped".to_string()),
            (
                "target-authorized-keys".to_string(),
                true,
                "target-authorized-keys".to_string()
            ),
            ("copy-key-to-source".to_string(), false, "skipped".to_string()),
            ("source-to-target-hop".to_string(), false, "skipped".to_string()),
        ]
    );
    assert_eq!(result.steps[1].field.as_deref(), Some("source-user"));
    assert_eq!(result.steps[3].message, "Skipped because source-connect failed.");
    assert_eq!(
        result.steps[6].message,
        "Skipped because source or target connectivity failed."
    );
}

#[test]
fn what_needs_the_target_is_skipped_without_it() {
    let (stages, result) = prepare(&request(), &[PrepareStage::TargetConnect], "timeout");
    assert_eq!(
        stages,
        vec![
            PrepareStage::ReadKey,
            PrepareStage::SourceConnect,
            PrepareStage::TargetConnect,
            PrepareStage::SourceKeys,
            PrepareStage::CopyKey,
        ]
    );
    assert_eq!(result.steps[2].code.as_deref(), Some("connect_failed"));
    assert_eq!(result.steps[2].field.as_deref(), Some("target-user"));
    assert_eq!(result.steps[4].message, "Skipped because target-connect failed.");
}

#[test]
fn options_leave_stages_out() {
    let mut quiet = request();
    quiet.install_authorized_keys = false;
    quiet.copy_key_to_source = false;
    let (stages, result) = prepare(&quiet, &[PrepareStage::Hop], "no route");
    assert_eq!(
        stages,
        vec![
            PrepareStage::ReadKey,
            PrepareStage::SourceConnect,
            PrepareStage::TargetConnect,
            PrepareStage::Hop,
        ]
    );
    assert_eq!(
        names(&result.steps[3..]),
        vec![
            ("authorized-keys".to_string(), true, "authorized-keys".to_string()),
            ("copy-key-to-source".to_string(), true, "copy-key-to-source".to_string()),
            (
                "source-to-target-hop".to_string(),
                false,
                "source-to-target-hop".to_string()
            ),
        ]
    );
    assert_eq!(result.steps[5].message, "no route");
    assert!(!result.ok);
}

#[test]
fn every_failure_makes_the_result_fail() {
    for stage in [
        PrepareStage::SourceKeys,
        PrepareStage::TargetKeys,
        PrepareStage::CopyKey,
        PrepareStage::Hop,
    ] {
        let (_, result) = prepare(&request(), &[stage], "boom");
        assert!(!result.ok);
        assert_eq!(result.steps.iter().filter(|step| !step.ok).count(), 1);
        let failed = result.steps.iter().find(|step| !step.ok).unwrap();
        assert_eq!(failed.message, "boom");
    }
}

#[test]
fn preparation_refuses_bad_requests() {
    let outcomes = PrepareOutcomes::new();
    let mut bad = request();
    bad.source_user = "1".to_string();
    assert_eq!(
        prepare_ssh(&bad, &host("s"), &host("t"), &outcomes).unwrap_err().message,
        "invalid SSH user '1'"
    );
    let mut bad = request();
    bad.ssh_private_key = "k".to_string();
    assert_eq!(
        prepare_ssh(&bad, &host("s"), &host("t"), &outcomes).unwrap_err().message,
        "invalid SSH private key path 'k'"
    );
    assert_eq!(
        prepare_ssh(&request(), &None, &host("t"), &outcomes).unwrap_err().message,
        "failed to resolve source node host"
    );
    assert_eq!(
        prepare_ssh(&request(), &host("s"), &None, &outcomes).unwrap_err().message,
        "failed to resolve target node host"
    );
}

#[test]
fn work_is_told_in_full() {
    let mut outcomes = PrepareOutcomes::new();
    match prepare_ssh(&request(), &host("s"), &host("t"), &outcomes).unwrap() {
        PrepareProgress::Work(PrepareStage::ReadKey, PrepareWork::ReadKey(path)) => {
            assert_eq!(path, "/k")
        }
        other => panic!("{other:?}"),
    }
    outcomes.key = Some(Ok("pub".to_string()));
    match prepare_ssh(&request(), &host("s"), &host("t"), &outcomes).unwrap() {
        PrepareProgress::Work(
            PrepareStage::SourceConnect,
            PrepareWork::Script(remote, node, user, script),
        ) => {
            assert_eq!((remote.as_str(), node.as_str(), user.as_str()), ("src", "a", "root"));
            assert_eq!(script, "id -un >/dev/null");
        }
        other => panic!("{other:?}"),
    }
    outcomes.record(PrepareStage::SourceConnect, Ok(()));
    outcomes.record(PrepareStage::TargetConnect, Ok(()));
    outcomes.record(PrepareStage::SourceKeys, Ok(()));
    match prepare_ssh(&request(), &host("s"), &host("t"), &outcomes).unwrap() {
        PrepareProgress::Work(
            PrepareStage::TargetKeys,
            PrepareWork::Script(remote, node, user, script),
        ) => {
            assert_eq!((remote.as_str(), node.as_str(), user.as_str()), ("dst", "b", "repl"));
            assert_eq!(script, install_key_script("pub"));
        }
        other => panic!("{other:?}"),
    }
    outcomes.record(PrepareStage::TargetKeys, Ok(()));
    match prepare_ssh(&request(), &host("s"), &host("t"), &outcomes).unwrap() {
        PrepareProgress::Work(PrepareStage::CopyKey, PrepareWork::Copy(args, remote, _, _, script)) => {
            assert_eq!(args.last().map(String::as_str), Some("root@s:/k"));
            assert_eq!(remote, "src");
            assert_eq!(script, settle_key_script("/k"));
        }
        other => panic!("{other:?}"),
    }
    outcomes.record(PrepareStage::CopyKey, Ok(()));
    match prepare_ssh(&request(), &host("s"), &host("t"), &outcomes).unwrap() {
        PrepareProgress::Work(PrepareStage::Hop, PrepareWork::Script(_, _, user, script)) => {
            assert_eq!(user, "root");
            assert_eq!(script, hop_script("/k", "repl", "t", Some(22)));
        }
        other => panic!("{other:?}"),
    }
}

#[test]
fn scripts_of_the_preparation() {
    assert_eq!(
        install_key_script("ssh-ed25519 A"),
        "set -eu\ninstall -d -m 700 \"$HOME/.ssh\"\ntouch \"$HOME/.ssh/authorized_keys\"\nchmod 600 \"$HOME/.ssh/authorized_keys\"\nif ! grep -qxF 'ssh-ed25519 A' \"$HOME/.ssh/authorized_keys\"; then\nprintf '%s\\n' 'ssh-ed25519 A' >> \"$HOME/.ssh/authorized_keys\"\nfi\n"
    );
    assert_eq!(
        settle_key_script("/k"),
        "set -eu\ninstall -d -m 700 \"$HOME/.ssh\"\nchmod 600 '/k'\nif [ ! -s '/k.pub' ]; then\nssh-keygen -y -f '/k' > '/k.pub'\nfi\nchmod 644 '/k.pub'\n"
    );
    assert_eq!(
        hop_script("/k", "repl", "fe80::1", Some(2222)),
        "ssh -o BatchMode=yes -o StrictHostKeyChecking=accept-new -i '/k' -p 2222 'repl@[fe80::1]' -- true"
    );
    assert_eq!(
        hop_script("/k", "repl", "t", Some(8006)),
        "ssh -o BatchMode=yes -o StrictHostKeyChecking=accept-new -i '/k' 'repl@t' -- true"
    );
}

#[test]
fn steps_and_their_codes() {
    let step = ssh_prepare_step("x", true, "m".to_string());
    assert_eq!((step.code.as_deref(), step.ok, step.remediation), (Some("x"), true, None));
    let step = ssh_prepare_step_err("x", "m".to_string(), Some("r".to_string()));
    assert_eq!((step.code.as_deref(), step.ok), (Some("x"), false));
    assert_eq!(step.remediation.as_deref(), Some("r"));
    let step = ssh_prepare_step_skipped("x", "m".to_string(), None);
    assert_eq!((step.code.as_deref(), step.ok), (Some("skipped"), false));
    let step = ssh_prepare_step_err_with_code("x", "c", Some("f"), "m".to_string(), None);
    assert_eq!((step.code.as_deref(), step.field.as_deref()), (Some("c"), Some("f")));
    let step = ssh_prepare_step_err_with_code("x", "c", None, "m".to_string(), None);
    assert_eq!((step.code.as_deref(), step.field.as_deref()), (Some("c"), None));

    assert_eq!(key_check_error_code("it does not exist"), "missing_private_key");
    assert_eq!(key_check_error_code("Permission denied"), "unreadable_private_key");
    assert_eq!(key_check_error_code("file not readable"), "unreadable_private_key");
    assert_eq!(key_check_error_code("other"), "key_check_failed");
    assert_eq!(connect_error_code("x Permission denied y"), "connect_auth_failed");
    assert_eq!(connect_error_code("timeout"), "connect_failed");
}

#[test]
fn remediation_depends_on_the_user() {
    assert!(ssh_prepare_user_remediation("r", "n", "root")
        .starts_with("On r/n, ensure root SSH login is allowed and the public key is present.\n"));
    assert_eq!(
        ssh_prepare_user_remediation("r", "n", "bob"),
        "On r/n, create or unlock user 'bob' and install the public key.\nExample:\nuseradd -m -s /bin/bash bob || true\ninstall -d -m 700 ~bob/.ssh\ntouch ~bob/.ssh/authorized_keys\nchown -R bob:bob ~bob/.ssh\nchmod 600 ~bob/.ssh/authorized_keys"
    );
}

#[test]
fn public_keys_are_filed_or_derived() {
    assert_eq!(
        stored_public_key("/k", false, &None).unwrap_err().message,
        "private key '/k' does not exist"
    );
    assert_eq!(
        stored_public_key("/k", true, &Some(" key one \nkey two\n".to_string())).unwrap(),
        Some("key one".to_string())
    );
    assert_eq!(stored_public_key("/k", true, &Some("\nkey\n".to_string())).unwrap(), None);
    assert_eq!(stored_public_key("/k", true, &None).unwrap(), None);
    assert_eq!(
        derived_public_key("/k", &Some(output(" key\n", "", true))).unwrap(),
        "key"
    );
    assert_eq!(
        derived_public_key("/k", &Some(output("a", "b", false))).unwrap_err().message,
        "failed to derive public key for '/k': a\nb"
    );
    assert_eq!(
        derived_public_key("/k", &None).unwrap_err().message,
        "failed to derive public key for '/k'"
    );
    assert_eq!(
        key_of_text("/k", true, "x", " \n").unwrap_err().message,
        "derived public key for '/k' is empty"
    );
}

#[test]
fn copying_the_key_can_fail() {
    assert!(copy_key_to_source_host("/k", true, &Some(output("", "", true))).is_ok());
    assert_eq!(
        copy_key_to_source_host("/k", false, &None).unwrap_err().message,
        "private key '/k' does not exist"
    );
    assert_eq!(
        copy_key_to_source_host("/k", true, &None).unwrap_err().message,
        "failed to copy SSH key to source host"
    );
    assert_eq!(
        copy_key_to_source_host("/k", true, &Some(output("", "denied", false)))
            .unwrap_err()
            .message,
        "failed to copy SSH key to source host: denied"
    );
}

fn keygen(overwrite: bool) -> OffsiteSshKeygenRequest {
    OffsiteSshKeygenRequest {
        source_remote: "src".to_string(),
        vmid: 100,
        target_remote: "dst".to_string(),
        ssh_private_key: "/k".to_string(),
        overwrite,
    }
}

#[test]
fn existing_keys_are_replaced_only_on_request() {
    match plan_keygen(&keygen(false), false, true).unwrap() {
        KeygenPlan::Refused(result) => {
            assert!(!result.ok);
            assert_eq!(result.status, "exists");
            assert_eq!(
                result.message,
                "SSH key path '/k' already exists. Confirm overwrite to replace it."
            );
        }
        other => panic!("{other:?}"),
    }
    match plan_keygen(&keygen(true), true, false).unwrap() {
        KeygenPlan::Generate(private, public, args) => {
            assert!(private && !public);
            assert_eq!(args, vec!["-q", "-t", "ed25519", "-N", "", "-f", "/k"]);
        }
        other => panic!("{other:?}"),
    }
    let mut bad = keygen(true);
    bad.ssh_private_key = "/../k".to_string();
    assert_eq!(
        plan_keygen(&bad, false, false).unwrap_err().message,
        "SSH private key path must not contain '.' or '..' components"
    );
}

#[test]
fn generated_keys_are_reported() {
    let good = output("", "", true);
    let created =
        generate_ssh_keypair(&keygen(false), false, false, &good, Some("SHA256:x".to_string()))
            .unwrap();
    assert!(created.ok);
    assert_eq!(created.status, "created");
    assert_eq!(created.message, "Created SSH keypair at '/k'.");
    assert_eq!(created.fingerprint.as_deref(), Some("SHA256:x"));
    let replaced = generate_ssh_keypair(&keygen(true), true, true, &good, None).unwrap();
    assert_eq!(replaced.status, "overwritten");
    assert_eq!(replaced.message, "Replaced SSH keypair at '/k'.");
    let refused = generate_ssh_keypair(&keygen(false), true, true, &good, None).unwrap();
    assert_eq!(refused.status, "exists");
    assert_eq!(
        generate_ssh_keypair(&keygen(false), false, false, &output("", "no", false), None)
            .unwrap_err()
            .message,
        "ssh-keygen failed: no"
    );
}

#[test]
fn fingerprints_are_the_second_word() {
    assert_eq!(
        ssh_keygen_fingerprint(&output("256 SHA256:abc root@h (ED25519)\n", "", true)).unwrap(),
        "SHA256:abc"
    );
    assert_eq!(
        ssh_keygen_fingerprint(&output("", "bad", false)).unwrap_err().message,
        "failed to read fingerprint: bad"
    );
    assert_eq!(
        fingerprint_of_text(true, "", "256").unwrap_err().message,
        "unable to parse key fingerprint"
    );
}
