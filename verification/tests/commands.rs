use offsite_replication::command::{
    check_text, config_of_text, connection_of, fetch_guest_config, guest_config_command,
    merge_command_output, merge_texts, normalize_host_for_connection, normalize_ssh_port,
    parse_authority, resolve_node_host, run_ssh_script_checked, scp_arguments, ssh_arguments,
    stdout_text, CommandOutput,
};
use offsite_replication::config::{config, detect_modification};
use offsite_replication::types::{GuestType, OffsiteReplicationJob, OffsiteZfsStreamMode};

fn job(guest_type: GuestType) -> OffsiteReplicationJob {
    OffsiteReplicationJob {
        id: "job-1".to_string(),
        source_remote: "src".to_string(),
        source_node: "a".to_string(),
        guest_type,
        vmid: 100,
        target_remote: "dst".to_string(),
        target_node: "b".to_string(),
        target_dataset: "tank".to_string(),
        schedule: "hourly".to_string(),
        max_snapshots: 8,
        history_limit: 200,
        rate_limit_mib: None,
        zfs_stream_mode: OffsiteZfsStreamMode::Auto,
        source_user: "root".to_string(),
        target_user: "root".to_string(),
        ssh_private_key: "/k".to_string(),
        qga_fsfreeze: false,
        comment: None,
        disable: false,
    }
}

fn output(stdout: &[u8], stderr: &[u8], success: bool) -> CommandOutput {
    CommandOutput {
        stdout: stdout.to_vec(),
        stderr: stderr.to_vec(),
        success,
        code: Some(if success { 0 } else { 255 }),
    }
}

#[test]
fn outputs_are_merged_with_a_line_break() {
    assert_eq!(merge_command_output(&output(b"", b"", true)), "");
    assert_eq!(merge_command_output(&output(b"out", b"", true)), "out");
    assert_eq!(merge_command_output(&output(b"", b"err", true)), "err");
    assert_eq!(merge_command_output(&output(b"out", b"err", true)), "out\nerr");
    assert_eq!(merge_texts("a".to_string(), &None), "a");
    assert_eq!(merge_texts(String::new(), &Some("b".to_string())), "b");
    assert_eq!(merge_texts("a".to_string(), &Some(String::new())), "a\n");
}

#[test]
fn invalid_utf8_is_replaced() {
    assert_eq!(stdout_text(&output("grüße".as_bytes(), b"", true)), "grüße");
    assert_eq!(stdout_text(&output(b"a\xffb", b"", true)), "a\u{fffd}b");
    assert_eq!(merge_command_output(&output(b"\xff", b"\xfe", true)), "\u{fffd}\n\u{fffd}");
}

#[test]
fn failed_scripts_tell_why() {
    assert_eq!(check_text("r", "n", true, "x".to_string()).unwrap(), "x");
    assert_eq!(
        check_text("r", "n", false, " \n".to_string()).unwrap_err().message,
        "ssh command against 'r/n' failed"
    );
    assert_eq!(
        run_ssh_script_checked("r", "n", &Some(output(b"boom", b"", false)))
            .unwrap_err()
            .message,
        "boom"
    );
    assert_eq!(
        run_ssh_script_checked("r", "n", &Some(output(b"fine", b"", true))).unwrap(),
        "fine"
    );
    assert_eq!(
        run_ssh_script_checked("r", "n", &None).unwrap_err().message,
        "failed to execute ssh against 'r/n'"
    );
}

#[test]
fn guest_configs_are_captured() {
    assert_eq!(guest_config_command(&job(GuestType::Qemu)), "qm config 100 --current");
    assert_eq!(guest_config_command(&job(GuestType::Lxc)), "pct config 100");
    let qemu = job(GuestType::Qemu);
    assert_eq!(
        fetch_guest_config(&qemu, &Some(output(b"name: x\n", b"", true))).unwrap(),
        "name: x\n"
    );
    assert_eq!(
        fetch_guest_config(&qemu, &Some(output(b"", b"", false))).unwrap_err().message,
        "failed to capture guest config for 'job-1': ssh command failed"
    );
    assert_eq!(
        config_of_text("job-1", false, "no such vm".to_string()).unwrap_err().message,
        "failed to capture guest config for 'job-1': no such vm"
    );
    assert_eq!(
        fetch_guest_config(&qemu, &None).unwrap_err().message,
        "failed to execute ssh against 'src/a'"
    );
}

#[test]
fn hosts_are_read_with_their_ports() {
    assert_eq!(parse_authority("pve.example.com"), ("pve.example.com".to_string(), Some(22)));
    assert_eq!(parse_authority("10.0.0.1:8006"), ("10.0.0.1".to_string(), Some(8006)));
    assert_eq!(parse_authority("[fe80::1]:2222"), ("[fe80::1]".to_string(), Some(2222)));
    assert_eq!(parse_authority("host:99999"), ("host".to_string(), Some(22)));
    assert_eq!(parse_authority("user@host:23"), ("host".to_string(), Some(23)));
    assert_eq!(parse_authority("two words"), ("two words".to_string(), Some(22)));
}

#[test]
fn what_was_read_decides_the_connection() {
    assert_eq!(
        connection_of("x", Some(("h".to_string(), Some(7)))),
        ("h".to_string(), Some(7))
    );
    assert_eq!(connection_of("x", Some(("h".to_string(), None))), ("h".to_string(), Some(22)));
    assert_eq!(connection_of("x", None), ("x".to_string(), Some(22)));
}

#[test]
fn nodes_are_resolved_by_cache_then_configuration() {
    assert_eq!(
        resolve_node_host("r", &Some("c:1".to_string()), false, &None).unwrap(),
        ("c".to_string(), Some(1))
    );
    assert_eq!(
        resolve_node_host("r", &None, true, &Some("n".to_string())).unwrap(),
        ("n".to_string(), Some(22))
    );
    assert_eq!(
        resolve_node_host("r", &None, false, &None).unwrap_err().message,
        "remote 'r' not found"
    );
    assert_eq!(
        resolve_node_host("r", &None, true, &None).unwrap_err().message,
        "remote 'r' has no configured node endpoint"
    );
}

#[test]
fn addresses_with_colons_stand_in_brackets() {
    assert_eq!(normalize_host_for_connection("fe80::1"), "[fe80::1]");
    assert_eq!(normalize_host_for_connection("[fe80::1]"), "[fe80::1]");
    assert_eq!(normalize_host_for_connection("host"), "host");
}

#[test]
fn ports_of_the_api_are_not_ports_of_ssh() {
    assert_eq!(normalize_ssh_port(Some(8006)), None);
    assert_eq!(normalize_ssh_port(Some(8007)), None);
    assert_eq!(normalize_ssh_port(None), None);
    assert_eq!(normalize_ssh_port(Some(22)), Some(22));
}

#[test]
fn arguments_of_ssh_and_scp() {
    assert_eq!(
        ssh_arguments("fe80::1", Some(2222), "root", "/k", "echo 'x'"),
        vec![
            "-o",
            "BatchMode=yes",
            "-o",
            "StrictHostKeyChecking=accept-new",
            "-i",
            "/k",
            "-p",
            "2222",
            "root@[fe80::1]",
            "--",
            "/bin/bash",
            "-lc",
            "'echo '\"'\"'x'\"'\"''",
        ]
    );
    assert_eq!(
        scp_arguments("h", Some(8006), "root", "/k"),
        vec![
            "-o",
            "BatchMode=yes",
            "-o",
            "StrictHostKeyChecking=accept-new",
            "-i",
            "/k",
            "/k",
            "root@h:/k",
        ]
    );
}

fn hex(bytes: &[u8]) -> String {
    bytes.iter().map(|b| format!("{b:02x}")).collect()
}

#[test]
fn configuration_has_a_digest() {
    let empty = config(None);
    assert_eq!(
        hex(&empty.digest),
        "e3b0c44298fc1c149afbf4c8996fb92427ae41e4649b934ca495991b7852b855"
    );
    assert!(empty.content.is_none());
    let blank = config(Some(" \n".to_string()));
    assert!(blank.content.is_none());
    let no_jobs = config(Some("\n {}\n".to_string()));
    assert_eq!(no_jobs.content.as_deref(), Some("\n {}\n"));
    let full = config(Some("abc".to_string()));
    assert_eq!(full.content.as_deref(), Some("abc"));
    assert_eq!(
        hex(&full.digest),
        "ba7816bf8f01cfea414140de5dae2223b00361a396177a9cb410ff61f20015ad"
    );
}

#[test]
fn modified_configuration_is_detected() {
    let digest = config(Some("abc".to_string())).digest;
    let other = config(Some("abd".to_string())).digest;
    assert!(detect_modification(&digest, &None).is_ok());
    assert!(detect_modification(&digest, &Some(digest.clone())).is_ok());
    assert_eq!(
        detect_modification(&digest, &Some(other)).unwrap_err().message,
        "detected modified configuration - file changed by other user? Try again."
    );
}
