use offsite_replication::ids::{
    history_path, recovery_config_dir_for_job, recovery_config_path, recovery_storage_id,
    sanitize_dataset_component, sanitize_id,
};
use offsite_replication::names::{
    safe_id, validate_runtime_job, verify_offsite_recovered_name, verify_offsite_snapshot,
    verify_offsite_ssh_key_path, verify_offsite_ssh_user, verify_offsite_target_dataset,
};
use offsite_replication::shell::shell_escape;
use offsite_replication::types::{
    default_install_authorized_keys, default_offsite_history_limit, default_zfs_stream_mode, Error,
    GuestType, OffsiteReplicationJob, OffsiteZfsStreamMode,
};

fn job() -> OffsiteReplicationJob {
    OffsiteReplicationJob {
        id: "job-100".to_string(),
        source_remote: "src".to_string(),
        source_node: "src-node".to_string(),
        guest_type: GuestType::Qemu,
        vmid: 100,
        target_remote: "dst".to_string(),
        target_node: "dst-node".to_string(),
        target_dataset: "tank/offsite".to_string(),
        schedule: "*:0/15".to_string(),
        max_snapshots: 8,
        history_limit: 200,
        rate_limit_mib: Some(64),
        zfs_stream_mode: OffsiteZfsStreamMode::Auto,
        source_user: "root".to_string(),
        target_user: "root".to_string(),
        ssh_private_key: "/root/.ssh/id_ed25519".to_string(),
        qga_fsfreeze: true,
        comment: None,
        disable: false,
    }
}

fn message(r: Result<(), Error>) -> String {
    r.unwrap_err().message
}

#[test]
fn datasets_are_accepted_by_their_components() {
    assert!(verify_offsite_target_dataset("tank").is_ok());
    assert!(verify_offsite_target_dataset("tank/off-site:1/x_y.z").is_ok());
    for bad in ["", "/tank", "tank/", "tank//x", "tank/.", "tank/../x", "-tank", "tank/o f", "tänk"] {
        assert_eq!(
            message(verify_offsite_target_dataset(bad)),
            format!("invalid target dataset '{bad}'")
        );
    }
}

#[test]
fn snapshots_are_a_dataset_and_a_name() {
    assert!(verify_offsite_snapshot("tank/vm-100-disk-0@rep_job_2026-03-25_02:39:35").is_ok());
    for bad in ["tank", "@x", "tank@", "tank@a@b", "tank@a/b", "tank/@a", " tank@a"] {
        assert_eq!(
            message(verify_offsite_snapshot(bad)),
            format!("invalid recovery snapshot '{bad}'")
        );
    }
}

#[test]
fn users_are_plain_and_bounded() {
    let longest = format!("a{}", "b".repeat(31));
    let with_dollar = format!("{longest}$");
    let too_long = format!("a{}", "b".repeat(32));
    for good in ["root", "_svc", "a.b-c_d", "host$", &longest, &with_dollar] {
        assert!(verify_offsite_ssh_user(good).is_ok(), "{good}");
    }
    for bad in ["", "$", "1a", "-a", "a b", "a$b", "root;id", "root\n", &too_long] {
        assert_eq!(
            message(verify_offsite_ssh_user(bad)),
            format!("invalid SSH user '{bad}'")
        );
    }
}

#[test]
fn key_paths_are_absolute_and_without_dot_components() {
    assert!(verify_offsite_ssh_key_path("/root/.ssh/id_ed25519").is_ok());
    assert!(verify_offsite_ssh_key_path("/k").is_ok());
    for bad in ["", "/", "root/key", "/root//key", "/root/key/", "/root/my key", "/root/k'y"] {
        assert_eq!(
            message(verify_offsite_ssh_key_path(bad)),
            format!("invalid SSH private key path '{bad}'")
        );
    }
    for dotted in ["/root/../key", "/./key", "/.."] {
        assert_eq!(
            message(verify_offsite_ssh_key_path(dotted)),
            "SSH private key path must not contain '.' or '..' components"
        );
    }
}

#[test]
fn guest_names_are_bounded() {
    let longest = "a".repeat(63);
    let too_long = "a".repeat(64);
    assert!(verify_offsite_recovered_name("vm100-dr").is_ok());
    assert!(verify_offsite_recovered_name(&longest).is_ok());
    for bad in ["", "-a", "a b", "a:b", &too_long] {
        assert_eq!(
            message(verify_offsite_recovered_name(bad)),
            format!("invalid recovered guest name '{bad}'")
        );
    }
}

#[test]
fn safe_ids_start_with_a_letter_digit_or_underscore() {
    for good in ["job-100", "_x", "0", "a.b"] {
        assert!(safe_id(good));
    }
    for bad in ["", "-a", ".a", "a/b", "a b"] {
        assert!(!safe_id(bad));
    }
}

#[test]
fn runtime_check_names_what_is_wrong() {
    assert!(validate_runtime_job(&job()).is_ok());

    let mut bad = job();
    bad.id = "a/b".to_string();
    assert_eq!(message(validate_runtime_job(&bad)), "job 'a/b' is invalid: invalid job id");

    let mut bad = job();
    bad.target_dataset = "/tank".to_string();
    assert_eq!(message(validate_runtime_job(&bad)), "invalid target dataset '/tank'");

    let mut bad = job();
    bad.source_user = "1".to_string();
    assert_eq!(message(validate_runtime_job(&bad)), "invalid SSH user '1'");

    let mut bad = job();
    bad.target_user = "2".to_string();
    assert_eq!(message(validate_runtime_job(&bad)), "invalid SSH user '2'");

    let mut bad = job();
    bad.ssh_private_key = "key".to_string();
    assert_eq!(message(validate_runtime_job(&bad)), "invalid SSH private key path 'key'");

    let mut bad = job();
    bad.source_user = "admin".to_string();
    assert_eq!(
        message(validate_runtime_job(&bad)),
        "job 'job-100' is invalid: source_user must be 'root' for VMID-based replication (current pve-zsync backend requirement)"
    );

    let mut bad = job();
    bad.max_snapshots = 0;
    assert_eq!(
        message(validate_runtime_job(&bad)),
        "job 'job-100' is invalid: max snapshots must be greater than zero"
    );
}

#[test]
fn files_are_named_after_sanitized_ids() {
    assert_eq!(
        history_path("/var/lib/pdm", "a b"),
        "/var/lib/pdm/offsite-replication-history/a_b.json"
    );
    assert_eq!(
        recovery_config_dir_for_job("/var/lib/pdm", "../x"),
        "/var/lib/pdm/offsite-replication-configs/___x"
    );
    assert_eq!(
        recovery_config_path("/var/lib/pdm", "job-1", "tank/a@s:1"),
        "/var/lib/pdm/offsite-replication-configs/job-1/tank_a_s_1.conf"
    );
}

#[test]
fn sanitizing_twice_is_sanitizing_once() {
    for id in ["job 1/2", "a:b*c", "ä", ""] {
        let once = sanitize_id(id);
        assert_eq!(sanitize_id(&once), once);
        let once = sanitize_dataset_component(id);
        assert_eq!(sanitize_dataset_component(&once), once);
    }
    assert_eq!(sanitize_dataset_component("a:b c@d.e"), "a:b_c_d.e");
}

#[test]
fn storage_ids_are_bounded_and_clean() {
    for id in ["", "job-100", "a/b c", "0123456789012345678901234567890123456789"] {
        let storage = recovery_storage_id(id);
        assert!(storage.starts_with("offsite-"));
        assert!(storage.len() <= 31);
        assert_eq!(sanitize_id(&storage), storage);
    }
}

#[test]
fn shell_escape_quotes_every_text() {
    assert_eq!(shell_escape(""), "''");
    assert_eq!(shell_escape("a b"), "'a b'");
    assert_eq!(shell_escape("it's"), "'it'\"'\"'s'");
    assert_eq!(shell_escape("'"), "''\"'\"''");
    assert_eq!(shell_escape("$(id)\n"), "'$(id)\n'");
}

#[test]
fn accepted_names_are_only_put_in_quotes() {
    for name in ["tank/off-site", "tank/a@b", "root$", "/root/.ssh/key", "vm1-dr"] {
        assert_eq!(shell_escape(name), format!("'{name}'"));
    }
}

#[test]
fn defaults_of_jobs_and_requests() {
    assert_eq!(default_offsite_history_limit(), 200);
    assert_eq!(default_zfs_stream_mode(), OffsiteZfsStreamMode::Auto);
    assert!(default_install_authorized_keys());
    assert_eq!(OffsiteZfsStreamMode::default(), OffsiteZfsStreamMode::Auto);
    assert_eq!(OffsiteZfsStreamMode::Auto.as_str(), "auto");
    assert_eq!(OffsiteZfsStreamMode::Plain.as_str(), "plain");
    assert_eq!(OffsiteZfsStreamMode::Raw.as_str(), "raw");
}
