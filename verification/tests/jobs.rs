use offsite_replication::form::{
    copy_alias_key, finish_job_form, normalize_job_form_aliases, normalize_u32_field,
    normalize_u64_field, parse_job_form, FormData, FormValue,
};
use offsite_replication::jobs::{
    check_source_guest_privs, check_source_guest_privs_for, check_target_remote_privs, create_job,
    delete_job, find_job, job_access, job_from_update, list_jobs, listed_runs, read_job,
    request_access, update_access, update_job, validate_failback_request,
    validate_failover_request, validate_job, validate_ssh_keygen_request,
    validate_ssh_prepare_request, Access, Refusal,
};
use offsite_replication::selectors::{
    get_guest_list, get_node_list, guest_query, node_query, GuestQuery, ListedGuest,
};
use offsite_replication::types::{
    GuestType, OffsiteFailbackRequest, OffsiteFailoverRequest, OffsiteReplicationConfig,
    OffsiteReplicationJob, OffsiteReplicationJobUpdater, OffsiteSshKeygenRequest,
    OffsiteSshPrepareRequest, OffsiteZfsStreamMode,
};

fn job(id: &str) -> OffsiteReplicationJob {
    OffsiteReplicationJob {
        id: id.to_string(),
        source_remote: "src".to_string(),
        source_node: "a".to_string(),
        guest_type: GuestType::Qemu,
        vmid: 100,
        target_remote: "dst".to_string(),
        target_node: "b".to_string(),
        target_dataset: "tank".to_string(),
        schedule: "hourly".to_string(),
        max_snapshots: 8,
        history_limit: 200,
        rate_limit_mib: None,
        zfs_stream_mode: OffsiteZfsStreamMode::Auto,
        source_user: "root".to_string(),
        target_user: "root".to_string(),
        ssh_private_key: "/k".to_string(),
        qga_fsfreeze: false,
        comment: None,
        disable: false,
    }
}

fn refused(job: &OffsiteReplicationJob, schedule_valid: bool) -> String {
    validate_job(job, schedule_valid).unwrap_err().message
}

#[test]
fn jobs_are_checked_before_they_are_stored() {
    assert!(validate_job(&job("a"), true).is_ok());
    assert_eq!(refused(&job("a b"), true), "invalid job id 'a b'");
    let mut bad = job("a");
    bad.target_remote = "src".to_string();
    assert_eq!(refused(&bad, true), "source and target remotes must differ");
    let mut bad = job("a");
    bad.target_dataset = "tank/".to_string();
    assert_eq!(refused(&bad, true), "invalid target dataset 'tank/'");
    let mut bad = job("a");
    bad.source_user = "".to_string();
    assert_eq!(refused(&bad, true), "invalid SSH user ''");
    let mut bad = job("a");
    bad.target_user = "x y".to_string();
    assert_eq!(refused(&bad, true), "invalid SSH user 'x y'");
    let mut bad = job("a");
    bad.ssh_private_key = "k".to_string();
    assert_eq!(refused(&bad, true), "invalid SSH private key path 'k'");
    let mut bad = job("a");
    bad.source_user = "admin".to_string();
    assert_eq!(
        refused(&bad, true),
        "source_user must be 'root' for VMID-based replication (current pve-zsync backend requirement)"
    );
    assert_eq!(refused(&job("a"), false), "invalid schedule 'hourly'");
    let mut bad = job("a");
    bad.max_snapshots = 0;
    assert_eq!(refused(&bad, true), "max snapshots must be greater than zero");
    let mut bad = job("a");
    bad.history_limit = 0;
    assert_eq!(refused(&bad, true), "history limit must be greater than zero");
}

#[test]
fn requests_are_checked() {
    let prepare = OffsiteSshPrepareRequest {
        source_user: "root".to_string(),
        target_user: "root".to_string(),
        ssh_private_key: "/k".to_string(),
        ..OffsiteSshPrepareRequest::default()
    };
    assert!(validate_ssh_prepare_request(&prepare).is_ok());
    assert_eq!(
        validate_ssh_prepare_request(&OffsiteSshPrepareRequest::default()).unwrap_err().message,
        "invalid SSH user ''"
    );
    assert_eq!(
        validate_ssh_keygen_request(&OffsiteSshKeygenRequest::default()).unwrap_err().message,
        "invalid SSH private key path ''"
    );
    let failover = OffsiteFailoverRequest {
        snapshot: "a@b".to_string(),
        recovery_vmid: 0,
        recovered_name: None,
        start_guest: false,
    };
    assert!(validate_failover_request(&failover).is_ok());
    assert_eq!(
        validate_failover_request(&OffsiteFailoverRequest::default()).unwrap_err().message,
        "invalid recovery snapshot ''"
    );
    let failback = |recovery: u32, restore: u32, name: Option<&str>| OffsiteFailbackRequest {
        recovery_vmid: recovery,
        restore_vmid: restore,
        recovered_name: name.map(str::to_string),
    };
    assert!(validate_failback_request(&failback(1, 2, Some("x"))).is_ok());
    assert_eq!(
        validate_failback_request(&failback(0, 2, None)).unwrap_err().message,
        "recovery VMID must be greater than zero"
    );
    assert_eq!(
        validate_failback_request(&failback(1, 0, None)).unwrap_err().message,
        "restore VMID must be greater than zero"
    );
    assert_eq!(
        validate_failback_request(&failback(1, 2, Some("-"))).unwrap_err().message,
        "invalid recovered guest name '-'"
    );
}

#[test]
fn access_is_checked_on_guests_and_remotes() {
    assert_eq!(check_source_guest_privs(&job("a")), vec!["resource", "src", "guest", "100"]);
    assert_eq!(check_source_guest_privs_for("r", 7), vec!["resource", "r", "guest", "7"]);
    assert_eq!(check_target_remote_privs("dst"), vec!["resource", "dst"]);
    assert_eq!(
        job_access(&job("a")),
        vec![vec!["resource", "src", "guest", "100"], vec!["resource", "dst"]]
    );
    assert_eq!(
        request_access("r", 7, "t"),
        vec![vec!["resource", "r", "guest", "7"], vec!["resource", "t"]]
    );
    let mut moved = job("a");
    moved.vmid = 200;
    moved.target_remote = "far".to_string();
    assert_eq!(
        update_access(&job("a"), &moved),
        vec![
            vec!["resource", "src", "guest", "100"],
            vec!["resource", "src", "guest", "200"],
            vec!["resource", "dst"],
            vec!["resource", "far"],
        ]
    );
}

#[test]
fn jobs_are_seen_with_access_to_both_sides() {
    let config = OffsiteReplicationConfig { jobs: vec![job("a"), job("b"), job("c"), job("d")] };
    let access = vec![
        Access { source: true, target: true },
        Access { source: true, target: false },
        Access { source: false, target: true },
    ];
    let seen = list_jobs(&config, &access);
    assert_eq!(seen.len(), 1);
    assert_eq!(seen[0].id, "a");
}

#[test]
fn a_created_job_is_found_until_it_is_deleted() {
    let mut config = OffsiteReplicationConfig::default();
    create_job(&mut config, job("a"), true).unwrap();
    create_job(&mut config, job("b"), true).unwrap();
    assert_eq!(
        create_job(&mut config, job("a"), true).unwrap_err().message,
        "job 'a' already exists"
    );
    assert_eq!(
        create_job(&mut config, job("c"), false).unwrap_err().message,
        "invalid schedule 'hourly'"
    );
    assert_eq!(config.jobs.len(), 2);
    assert_eq!(find_job(&config.jobs, "b").unwrap().id, "b");
    assert_eq!(read_job(&config, "a").unwrap(), job("a"));
    delete_job(&mut config, "a").unwrap();
    assert!(find_job(&config.jobs, "a").is_none());
    match read_job(&config, "a").unwrap_err() {
        Refusal::NotFound(message) => assert_eq!(message, "job 'a' does not exist"),
        other => panic!("{other:?}"),
    }
    match delete_job(&mut config, "a").unwrap_err() {
        Refusal::NotFound(message) => assert_eq!(message, "job 'a' does not exist"),
        other => panic!("{other:?}"),
    }
    assert_eq!(config.jobs, vec![job("b")]);
}

#[test]
fn an_update_touches_one_job() {
    let mut config = OffsiteReplicationConfig { jobs: vec![job("a"), job("b")] };
    let mut changed = job("b");
    changed.comment = Some("x".to_string());
    update_job(&mut config, changed.clone(), true).unwrap();
    assert_eq!(config.jobs, vec![job("a"), changed.clone()]);
    changed.id = "c".to_string();
    assert_eq!(
        update_job(&mut config, changed.clone(), true).unwrap_err().message(),
        "job 'c' does not exist"
    );
    changed.max_snapshots = 0;
    match update_job(&mut config, changed, true).unwrap_err() {
        Refusal::Refused(e) => {
            assert_eq!(e.message, "max snapshots must be greater than zero")
        }
        other => panic!("{other:?}"),
    }
}

#[test]
fn updates_take_the_id_of_the_path() {
    let update = OffsiteReplicationJobUpdater {
        source_remote: "src".to_string(),
        source_node: "a".to_string(),
        guest_type: GuestType::Qemu,
        vmid: 100,
        target_remote: "dst".to_string(),
        target_node: "b".to_string(),
        target_dataset: "tank".to_string(),
        schedule: "hourly".to_string(),
        max_snapshots: 8,
        history_limit: 200,
        rate_limit_mib: None,
        zfs_stream_mode: OffsiteZfsStreamMode::Auto,
        source_user: "root".to_string(),
        target_user: "root".to_string(),
        ssh_private_key: "/k".to_string(),
        qga_fsfreeze: false,
        comment: None,
        disable: false,
    };
    assert_eq!(job_from_update("a", update), job("a"));
}

#[test]
fn listed_runs_are_counted() {
    assert_eq!(listed_runs(None), None);
    assert_eq!(listed_runs(Some(5)), Some(5));
}

fn text(s: &str) -> FormValue {
    FormValue::Text(s.to_string())
}

fn form(entries: &[(&str, FormValue)]) -> FormData {
    FormData {
        entries: entries
            .iter()
            .map(|(key, value)| (key.to_string(), value.clone()))
            .collect(),
    }
}

#[test]
fn texts_of_numbers_become_numbers() {
    let mut data = form(&[("vmid", text(" 100 ")), ("n", FormValue::Number(3))]);
    normalize_u32_field(&mut data, "vmid").unwrap();
    assert_eq!(data.get("vmid"), Some(FormValue::Number(100)));
    normalize_u32_field(&mut data, "n").unwrap();
    assert_eq!(data.get("n"), Some(FormValue::Number(3)));
    normalize_u64_field(&mut data, "missing").unwrap();
    assert_eq!(data.get("missing"), None);
    let mut data = form(&[("vmid", text("4294967296"))]);
    assert_eq!(
        normalize_u32_field(&mut data, "vmid").unwrap_err().message,
        "'vmid' must be a valid number"
    );
    normalize_u64_field(&mut data, "vmid").unwrap();
    assert_eq!(data.get("vmid"), Some(FormValue::Number(4294967296)));
    let mut data = form(&[("x", text("-1"))]);
    assert_eq!(
        normalize_u64_field(&mut data, "x").unwrap_err().message,
        "'x' must be a valid number"
    );
}

#[test]
fn aliases_do_not_replace_what_is_there() {
    let mut data = form(&[("source_node", text("old")), ("source-node", text("new"))]);
    copy_alias_key(&mut data, "source_node", "source-node");
    assert_eq!(data.get("source-node"), Some(text("new")));
    let mut data = form(&[("guest_type", text("lxc"))]);
    normalize_job_form_aliases(&mut data);
    assert_eq!(data.get("guest-type"), Some(text("lxc")));
    assert_eq!(data.get("guest_type"), Some(text("lxc")));
    assert_eq!(data.entries.len(), 2);
}

#[test]
fn forms_are_prepared_for_parsing() {
    let data = form(&[
        ("id", text(" a ")),
        ("vmid", text("100")),
        ("max_snapshots", text("8")),
        ("history-limit", FormValue::Number(200)),
    ]);
    let ready = parse_job_form(data, &Some("a".to_string())).unwrap();
    assert_eq!(ready.get("id"), Some(text("a")));
    assert_eq!(ready.get("vmid"), Some(FormValue::Number(100)));
    assert_eq!(ready.get("max-snapshots"), Some(FormValue::Number(8)));
    assert_eq!(ready.get("history-limit"), Some(FormValue::Number(200)));
    let data = form(&[("id", text("b"))]);
    assert_eq!(
        parse_job_form(data, &Some("a".to_string())).unwrap_err().message,
        "path ID and payload ID must match"
    );
    let data = form(&[("rate-limit-mib", text("fast"))]);
    assert_eq!(
        parse_job_form(data, &None).unwrap_err().message,
        "'rate-limit-mib' must be a valid number"
    );
}

#[test]
fn parsed_forms_are_trimmed_and_complete() {
    let mut wide = job(" a ");
    wide.target_dataset = " tank ".to_string();
    wide.schedule = "hourly\n".to_string();
    assert_eq!(finish_job_form(wide).unwrap(), job("a"));
    let mut bad = job("a");
    bad.id = " ".to_string();
    assert_eq!(finish_job_form(bad).unwrap_err().message, "job id is required");
    let mut bad = job("a");
    bad.target_dataset = "".to_string();
    assert_eq!(finish_job_form(bad).unwrap_err().message, "target dataset is required");
    let mut bad = job("a");
    bad.schedule = "".to_string();
    assert_eq!(finish_job_form(bad).unwrap_err().message, "schedule is required");
    let mut bad = job("a");
    bad.ssh_private_key = "\t".to_string();
    assert_eq!(
        finish_job_form(bad).unwrap_err().message,
        "source user, target user and ssh private key are required"
    );
}

fn guest(vmid: u32, name: Option<&str>) -> ListedGuest {
    ListedGuest {
        vmid,
        name: name.map(str::to_string),
        status: "running".to_string(),
    }
}

#[test]
fn guests_are_listed_by_id() {
    assert!(guest_query("", None, "qemu").is_none());
    let query = guest_query("r", Some(" ".to_string()), "LXC").unwrap();
    assert_eq!(query, GuestQuery { guest_type: GuestType::Lxc, node: None });
    let query = guest_query("r", Some("n".to_string()), "").unwrap();
    assert_eq!(query.guest_type, GuestType::Qemu);
    let list = get_guest_list(&query, &vec![guest(200, None), guest(100, Some("x"))]);
    assert_eq!(list.iter().map(|entry| entry.vmid).collect::<Vec<_>>(), vec![100, 200]);
    assert_eq!((list[0].name.as_str(), list[1].name.as_str()), ("x", "-"));
    assert_eq!(list[0].node, "n");
    assert_eq!(list[0].guest_type, "qemu");
    assert_eq!(list[0].status, "running");
}

#[test]
fn nodes_are_listed_by_name() {
    let names = |list: &[&str]| list.iter().map(|s| s.to_string()).collect::<Vec<_>>();
    let list = get_node_list(
        &names(&["c", "a", "b", "d"]),
        &names(&["d"]),
        &Some("b".to_string()),
    );
    assert_eq!(
        list.iter().map(|entry| (entry.name.as_str(), entry.place)).collect::<Vec<_>>(),
        vec![("a", 1), ("c", 0)]
    );
    assert_eq!(node_query("r").as_deref(), Some("r"));
    assert!(node_query("").is_none());
}
