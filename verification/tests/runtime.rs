use pocket_runtime::capture::{failure_diagnostics, Capture, CapturedStream, NamedCapture};
use pocket_runtime::duration::Duration;
use pocket_runtime::runtime::cgroup::{
    decode_mountinfo_path, quota_paths, resolve_cgroup_v2_path,
    scaling_qualified_from_observation, scaling_qualified_in_chain,
};
use pocket_runtime::runtime::{
    shutdown_grace_ms, validate_policy, RuntimePolicy, MAX_CAPTURE_BYTES,
};

/// The longest grace that a SHUTDOWN can carry.
const MAX_SHUTDOWN_GRACE_MS: u32 = 600_000;

#[test]
fn capture_drains_but_bounds_retained_bytes() {
    let input = vec![7_u8; 1024];
    let mut capture = Capture::new(17);
    for chunk in input.chunks(100) {
        capture.accept(chunk);
    }
    let captured = capture.finish();
    assert_eq!(captured.bytes, vec![7_u8; 17]);
    assert_eq!(captured.total_bytes, 1024);
    assert!(captured.truncated);
}

#[test]
fn failure_diagnostics_are_bounded_and_escape_binary_streams() {
    let diagnostic = failure_diagnostics(&vec![NamedCapture {
        role: "console",
        capture: Some(CapturedStream {
            bytes: [vec![b'x'; 9_000], b"\n\0panic".to_vec()].concat(),
            truncated: true,
            total_bytes: 20_000,
        }),
    }]);
    assert!(diagnostic.contains("console(total=20000, capture-truncated)="));
    assert!(diagnostic.contains("\\n\\0panic"));
    assert!(diagnostic.len() < 9_000);
}

#[test]
fn runtime_policy_rejects_unbounded_capture_and_inverted_guard_timeouts() {
    let policy = RuntimePolicy {
        maximum_stdout_bytes: MAX_CAPTURE_BYTES + 1,
        ..RuntimePolicy::default()
    };
    assert!(validate_policy(policy, MAX_SHUTDOWN_GRACE_MS).is_err());

    let policy = RuntimePolicy {
        guard_exit_timeout: Duration::from_secs(1),
        ..RuntimePolicy::default()
    };
    assert!(validate_policy(policy, MAX_SHUTDOWN_GRACE_MS).is_err());

    assert!(validate_policy(RuntimePolicy::default(), MAX_SHUTDOWN_GRACE_MS).is_ok());
}

#[test]
fn runtime_policy_strictly_bounds_shutdown_timing() {
    let policy = RuntimePolicy {
        execution_timeout_grace: Duration::from_secs(0),
        ..RuntimePolicy::default()
    };
    assert!(validate_policy(policy, MAX_SHUTDOWN_GRACE_MS).is_err());

    let policy = RuntimePolicy {
        shutdown_namespace_grace: Duration::from_nanos(1_500_000),
        ..RuntimePolicy::default()
    };
    assert!(validate_policy(policy, MAX_SHUTDOWN_GRACE_MS).is_err());

    let policy = RuntimePolicy {
        shutdown_namespace_grace: Duration::from_secs(601),
        shutdown_ack_timeout: Duration::from_secs(700),
        ..RuntimePolicy::default()
    };
    assert!(validate_policy(policy, MAX_SHUTDOWN_GRACE_MS).is_err());

    let policy = RuntimePolicy {
        shutdown_namespace_grace: Duration::from_secs(5),
        shutdown_ack_timeout: Duration::from_secs(5),
        ..RuntimePolicy::default()
    };
    assert!(validate_policy(policy, MAX_SHUTDOWN_GRACE_MS).is_err());

    assert_eq!(
        shutdown_grace_ms(Duration::from_millis(12_345), MAX_SHUTDOWN_GRACE_MS)
            .expect("wire grace"),
        12_345
    );
}

fn quota(text: &str) -> Option<String> {
    Some(text.to_owned())
}

#[test]
fn the_quota_walk_ends_at_the_root_rather_than_failing_there() {
    let group = vec![
        "user.slice".to_owned(),
        "user-1000.slice".to_owned(),
        "session.scope".to_owned(),
    ];
    // The root's own quota is never asked for.
    assert_eq!(
        quota_paths("/mount", &group),
        vec![
            "/mount/user.slice/user-1000.slice/session.scope/cpu.max".to_owned(),
            "/mount/user.slice/user-1000.slice/cpu.max".to_owned(),
            "/mount/user.slice/cpu.max".to_owned(),
        ]
    );
    let open = vec![quota("max 100000\n"), quota("max 100000\n"), quota("max 100000\n")];
    assert!(scaling_qualified_in_chain(4, 12, &open));
    assert!(scaling_qualified_in_chain(4, 12, &Vec::new()));

    // Affinity narrower than the request still disqualifies.
    assert!(!scaling_qualified_in_chain(16, 12, &open));

    // A quota anywhere on the chain that cannot deliver the request
    // disqualifies, however deep it sits.
    let narrowed = vec![quota("max 100000\n"), quota("max 100000\n"), quota("200000 100000\n")];
    assert!(!scaling_qualified_in_chain(4, 12, &narrowed));
    assert!(scaling_qualified_in_chain(2, 12, &narrowed));

    // A missing quota below the root is a real observation failure.
    let missing = vec![quota("max 100000\n"), None, quota("200000 100000\n")];
    assert!(!scaling_qualified_in_chain(2, 12, &missing));
}

#[test]
fn host_capacity_is_reporting_and_never_a_cpu_admission_clamp() {
    assert!(!scaling_qualified_from_observation(4, 2, "max 100000"));
    assert!(!scaling_qualified_from_observation(4, 8, "200000 100000"));
    assert!(scaling_qualified_from_observation(4, 8, "400000 100000"));
    assert!(scaling_qualified_from_observation(4, 4, "max 100000"));
}

#[test]
fn malformed_quotas_disqualify() {
    assert!(!scaling_qualified_from_observation(1, 8, ""));
    assert!(!scaling_qualified_from_observation(1, 8, "max"));
    assert!(!scaling_qualified_from_observation(1, 8, "max 0"));
    assert!(!scaling_qualified_from_observation(1, 8, "max 100000 1"));
    assert!(!scaling_qualified_from_observation(1, 8, "100000 x"));
    assert!(!scaling_qualified_from_observation(1, 8, "-1 100000"));
    assert!(scaling_qualified_from_observation(1, 8, "+100000 100000"));
}

#[test]
fn nested_cgroup_v2_membership_resolves_beneath_the_matching_mount() {
    let cgroup = "0::/user.slice/user-1000.slice/session-2.scope\n";
    let mountinfo = "20 19 0:19 / /proc rw - proc proc rw\n\
                     21 19 0:20 / /sys/fs/cgroup rw - cgroup2 cgroup rw\n";
    let (mountpoint, relative) =
        resolve_cgroup_v2_path(cgroup, mountinfo).expect("resolve cgroup2 path");
    assert_eq!(mountpoint, "/sys/fs/cgroup");
    assert_eq!(relative.join("/"), "user.slice/user-1000.slice/session-2.scope");
}

#[test]
fn cgroup_v2_bind_mount_root_is_removed_from_membership() {
    let cgroup = "0::/user.slice/session-2.scope\n";
    let mountinfo = "21 19 0:20 / /sys/fs/cgroup-all rw - cgroup2 cgroup rw\n\
                     22 19 0:20 /user.slice /sys/fs/cgroup rw - cgroup2 cgroup rw\n";
    let (mountpoint, relative) =
        resolve_cgroup_v2_path(cgroup, mountinfo).expect("resolve most specific mount");
    assert_eq!(mountpoint, "/sys/fs/cgroup");
    assert_eq!(relative.join("/"), "session-2.scope");
}

#[test]
fn cgroup_v2_resolution_fails_closed_for_ambiguous_or_escaping_paths() {
    let ambiguous = "21 19 0:20 / /sys/fs/cgroup-a rw - cgroup2 cgroup rw\n\
                     22 19 0:20 / /sys/fs/cgroup-b rw - cgroup2 cgroup rw\n";
    assert!(resolve_cgroup_v2_path("0::/nested\n", ambiguous).is_none());
    assert!(resolve_cgroup_v2_path("0::/../nested\n", ambiguous).is_none());
    assert_eq!(
        decode_mountinfo_path("/sys/fs/cgroup\\040space").as_deref(),
        Some("/sys/fs/cgroup space")
    );
    assert!(decode_mountinfo_path("/bad\\escape").is_none());
}

#[test]
fn mount_table_escapes_are_bounded_bytes_of_text() {
    assert_eq!(decode_mountinfo_path("").as_deref(), Some(""));
    assert_eq!(decode_mountinfo_path("/plain").as_deref(), Some("/plain"));
    assert_eq!(decode_mountinfo_path("\\303\\251").as_deref(), Some("\u{e9}"));
    assert!(decode_mountinfo_path("\\377").is_none());
    assert!(decode_mountinfo_path("\\400").is_none());
    assert!(decode_mountinfo_path("/cut\\04").is_none());
}
