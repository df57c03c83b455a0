use pocket_runtime::digest::ArtifactDigest;
use pocket_runtime::error::RuntimeError;
use pocket_runtime::image::account::{
    parse_optional_id, resolve_user, validate_account_name, AccountDatabase, AccountGroup,
    AccountUser,
};
use pocket_runtime::image::environment::{merge_environment, DEFAULT_PATH};
use pocket_runtime::image::signal::{parse_image_signal, parse_signal, DEFAULT_STOP_SIGNAL};
use pocket_runtime::image::{
    authenticate_image_config, resolve_verified_process, DockerProcessConfig, ImageArgv,
    ImageProcessOverrides,
};

/// The bound on a `User` string.
const MAX_USER_BYTES: usize = 256;

fn config() -> DockerProcessConfig {
    DockerProcessConfig {
        entrypoint: vec!["/entry".to_owned()],
        cmd: vec!["default".to_owned()],
        env: vec![
            "A=old".to_owned(),
            "D=first".to_owned(),
            "D=last".to_owned(),
        ],
        working_dir: "/image".to_owned(),
        user: "app".to_owned(),
        stop_signal: Some("SIGTERM".to_owned()),
    }
}

fn user(name: &str, uid: u32, gid: u32) -> AccountUser {
    AccountUser {
        name: name.to_owned(),
        uid,
        gid,
    }
}

fn group(name: &str, gid: u32, members: &[&str]) -> AccountGroup {
    AccountGroup {
        name: name.to_owned(),
        gid,
        members: members.iter().map(|member| (*member).to_owned()).collect(),
    }
}

fn accounts() -> AccountDatabase {
    AccountDatabase {
        users: vec![
            user("app", 123, 456),
            user("other", 124, 457),
            user("root", 0, 0),
        ],
        groups: vec![
            group("app", 456, &[]),
            group("extra", 789, &["app"]),
            group("root", 0, &[]),
        ],
    }
}

fn reason(error: RuntimeError) -> String {
    match error {
        RuntimeError::InvalidConfiguration { reason, .. } => reason,
        RuntimeError::Protocol { reason } => reason,
        other => format!("{other:?}"),
    }
}

#[test]
fn docker_argv_modes_are_explicit_and_empty_results_fail() {
    let image = config();
    let database = accounts();
    let defaults =
        resolve_verified_process(&image, &database, &Ok(()), &Default::default(), MAX_USER_BYTES)
            .expect("image defaults");
    assert_eq!(defaults.argv, ["/entry", "default"]);

    let replaced = resolve_verified_process(
        &image,
        &database,
        &Ok(()),
        &ImageProcessOverrides {
            argv: ImageArgv::ReplaceCmd(vec!["cli".to_owned()]),
            ..Default::default()
        },
        MAX_USER_BYTES,
    )
    .expect("replace Cmd");
    assert_eq!(replaced.argv, ["/entry", "cli"]);

    let changed_entrypoint = resolve_verified_process(
        &image,
        &database,
        &Ok(()),
        &ImageProcessOverrides {
            entrypoint: Some(vec!["/new-entry".to_owned()]),
            ..Default::default()
        },
        MAX_USER_BYTES,
    )
    .expect("replace Entrypoint");
    assert_eq!(changed_entrypoint.argv, ["/new-entry"]);

    assert!(resolve_verified_process(
        &image,
        &database,
        &Ok(()),
        &ImageProcessOverrides {
            entrypoint: Some(Vec::new()),
            ..Default::default()
        },
        MAX_USER_BYTES,
    )
    .is_err());

    let entrypoint_with_cli_cmd = resolve_verified_process(
        &image,
        &database,
        &Ok(()),
        &ImageProcessOverrides {
            argv: ImageArgv::ReplaceCmd(vec!["cli".to_owned()]),
            entrypoint: Some(vec!["/new-entry".to_owned()]),
            ..Default::default()
        },
        MAX_USER_BYTES,
    )
    .expect("replace Entrypoint and Cmd");
    assert_eq!(entrypoint_with_cli_cmd.argv, ["/new-entry", "cli"]);

    let exact = resolve_verified_process(
        &image,
        &database,
        &Ok(()),
        &ImageProcessOverrides {
            argv: ImageArgv::Exact(vec!["/exact".to_owned(), "arg".to_owned()]),
            ..Default::default()
        },
        MAX_USER_BYTES,
    )
    .expect("exact argv");
    assert_eq!(exact.argv, ["/exact", "arg"]);

    let empty_image = DockerProcessConfig {
        entrypoint: Vec::new(),
        cmd: Vec::new(),
        ..image.clone()
    };
    assert!(
        resolve_verified_process(&empty_image, &database, &Ok(()), &Default::default(), MAX_USER_BYTES)
            .is_err()
    );
    let supplied = resolve_verified_process(
        &empty_image,
        &database,
        &Ok(()),
        &ImageProcessOverrides {
            argv: ImageArgv::Exact(vec!["/bin/true".to_owned()]),
            ..Default::default()
        },
        MAX_USER_BYTES,
    )
    .expect("exact argv makes zero-default OCI config runnable");
    assert_eq!(supplied.argv, ["/bin/true"]);
    assert!(resolve_verified_process(
        &image,
        &database,
        &Ok(()),
        &ImageProcessOverrides {
            argv: ImageArgv::Exact(vec!["/exact".to_owned()]),
            entrypoint: Some(vec!["/ignored".to_owned()]),
            ..Default::default()
        },
        MAX_USER_BYTES,
    )
    .is_err());
}

#[test]
fn argv_without_a_program_or_with_a_nul_is_refused() {
    for (argv, expected) in [
        (
            vec![String::new(), "a".to_owned()],
            "final argv[0] must not be empty",
        ),
        (
            vec!["a".to_owned(), "b\0".to_owned()],
            "final argv contains NUL",
        ),
    ] {
        let refused = resolve_verified_process(
            &config(),
            &accounts(),
            &Ok(()),
            &ImageProcessOverrides {
                argv: ImageArgv::Exact(argv),
                ..Default::default()
            },
            MAX_USER_BYTES,
        );
        assert_eq!(reason(refused.expect_err("broken argv")), expected);
    }
}

#[test]
fn environment_overrides_replace_the_last_matching_image_key_in_place() {
    let resolved = resolve_verified_process(
        &config(),
        &accounts(),
        &Ok(()),
        &ImageProcessOverrides {
            env: vec!["D=cli".to_owned(), "B=new".to_owned(), "D=final".to_owned()],
            hostname: "guest-one".to_owned(),
            ..Default::default()
        },
        MAX_USER_BYTES,
    )
    .expect("merge environment");
    assert_eq!(
        resolved.env,
        [
            format!("PATH={DEFAULT_PATH}"),
            "HOSTNAME=guest-one".to_owned(),
            "A=old".to_owned(),
            "D=first".to_owned(),
            "D=final".to_owned(),
            "B=new".to_owned(),
        ]
    );
}

#[test]
fn docker_environment_defaults_are_visible_and_replaceable_in_order() {
    let mut image = config();
    image.env.clear();
    let defaults = resolve_verified_process(
        &image,
        &accounts(),
        &Ok(()),
        &ImageProcessOverrides {
            hostname: "configured-host".to_owned(),
            ..Default::default()
        },
        MAX_USER_BYTES,
    )
    .expect("daemon environment defaults");
    assert_eq!(
        defaults.env,
        [
            format!("PATH={DEFAULT_PATH}"),
            "HOSTNAME=configured-host".to_owned(),
        ]
    );
    assert!(!defaults.env.iter().any(|value| value.starts_with("HOME=")));
    assert!(!defaults.env.iter().any(|value| value.starts_with("TERM=")));

    image.env = vec![
        "PATH=/image/bin".to_owned(),
        "HOSTNAME=image-host".to_owned(),
        "HOME=/image/home".to_owned(),
        "TERM=image-term".to_owned(),
    ];
    let image_values = resolve_verified_process(
        &image,
        &accounts(),
        &Ok(()),
        &ImageProcessOverrides {
            hostname: "configured-host".to_owned(),
            ..Default::default()
        },
        MAX_USER_BYTES,
    )
    .expect("image overrides daemon defaults");
    assert_eq!(
        image_values.env,
        [
            "PATH=/image/bin",
            "HOSTNAME=image-host",
            "HOME=/image/home",
            "TERM=image-term",
        ]
    );

    let cli_values = resolve_verified_process(
        &image,
        &accounts(),
        &Ok(()),
        &ImageProcessOverrides {
            env: vec!["PATH=/cli/bin".to_owned(), "HOSTNAME=cli-host".to_owned()],
            hostname: "configured-host".to_owned(),
            ..Default::default()
        },
        MAX_USER_BYTES,
    )
    .expect("CLI overrides image environment");
    assert_eq!(
        cli_values.env,
        [
            "PATH=/cli/bin",
            "HOSTNAME=cli-host",
            "HOME=/image/home",
            "TERM=image-term",
        ]
    );
}

#[test]
fn broken_environment_entries_are_refused() {
    for (entry, expected) in [
        ("A=\0", "environment entry contains NUL"),
        ("PATH", "environment entry must contain '='"),
        ("=value", "environment key must not be empty"),
    ] {
        let image = vec![entry.to_owned()];
        assert_eq!(
            reason(merge_environment(&image, &Vec::new(), "h").expect_err("image entry")),
            expected
        );
        assert_eq!(
            reason(merge_environment(&Vec::new(), &image, "h").expect_err("override")),
            expected
        );
    }
}

#[test]
fn all_named_and_numeric_user_group_forms_resolve_from_the_sealed_database() {
    let database = accounts();
    for (input, uid, gid, supplementary) in [
        ("app", 123, 456, vec![789]),
        ("123", 123, 456, vec![789]),
        ("app:extra", 123, 789, vec![]),
        ("123:extra", 123, 789, vec![]),
        ("app:789", 123, 789, vec![]),
        ("123:789", 123, 789, vec![]),
        ("999", 999, 0, vec![]),
    ] {
        let resolved = resolve_user(&database, input, MAX_USER_BYTES).expect("resolve User form");
        assert_eq!((resolved.uid, resolved.gid), (uid, gid), "{input}");
        assert_eq!(resolved.supplementary_gids, supplementary, "{input}");
    }
    assert!(resolve_user(&database, "missing", MAX_USER_BYTES).is_err());
    assert!(resolve_user(&database, "", MAX_USER_BYTES).is_err());
    assert!(resolve_user(&database, "app:", MAX_USER_BYTES).is_err());

    let mut duplicate = database;
    duplicate.users[1].uid = 123;
    assert!(resolve_user(&duplicate, "123", MAX_USER_BYTES).is_err());

    let mut unresolved_image = config();
    unresolved_image.user = "missing".to_owned();
    assert!(resolve_verified_process(
        &unresolved_image,
        &accounts(),
        &Ok(()),
        &Default::default(),
        MAX_USER_BYTES
    )
    .is_err());
    let overridden = resolve_verified_process(
        &unresolved_image,
        &accounts(),
        &Ok(()),
        &ImageProcessOverrides {
            user: Some("app".to_owned()),
            ..Default::default()
        },
        MAX_USER_BYTES,
    )
    .expect("valid CLI User overrides unresolved image User");
    assert_eq!((overridden.user.uid, overridden.user.gid), (123, 456));
}

#[test]
fn refused_users_say_why() {
    let database = accounts();
    for (input, expected) in [
        (
            "a\nb",
            "User is empty, oversized, or contains a forbidden byte",
        ),
        (
            "app:extra:root",
            "User must be user-or-uid with at most one nonempty group suffix",
        ),
        ("missing", "named user \"missing\" was not found"),
        ("app:missing", "named group \"missing\" was not found"),
        ("4294967296", "numeric user does not fit u32"),
        ("app:4294967296", "numeric group does not fit u32"),
        ("a,b", "user name has invalid bytes"),
        ("app:a b", "group name has invalid bytes"),
    ] {
        let error = resolve_user(&database, input, MAX_USER_BYTES).expect_err("refused user");
        assert_eq!(reason(error), expected, "{input}");
    }
    assert!(resolve_user(&database, "app", 2).is_err());
    let mut duplicate = accounts();
    duplicate.users[1].uid = 123;
    assert_eq!(
        reason(resolve_user(&duplicate, "123", MAX_USER_BYTES).expect_err("shared number")),
        "account database has multiple entries matching numeric user ID"
    );
    assert!(validate_account_name(&"a".repeat(257), "user").is_err());
    assert!(validate_account_name(&"a".repeat(256), "user").is_ok());
    assert!(matches!(parse_optional_id(&['4', '2'], "user"), Ok(Some(42))));
    assert!(matches!(parse_optional_id(&['x'], "user"), Ok(None)));
    assert_eq!(
        reason(parse_optional_id(&[], "user").expect_err("empty")),
        "user is empty"
    );
}

#[test]
fn supplementary_groups_are_sorted_distinct_and_bounded() {
    let mut database = accounts();
    database.groups = (0..65)
        .map(|index| group(&format!("g{index:02}"), 2000 - index, &["app"]))
        .collect();
    let error = resolve_user(&database, "app", MAX_USER_BYTES).expect_err("too many groups");
    assert_eq!(reason(error), "resolved supplementary group count exceeds 64");
    database.groups.truncate(3);
    database.groups[1].gid = 2000;
    database.groups[2].gid = 456;
    let resolved = resolve_user(&database, "app", MAX_USER_BYTES).expect("few groups");
    assert_eq!(resolved.supplementary_gids, [2000]);
    database.groups[2].gid = 7;
    let resolved = resolve_user(&database, "app", MAX_USER_BYTES).expect("few groups");
    assert_eq!(resolved.supplementary_gids, [7, 2000]);
}

#[test]
fn a_refused_account_database_resolves_nothing() {
    assert_eq!(
        reason(
            resolve_verified_process(
                &config(),
                &accounts(),
                &Err("users are out of order".to_owned()),
                &ImageProcessOverrides {
                    argv: ImageArgv::Exact(Vec::new()),
                    ..Default::default()
                },
                MAX_USER_BYTES
            )
            .expect_err("refused database")
        ),
        "users are out of order"
    );
}

#[test]
fn docker_signal_names_numeric_values_and_realtime_offsets_are_bounded() {
    for (input, expected) in [
        ("SIGTERM", 15),
        ("term", 15),
        ("9", 9),
        ("SIGRTMIN", 34),
        ("RTMIN+1", 35),
        ("SIGRTMAX-1", 63),
        ("RTMAX", 64),
    ] {
        assert_eq!(parse_signal(input).expect("parse signal"), expected);
        assert_eq!(parse_image_signal(input).expect("parse signal"), expected);
    }
    for invalid in ["", "0", "65", "SIGUNKNOWN", "RTMIN+31", "RTMAX-31"] {
        assert!(parse_signal(invalid).is_err(), "{invalid}");
    }

    let mut image = config();
    image.stop_signal = None;
    let defaults =
        resolve_verified_process(&image, &accounts(), &Ok(()), &Default::default(), MAX_USER_BYTES)
            .expect("defaults");
    assert_eq!(defaults.stop_signal, DEFAULT_STOP_SIGNAL);
    let overridden = resolve_verified_process(
        &image,
        &accounts(),
        &Ok(()),
        &ImageProcessOverrides {
            working_dir: Some("/override".to_owned()),
            stop_signal: Some("SIGKILL".to_owned()),
            ..Default::default()
        },
        MAX_USER_BYTES,
    )
    .expect("CLI process overrides");
    assert_eq!(overridden.working_dir, "/override");
    assert_eq!(overridden.stop_signal, 9);
}

#[test]
fn refused_signals_say_why() {
    for (input, expected) in [
        ("", "signal must be nonempty ASCII"),
        ("t\u{e9}rm", "signal must be nonempty ASCII"),
        ("65536", "numeric signal does not fit u16"),
        ("65", "signal must resolve to a value in 1..=64"),
        ("nope", "unsupported Linux signal name \"nope\""),
        ("RTMIN+", "realtime signal offset must be unsigned decimal"),
        ("RTMIN+65536", "realtime signal offset does not fit u16"),
        ("RTMIN+65535", "realtime signal overflows"),
        ("RTMAX-65", "realtime signal underflows"),
        (
            "RTMIN+31",
            "named realtime signal must resolve within RTMIN..=RTMAX (34..=64)",
        ),
    ] {
        assert_eq!(
            reason(parse_signal(input).expect_err("refused signal")),
            expected,
            "{input}"
        );
    }
}

#[test]
fn a_configuration_is_parsed_only_when_its_digest_is_the_generations() {
    let bytes = b"{\"config\":{}}";
    assert!(authenticate_image_config(bytes, ArtifactDigest::of_bytes(bytes)).is_ok());
    let other = ArtifactDigest::of_bytes(b"different authenticated config");
    assert!(matches!(
        authenticate_image_config(bytes, other),
        Err(RuntimeError::GenerationMismatch {
            field: "image_config.digest",
            ..
        })
    ));
}
