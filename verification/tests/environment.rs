use qemu_launcher::environment::Environment;
use qemu_launcher::error::ErrorKind;

#[test]
fn environment_uses_default_values_if_not_provided() {
    let env = Environment::new(vec![]).unwrap();

    assert_eq!("/usr/local/etc/qemu-launcher", env.get_config_directory());
    assert_eq!("/sys/fs/cgroup/cpuset", env.get_cpuset_mount_path());
    assert_eq!("qemu", env.get_cpuset_prefix());
}

#[test]
fn environment_uses_config_dir_if_provided() {
    let vars = vec![(
        "QEMU_LAUNCHER_CONFIG_DIR".to_owned(),
        "/my/config/dir".to_owned(),
    )];

    let env = Environment::new(vars).unwrap();

    assert_eq!("/my/config/dir", env.get_config_directory());
}

#[test]
fn environment_uses_cpuset_mount_path_if_provided() {
    let vars = vec![(
        "QEMU_LAUNCHER_CPUSET_MOUNT_PATH".to_owned(),
        "/cpuset".to_owned(),
    )];

    let env = Environment::new(vars).unwrap();

    assert_eq!("/cpuset", env.get_cpuset_mount_path());
}

#[test]
fn environment_uses_cpuset_prefix_if_provided() {
    let vars = vec![(
        "QEMU_LAUNCHER_CPUSET_PREFIX".to_owned(),
        "foobar".to_owned(),
    )];

    let env = Environment::new(vars).unwrap();

    assert_eq!("foobar", env.get_cpuset_prefix());
}

#[test]
fn environment_returns_error_if_prefix_is_invalid() {
    let vars = vec![(
        "QEMU_LAUNCHER_CPUSET_PREFIX".to_owned(),
        "foo/bar".to_owned(),
    )];

    let result = Environment::new(vars);

    match result {
        Ok(_) => panic!(
            "Environment::new() returned no error for invalid `QEMU_LAUNCHER_CPUSET_PREFIX` variable"
        ),
        Err(e) => {
            assert!(e.to_string().contains("QEMU_LAUNCHER_CPUSET_PREFIX"));
            assert_eq!(ErrorKind::InvalidInput, e.kind());
        }
    }
}

#[test]
fn last_setting_counts() {
    let vars = vec![
        ("QEMU_LAUNCHER_CPUSET_PREFIX".to_owned(), "foo/bar".to_owned()),
        ("PATH".to_owned(), "/bin".to_owned()),
        ("QEMU_LAUNCHER_CPUSET_PREFIX".to_owned(), "last".to_owned()),
    ];

    let env = Environment::new(vars).unwrap();

    assert_eq!("last", env.get_cpuset_prefix());
    assert_eq!("/usr/local/etc/qemu-launcher", env.get_config_directory());
}

#[test]
fn prefix_with_a_zero_is_refused() {
    let vars = vec![("QEMU_LAUNCHER_CPUSET_PREFIX".to_owned(), "a\0b".to_owned())];

    let error = Environment::new(vars).unwrap_err();

    assert_eq!(ErrorKind::InvalidInput, error.kind());
    assert_eq!(
        "`QEMU_LAUNCHER_CPUSET_PREFIX` environment variable has invalid characters",
        error.to_string()
    );
}
