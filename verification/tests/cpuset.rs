use qemu_launcher::cpu_list::parse_cpus_list;
use qemu_launcher::cpuset::{Action, CpuSet, Step};
use qemu_launcher::error::{Error, ErrorKind};
use qemu_launcher::exchange::Reply;
use std::collections::VecDeque;

struct File {
    lock: VecDeque<Result<(), Error>>,
    trim: VecDeque<Result<(), Error>>,
    read_string: VecDeque<Result<String, Error>>,
    write: VecDeque<(String, Option<Error>)>,
}

impl File {
    fn verify_expectations(&self) {
        assert_eq!(0, self.lock.len(), "more File::lock() calls expected");
        assert_eq!(0, self.trim.len(), "more File::trim() calls expected");
        assert_eq!(0, self.read_string.len(), "more File::read_string() calls expected");
        assert_eq!(0, self.write.len(), "more File::write() calls expected");
    }
}

struct Host {
    fs_write: VecDeque<((String, String), Result<(), Error>)>,
    fs_read_to_string: VecDeque<(String, Result<String, Error>)>,
    fs_create_dir_all: VecDeque<(String, Result<(), Error>)>,
    source_mounted_at: VecDeque<(String, Result<bool, Error>)>,
    fs_mount: VecDeque<(String, Result<(), Error>)>,
    fs_read_line: VecDeque<(String, Result<String, Error>)>,
    file_open: VecDeque<(String, Result<File, Error>)>,
    fs_remove_dir: VecDeque<(String, Result<(), Error>)>,
    file: Option<File>,
}

fn done(result: Result<(), Error>) -> Reply {
    match result {
        Ok(()) => Reply::Done,
        Err(error) => Reply::Failed(error),
    }
}

fn text(result: Result<String, Error>) -> Reply {
    match result {
        Ok(text) => Reply::Text(text),
        Err(error) => Reply::Failed(error),
    }
}

fn expected<T>(calls: &mut VecDeque<(String, T)>, call: &str, path: &str) -> T {
    match calls.pop_front() {
        Some((argument, result)) => {
            assert_eq!(argument, path, "unexpected argument of {}()", call);
            result
        }
        None => panic!("Unexpected call to {}({})", call, path),
    }
}

impl Host {
    fn new() -> Self {
        Host {
            fs_write: VecDeque::new(),
            fs_read_to_string: VecDeque::new(),
            fs_create_dir_all: VecDeque::new(),
            source_mounted_at: VecDeque::new(),
            fs_mount: VecDeque::new(),
            fs_read_line: VecDeque::new(),
            file_open: VecDeque::new(),
            fs_remove_dir: VecDeque::new(),
            file: None,
        }
    }

    fn fs_write(&mut self, path: &str, data: &str, result: Result<(), Error>) {
        self.fs_write.push_back(((path.to_string(), data.to_string()), result));
    }

    fn fs_read_to_string(&mut self, path: &str, result: Result<String, Error>) {
        self.fs_read_to_string.push_back((path.to_string(), result));
    }

    fn fs_create_dir_all(&mut self, path: &str, result: Result<(), Error>) {
        self.fs_create_dir_all.push_back((path.to_string(), result));
    }

    fn source_mounted_at(&mut self, path: &str, result: Result<bool, Error>) {
        self.source_mounted_at.push_back((path.to_string(), result));
    }

    fn fs_mount(&mut self, path: &str, result: Result<(), Error>) {
        self.fs_mount.push_back((path.to_string(), result));
    }

    fn fs_read_line(&mut self, path: &str, result: Result<String, Error>) {
        self.fs_read_line.push_back((path.to_string(), result));
    }

    fn file_open(&mut self, path: &str, result: Result<File, Error>) {
        self.file_open.push_back((path.to_string(), result));
    }

    fn fs_remove_dir(&mut self, path: &str, result: Result<(), Error>) {
        self.fs_remove_dir.push_back((path.to_string(), result));
    }

    fn open_file(&mut self) -> &mut File {
        self.file.as_mut().expect("no file is open")
    }

    fn perform(&mut self, action: Action) -> Reply {
        match action {
            Action::CreateDirAll(path) => {
                done(expected(&mut self.fs_create_dir_all, "fs_create_dir_all", &path))
            }
            Action::Write(path, data) => match self.fs_write.pop_front() {
                Some((arguments, result)) => {
                    assert_eq!(arguments, (path, data), "unexpected arguments of fs_write()");
                    done(result)
                }
                None => panic!("Unexpected call to fs_write({}, {})", path, data),
            },
            Action::ReadToString(path) => {
                text(expected(&mut self.fs_read_to_string, "fs_read_to_string", &path))
            }
            Action::ReadLine(path) => text(expected(&mut self.fs_read_line, "fs_read_line", &path)),
            Action::RemoveDir(path) => {
                done(expected(&mut self.fs_remove_dir, "fs_remove_dir", &path))
            }
            Action::SourceMountedAt(source, path) => {
                assert_eq!("cgroup", source);
                match expected(&mut self.source_mounted_at, "source_mounted_at", &path) {
                    Ok(mounted) => Reply::Flag(mounted),
                    Err(error) => Reply::Failed(error),
                }
            }
            Action::Mount(path) => done(expected(&mut self.fs_mount, "fs_mount", &path)),
            Action::Open(path) => {
                if let Some(file) = &self.file {
                    file.verify_expectations();
                }
                match expected(&mut self.file_open, "File::open", &path) {
                    Ok(file) => {
                        self.file = Some(file);
                        Reply::Done
                    }
                    Err(error) => Reply::Failed(error),
                }
            }
            Action::Lock => match self.open_file().lock.pop_front() {
                Some(result) => done(result),
                None => panic!("Unexpected call to File::lock()"),
            },
            Action::ReadString => match self.open_file().read_string.pop_front() {
                Some(result) => text(result),
                None => panic!("Unexpected call to File::read_string()"),
            },
            Action::Trim => match self.open_file().trim.pop_front() {
                Some(result) => done(result),
                None => panic!("Unexpected call to File::trim()"),
            },
            Action::WriteString(data) => match self.open_file().write.pop_front() {
                Some((argument, result)) => {
                    assert_eq!(argument, data, "unexpected argument of File::write()");
                    match result {
                        Some(error) => Reply::Failed(error),
                        None => Reply::Done,
                    }
                }
                None => panic!("Unexpected call to File::write({})", data),
            },
        }
    }

    fn verify_expectations(&self) {
        assert_eq!(0, self.fs_write.len(), "more fs_write() calls expected");
        assert_eq!(0, self.fs_read_to_string.len(), "more fs_read_to_string() calls expected");
        assert_eq!(0, self.fs_create_dir_all.len(), "more fs_create_dir_all() calls expected");
        assert_eq!(0, self.fs_mount.len(), "more fs_mount() calls expected");
        assert_eq!(0, self.fs_read_line.len(), "more fs_read_line() calls expected");
        assert_eq!(0, self.fs_remove_dir.len(), "more fs_remove_dir() calls expected");
        assert_eq!(0, self.source_mounted_at.len(), "more source_mounted_at() calls expected");
        assert_eq!(0, self.file_open.len(), "more File::open() calls expected");
        if let Some(file) = &self.file {
            file.verify_expectations();
        }
    }
}

fn run(cpuset: &mut CpuSet, host: &mut Host) -> Result<(), Error> {
    loop {
        match cpuset.next_step() {
            Step::Finished(result) => return result,
            Step::Perform(action) => {
                let reply = host.perform(action);
                assert!(cpuset.accepts(&reply), "Malformed cpu core specification");
                cpuset.reply(reply);
            }
        }
    }
}

fn pin_task(cpuset: &mut CpuSet, host: &mut Host, host_id: usize, guest_id: usize) -> Result<(), Error> {
    cpuset.pin_task(host_id, guest_id);
    run(cpuset, host)
}

fn release_threads(cpuset: &mut CpuSet, host: &mut Host) -> Result<(), Error> {
    cpuset.release_threads();
    run(cpuset, host)
}

fn error<T>(message: &str) -> Result<T, Error> {
    Err(Error::new(ErrorKind::Other, message.to_string()))
}

fn assert_error<T>(kind: ErrorKind, message: &str, result: Result<T, Error>) {
    match result {
        Ok(_) => panic!("Expected an error, got successful result."),
        Err(e) => {
            assert_eq!(kind, e.kind());
            assert_eq!(message, e.to_string());
        }
    }
}

#[test]
fn parse_cpus_list_handles_single_core_specification() {
    assert_eq!(vec![1], parse_cpus_list("1"));
}

#[test]
fn parse_cpus_list_handles_range_core_specification() {
    assert_eq!(vec![2, 3, 4, 5], parse_cpus_list("2-5"));
}

#[test]
fn parse_cpus_list_handles_multiple_single_core_specifications() {
    assert_eq!(vec![0, 2], parse_cpus_list("0,2"));
}

#[test]
fn parse_cpus_list_handles_multiple_range_core_specifications() {
    assert_eq!(
        vec![0, 1, 2, 3, 6, 7, 8, 9],
        parse_cpus_list("0-3,6-9")
    );
}

#[test]
fn parse_cpus_list_handles_mixed_specification() {
    assert_eq!(
        vec![0, 1, 2, 3, 5, 7, 8, 9, 11],
        parse_cpus_list("0-3,5,7-9,11")
    );
}

#[test]
#[should_panic]
fn parse_cpus_list_panics_if_core_id_is_malformed() {
    parse_cpus_list("h");
}

#[test]
#[should_panic]
fn parse_cpus_list_panics_if_core_id_in_range_is_malformed() {
    parse_cpus_list("0-x");
}

#[test]
#[should_panic]
fn parse_cpus_list_panics_if_core_id_missing_from_range() {
    parse_cpus_list("-1");
}

#[test]
#[should_panic]
fn parse_cpus_list_panics_if_range_is_malformed() {
    parse_cpus_list("0-1-2");
}

#[test]
fn parse_cpus_list_handles_empty_specification() {
    assert_eq!(Vec::<usize>::new(), parse_cpus_list(""));
}

#[test]
fn cpuset_instantiation_fails_if_mount_path_is_not_absolute() {
    assert_error(
        ErrorKind::InvalidInput,
        "A mount point path must be absolute, got: `not/an/absolute/path`.",
        CpuSet::new("not/an/absolute/path", "prefix")
    );
}

#[test]
fn cpuset_instantiation_fails_if_prefix_contains_path_separators() {
    assert_error(
        ErrorKind::InvalidInput,
        "A mount point prefix can not contain path separators, got: `prefix/with/separators`.",
        CpuSet::new("/absolute/path", "prefix/with/separators")
    );
}

#[test]
fn cpuset_pin_task_returns_error_if_unable_to_create_destination_mounting_directory() {
    let mut cpuset = CpuSet::new("/test1/cgroups/cpuset", "prefix1").unwrap();
    let mut host = Host::new();

    host.fs_create_dir_all("/test1/cgroups/cpuset", error("fs_create_dir_all(1)"));

    assert_error(
        ErrorKind::Other,
        "Failed to isolate the host cpu thread `1` - fs_create_dir_all(1)",
        pin_task(&mut cpuset, &mut host, 1, 32001)
    );

    host.verify_expectations();
}

#[test]
fn cpuset_pin_task_returns_error_if_unable_to_check_cpuset_cgroug_mount_status() {
    let mut cpuset = CpuSet::new("/test2/cgroups/cpuset", "prefix2").unwrap();
    let mut host = Host::new();

    host.fs_create_dir_all("/test2/cgroups/cpuset", Ok(()));
    host.source_mounted_at("/test2/cgroups/cpuset", error("source_mounted_at(2)"));

    assert_error(
        ErrorKind::Other,
        "Failed to isolate the host cpu thread `2` - An error \
            occurred while reading mounts: source_mounted_at(2)",
        pin_task(&mut cpuset, &mut host, 2, 32002)
    );

    host.verify_expectations();
}

#[test]
fn cpuset_pin_task_returns_error_if_cpuset_cgroup_mount_fails() {
    let mut cpuset = CpuSet::new("/test3/cgroups/cpuset", "prefix3").unwrap();
    let mut host = Host::new();

    host.fs_create_dir_all("/test3/cgroups/cpuset", Ok(()));
    host.source_mounted_at("/test3/cgroups/cpuset", Ok(false));
    host.fs_mount("/test3/cgroups/cpuset", Err(Error::other(nix::Error::InvalidPath.to_string())));

    assert_error(
        ErrorKind::Other,
        "Failed to isolate the host cpu thread `3` - Failed to \
            mount cpuset to `/test3/cgroups/cpuset`: Invalid path",
        pin_task(&mut cpuset, &mut host, 3, 32003)
    );

    host.verify_expectations();
}

#[test]
fn cpuset_pin_task_returns_error_if_unable_to_create_cpuset_prefix_directory() {
    let mut cpuset = CpuSet::new("/test4/cgroups/cpuset", "prefix4").unwrap();
    let mut host = Host::new();

    host.fs_create_dir_all("/test4/cgroups/cpuset", Ok(()));
    host.fs_create_dir_all("/test4/cgroups/cpuset/prefix4", error("fs_create_dir_all(4)"));
    host.source_mounted_at("/test4/cgroups/cpuset", Ok(false));
    host.fs_mount("/test4/cgroups/cpuset", Ok(()));

    assert_error(
        ErrorKind::Other,
        "Failed to isolate the host cpu thread `4` - fs_create_dir_all(4)",
        pin_task(&mut cpuset, &mut host, 4, 32004)
    );

    host.verify_expectations();
}

#[test]
fn cpuset_pin_task_returns_error_if_unable_to_make_cpuset_cpu_exclusive() {
    let mut cpuset = CpuSet::new("/test5/cgroups/cpuset", "prefix5").unwrap();
    let mut host = Host::new();

    host.fs_create_dir_all("/test5/cgroups/cpuset", Ok(()));
    host.fs_create_dir_all("/test5/cgroups/cpuset/prefix5", Ok(()));
    host.source_mounted_at("/test5/cgroups/cpuset", Ok(true));
    host.fs_write("/test5/cgroups/cpuset/prefix5/cpuset.cpu_exclusive", "1", error("fs_write(5)"));

    assert_error(
        ErrorKind::Other,
        "Failed to isolate the host cpu thread `5` - fs_write(5)",
        pin_task(&mut cpuset, &mut host, 5, 32005)
    );

    host.verify_expectations();
}

#[test]
fn cpuset_pin_task_returns_error_if_unable_to_read_prefix_cpuset_mems() {
    let mut cpuset = CpuSet::new("/test6/cgroups/cpuset", "prefix6").unwrap();
    let mut host = Host::new();

    host.fs_create_dir_all("/test6/cgroups/cpuset", Ok(()));
    host.fs_create_dir_all("/test6/cgroups/cpuset/prefix6", Ok(()));
    host.source_mounted_at("/test6/cgroups/cpuset", Ok(true));
    host.fs_write("/test6/cgroups/cpuset/prefix6/cpuset.cpu_exclusive", "1", Ok(()));
    host.fs_read_to_string("/test6/cgroups/cpuset/prefix6/cpuset.mems", error("fs_read_to_string(6)"));

    assert_error(
        ErrorKind::Other,
        "Failed to isolate the host cpu thread `6` - fs_read_to_string(6)",
        pin_task(&mut cpuset, &mut host, 6, 32006)
    );

    host.verify_expectations();
}

#[test]
fn cpuset_pin_task_returns_error_if_unable_to_read_cpuset_mems() {
    let mut cpuset = CpuSet::new("/test7/cgroups/cpuset", "prefix7").unwrap();
    let mut host = Host::new();

    host.fs_create_dir_all("/test7/cgroups/cpuset", Ok(()));
    host.fs_create_dir_all("/test7/cgroups/cpuset/prefix7", Ok(()));
    host.source_mounted_at("/test7/cgroups/cpuset", Ok(true));
    host.fs_write("/test7/cgroups/cpuset/prefix7/cpuset.cpu_exclusive", "1", Ok(()));
    host.fs_read_to_string("/test7/cgroups/cpuset/prefix7/cpuset.mems", Ok(String::new()));
    host.fs_read_to_string("/test7/cgroups/cpuset/cpuset.mems", error("fs_read_to_string(7)"));

    assert_error(
        ErrorKind::Other,
        "Failed to isolate the host cpu thread `7` - fs_read_to_string(7)",
        pin_task(&mut cpuset, &mut host, 7, 32007)
    );

    host.verify_expectations();
}

#[test]
fn cpuset_pin_task_returns_error_if_unable_to_write_prefix_cpuset_mems() {
    let mut cpuset = CpuSet::new("/test8/cgroups/cpuset", "prefix8").unwrap();
    let mut host = Host::new();

    host.fs_create_dir_all("/test8/cgroups/cpuset", Ok(()));
    host.fs_create_dir_all("/test8/cgroups/cpuset/prefix8", Ok(()));
    host.source_mounted_at("/test8/cgroups/cpuset", Ok(true));
    host.fs_write("/test8/cgroups/cpuset/prefix8/cpuset.cpu_exclusive", "1", Ok(()));
    host.fs_write("/test8/cgroups/cpuset/prefix8/cpuset.mems", "8", error("fs_write(8)"));
    host.fs_read_to_string("/test8/cgroups/cpuset/prefix8/cpuset.mems", Ok(String::new()));
    host.fs_read_to_string("/test8/cgroups/cpuset/cpuset.mems", Ok("8".to_string()));

    assert_error(
        ErrorKind::Other,
        "Failed to isolate the host cpu thread `8` - fs_write(8)",
        pin_task(&mut cpuset, &mut host, 8, 32008)
    );

    host.verify_expectations();
}

#[test]
fn cpuset_pin_task_returns_error_if_unable_to_read_prefix_cpuset_cpus() {
    let mut cpuset = CpuSet::new("/test9/cgroups/cpuset", "prefix9").unwrap();
    let mut host = Host::new();

    host.fs_create_dir_all("/test9/cgroups/cpuset", Ok(()));
    host.fs_create_dir_all("/test9/cgroups/cpuset/prefix9", Ok(()));
    host.source_mounted_at("/test9/cgroups/cpuset", Ok(true));
    host.fs_write("/test9/cgroups/cpuset/prefix9/cpuset.cpu_exclusive", "1", Ok(()));
    host.fs_write("/test9/cgroups/cpuset/prefix9/cpuset.mems", "9", Ok(()));
    host.fs_read_to_string("/test9/cgroups/cpuset/prefix9/cpuset.mems", Ok(String::new()));
    host.fs_read_to_string("/test9/cgroups/cpuset/cpuset.mems", Ok("9".to_string()));
    host.fs_read_to_string("/test9/cgroups/cpuset/prefix9/cpuset.cpus", error("fs_read_to_string(9)"));

    assert_error(
        ErrorKind::Other,
        "Failed to isolate the host cpu thread `9` - fs_read_to_string(9)",
        pin_task(&mut cpuset, &mut host, 9, 32009)
    );

    host.verify_expectations();
}

#[test]
fn cpuset_pin_task_returns_error_if_unable_to_read_cpuset_cpus() {
    let mut cpuset = CpuSet::new("/test10/cgroups/cpuset", "prefix10").unwrap();
    let mut host = Host::new();

    host.fs_create_dir_all("/test10/cgroups/cpuset", Ok(()));
    host.fs_create_dir_all("/test10/cgroups/cpuset/prefix10", Ok(()));
    host.source_mounted_at("/test10/cgroups/cpuset", Ok(true));
    host.fs_write("/test10/cgroups/cpuset/prefix10/cpuset.cpu_exclusive", "1", Ok(()));
    host.fs_read_to_string("/test10/cgroups/cpuset/prefix10/cpuset.mems", Ok("10".to_string()));
    host.fs_read_to_string("/test10/cgroups/cpuset/prefix10/cpuset.cpus", Ok(String::new()));
    host.fs_read_to_string("/test10/cgroups/cpuset/cpuset.cpus", error("fs_read_to_string(10)"));

    assert_error(
        ErrorKind::Other,
        "Failed to isolate the host cpu thread `10` - fs_read_to_string(10)",
        pin_task(&mut cpuset, &mut host, 10, 32010)
    );

    host.verify_expectations();
}

#[test]
fn cpuset_pin_task_returns_error_if_unable_to_write_prefix_cpuset_cpus() {
    let mut cpuset = CpuSet::new("/test11/cgroups/cpuset", "prefix11").unwrap();
    let mut host = Host::new();

    host.fs_create_dir_all("/test11/cgroups/cpuset", Ok(()));
    host.fs_create_dir_all("/test11/cgroups/cpuset/prefix11", Ok(()));
    host.source_mounted_at("/test11/cgroups/cpuset", Ok(true));
    host.fs_write("/test11/cgroups/cpuset/prefix11/cpuset.cpu_exclusive", "1", Ok(()));
    host.fs_write("/test11/cgroups/cpuset/prefix11/cpuset.cpus", "11", error("fs_write(11)"));
    host.fs_read_to_string("/test11/cgroups/cpuset/prefix11/cpuset.mems", Ok("11".to_string()));
    host.fs_read_to_string("/test11/cgroups/cpuset/prefix11/cpuset.cpus", Ok(String::new()));
    host.fs_read_to_string("/test11/cgroups/cpuset/cpuset.cpus", Ok("11".to_string()));

    assert_error(
        ErrorKind::Other,
        "Failed to isolate the host cpu thread `11` - fs_write(11)",
        pin_task(&mut cpuset, &mut host, 11, 32011)
    );

    host.verify_expectations();
}

#[test]
fn cpuset_pin_task_returns_error_if_unable_to_create_cpu_pool_directory() {
    let mut cpuset = CpuSet::new("/test12/cgroups/cpuset", "prefix12").unwrap();
    let mut host = Host::new();

    host.fs_create_dir_all("/test12/cgroups/cpuset", Ok(()));
    host.fs_create_dir_all("/test12/cgroups/cpuset/prefix12", Ok(()));
    host.fs_create_dir_all("/test12/cgroups/cpuset/prefix12/pool", error("fs_create_dir_all(12)"));
    host.source_mounted_at("/test12/cgroups/cpuset", Ok(true));
    host.fs_write("/test12/cgroups/cpuset/prefix12/cpuset.cpu_exclusive", "1", Ok(()));
    host.fs_write("/test12/cgroups/cpuset/prefix12/cpuset.cpus", "0-12", Ok(()));
    host.fs_read_to_string("/test12/cgroups/cpuset/prefix12/cpuset.mems", Ok("12".to_string()));
    host.fs_read_to_string("/test12/cgroups/cpuset/prefix12/cpuset.cpus", Ok(String::new()));
    host.fs_read_to_string("/test12/cgroups/cpuset/cpuset.cpus", Ok("0-12".to_string()));

    assert_error(
        ErrorKind::Other,
        "Failed to isolate the host cpu thread `12` - fs_create_dir_all(12)",
        pin_task(&mut cpuset, &mut host, 12, 32012)
    );

    host.verify_expectations();
}

#[test]
fn cpuset_pin_task_returns_error_if_unable_to_make_cpuset_pool_cpu_exclusive() {
    let mut cpuset = CpuSet::new("/test13/cgroups/cpuset", "prefix13").unwrap();
    let mut host = Host::new();

    host.fs_create_dir_all("/test13/cgroups/cpuset", Ok(()));
    host.fs_create_dir_all("/test13/cgroups/cpuset/prefix13", Ok(()));
    host.fs_create_dir_all("/test13/cgroups/cpuset/prefix13/pool", Ok(()));
    host.source_mounted_at("/test13/cgroups/cpuset", Ok(true));
    host.fs_write("/test13/cgroups/cpuset/prefix13/cpuset.cpu_exclusive", "1", Ok(()));
    host.fs_write("/test13/cgroups/cpuset/prefix13/pool/cpuset.cpu_exclusive", "1", error("fs_write(13)"));
    host.fs_read_to_string("/test13/cgroups/cpuset/prefix13/cpuset.mems", Ok("13".to_string()));
    host.fs_read_to_string("/test13/cgroups/cpuset/prefix13/cpuset.cpus", Ok("0-13".to_string()));

    assert_error(
        ErrorKind::Other,
        "Failed to isolate the host cpu thread `13` - fs_write(13)",
        pin_task(&mut cpuset, &mut host, 13, 32013)
    );

    host.verify_expectations();
}

#[test]
fn cpuset_pin_task_returns_error_if_unable_to_read_cpuset_pool_mems() {
    let mut cpuset = CpuSet::new("/test14/cgroups/cpuset", "prefix14").unwrap();
    let mut host = Host::new();

    host.fs_create_dir_all("/test14/cgroups/cpuset", Ok(()));
    host.fs_create_dir_all("/test14/cgroups/cpuset/prefix14", Ok(()));
    host.fs_create_dir_all("/test14/cgroups/cpuset/prefix14/pool", Ok(()));
    host.source_mounted_at("/test14/cgroups/cpuset", Ok(true));
    host.fs_write("/test14/cgroups/cpuset/prefix14/cpuset.cpu_exclusive", "1", Ok(()));
    host.fs_write("/test14/cgroups/cpuset/prefix14/pool/cpuset.cpu_exclusive", "1", Ok(()));
    host.fs_read_to_string("/test14/cgroups/cpuset/prefix14/cpuset.mems", Ok("14".to_string()));
    host.fs_read_to_string("/test14/cgroups/cpuset/prefix14/cpuset.cpus", Ok("0-14".to_string()));
    host.fs_read_to_string("/test14/cgroups/cpuset/prefix14/pool/cpuset.mems", error("fs_read_to_string(14)"));

    assert_error(
        ErrorKind::Other,
        "Failed to isolate the host cpu thread `14` - fs_read_to_string(14)",
        pin_task(&mut cpuset, &mut host, 14, 32014)
    );

    host.verify_expectations();
}

#[test]
fn cpuset_pin_task_returns_error_if_unable_to_write_cpuset_pool_mems() {
    let mut cpuset = CpuSet::new("/test15/cgroups/cpuset", "prefix15").unwrap();
    let mut host = Host::new();

    host.fs_create_dir_all("/test15/cgroups/cpuset", Ok(()));
    host.fs_create_dir_all("/test15/cgroups/cpuset/prefix15", Ok(()));
    host.fs_create_dir_all("/test15/cgroups/cpuset/prefix15/pool", Ok(()));
    host.source_mounted_at("/test15/cgroups/cpuset", Ok(true));
    host.fs_write("/test15/cgroups/cpuset/prefix15/cpuset.cpu_exclusive", "1", Ok(()));
    host.fs_write("/test15/cgroups/cpuset/prefix15/pool/cpuset.cpu_exclusive", "1", Ok(()));
    host.fs_write("/test15/cgroups/cpuset/prefix15/pool/cpuset.mems", "15", error("fs_write(15)"));
    host.fs_read_to_string("/test15/cgroups/cpuset/prefix15/cpuset.mems", Ok("15".to_string()));
    host.fs_read_to_string("/test15/cgroups/cpuset/prefix15/cpuset.cpus", Ok("0-15".to_string()));
    host.fs_read_to_string("/test15/cgroups/cpuset/prefix15/pool/cpuset.mems", Ok(String::new()));

    assert_error(
        ErrorKind::Other,
        "Failed to isolate the host cpu thread `15` - fs_write(15)",
        pin_task(&mut cpuset, &mut host, 15, 32015)
    );

    host.verify_expectations();
}

#[test]
fn cpuset_pin_task_returns_error_if_unable_to_read_cpuset_pool_cpus() {
    let mut cpuset = CpuSet::new("/test16/cgroups/cpuset", "prefix16").unwrap();
    let mut host = Host::new();

    host.fs_create_dir_all("/test16/cgroups/cpuset", Ok(()));
    host.fs_create_dir_all("/test16/cgroups/cpuset/prefix16", Ok(()));
    host.fs_create_dir_all("/test16/cgroups/cpuset/prefix16/pool", Ok(()));
    host.source_mounted_at("/test16/cgroups/cpuset", Ok(true));
    host.fs_write("/test16/cgroups/cpuset/prefix16/cpuset.cpu_exclusive", "1", Ok(()));
    host.fs_write("/test16/cgroups/cpuset/prefix16/pool/cpuset.cpu_exclusive", "1", Ok(()));
    host.fs_write("/test16/cgroups/cpuset/prefix16/pool/cpuset.mems", "16", Ok(()));
    host.fs_read_to_string("/test16/cgroups/cpuset/prefix16/cpuset.mems", Ok("16".to_string()));
    host.fs_read_to_string("/test16/cgroups/cpuset/prefix16/cpuset.cpus", Ok("0-16".to_string()));
    host.fs_read_to_string("/test16/cgroups/cpuset/prefix16/pool/cpuset.mems", Ok(String::new()));
    host.fs_read_to_string("/test16/cgroups/cpuset/prefix16/pool/cpuset.cpus", error("fs_read_to_string(16)"));

    assert_error(
        ErrorKind::Other,
        "Failed to isolate the host cpu thread `16` - fs_read_to_string(16)",
        pin_task(&mut cpuset, &mut host, 16, 32016)
    );

    host.verify_expectations();
}

#[test]
fn cpuset_pin_task_returns_error_if_unable_to_write_cpuset_pool_cpus() {
    let mut cpuset = CpuSet::new("/test17/cgroups/cpuset", "prefix17").unwrap();
    let mut host = Host::new();

    host.fs_create_dir_all("/test17/cgroups/cpuset", Ok(()));
    host.fs_create_dir_all("/test17/cgroups/cpuset/prefix17", Ok(()));
    host.fs_create_dir_all("/test17/cgroups/cpuset/prefix17/pool", Ok(()));
    host.source_mounted_at("/test17/cgroups/cpuset", Ok(true));
    host.fs_write("/test17/cgroups/cpuset/prefix17/cpuset.cpu_exclusive", "1", Ok(()));
    host.fs_write("/test17/cgroups/cpuset/prefix17/pool/cpuset.cpu_exclusive", "1", Ok(()));
    host.fs_write("/test17/cgroups/cpuset/prefix17/pool/cpuset.cpus", "0-17", error("fs_write(17)"));
    host.fs_read_to_string("/test17/cgroups/cpuset/prefix17/cpuset.mems", Ok("17".to_string()));
    host.fs_read_to_string("/test17/cgroups/cpuset/prefix17/cpuset.cpus", Ok("0-17".to_string()));
    host.fs_read_to_string("/test17/cgroups/cpuset/prefix17/pool/cpuset.mems", Ok("17".to_string()));
    host.fs_read_to_string("/test17/cgroups/cpuset/prefix17/pool/cpuset.cpus", Ok(String::new()));

    assert_error(
        ErrorKind::Other,
        "Failed to isolate the host cpu thread `17` - fs_write(17)",
        pin_task(&mut cpuset, &mut host, 17, 32017)
    );

    host.verify_expectations();
}

#[test]
fn cpuset_pin_task_returns_error_if_unable_to_read_cpuset_tasks() {
    let mut cpuset = CpuSet::new("/test18/cgroups/cpuset", "prefix18").unwrap();
    let mut host = Host::new();

    host.fs_create_dir_all("/test18/cgroups/cpuset", Ok(()));
    host.fs_create_dir_all("/test18/cgroups/cpuset/prefix18", Ok(()));
    host.fs_create_dir_all("/test18/cgroups/cpuset/prefix18/pool", Ok(()));
    host.source_mounted_at("/test18/cgroups/cpuset", Ok(true));
    host.fs_write("/test18/cgroups/cpuset/prefix18/cpuset.cpu_exclusive", "1", Ok(()));
    host.fs_write("/test18/cgroups/cpuset/prefix18/pool/cpuset.cpu_exclusive", "1", Ok(()));
    host.fs_write("/test18/cgroups/cpuset/prefix18/pool/cpuset.cpus", "0-18", Ok(()));
    host.fs_read_to_string("/test18/cgroups/cpuset/prefix18/cpuset.mems", Ok("18".to_string()));
    host.fs_read_to_string("/test18/cgroups/cpuset/prefix18/cpuset.cpus", Ok("0-18".to_string()));
    host.fs_read_to_string("/test18/cgroups/cpuset/prefix18/pool/cpuset.mems", Ok("18".to_string()));
    host.fs_read_to_string("/test18/cgroups/cpuset/prefix18/pool/cpuset.cpus", Ok(String::new()));
    host.fs_read_to_string("/test18/cgroups/cpuset/prefix18/pool/cpuset.cpus", Ok("0-18".to_string()));
    host.fs_read_to_string("/test18/cgroups/cpuset/tasks", error("fs_read_to_string(18)"));

    assert_error(
        ErrorKind::Other,
        "Failed to isolate the host cpu thread `18` - fs_read_to_string(18)",
        pin_task(&mut cpuset, &mut host, 18, 32018)
    );

    host.verify_expectations();
}

#[test]
fn cpuset_pin_task_returns_error_if_unable_to_read_thread_tasks() {
    let mut cpuset = CpuSet::new("/test19/cgroups/cpuset", "prefix19").unwrap();
    let mut host = Host::new();

    host.fs_create_dir_all("/test19/cgroups/cpuset", Ok(()));
    host.fs_create_dir_all("/test19/cgroups/cpuset/prefix19", Ok(()));
    host.fs_create_dir_all("/test19/cgroups/cpuset/prefix19/pool", Ok(()));
    host.source_mounted_at("/test19/cgroups/cpuset", Ok(true));
    host.fs_write("/test19/cgroups/cpuset/prefix19/cpuset.cpu_exclusive", "1", Ok(()));
    host.fs_write("/test19/cgroups/cpuset/prefix19/pool/cpuset.cpu_exclusive", "1", Ok(()));
    host.fs_write("/test19/cgroups/cpuset/prefix19/pool/tasks", "1019", error("fs_write(19)"));
    host.fs_write("/test19/cgroups/cpuset/prefix19/pool/tasks", "1119", Ok(()));
    host.fs_read_to_string("/test19/cgroups/cpuset/prefix19/cpuset.mems", Ok("19\n".to_string()));
    host.fs_read_to_string("/test19/cgroups/cpuset/prefix19/cpuset.cpus", Ok("0-19\n".to_string()));
    host.fs_read_to_string("/test19/cgroups/cpuset/prefix19/pool/cpuset.mems", Ok("19\n".to_string()));
    host.fs_read_to_string("/test19/cgroups/cpuset/prefix19/pool/cpuset.cpus", Ok("0-19\n".to_string()));
    host.fs_read_to_string("/test19/cgroups/cpuset/prefix19/pool/cpuset.cpus", Ok("0-19\n".to_string()));
    host.fs_read_to_string("/test19/cgroups/cpuset/tasks", Ok("1019\n1119\n1219\n1319\n".to_string()));
    host.fs_read_to_string("/proc/1019/status", Ok("Cpus_allowed_list:	0-19\n".to_string()));
    host.fs_read_to_string("/proc/1119/status", Ok(
            "Name:\ttest\nNSsid:\t0\nCpus_allowed:\t0000800\nCpus_allowed_list:\t0-19\n".to_string()
        ));
    host.fs_read_to_string("/proc/1219/status", Ok("Cpus_allowed_list:\t11\n".to_string()));
    host.fs_read_to_string("/proc/1319/status", error("fs_read_to_string(1319)"));
    host.fs_read_line("/test19/cgroups/cpuset/prefix19/19/tasks", error("fs_read_line(19)"));

    assert_error(
        ErrorKind::Other,
        "Failed to isolate the host cpu thread `19` - fs_read_line(19)",
        pin_task(&mut cpuset, &mut host, 19, 32019)
    );

    host.verify_expectations();
}

#[test]
fn cpuset_pin_task_returns_error_if_unable_to_open_cpuset_pool_cpus_file_to_isolate_thread() {
    let mut cpuset = CpuSet::new("/test20/cgroups/cpuset", "prefix20").unwrap();
    let mut host = Host::new();

    host.fs_create_dir_all("/test20/cgroups/cpuset", Ok(()));
    host.fs_create_dir_all("/test20/cgroups/cpuset/prefix20", Ok(()));
    host.fs_create_dir_all("/test20/cgroups/cpuset/prefix20/pool", Ok(()));
    host.source_mounted_at("/test20/cgroups/cpuset", Ok(true));
    host.fs_write("/test20/cgroups/cpuset/prefix20/cpuset.cpu_exclusive", "1", Ok(()));
    host.fs_write("/test20/cgroups/cpuset/prefix20/pool/cpuset.cpu_exclusive", "1", Ok(()));
    host.fs_write("/test20/cgroups/cpuset/prefix20/pool/tasks", "1020", Ok(()));
    host.fs_write("/test20/cgroups/cpuset/prefix20/pool/tasks", "2020", Ok(()));
    host.fs_read_to_string("/test20/cgroups/cpuset/prefix20/cpuset.mems", Ok("20\n".to_string()));
    host.fs_read_to_string("/test20/cgroups/cpuset/prefix20/cpuset.cpus", Ok("0-20\n".to_string()));
    host.fs_read_to_string("/test20/cgroups/cpuset/prefix20/pool/cpuset.mems", Ok("20\n".to_string()));
    host.fs_read_to_string("/test20/cgroups/cpuset/prefix20/pool/cpuset.cpus", Ok("0-20\n".to_string()));
    host.fs_read_to_string("/test20/cgroups/cpuset/prefix20/pool/cpuset.cpus", Ok("0-20\n".to_string()));
    host.fs_read_to_string("/test20/cgroups/cpuset/tasks", Ok("1020\n2020\n3020\n".to_string()));
    host.fs_read_to_string("/proc/1020/status", Ok("Cpus_allowed_list:\t0-20\n".to_string()));
    host.fs_read_to_string("/proc/2020/status", Ok("Cpus_allowed_list:\t0-20\n".to_string()));
    host.fs_read_to_string("/proc/3020/status", Ok("Cpus_allowed_list:\t10\n".to_string()));
    host.fs_read_line("/test20/cgroups/cpuset/prefix20/20/tasks", Ok("1020\n".to_string()));
    host.file_open("/test20/cgroups/cpuset/prefix20/pool/cpuset.cpus", error("File::open(20)"));

    assert_error(
        ErrorKind::Other,
        "Failed to isolate the host cpu thread `20` - File::open(20)",
        pin_task(&mut cpuset, &mut host, 20, 32020)
    );

    host.verify_expectations();
}

#[test]
fn cpuset_pin_task_returns_error_if_unable_to_lock_cpuset_pool_cpus_file_to_isolate_thread() {
    let mut cpuset = CpuSet::new("/test21/cgroups/cpuset", "prefix21").unwrap();
    let mut host = Host::new();

    host.fs_create_dir_all("/test21/cgroups/cpuset", Ok(()));
    host.fs_create_dir_all("/test21/cgroups/cpuset/prefix21", Ok(()));
    host.fs_create_dir_all("/test21/cgroups/cpuset/prefix21/pool", Ok(()));
    host.source_mounted_at("/test21/cgroups/cpuset", Ok(true));
    host.fs_write("/test21/cgroups/cpuset/prefix21/cpuset.cpu_exclusive", "1", Ok(()));
    host.fs_write("/test21/cgroups/cpuset/prefix21/pool/cpuset.cpu_exclusive", "1", Ok(()));
    host.fs_write("/test21/cgroups/cpuset/prefix21/pool/tasks", "1121", Ok(()));
    host.fs_write("/test21/cgroups/cpuset/prefix21/pool/tasks", "2121", Ok(()));
    host.fs_write("/test21/cgroups/cpuset/prefix21/pool/tasks", "3121", Ok(()));
    host.fs_read_to_string("/test21/cgroups/cpuset/prefix21/cpuset.mems", Ok("21\n".to_string()));
    host.fs_read_to_string("/test21/cgroups/cpuset/prefix21/cpuset.cpus", Ok("0-21\n".to_string()));
    host.fs_read_to_string("/test21/cgroups/cpuset/prefix21/pool/cpuset.mems", Ok("21\n".to_string()));
    host.fs_read_to_string("/test21/cgroups/cpuset/prefix21/pool/cpuset.cpus", Ok("0-21\n".to_string()));
    host.fs_read_to_string("/test21/cgroups/cpuset/prefix21/pool/cpuset.cpus", Ok("0-21\n".to_string()));
    host.fs_read_to_string("/test21/cgroups/cpuset/tasks", Ok("1121\n2121\n3121\n".to_string()));
    host.fs_read_to_string("/proc/1121/status", Ok("Cpus_allowed_list:\t0-21\n".to_string()));
    host.fs_read_to_string("/proc/2121/status", Ok("Cpus_allowed_list:\t0-21\n".to_string()));
    host.fs_read_to_string("/proc/3121/status", Ok("Cpus_allowed_list:\t0-21\n".to_string()));
    host.fs_read_line("/test21/cgroups/cpuset/prefix21/21/tasks", Ok(String::new()));
    host.file_open("/test21/cgroups/cpuset/prefix21/pool/cpuset.cpus", Ok(File {
            lock: VecDeque::from(vec![error("File::lock(21)")]),
            trim: VecDeque::from(vec![]),
            read_string: VecDeque::from(vec![]),
            write: VecDeque::from(vec![]),
        }));

    assert_error(
        ErrorKind::Other,
        "Failed to isolate the host cpu thread `21` - File::lock(21)",
        pin_task(&mut cpuset, &mut host, 21, 32021)
    );

    host.verify_expectations();
}

#[test]
fn cpuset_pin_task_returns_error_if_unable_to_read_cpuset_pool_cpus_file_to_isolate_thread() {
    let mut cpuset = CpuSet::new("/test22/cgroups/cpuset", "prefix22").unwrap();
    let mut host = Host::new();

    host.fs_create_dir_all("/test22/cgroups/cpuset", Ok(()));
    host.fs_create_dir_all("/test22/cgroups/cpuset/prefix22", Ok(()));
    host.fs_create_dir_all("/test22/cgroups/cpuset/prefix22/pool", Ok(()));
    host.source_mounted_at("/test22/cgroups/cpuset", Ok(true));
    host.fs_write("/test22/cgroups/cpuset/prefix22/cpuset.cpu_exclusive", "1", Ok(()));
    host.fs_write("/test22/cgroups/cpuset/prefix22/pool/cpuset.cpu_exclusive", "1", Ok(()));
    host.fs_write("/test22/cgroups/cpuset/prefix22/pool/tasks", "1222", Ok(()));
    host.fs_write("/test22/cgroups/cpuset/prefix22/pool/tasks", "2222", Ok(()));
    host.fs_read_to_string("/test22/cgroups/cpuset/prefix22/cpuset.mems", Ok("22\n".to_string()));
    host.fs_read_to_string("/test22/cgroups/cpuset/prefix22/cpuset.cpus", Ok("0-22\n".to_string()));
    host.fs_read_to_string("/test22/cgroups/cpuset/prefix22/pool/cpuset.mems", Ok("22\n".to_string()));
    host.fs_read_to_string("/test22/cgroups/cpuset/prefix22/pool/cpuset.cpus", Ok("0-22\n".to_string()));
    host.fs_read_to_string("/test22/cgroups/cpuset/prefix22/pool/cpuset.cpus", Ok("0-22\n".to_string()));
    host.fs_read_to_string("/test22/cgroups/cpuset/tasks", Ok("1222\n2222\n3222\n".to_string()));
    host.fs_read_to_string("/proc/1222/status", Ok("Cpus_allowed_list:\t0-22\n".to_string()));
    host.fs_read_to_string("/proc/2222/status", Ok("Cpus_allowed_list:\t0-22\n".to_string()));
    host.fs_read_to_string("/proc/3222/status", Ok("Cpus_allowed_list:\t1,3,5,7\n".to_string()));
    host.fs_read_line("/test22/cgroups/cpuset/prefix22/22/tasks", Err(Error::new(ErrorKind::NotFound, "fs_read_line()".to_string())));
    host.file_open("/test22/cgroups/cpuset/prefix22/pool/cpuset.cpus", Ok(File {
            lock: VecDeque::from(vec![Ok(())]),
            trim: VecDeque::from(vec![]),
            read_string: VecDeque::from(vec![error("File::read_string(22)")]),
            write: VecDeque::from(vec![]),
        }));

    assert_error(
        ErrorKind::Other,
        "Failed to isolate the host cpu thread `22` - File::read_string(22)",
        pin_task(&mut cpuset, &mut host, 22, 32022)
    );

    host.verify_expectations();
}

#[test]
fn cpuset_pin_task_returns_error_if_unable_to_trim_cpuset_pool_cpus_file_to_isolate_thread() {
    let mut cpuset = CpuSet::new("/test23/cgroups/cpuset", "prefix23").unwrap();
    let mut host = Host::new();

    host.fs_create_dir_all("/test23/cgroups/cpuset", Ok(()));
    host.fs_create_dir_all("/test23/cgroups/cpuset/prefix23", Ok(()));
    host.fs_create_dir_all("/test23/cgroups/cpuset/prefix23/pool", Ok(()));
    host.source_mounted_at("/test23/cgroups/cpuset", Ok(true));
    host.fs_write("/test23/cgroups/cpuset/prefix23/cpuset.cpu_exclusive", "1", Ok(()));
    host.fs_write("/test23/cgroups/cpuset/prefix23/pool/cpuset.cpu_exclusive", "1", Ok(()));
    host.fs_write("/test23/cgroups/cpuset/prefix23/pool/tasks", "1323", Ok(()));
    host.fs_write("/test23/cgroups/cpuset/prefix23/pool/tasks", "2323", Ok(()));
    host.fs_write("/test23/cgroups/cpuset/prefix23/pool/tasks", "3323", Ok(()));
    host.fs_read_to_string("/test23/cgroups/cpuset/prefix23/cpuset.mems", Ok("23\n".to_string()));
    host.fs_read_to_string("/test23/cgroups/cpuset/prefix23/cpuset.cpus", Ok("0-23\n".to_string()));
    host.fs_read_to_string("/test23/cgroups/cpuset/prefix23/pool/cpuset.mems", Ok("23\n".to_string()));
    host.fs_read_to_string("/test23/cgroups/cpuset/prefix23/pool/cpuset.cpus", Ok("0-23\n".to_string()));
    host.fs_read_to_string("/test23/cgroups/cpuset/prefix23/pool/cpuset.cpus", Ok("0-23\n".to_string()));
    host.fs_read_to_string("/test23/cgroups/cpuset/tasks", Ok("1323\n2323\n3323\n".to_string()));
    host.fs_read_to_string("/proc/1323/status", Ok("Cpus_allowed_list:\t0-23\n".to_string()));
    host.fs_read_to_string("/proc/2323/status", Ok("Cpus_allowed_list:\t0-23\n".to_string()));
    host.fs_read_to_string("/proc/3323/status", Ok("Cpus_allowed_list:\t0-23\n".to_string()));
    host.fs_read_line("/test23/cgroups/cpuset/prefix23/23/tasks", Err(Error::new(ErrorKind::NotFound, "fs_read_line()".to_string())));
    host.file_open("/test23/cgroups/cpuset/prefix23/pool/cpuset.cpus", Ok(File {
            lock: VecDeque::from(vec![Ok(())]),
            trim: VecDeque::from(vec![error("File::trim(23)")]),
            read_string: VecDeque::from(vec![Ok("0-23".to_string())]),
            write: VecDeque::from(vec![]),
        }));

    assert_error(
        ErrorKind::Other,
        "Failed to isolate the host cpu thread `23` - File::trim(23)",
        pin_task(&mut cpuset, &mut host, 23, 32023)
    );

    host.verify_expectations();
}

#[test]
fn cpuset_pin_task_returns_error_if_unable_to_write_cpuset_pool_cpus_file_with_isolated_thread()
{
    let mut cpuset = CpuSet::new("/test24/cgroups/cpuset", "prefix24").unwrap();
    let mut host = Host::new();

    host.fs_create_dir_all("/test24/cgroups/cpuset", Ok(()));
    host.fs_create_dir_all("/test24/cgroups/cpuset/prefix24", Ok(()));
    host.fs_create_dir_all("/test24/cgroups/cpuset/prefix24/pool", Ok(()));
    host.source_mounted_at("/test24/cgroups/cpuset", Ok(true));
    host.fs_write("/test24/cgroups/cpuset/prefix24/cpuset.cpu_exclusive", "1", Ok(()));
    host.fs_write("/test24/cgroups/cpuset/prefix24/pool/cpuset.cpu_exclusive", "1", Ok(()));
    host.fs_write("/test24/cgroups/cpuset/prefix24/pool/tasks", "1024", Ok(()));
    host.fs_write("/test24/cgroups/cpuset/prefix24/pool/tasks", "2024", Ok(()));
    host.fs_write("/test24/cgroups/cpuset/prefix24/pool/tasks", "3024", Ok(()));
    host.fs_read_to_string("/test24/cgroups/cpuset/prefix24/cpuset.mems", Ok("24\n".to_string()));
    host.fs_read_to_string("/test24/cgroups/cpuset/prefix24/cpuset.cpus", Ok("0-24\n".to_string()));
    host.fs_read_to_string("/test24/cgroups/cpuset/prefix24/pool/cpuset.mems", Ok("24\n".to_string()));
    host.fs_read_to_string("/test24/cgroups/cpuset/prefix24/pool/cpuset.cpus", Ok("21-24\n".to_string()));
    host.fs_read_to_string("/test24/cgroups/cpuset/prefix24/pool/cpuset.cpus", Ok("21-24\n".to_string()));
    host.fs_read_to_string("/test24/cgroups/cpuset/tasks", Ok("1024\n2024\n3024\n".to_string()));
    host.fs_read_to_string("/proc/1024/status", Ok("Cpus_allowed_list:\t21-24\n".to_string()));
    host.fs_read_to_string("/proc/2024/status", Ok("Cpus_allowed_list:\t21-24\n".to_string()));
    host.fs_read_to_string("/proc/3024/status", Ok("Cpus_allowed_list:\t21-24\n".to_string()));
    host.fs_read_line("/test24/cgroups/cpuset/prefix24/24/tasks", Err(Error::new(ErrorKind::NotFound, "fs_read_line()".to_string())));
    host.file_open("/test24/cgroups/cpuset/prefix24/pool/cpuset.cpus", Ok(File {
            lock: VecDeque::from(vec![Ok(())]),
            trim: VecDeque::from(vec![Ok(())]),
            read_string: VecDeque::from(vec![Ok("21-24".to_string())]),
            write: VecDeque::from(vec![
                ("21,22,23".to_string(), Some(Error::new(ErrorKind::Other, "File::write(24)".to_string())))
            ]),
        }));

    assert_error(
        ErrorKind::Other,
        "Failed to isolate the host cpu thread `24` - File::write(24)",
        pin_task(&mut cpuset, &mut host, 24, 32024)
    );

    host.verify_expectations();
}

#[test]
fn cpuset_pin_task_returns_error_if_unable_to_create_a_cpuset_directory_for_isolated_thread() {
    let mut cpuset = CpuSet::new("/test25/cgroups/cpuset", "prefix25").unwrap();
    let mut host = Host::new();

    host.fs_create_dir_all("/test25/cgroups/cpuset", Ok(()));
    host.fs_create_dir_all("/test25/cgroups/cpuset/prefix25", Ok(()));
    host.fs_create_dir_all("/test25/cgroups/cpuset/prefix25/pool", Ok(()));
    host.fs_create_dir_all("/test25/cgroups/cpuset/prefix25/25", error("fs_create_dir_all(25)"));
    host.source_mounted_at("/test25/cgroups/cpuset", Ok(true));
    host.fs_write("/test25/cgroups/cpuset/prefix25/cpuset.cpu_exclusive", "1", Ok(()));
    host.fs_write("/test25/cgroups/cpuset/prefix25/pool/cpuset.cpu_exclusive", "1", Ok(()));
    host.fs_write("/test25/cgroups/cpuset/prefix25/pool/tasks", "2025", Ok(()));
    host.fs_write("/test25/cgroups/cpuset/prefix25/pool/tasks", "3025", Ok(()));
    host.fs_write("/test25/cgroups/cpuset/prefix25/pool/tasks", "4025", Ok(()));
    host.fs_read_to_string("/test25/cgroups/cpuset/prefix25/cpuset.mems", Ok("25".to_string()));
    host.fs_read_to_string("/test25/cgroups/cpuset/prefix25/cpuset.cpus", Ok("23-25".to_string()));
    host.fs_read_to_string("/test25/cgroups/cpuset/prefix25/pool/cpuset.mems", Ok("25".to_string()));
    host.fs_read_to_string("/test25/cgroups/cpuset/prefix25/pool/cpuset.cpus", Ok("23-25".to_string()));
    host.fs_read_to_string("/test25/cgroups/cpuset/prefix25/pool/cpuset.cpus", Ok("22-25".to_string()));
    host.fs_read_to_string("/test25/cgroups/cpuset/tasks", Ok("2025\n3025\n4025\n".to_string()));
    host.fs_read_to_string("/proc/2025/status", Ok("Cpus_allowed_list:	22-25\n".to_string()));
    host.fs_read_to_string("/proc/3025/status", Ok("Cpus_allowed_list:	22-25\n".to_string()));
    host.fs_read_to_string("/proc/4025/status", Ok("Cpus_allowed_list:	22-25\n".to_string()));
    host.fs_read_line("/test25/cgroups/cpuset/prefix25/25/tasks", Err(Error::new(ErrorKind::NotFound, "fs_read_line()".to_string())));
    host.file_open("/test25/cgroups/cpuset/prefix25/pool/cpuset.cpus", Ok(File {
            lock: VecDeque::from(vec![Ok(())]),
            trim: VecDeque::from(vec![Ok(())]),
            read_string: VecDeque::from(vec![Ok("22-25".to_string())]),
            write: VecDeque::from(vec![("22,23,24".to_string(), None)]),
        }));

    assert_error(
        ErrorKind::Other,
        "Failed to isolate the host cpu thread `25` - fs_create_dir_all(25)",
        pin_task(&mut cpuset, &mut host, 25, 32025)
    );

    host.verify_expectations();
}

#[test]
fn cpuset_pin_task_returns_error_if_unable_to_write_cpuset_mems_for_isloated_thread() {
    let mut cpuset = CpuSet::new("/test26/cgroups/cpuset", "prefix26").unwrap();
    let mut host = Host::new();

    host.fs_create_dir_all("/test26/cgroups/cpuset", Ok(()));
    host.fs_create_dir_all("/test26/cgroups/cpuset/prefix26", Ok(()));
    host.fs_create_dir_all("/test26/cgroups/cpuset/prefix26/pool", Ok(()));
    host.fs_create_dir_all("/test26/cgroups/cpuset/prefix26/26", Ok(()));
    host.source_mounted_at("/test26/cgroups/cpuset", Ok(true));
    host.fs_write("/test26/cgroups/cpuset/prefix26/cpuset.cpu_exclusive", "1", Ok(()));
    host.fs_write("/test26/cgroups/cpuset/prefix26/pool/cpuset.cpu_exclusive", "1", Ok(()));
    host.fs_write("/test26/cgroups/cpuset/prefix26/pool/tasks", "2026", Ok(()));
    host.fs_write("/test26/cgroups/cpuset/prefix26/pool/tasks", "3026", Ok(()));
    host.fs_write("/test26/cgroups/cpuset/prefix26/pool/tasks", "4026", Ok(()));
    host.fs_write("/test26/cgroups/cpuset/prefix26/26/cpuset.mems", "26", error("fs_write(26)"));
    host.fs_read_to_string("/test26/cgroups/cpuset/prefix26/cpuset.mems", Ok("26".to_string()));
    host.fs_read_to_string("/test26/cgroups/cpuset/prefix26/cpuset.cpus", Ok("23-26".to_string()));
    host.fs_read_to_string("/test26/cgroups/cpuset/prefix26/pool/cpuset.mems", Ok("26".to_string()));
    host.fs_read_to_string("/test26/cgroups/cpuset/prefix26/pool/cpuset.cpus", Ok("23-26".to_string()));
    host.fs_read_to_string("/test26/cgroups/cpuset/prefix26/pool/cpuset.cpus", Ok("23-26".to_string()));
    host.fs_read_to_string("/test26/cgroups/cpuset/tasks", Ok("2026\n3026\n4026\n".to_string()));
    host.fs_read_to_string("/proc/2026/status", Ok("Cpus_allowed_list:	23-26\n".to_string()));
    host.fs_read_to_string("/proc/3026/status", Ok("Cpus_allowed_list:	23-26\n".to_string()));
    host.fs_read_to_string("/proc/4026/status", Ok("Cpus_allowed_list:	23-26\n".to_string()));
    host.fs_read_to_string("/test26/cgroups/cpuset/prefix26/cpuset.mems", Ok("26".to_string()));
    host.fs_read_line("/test26/cgroups/cpuset/prefix26/26/tasks", Err(Error::new(ErrorKind::NotFound, "fs_read_line()".to_string())));
    host.file_open("/test26/cgroups/cpuset/prefix26/pool/cpuset.cpus", Ok(File {
            lock: VecDeque::from(vec![Ok(())]),
            trim: VecDeque::from(vec![Ok(())]),
            read_string: VecDeque::from(vec![Ok("23-26".to_string())]),
            write: VecDeque::from(vec![("23,24,25".to_string(), None)]),
        }));

    assert_error(
        ErrorKind::Other,
        "Failed to isolate the host cpu thread `26` - fs_write(26)",
        pin_task(&mut cpuset, &mut host, 26, 32026)
    );

    host.verify_expectations();
}

#[test]
fn cpuset_pin_task_returns_error_if_unable_to_write_cpuset_cpu_exclusive_for_isloated_thread() {
    let mut cpuset = CpuSet::new("/test27/cgroups/cpuset", "prefix27").unwrap();
    let mut host = Host::new();

    host.fs_create_dir_all("/test27/cgroups/cpuset", Ok(()));
    host.fs_create_dir_all("/test27/cgroups/cpuset/prefix27", Ok(()));
    host.fs_create_dir_all("/test27/cgroups/cpuset/prefix27/pool", Ok(()));
    host.fs_create_dir_all("/test27/cgroups/cpuset/prefix27/27", Ok(()));
    host.source_mounted_at("/test27/cgroups/cpuset", Ok(true));
    host.fs_write("/test27/cgroups/cpuset/prefix27/cpuset.cpu_exclusive", "1", Ok(()));
    host.fs_write("/test27/cgroups/cpuset/prefix27/pool/cpuset.cpu_exclusive", "1", Ok(()));
    host.fs_write("/test27/cgroups/cpuset/prefix27/pool/tasks", "2027", Ok(()));
    host.fs_write("/test27/cgroups/cpuset/prefix27/pool/tasks", "3027", Ok(()));
    host.fs_write("/test27/cgroups/cpuset/prefix27/pool/tasks", "4027", Ok(()));
    host.fs_write("/test27/cgroups/cpuset/prefix27/27/cpuset.mems", "27", Ok(()));
    host.fs_write("/test27/cgroups/cpuset/prefix27/27/cpuset.cpu_exclusive", "1", error("fs_write(27)"));
    host.fs_read_to_string("/test27/cgroups/cpuset/prefix27/cpuset.mems", Ok("27".to_string()));
    host.fs_read_to_string("/test27/cgroups/cpuset/prefix27/cpuset.cpus", Ok("23-27".to_string()));
    host.fs_read_to_string("/test27/cgroups/cpuset/prefix27/pool/cpuset.mems", Ok("27".to_string()));
    host.fs_read_to_string("/test27/cgroups/cpuset/prefix27/pool/cpuset.cpus", Ok("23-27".to_string()));
    host.fs_read_to_string("/test27/cgroups/cpuset/prefix27/pool/cpuset.cpus", Ok("23-27".to_string()));
    host.fs_read_to_string("/test27/cgroups/cpuset/tasks", Ok("2027\n3027\n4027\n".to_string()));
    host.fs_read_to_string("/proc/2027/status", Ok("Cpus_allowed_list:	23-27\n".to_string()));
    host.fs_read_to_string("/proc/3027/status", Ok("Cpus_allowed_list:	23-27\n".to_string()));
    host.fs_read_to_string("/proc/4027/status", Ok("Cpus_allowed_list:	23-27\n".to_string()));
    host.fs_read_to_string("/test27/cgroups/cpuset/prefix27/cpuset.mems", Ok("27".to_string()));
    host.fs_read_line("/test27/cgroups/cpuset/prefix27/27/tasks", Err(Error::new(ErrorKind::NotFound, "fs_read_line()".to_string())));
    host.file_open("/test27/cgroups/cpuset/prefix27/pool/cpuset.cpus", Ok(File {
            lock: VecDeque::from(vec![Ok(())]),
            trim: VecDeque::from(vec![Ok(())]),
            read_string: VecDeque::from(vec![Ok("23-27".to_string())]),
            write: VecDeque::from(vec![("23,24,25,26".to_string(), None)]),
        }));

    assert_error(
        ErrorKind::Other,
        "Failed to isolate the host cpu thread `27` - fs_write(27)",
        pin_task(&mut cpuset, &mut host, 27, 32027)
    );

    host.verify_expectations();
}

#[test]
fn cpuset_pin_task_returns_error_if_unable_to_write_cpuset_cpus_for_isolated_thread() {
    let mut cpuset = CpuSet::new("/test28/cgroups/cpuset", "prefix28").unwrap();
    let mut host = Host::new();

    host.fs_create_dir_all("/test28/cgroups/cpuset", Ok(()));
    host.fs_create_dir_all("/test28/cgroups/cpuset/prefix28", Ok(()));
    host.fs_create_dir_all("/test28/cgroups/cpuset/prefix28/pool", Ok(()));
    host.fs_create_dir_all("/test28/cgroups/cpuset/prefix28/28", Ok(()));
    host.source_mounted_at("/test28/cgroups/cpuset", Ok(true));
    host.fs_write("/test28/cgroups/cpuset/prefix28/cpuset.cpu_exclusive", "1", Ok(()));
    host.fs_write("/test28/cgroups/cpuset/prefix28/pool/cpuset.cpu_exclusive", "1", Ok(()));
    host.fs_write("/test28/cgroups/cpuset/prefix28/pool/tasks", "2028", Ok(()));
    host.fs_write("/test28/cgroups/cpuset/prefix28/pool/tasks", "3028", Ok(()));
    host.fs_write("/test28/cgroups/cpuset/prefix28/pool/tasks", "4028", Ok(()));
    host.fs_write("/test28/cgroups/cpuset/prefix28/28/cpuset.mems", "28", Ok(()));
    host.fs_write("/test28/cgroups/cpuset/prefix28/28/cpuset.cpu_exclusive", "1", Ok(()));
    host.fs_write("/test28/cgroups/cpuset/prefix28/28/cpuset.cpus", "28", error("fs_write(28)"));
    host.fs_read_to_string("/test28/cgroups/cpuset/prefix28/cpuset.mems", Ok("28".to_string()));
    host.fs_read_to_string("/test28/cgroups/cpuset/prefix28/cpuset.cpus", Ok("23-28".to_string()));
    host.fs_read_to_string("/test28/cgroups/cpuset/prefix28/pool/cpuset.mems", Ok("28".to_string()));
    host.fs_read_to_string("/test28/cgroups/cpuset/prefix28/pool/cpuset.cpus", Ok("23-28".to_string()));
    host.fs_read_to_string("/test28/cgroups/cpuset/prefix28/pool/cpuset.cpus", Ok("23-28".to_string()));
    host.fs_read_to_string("/test28/cgroups/cpuset/tasks", Ok("2028\n3028\n4028\n".to_string()));
    host.fs_read_to_string("/proc/2028/status", Ok("Cpus_allowed_list:	23-28\n".to_string()));
    host.fs_read_to_string("/proc/3028/status", Ok("Cpus_allowed_list:	23-28\n".to_string()));
    host.fs_read_to_string("/proc/4028/status", Ok("Cpus_allowed_list:	23-28\n".to_string()));
    host.fs_read_to_string("/test28/cgroups/cpuset/prefix28/cpuset.mems", Ok("28".to_string()));
    host.fs_read_line("/test28/cgroups/cpuset/prefix28/28/tasks", Err(Error::new(ErrorKind::NotFound, "fs_read_line()".to_string())));
    host.file_open("/test28/cgroups/cpuset/prefix28/pool/cpuset.cpus", Ok(File {
            lock: VecDeque::from(vec![Ok(())]),
            trim: VecDeque::from(vec![Ok(())]),
            read_string: VecDeque::from(vec![Ok("23-28".to_string())]),
            write: VecDeque::from(vec![("23,24,25,26,27".to_string(), None)]),
        }));

    assert_error(
        ErrorKind::Other,
        "Failed to isolate the host cpu thread `28` - fs_write(28)",
        pin_task(&mut cpuset, &mut host, 28, 32028)
    );

    host.verify_expectations();
}

#[test]
fn cpuset_pin_task_returns_error_if_unable_to_pin_task_to_isolated_thread() {
    let mut cpuset = CpuSet::new("/test29/cgroups/cpuset", "prefix29").unwrap();
    let mut host = Host::new();

    host.fs_create_dir_all("/test29/cgroups/cpuset", Ok(()));
    host.fs_create_dir_all("/test29/cgroups/cpuset/prefix29", Ok(()));
    host.fs_create_dir_all("/test29/cgroups/cpuset/prefix29/pool", Ok(()));
    host.fs_create_dir_all("/test29/cgroups/cpuset/prefix29/29", Ok(()));
    host.source_mounted_at("/test29/cgroups/cpuset", Ok(true));
    host.fs_write("/test29/cgroups/cpuset/prefix29/cpuset.cpu_exclusive", "1", Ok(()));
    host.fs_write("/test29/cgroups/cpuset/prefix29/pool/cpuset.cpu_exclusive", "1", Ok(()));
    host.fs_write("/test29/cgroups/cpuset/prefix29/pool/tasks", "2029", Ok(()));
    host.fs_write("/test29/cgroups/cpuset/prefix29/pool/tasks", "3029", Ok(()));
    host.fs_write("/test29/cgroups/cpuset/prefix29/pool/tasks", "4029", Ok(()));
    host.fs_write("/test29/cgroups/cpuset/prefix29/29/cpuset.mems", "29", Ok(()));
    host.fs_write("/test29/cgroups/cpuset/prefix29/29/cpuset.cpu_exclusive", "1", Ok(()));
    host.fs_write("/test29/cgroups/cpuset/prefix29/29/cpuset.cpus", "29", Ok(()));
    host.fs_write("/test29/cgroups/cpuset/prefix29/29/tasks", "32029", error("fs_write(29)"));
    host.fs_read_to_string("/test29/cgroups/cpuset/prefix29/cpuset.mems", Ok("29".to_string()));
    host.fs_read_to_string("/test29/cgroups/cpuset/prefix29/cpuset.cpus", Ok("25-29".to_string()));
    host.fs_read_to_string("/test29/cgroups/cpuset/prefix29/pool/cpuset.mems", Ok("29".to_string()));
    host.fs_read_to_string("/test29/cgroups/cpuset/prefix29/pool/cpuset.cpus", Ok("25-29".to_string()));
    host.fs_read_to_string("/test29/cgroups/cpuset/prefix29/pool/cpuset.cpus", Ok("25-29".to_string()));
    host.fs_read_to_string("/test29/cgroups/cpuset/tasks", Ok("2029\n3029\n4029\n".to_string()));
    host.fs_read_to_string("/proc/2029/status", Ok("Cpus_allowed_list:	25-29\n".to_string()));
    host.fs_read_to_string("/proc/3029/status", Ok("Cpus_allowed_list:	25-29\n".to_string()));
    host.fs_read_to_string("/proc/4029/status", Ok("Cpus_allowed_list:	25-29\n".to_string()));
    host.fs_read_to_string("/test29/cgroups/cpuset/prefix29/cpuset.mems", Ok("29".to_string()));
    host.fs_read_line("/test29/cgroups/cpuset/prefix29/29/tasks", Err(Error::new(ErrorKind::NotFound, "fs_read_line()".to_string())));
    host.file_open("/test29/cgroups/cpuset/prefix29/pool/cpuset.cpus", Ok(File {
            lock: VecDeque::from(vec![Ok(())]),
            trim: VecDeque::from(vec![Ok(())]),
            read_string: VecDeque::from(vec![Ok("25-29".to_string())]),
            write: VecDeque::from(vec![("25,26,27,28".to_string(), None)]),
        }));

    assert_error(
        ErrorKind::Other,
        "Failed to pin the process id `32029` to the host cpu thread `29` - fs_write(29)",
        pin_task(&mut cpuset, &mut host, 29, 32029)
    );

    host.verify_expectations();
}

#[test]
fn cpuset_pin_task_isolates_the_thread_and_pins_the_task_to_it() {
    let mut cpuset = CpuSet::new("/test30/cgroups/cpuset", "prefix30").unwrap();
    let mut host = Host::new();

    host.fs_create_dir_all("/test30/cgroups/cpuset", Ok(()));
    host.fs_create_dir_all("/test30/cgroups/cpuset/prefix30", Ok(()));
    host.fs_create_dir_all("/test30/cgroups/cpuset/prefix30/pool", Ok(()));
    host.fs_create_dir_all("/test30/cgroups/cpuset/prefix30/30", Ok(()));
    host.source_mounted_at("/test30/cgroups/cpuset", Ok(true));
    host.fs_write("/test30/cgroups/cpuset/prefix30/cpuset.cpu_exclusive", "1", Ok(()));
    host.fs_write("/test30/cgroups/cpuset/prefix30/pool/cpuset.cpu_exclusive", "1", Ok(()));
    host.fs_write("/test30/cgroups/cpuset/prefix30/pool/tasks", "2030", Ok(()));
    host.fs_write("/test30/cgroups/cpuset/prefix30/pool/tasks", "3030", Ok(()));
    host.fs_write("/test30/cgroups/cpuset/prefix30/pool/tasks", "4030", Ok(()));
    host.fs_write("/test30/cgroups/cpuset/prefix30/30/cpuset.mems", "30", Ok(()));
    host.fs_write("/test30/cgroups/cpuset/prefix30/30/cpuset.cpu_exclusive", "1", Ok(()));
    host.fs_write("/test30/cgroups/cpuset/prefix30/30/cpuset.cpus", "30", Ok(()));
    host.fs_write("/test30/cgroups/cpuset/prefix30/30/tasks", "3030", Ok(()));
    host.fs_read_to_string("/test30/cgroups/cpuset/prefix30/cpuset.mems", Ok("30".to_string()));
    host.fs_read_to_string("/test30/cgroups/cpuset/prefix30/cpuset.cpus", Ok("25-30".to_string()));
    host.fs_read_to_string("/test30/cgroups/cpuset/prefix30/pool/cpuset.mems", Ok("30".to_string()));
    host.fs_read_to_string("/test30/cgroups/cpuset/prefix30/pool/cpuset.cpus", Ok("25-30".to_string()));
    host.fs_read_to_string("/test30/cgroups/cpuset/prefix30/pool/cpuset.cpus", Ok("25-30".to_string()));
    host.fs_read_to_string("/test30/cgroups/cpuset/tasks", Ok("2030\n3030\n4030\n".to_string()));
    host.fs_read_to_string("/proc/2030/status", Ok("Cpus_allowed_list:	25-30\n".to_string()));
    host.fs_read_to_string("/proc/3030/status", Ok("Cpus_allowed_list:	25-30\n".to_string()));
    host.fs_read_to_string("/proc/4030/status", Ok("Cpus_allowed_list:	25-30\n".to_string()));
    host.fs_read_to_string("/test30/cgroups/cpuset/prefix30/cpuset.mems", Ok("30".to_string()));
    host.fs_read_line("/test30/cgroups/cpuset/prefix30/30/tasks", Err(Error::new(ErrorKind::NotFound, "fs_read_line()".to_string())));
    host.file_open("/test30/cgroups/cpuset/prefix30/pool/cpuset.cpus", Ok(File {
            lock: VecDeque::from(vec![Ok(())]),
            trim: VecDeque::from(vec![Ok(())]),
            read_string: VecDeque::from(vec![Ok("25-30".to_string())]),
            write: VecDeque::from(vec![("25,26,27,28,29".to_string(), None)]),
        }));

    assert!(pin_task(&mut cpuset, &mut host, 30, 3030).is_ok());

    host.verify_expectations();
}

#[test]
fn cpuset_release_threads_returns_error_if_unable_to_read_pinned_thread_tasks() {
    let mut cpuset = CpuSet::new("/test31/cgroups/cpuset", "prefix31").unwrap();
    let mut host = Host::new();

    host.fs_create_dir_all("/test31/cgroups/cpuset", Ok(()));
    host.fs_create_dir_all("/test31/cgroups/cpuset/prefix31", Ok(()));
    host.fs_create_dir_all("/test31/cgroups/cpuset/prefix31/pool", Ok(()));
    host.fs_create_dir_all("/test31/cgroups/cpuset/prefix31/31", Ok(()));
    host.source_mounted_at("/test31/cgroups/cpuset", Ok(true));
    host.fs_write("/test31/cgroups/cpuset/prefix31/cpuset.cpu_exclusive", "1", Ok(()));
    host.fs_write("/test31/cgroups/cpuset/prefix31/pool/cpuset.cpu_exclusive", "1", Ok(()));
    host.fs_write("/test31/cgroups/cpuset/prefix31/pool/tasks", "2031", Ok(()));
    host.fs_write("/test31/cgroups/cpuset/prefix31/pool/tasks", "3031", Ok(()));
    host.fs_write("/test31/cgroups/cpuset/prefix31/pool/tasks", "4031", Ok(()));
    host.fs_write("/test31/cgroups/cpuset/prefix31/31/cpuset.mems", "31", Ok(()));
    host.fs_write("/test31/cgroups/cpuset/prefix31/31/cpuset.cpu_exclusive", "1", Ok(()));
    host.fs_write("/test31/cgroups/cpuset/prefix31/31/cpuset.cpus", "31", Ok(()));
    host.fs_write("/test31/cgroups/cpuset/prefix31/31/tasks", "3031", Ok(()));
    host.fs_read_to_string("/test31/cgroups/cpuset/prefix31/cpuset.mems", Ok("31".to_string()));
    host.fs_read_to_string("/test31/cgroups/cpuset/prefix31/cpuset.cpus", Ok("30-31".to_string()));
    host.fs_read_to_string("/test31/cgroups/cpuset/prefix31/pool/cpuset.mems", Ok("31".to_string()));
    host.fs_read_to_string("/test31/cgroups/cpuset/prefix31/pool/cpuset.cpus", Ok("30-31".to_string()));
    host.fs_read_to_string("/test31/cgroups/cpuset/prefix31/pool/cpuset.cpus", Ok("30-31".to_string()));
    host.fs_read_to_string("/test31/cgroups/cpuset/tasks", Ok("2031\n3031\n4031\n".to_string()));
    host.fs_read_to_string("/proc/2031/status", Ok("Cpus_allowed_list:	30-31\n".to_string()));
    host.fs_read_to_string("/proc/3031/status", Ok("Cpus_allowed_list:	30-31\n".to_string()));
    host.fs_read_to_string("/proc/4031/status", Ok("Cpus_allowed_list:	30-31\n".to_string()));
    host.fs_read_to_string("/test31/cgroups/cpuset/prefix31/cpuset.mems", Ok("31".to_string()));
    host.fs_read_line("/test31/cgroups/cpuset/prefix31/31/tasks", Err(Error::new(ErrorKind::NotFound, "fs_read_line()".to_string())));
    host.file_open("/test31/cgroups/cpuset/prefix31/pool/cpuset.cpus", Ok(File {
            lock: VecDeque::from(vec![Ok(())]),
            trim: VecDeque::from(vec![Ok(())]),
            read_string: VecDeque::from(vec![Ok("30-31".to_string())]),
            write: VecDeque::from(vec![("30".to_string(), None)]),
        }));

    pin_task(&mut cpuset, &mut host, 31, 3031).unwrap();

    host.fs_read_line("/test31/cgroups/cpuset/prefix31/31/tasks", error("fs_read_line(31)"));

    assert_error(
        ErrorKind::Other,
        "Failed to release some of the pinned threads.",
        release_threads(&mut cpuset, &mut host)
    );

    host.verify_expectations();
}

#[test]
fn cpuset_release_threads_returns_error_if_thread_still_busy_with_at_least_one_process() {
    let mut cpuset = CpuSet::new("/test32/cgroups/cpuset", "prefix32").unwrap();
    let mut host = Host::new();

    host.fs_create_dir_all("/test32/cgroups/cpuset", Ok(()));
    host.fs_create_dir_all("/test32/cgroups/cpuset/prefix32", Ok(()));
    host.fs_create_dir_all("/test32/cgroups/cpuset/prefix32/pool", Ok(()));
    host.fs_create_dir_all("/test32/cgroups/cpuset/prefix32/32", Ok(()));
    host.source_mounted_at("/test32/cgroups/cpuset", Ok(true));
    host.fs_write("/test32/cgroups/cpuset/prefix32/cpuset.cpu_exclusive", "1", Ok(()));
    host.fs_write("/test32/cgroups/cpuset/prefix32/pool/cpuset.cpu_exclusive", "1", Ok(()));
    host.fs_write("/test32/cgroups/cpuset/prefix32/pool/tasks", "2032", Ok(()));
    host.fs_write("/test32/cgroups/cpuset/prefix32/pool/tasks", "3032", Ok(()));
    host.fs_write("/test32/cgroups/cpuset/prefix32/pool/tasks", "4032", Ok(()));
    host.fs_write("/test32/cgroups/cpuset/prefix32/32/cpuset.mems", "32", Ok(()));
    host.fs_write("/test32/cgroups/cpuset/prefix32/32/cpuset.cpu_exclusive", "1", Ok(()));
    host.fs_write("/test32/cgroups/cpuset/prefix32/32/cpuset.cpus", "32", Ok(()));
    host.fs_write("/test32/cgroups/cpuset/prefix32/32/tasks", "2032", Ok(()));
    host.fs_read_to_string("/test32/cgroups/cpuset/prefix32/cpuset.mems", Ok("32".to_string()));
    host.fs_read_to_string("/test32/cgroups/cpuset/prefix32/cpuset.cpus", Ok("30-32".to_string()));
    host.fs_read_to_string("/test32/cgroups/cpuset/prefix32/pool/cpuset.mems", Ok("32".to_string()));
    host.fs_read_to_string("/test32/cgroups/cpuset/prefix32/pool/cpuset.cpus", Ok("30-32".to_string()));
    host.fs_read_to_string("/test32/cgroups/cpuset/prefix32/pool/cpuset.cpus", Ok("30-32".to_string()));
    host.fs_read_to_string("/test32/cgroups/cpuset/tasks", Ok("2032\n3032\n4032\n".to_string()));
    host.fs_read_to_string("/proc/2032/status", Ok("Cpus_allowed_list:	30-32\n".to_string()));
    host.fs_read_to_string("/proc/3032/status", Ok("Cpus_allowed_list:	30-32\n".to_string()));
    host.fs_read_to_string("/proc/4032/status", Ok("Cpus_allowed_list:	30-32\n".to_string()));
    host.fs_read_to_string("/test32/cgroups/cpuset/prefix32/cpuset.mems", Ok("32".to_string()));
    host.fs_read_line("/test32/cgroups/cpuset/prefix32/32/tasks", Err(Error::new(ErrorKind::NotFound, "fs_read_line()".to_string())));
    host.file_open("/test32/cgroups/cpuset/prefix32/pool/cpuset.cpus", Ok(File {
            lock: VecDeque::from(vec![Ok(())]),
            trim: VecDeque::from(vec![Ok(())]),
            read_string: VecDeque::from(vec![Ok("30-32".to_string())]),
            write: VecDeque::from(vec![("30,31".to_string(), None)]),
        }));

    pin_task(&mut cpuset, &mut host, 32, 2032).unwrap();

    host.fs_read_line("/test32/cgroups/cpuset/prefix32/32/tasks", Ok("4032".to_string()));

    assert_error(
        ErrorKind::Other,
        "Failed to release some of the pinned threads.",
        release_threads(&mut cpuset, &mut host)
    );

    host.verify_expectations();
}

#[test]
fn cpuset_release_threads_returns_error_if_unable_to_remove_thread_cpuset_cgroup_directory() {
    let mut cpuset = CpuSet::new("/test33/cgroups/cpuset", "prefix33").unwrap();
    let mut host = Host::new();

    host.fs_create_dir_all("/test33/cgroups/cpuset", Ok(()));
    host.fs_create_dir_all("/test33/cgroups/cpuset/prefix33", Ok(()));
    host.fs_create_dir_all("/test33/cgroups/cpuset/prefix33/pool", Ok(()));
    host.fs_create_dir_all("/test33/cgroups/cpuset/prefix33/33", Ok(()));
    host.source_mounted_at("/test33/cgroups/cpuset", Ok(true));
    host.fs_write("/test33/cgroups/cpuset/prefix33/cpuset.cpu_exclusive", "1", Ok(()));
    host.fs_write("/test33/cgroups/cpuset/prefix33/pool/cpuset.cpu_exclusive", "1", Ok(()));
    host.fs_write("/test33/cgroups/cpuset/prefix33/pool/tasks", "2033", Ok(()));
    host.fs_write("/test33/cgroups/cpuset/prefix33/pool/tasks", "3033", Ok(()));
    host.fs_write("/test33/cgroups/cpuset/prefix33/pool/tasks", "4033", Ok(()));
    host.fs_write("/test33/cgroups/cpuset/prefix33/33/cpuset.mems", "33", Ok(()));
    host.fs_write("/test33/cgroups/cpuset/prefix33/33/cpuset.cpu_exclusive", "1", Ok(()));
    host.fs_write("/test33/cgroups/cpuset/prefix33/33/cpuset.cpus", "33", Ok(()));
    host.fs_write("/test33/cgroups/cpuset/prefix33/33/tasks", "2033", Ok(()));
    host.fs_read_to_string("/test33/cgroups/cpuset/prefix33/cpuset.mems", Ok("33".to_string()));
    host.fs_read_to_string("/test33/cgroups/cpuset/prefix33/cpuset.cpus", Ok("30-33".to_string()));
    host.fs_read_to_string("/test33/cgroups/cpuset/prefix33/pool/cpuset.mems", Ok("33".to_string()));
    host.fs_read_to_string("/test33/cgroups/cpuset/prefix33/pool/cpuset.cpus", Ok("30-33".to_string()));
    host.fs_read_to_string("/test33/cgroups/cpuset/prefix33/pool/cpuset.cpus", Ok("30-33".to_string()));
    host.fs_read_to_string("/test33/cgroups/cpuset/tasks", Ok("2033\n3033\n4033\n".to_string()));
    host.fs_read_to_string("/proc/2033/status", Ok("Cpus_allowed_list:	30-33\n".to_string()));
    host.fs_read_to_string("/proc/3033/status", Ok("Cpus_allowed_list:	30-33\n".to_string()));
    host.fs_read_to_string("/proc/4033/status", Ok("Cpus_allowed_list:	30-33\n".to_string()));
    host.fs_read_to_string("/test33/cgroups/cpuset/prefix33/cpuset.mems", Ok("33".to_string()));
    host.fs_read_line("/test33/cgroups/cpuset/prefix33/33/tasks", Err(Error::new(ErrorKind::NotFound, "fs_read_line()".to_string())));
    host.file_open("/test33/cgroups/cpuset/prefix33/pool/cpuset.cpus", Ok(File {
            lock: VecDeque::from(vec![Ok(())]),
            trim: VecDeque::from(vec![Ok(())]),
            read_string: VecDeque::from(vec![Ok("30-33".to_string())]),
            write: VecDeque::from(vec![("30,31,32".to_string(), None)]),
        }));

    pin_task(&mut cpuset, &mut host, 33, 2033).unwrap();

    host.fs_read_line("/test33/cgroups/cpuset/prefix33/33/tasks", Ok(String::new()));
    host.fs_remove_dir("/test33/cgroups/cpuset/prefix33/33", error("fs_remove_dir(33)"));

    assert_error(
        ErrorKind::Other,
        "Failed to release some of the pinned threads.",
        release_threads(&mut cpuset, &mut host)
    );

    host.verify_expectations();
}

#[test]
fn cpuset_release_threads_returns_error_if_uanble_to_open_pool_cpuset_cpus_file() {
    let mut cpuset = CpuSet::new("/test34/cgroups/cpuset", "prefix34").unwrap();
    let mut host = Host::new();

    host.fs_create_dir_all("/test34/cgroups/cpuset", Ok(()));
    host.fs_create_dir_all("/test34/cgroups/cpuset/prefix34", Ok(()));
    host.fs_create_dir_all("/test34/cgroups/cpuset/prefix34/pool", Ok(()));
    host.fs_create_dir_all("/test34/cgroups/cpuset/prefix34/34", Ok(()));
    host.source_mounted_at("/test34/cgroups/cpuset", Ok(true));
    host.fs_write("/test34/cgroups/cpuset/prefix34/cpuset.cpu_exclusive", "1", Ok(()));
    host.fs_write("/test34/cgroups/cpuset/prefix34/pool/cpuset.cpu_exclusive", "1", Ok(()));
    host.fs_write("/test34/cgroups/cpuset/prefix34/pool/tasks", "2034", Ok(()));
    host.fs_write("/test34/cgroups/cpuset/prefix34/pool/tasks", "3034", Ok(()));
    host.fs_write("/test34/cgroups/cpuset/prefix34/pool/tasks", "4034", Ok(()));
    host.fs_write("/test34/cgroups/cpuset/prefix34/34/cpuset.mems", "34", Ok(()));
    host.fs_write("/test34/cgroups/cpuset/prefix34/34/cpuset.cpu_exclusive", "1", Ok(()));
    host.fs_write("/test34/cgroups/cpuset/prefix34/34/cpuset.cpus", "34", Ok(()));
    host.fs_write("/test34/cgroups/cpuset/prefix34/34/tasks", "2034", Ok(()));
    host.fs_read_to_string("/test34/cgroups/cpuset/prefix34/cpuset.mems", Ok("34".to_string()));
    host.fs_read_to_string("/test34/cgroups/cpuset/prefix34/cpuset.cpus", Ok("30-34".to_string()));
    host.fs_read_to_string("/test34/cgroups/cpuset/prefix34/pool/cpuset.mems", Ok("34".to_string()));
    host.fs_read_to_string("/test34/cgroups/cpuset/prefix34/pool/cpuset.cpus", Ok("30-34".to_string()));
    host.fs_read_to_string("/test34/cgroups/cpuset/prefix34/pool/cpuset.cpus", Ok("30-34".to_string()));
    host.fs_read_to_string("/test34/cgroups/cpuset/tasks", Ok("2034\n3034\n4034\n".to_string()));
    host.fs_read_to_string("/proc/2034/status", Ok("Cpus_allowed_list:	30-34\n".to_string()));
    host.fs_read_to_string("/proc/3034/status", Ok("Cpus_allowed_list:	30-34\n".to_string()));
    host.fs_read_to_string("/proc/4034/status", Ok("Cpus_allowed_list:	30-34\n".to_string()));
    host.fs_read_to_string("/test34/cgroups/cpuset/prefix34/cpuset.mems", Ok("34".to_string()));
    host.fs_read_line("/test34/cgroups/cpuset/prefix34/34/tasks", Err(Error::new(ErrorKind::NotFound, "fs_read_line()".to_string())));
    host.file_open("/test34/cgroups/cpuset/prefix34/pool/cpuset.cpus", Ok(File {
            lock: VecDeque::from(vec![Ok(())]),
            trim: VecDeque::from(vec![Ok(())]),
            read_string: VecDeque::from(vec![Ok("30-34".to_string())]),
            write: VecDeque::from(vec![("30,31,32,33".to_string(), None)]),
        }));

    pin_task(&mut cpuset, &mut host, 34, 2034).unwrap();

    host.fs_read_line("/test34/cgroups/cpuset/prefix34/34/tasks", Ok(String::new()));
    host.fs_remove_dir("/test34/cgroups/cpuset/prefix34/34", Ok(()));
    host.file_open("/test34/cgroups/cpuset/prefix34/pool/cpuset.cpus", error("File::open(34)"));

    assert_error(
        ErrorKind::Other,
        "Failed to release some of the pinned threads.",
        release_threads(&mut cpuset, &mut host)
    );

    host.verify_expectations();
}

#[test]
fn cpuset_release_threads_returns_error_if_uanble_to_lock_pool_cpuset_cpus_file() {
    let mut cpuset = CpuSet::new("/test35/cgroups/cpuset", "prefix35").unwrap();
    let mut host = Host::new();

    host.fs_create_dir_all("/test35/cgroups/cpuset", Ok(()));
    host.fs_create_dir_all("/test35/cgroups/cpuset/prefix35", Ok(()));
    host.fs_create_dir_all("/test35/cgroups/cpuset/prefix35/pool", Ok(()));
    host.fs_create_dir_all("/test35/cgroups/cpuset/prefix35/35", Ok(()));
    host.source_mounted_at("/test35/cgroups/cpuset", Ok(true));
    host.fs_write("/test35/cgroups/cpuset/prefix35/cpuset.cpu_exclusive", "1", Ok(()));
    host.fs_write("/test35/cgroups/cpuset/prefix35/pool/cpuset.cpu_exclusive", "1", Ok(()));
    host.fs_write("/test35/cgroups/cpuset/prefix35/pool/tasks", "2035", Ok(()));
    host.fs_write("/test35/cgroups/cpuset/prefix35/pool/tasks", "3035", Ok(()));
    host.fs_write("/test35/cgroups/cpuset/prefix35/pool/tasks", "4035", Ok(()));
    host.fs_write("/test35/cgroups/cpuset/prefix35/35/cpuset.mems", "35", Ok(()));
    host.fs_write("/test35/cgroups/cpuset/prefix35/35/cpuset.cpu_exclusive", "1", Ok(()));
    host.fs_write("/test35/cgroups/cpuset/prefix35/35/cpuset.cpus", "35", Ok(()));
    host.fs_write("/test35/cgroups/cpuset/prefix35/35/tasks", "2035", Ok(()));
    host.fs_read_to_string("/test35/cgroups/cpuset/prefix35/cpuset.mems", Ok("35".to_string()));
    host.fs_read_to_string("/test35/cgroups/cpuset/prefix35/cpuset.cpus", Ok("30-35".to_string()));
    host.fs_read_to_string("/test35/cgroups/cpuset/prefix35/pool/cpuset.mems", Ok("35".to_string()));
    host.fs_read_to_string("/test35/cgroups/cpuset/prefix35/pool/cpuset.cpus", Ok("30-35".to_string()));
    host.fs_read_to_string("/test35/cgroups/cpuset/prefix35/pool/cpuset.cpus", Ok("30-35".to_string()));
    host.fs_read_to_string("/test35/cgroups/cpuset/tasks", Ok("2035\n3035\n4035\n".to_string()));
    host.fs_read_to_string("/proc/2035/status", Ok("Cpus_allowed_list:	30-35\n".to_string()));
    host.fs_read_to_string("/proc/3035/status", Ok("Cpus_allowed_list:	30-35\n".to_string()));
    host.fs_read_to_string("/proc/4035/status", Ok("Cpus_allowed_list:	30-35\n".to_string()));
    host.fs_read_to_string("/test35/cgroups/cpuset/prefix35/cpuset.mems", Ok("35".to_string()));
    host.fs_read_line("/test35/cgroups/cpuset/prefix35/35/tasks", Err(Error::new(ErrorKind::NotFound, "fs_read_line()".to_string())));
    host.file_open("/test35/cgroups/cpuset/prefix35/pool/cpuset.cpus", Ok(File {
            lock: VecDeque::from(vec![Ok(())]),
            trim: VecDeque::from(vec![Ok(())]),
            read_string: VecDeque::from(vec![Ok("30-35".to_string())]),
            write: VecDeque::from(vec![("30,31,32,33,34".to_string(), None)]),
        }));

    pin_task(&mut cpuset, &mut host, 35, 2035).unwrap();

    host.fs_read_line("/test35/cgroups/cpuset/prefix35/35/tasks", Ok(String::new()));
    host.fs_remove_dir("/test35/cgroups/cpuset/prefix35/35", Ok(()));
    host.file_open("/test35/cgroups/cpuset/prefix35/pool/cpuset.cpus", Ok(File {
        lock: VecDeque::from(vec![error("File::lock(35)")]),
        trim: VecDeque::from(vec![]),
        read_string: VecDeque::from(vec![]),
        write: VecDeque::from(vec![]),
    }));

    assert_error(
        ErrorKind::Other,
        "Failed to release some of the pinned threads.",
        release_threads(&mut cpuset, &mut host)
    );

    host.verify_expectations();
}

#[test]
fn cpuset_release_threads_returns_error_if_uanble_to_read_pool_cpuset_cpus_file() {
    let mut cpuset = CpuSet::new("/test36/cgroups/cpuset", "prefix36").unwrap();
    let mut host = Host::new();

    host.fs_create_dir_all("/test36/cgroups/cpuset", Ok(()));
    host.fs_create_dir_all("/test36/cgroups/cpuset/prefix36", Ok(()));
    host.fs_create_dir_all("/test36/cgroups/cpuset/prefix36/pool", Ok(()));
    host.fs_create_dir_all("/test36/cgroups/cpuset/prefix36/36", Ok(()));
    host.source_mounted_at("/test36/cgroups/cpuset", Ok(true));
    host.fs_write("/test36/cgroups/cpuset/prefix36/cpuset.cpu_exclusive", "1", Ok(()));
    host.fs_write("/test36/cgroups/cpuset/prefix36/pool/cpuset.cpu_exclusive", "1", Ok(()));
    host.fs_write("/test36/cgroups/cpuset/prefix36/pool/tasks", "2036", Ok(()));
    host.fs_write("/test36/cgroups/cpuset/prefix36/pool/tasks", "3036", Ok(()));
    host.fs_write("/test36/cgroups/cpuset/prefix36/pool/tasks", "4036", Ok(()));
    host.fs_write("/test36/cgroups/cpuset/prefix36/36/cpuset.mems", "36", Ok(()));
    host.fs_write("/test36/cgroups/cpuset/prefix36/36/cpuset.cpu_exclusive", "1", Ok(()));
    host.fs_write("/test36/cgroups/cpuset/prefix36/36/cpuset.cpus", "36", Ok(()));
    host.fs_write("/test36/cgroups/cpuset/prefix36/36/tasks", "4036", Ok(()));
    host.fs_read_to_string("/test36/cgroups/cpuset/prefix36/cpuset.mems", Ok("36".to_string()));
    host.fs_read_to_string("/test36/cgroups/cpuset/prefix36/cpuset.cpus", Ok("30-36".to_string()));
    host.fs_read_to_string("/test36/cgroups/cpuset/prefix36/pool/cpuset.mems", Ok("36".to_string()));
    host.fs_read_to_string("/test36/cgroups/cpuset/prefix36/pool/cpuset.cpus", Ok("30-36".to_string()));
    host.fs_read_to_string("/test36/cgroups/cpuset/prefix36/pool/cpuset.cpus", Ok("32-36".to_string()));
    host.fs_read_to_string("/test36/cgroups/cpuset/tasks", Ok("2036\n3036\n4036\n".to_string()));
    host.fs_read_to_string("/proc/2036/status", Ok("Cpus_allowed_list:	32-36\n".to_string()));
    host.fs_read_to_string("/proc/3036/status", Ok("Cpus_allowed_list:	32-36\n".to_string()));
    host.fs_read_to_string("/proc/4036/status", Ok("Cpus_allowed_list:	32-36\n".to_string()));
    host.fs_read_to_string("/test36/cgroups/cpuset/prefix36/cpuset.mems", Ok("36".to_string()));
    host.fs_read_line("/test36/cgroups/cpuset/prefix36/36/tasks", Err(Error::new(ErrorKind::NotFound, "fs_read_line()".to_string())));
    host.file_open("/test36/cgroups/cpuset/prefix36/pool/cpuset.cpus", Ok(File {
            lock: VecDeque::from(vec![Ok(())]),
            trim: VecDeque::from(vec![Ok(())]),
            read_string: VecDeque::from(vec![Ok("32-36".to_string())]),
            write: VecDeque::from(vec![("32,33,34,35".to_string(), None)]),
        }));

    pin_task(&mut cpuset, &mut host, 36, 4036).unwrap();

    host.fs_read_line("/test36/cgroups/cpuset/prefix36/36/tasks", Ok(String::new()));
    host.fs_remove_dir("/test36/cgroups/cpuset/prefix36/36", Ok(()));
    host.file_open("/test36/cgroups/cpuset/prefix36/pool/cpuset.cpus", Ok(File {
            lock: VecDeque::from(vec![Ok(())]),
            trim: VecDeque::from(vec![]),
            read_string: VecDeque::from(vec![error("File::read_string(36)")]),
            write: VecDeque::from(vec![]),
        }));

    assert_error(
        ErrorKind::Other,
        "Failed to release some of the pinned threads.",
        release_threads(&mut cpuset, &mut host)
    );

    host.verify_expectations();
}

#[test]
fn cpuset_release_threads_returns_error_if_uanble_to_trim_pool_cpuset_cpus_file() {
    let mut cpuset = CpuSet::new("/test37/cgroups/cpuset", "prefix37").unwrap();
    let mut host = Host::new();

    host.fs_create_dir_all("/test37/cgroups/cpuset", Ok(()));
    host.fs_create_dir_all("/test37/cgroups/cpuset/prefix37", Ok(()));
    host.fs_create_dir_all("/test37/cgroups/cpuset/prefix37/pool", Ok(()));
    host.fs_create_dir_all("/test37/cgroups/cpuset/prefix37/37", Ok(()));
    host.source_mounted_at("/test37/cgroups/cpuset", Ok(true));
    host.fs_write("/test37/cgroups/cpuset/prefix37/cpuset.cpu_exclusive", "1", Ok(()));
    host.fs_write("/test37/cgroups/cpuset/prefix37/pool/cpuset.cpu_exclusive", "1", Ok(()));
    host.fs_write("/test37/cgroups/cpuset/prefix37/pool/tasks", "2037", Ok(()));
    host.fs_write("/test37/cgroups/cpuset/prefix37/pool/tasks", "3037", Ok(()));
    host.fs_write("/test37/cgroups/cpuset/prefix37/pool/tasks", "4037", Ok(()));
    host.fs_write("/test37/cgroups/cpuset/prefix37/37/cpuset.mems", "37", Ok(()));
    host.fs_write("/test37/cgroups/cpuset/prefix37/37/cpuset.cpu_exclusive", "1", Ok(()));
    host.fs_write("/test37/cgroups/cpuset/prefix37/37/cpuset.cpus", "37", Ok(()));
    host.fs_write("/test37/cgroups/cpuset/prefix37/37/tasks", "4037", Ok(()));
    host.fs_read_to_string("/test37/cgroups/cpuset/prefix37/cpuset.mems", Ok("37".to_string()));
    host.fs_read_to_string("/test37/cgroups/cpuset/prefix37/cpuset.cpus", Ok("32-37".to_string()));
    host.fs_read_to_string("/test37/cgroups/cpuset/prefix37/pool/cpuset.mems", Ok("37".to_string()));
    host.fs_read_to_string("/test37/cgroups/cpuset/prefix37/pool/cpuset.cpus", Ok("32-37".to_string()));
    host.fs_read_to_string("/test37/cgroups/cpuset/prefix37/pool/cpuset.cpus", Ok("32-37".to_string()));
    host.fs_read_to_string("/test37/cgroups/cpuset/tasks", Ok("2037\n3037\n4037\n".to_string()));
    host.fs_read_to_string("/proc/2037/status", Ok("Cpus_allowed_list:	32-37\n".to_string()));
    host.fs_read_to_string("/proc/3037/status", Ok("Cpus_allowed_list:	32-37\n".to_string()));
    host.fs_read_to_string("/proc/4037/status", Ok("Cpus_allowed_list:	32-37\n".to_string()));
    host.fs_read_to_string("/test37/cgroups/cpuset/prefix37/cpuset.mems", Ok("37".to_string()));
    host.fs_read_line("/test37/cgroups/cpuset/prefix37/37/tasks", Err(Error::new(ErrorKind::NotFound, "fs_read_line()".to_string())));
    host.file_open("/test37/cgroups/cpuset/prefix37/pool/cpuset.cpus", Ok(File {
            lock: VecDeque::from(vec![Ok(())]),
            trim: VecDeque::from(vec![Ok(())]),
            read_string: VecDeque::from(vec![Ok("32-37".to_string())]),
            write: VecDeque::from(vec![("32,33,34,35,36".to_string(), None)]),
        }));

    pin_task(&mut cpuset, &mut host, 37, 4037).unwrap();

    host.fs_read_line("/test37/cgroups/cpuset/prefix37/37/tasks", Ok("\n".to_string()));
    host.fs_remove_dir("/test37/cgroups/cpuset/prefix37/37", Ok(()));
    host.file_open("/test37/cgroups/cpuset/prefix37/pool/cpuset.cpus", Ok(File {
            lock: VecDeque::from(vec![Ok(())]),
            trim: VecDeque::from(vec![error("File::trim(37)")]),
            read_string: VecDeque::from(vec![Ok("32-36".to_string())]),
            write: VecDeque::from(vec![]),
        }));

    assert_error(
        ErrorKind::Other,
        "Failed to release some of the pinned threads.",
        release_threads(&mut cpuset, &mut host)
    );

    host.verify_expectations();
}

#[test]
fn cpuset_release_threads_returns_error_if_uanble_to_write_pool_cpuset_cpus_file() {
    let mut cpuset = CpuSet::new("/test38/cgroups/cpuset", "prefix38").unwrap();
    let mut host = Host::new();

    host.fs_create_dir_all("/test38/cgroups/cpuset", Ok(()));
    host.fs_create_dir_all("/test38/cgroups/cpuset/prefix38", Ok(()));
    host.fs_create_dir_all("/test38/cgroups/cpuset/prefix38/pool", Ok(()));
    host.fs_create_dir_all("/test38/cgroups/cpuset/prefix38/38", Ok(()));
    host.source_mounted_at("/test38/cgroups/cpuset", Ok(true));
    host.fs_write("/test38/cgroups/cpuset/prefix38/cpuset.cpu_exclusive", "1", Ok(()));
    host.fs_write("/test38/cgroups/cpuset/prefix38/pool/cpuset.cpu_exclusive", "1", Ok(()));
    host.fs_write("/test38/cgroups/cpuset/prefix38/pool/tasks", "2038", Ok(()));
    host.fs_write("/test38/cgroups/cpuset/prefix38/pool/tasks", "3038", Ok(()));
    host.fs_write("/test38/cgroups/cpuset/prefix38/pool/tasks", "4038", Ok(()));
    host.fs_write("/test38/cgroups/cpuset/prefix38/38/cpuset.mems", "38", Ok(()));
    host.fs_write("/test38/cgroups/cpuset/prefix38/38/cpuset.cpu_exclusive", "1", Ok(()));
    host.fs_write("/test38/cgroups/cpuset/prefix38/38/cpuset.cpus", "38", Ok(()));
    host.fs_write("/test38/cgroups/cpuset/prefix38/38/tasks", "1038", Ok(()));
    host.fs_read_to_string("/test38/cgroups/cpuset/prefix38/cpuset.mems", Ok("38".to_string()));
    host.fs_read_to_string("/test38/cgroups/cpuset/prefix38/cpuset.cpus", Ok("32-38".to_string()));
    host.fs_read_to_string("/test38/cgroups/cpuset/prefix38/pool/cpuset.mems", Ok("38".to_string()));
    host.fs_read_to_string("/test38/cgroups/cpuset/prefix38/pool/cpuset.cpus", Ok("32-38".to_string()));
    host.fs_read_to_string("/test38/cgroups/cpuset/prefix38/pool/cpuset.cpus", Ok("32-38".to_string()));
    host.fs_read_to_string("/test38/cgroups/cpuset/tasks", Ok("2038\n3038\n4038\n".to_string()));
    host.fs_read_to_string("/proc/2038/status", Ok("Cpus_allowed_list:	32-38\n".to_string()));
    host.fs_read_to_string("/proc/3038/status", Ok("Cpus_allowed_list:	32-38\n".to_string()));
    host.fs_read_to_string("/proc/4038/status", Ok("Cpus_allowed_list:	32-38\n".to_string()));
    host.fs_read_to_string("/test38/cgroups/cpuset/prefix38/cpuset.mems", Ok("38".to_string()));
    host.fs_read_line("/test38/cgroups/cpuset/prefix38/38/tasks", Err(Error::new(ErrorKind::NotFound, "fs_read_line()".to_string())));
    host.file_open("/test38/cgroups/cpuset/prefix38/pool/cpuset.cpus", Ok(File {
            lock: VecDeque::from(vec![Ok(())]),
            trim: VecDeque::from(vec![Ok(())]),
            read_string: VecDeque::from(vec![Ok("32-38".to_string())]),
            write: VecDeque::from(vec![("32,33,34,35,36,37".to_string(), None)]),
        }));

    pin_task(&mut cpuset, &mut host, 38, 1038).unwrap();

    host.fs_read_line("/test38/cgroups/cpuset/prefix38/38/tasks", Ok("\n".to_string()));
    host.fs_remove_dir("/test38/cgroups/cpuset/prefix38/38", Ok(()));
    host.file_open("/test38/cgroups/cpuset/prefix38/pool/cpuset.cpus", Ok(File {
            lock: VecDeque::from(vec![Ok(())]),
            trim: VecDeque::from(vec![Ok(())]),
            read_string: VecDeque::from(vec![Ok("32-37".to_string())]),
            write: VecDeque::from(vec![
                ("32,33,34,35,36,37,38".to_string(), Some(Error::new(ErrorKind::Other, "File::write(38)".to_string()))),
            ]),
        }));

    assert_error(
        ErrorKind::Other,
        "Failed to release some of the pinned threads.",
        release_threads(&mut cpuset, &mut host)
    );

    host.verify_expectations();
}

#[test]
fn cpuset_release_threads_returns_all_pinned_threads_back_to_pool() {
    let mut cpuset = CpuSet::new("/test39/cgroups/cpuset", "prefix39").unwrap();
    let mut host = Host::new();

    host.fs_create_dir_all("/test39/cgroups/cpuset", Ok(()));
    host.fs_create_dir_all("/test39/cgroups/cpuset/prefix39", Ok(()));
    host.fs_create_dir_all("/test39/cgroups/cpuset/prefix39/pool", Ok(()));
    host.fs_create_dir_all("/test39/cgroups/cpuset/prefix39/39", Ok(()));
    host.source_mounted_at("/test39/cgroups/cpuset", Ok(true));
    host.fs_write("/test39/cgroups/cpuset/prefix39/cpuset.cpu_exclusive", "1", Ok(()));
    host.fs_write("/test39/cgroups/cpuset/prefix39/pool/cpuset.cpu_exclusive", "1", Ok(()));
    host.fs_write("/test39/cgroups/cpuset/prefix39/pool/tasks", "2039", Ok(()));
    host.fs_write("/test39/cgroups/cpuset/prefix39/pool/tasks", "3039", Ok(()));
    host.fs_write("/test39/cgroups/cpuset/prefix39/pool/tasks", "4039", Ok(()));
    host.fs_write("/test39/cgroups/cpuset/prefix39/39/cpuset.mems", "39", Ok(()));
    host.fs_write("/test39/cgroups/cpuset/prefix39/39/cpuset.cpu_exclusive", "1", Ok(()));
    host.fs_write("/test39/cgroups/cpuset/prefix39/39/cpuset.cpus", "39", Ok(()));
    host.fs_write("/test39/cgroups/cpuset/prefix39/39/tasks", "1039", Ok(()));
    host.fs_read_to_string("/test39/cgroups/cpuset/prefix39/cpuset.mems", Ok("39".to_string()));
    host.fs_read_to_string("/test39/cgroups/cpuset/prefix39/cpuset.cpus", Ok("35-39".to_string()));
    host.fs_read_to_string("/test39/cgroups/cpuset/prefix39/pool/cpuset.mems", Ok("39".to_string()));
    host.fs_read_to_string("/test39/cgroups/cpuset/prefix39/pool/cpuset.cpus", Ok("35-39".to_string()));
    host.fs_read_to_string("/test39/cgroups/cpuset/prefix39/pool/cpuset.cpus", Ok("35-39".to_string()));
    host.fs_read_to_string("/test39/cgroups/cpuset/tasks", Ok("2039\n3039\n4039\n".to_string()));
    host.fs_read_to_string("/proc/2039/status", Ok("Cpus_allowed_list:	35-39\n".to_string()));
    host.fs_read_to_string("/proc/3039/status", Ok("Cpus_allowed_list:	35-39\n".to_string()));
    host.fs_read_to_string("/proc/4039/status", Ok("Cpus_allowed_list:	35-39\n".to_string()));
    host.fs_read_to_string("/test39/cgroups/cpuset/prefix39/cpuset.mems", Ok("39".to_string()));
    host.fs_read_line("/test39/cgroups/cpuset/prefix39/39/tasks", Err(Error::new(ErrorKind::NotFound, "fs_read_line()".to_string())));
    host.file_open("/test39/cgroups/cpuset/prefix39/pool/cpuset.cpus", Ok(File {
            lock: VecDeque::from(vec![Ok(())]),
            trim: VecDeque::from(vec![Ok(())]),
            read_string: VecDeque::from(vec![Ok("35-39".to_string())]),
            write: VecDeque::from(vec![("35,36,37,38".to_string(), None)]),
        }));

    pin_task(&mut cpuset, &mut host, 39, 1039).unwrap();

    host.fs_read_line("/test39/cgroups/cpuset/prefix39/39/tasks", Ok(String::new()));
    host.fs_remove_dir("/test39/cgroups/cpuset/prefix39/39", Ok(()));
    host.file_open("/test39/cgroups/cpuset/prefix39/pool/cpuset.cpus", Ok(File {
            lock: VecDeque::from(vec![Ok(())]),
            trim: VecDeque::from(vec![Ok(())]),
            read_string: VecDeque::from(vec![Ok("35-38".to_string())]),
            write: VecDeque::from(vec![("35,36,37,38,39".to_string(), None)]),
        }));

    assert!(release_threads(&mut cpuset, &mut host).is_ok());

    host.verify_expectations();
}

/// Lets a host serve whatever is asked for, and notes it down.
fn serve(cpuset: &mut CpuSet, pool: &mut String, asked: &mut Vec<String>) -> Result<(), Error> {
    loop {
        match cpuset.next_step() {
            Step::Finished(result) => return result,
            Step::Perform(action) => {
                asked.push(format!("{:?}", action));
                let reply = match action {
                    Action::ReadToString(path) => Reply::Text(match path.as_str() {
                        "/c/tasks" => "7\n8\n".to_string(),
                        "/proc/7/status" => "Cpus_allowed_list:\t0-3\n".to_string(),
                        "/proc/8/status" => "Cpus_allowed_list:\t0-1\n".to_string(),
                        "/c/p/pool/cpuset.cpus" => pool.clone(),
                        _ => "0".to_string(),
                    }),
                    Action::ReadLine(_) => Reply::Text("\n".to_string()),
                    Action::ReadString => Reply::Text(pool.clone()),
                    Action::WriteString(list) => {
                        *pool = list;
                        Reply::Done
                    }
                    Action::SourceMountedAt(_, _) => Reply::Flag(true),
                    _ => Reply::Done,
                };
                assert!(cpuset.accepts(&reply));
                cpuset.reply(reply);
            }
        }
    }
}

#[test]
fn pinned_cpus_leave_the_pool_and_return_to_it() {
    let mut cpuset = CpuSet::new("/c", "p").unwrap();
    let mut pool = "0-3\n".to_string();
    let mut asked = vec![];

    cpuset.pin_task(2, 100);
    serve(&mut cpuset, &mut pool, &mut asked).unwrap();
    assert_eq!("0,1,3", pool);
    assert!(cpuset.is_isolated(2));
    assert!(!cpuset.is_isolated(0));
    assert_eq!("Write(\"/c/p/2/tasks\", \"100\")", asked.last().unwrap());
    assert!(asked.contains(&"Write(\"/c/p/2/cpuset.cpus\", \"2\")".to_string()));
    assert!(asked.contains(&"Write(\"/c/p/pool/tasks\", \"7\")".to_string()));
    assert!(!asked.contains(&"Write(\"/c/p/pool/tasks\", \"8\")".to_string()));

    asked.clear();
    cpuset.pin_task(2, 101);
    serve(&mut cpuset, &mut pool, &mut asked).unwrap();
    assert_eq!("0,1,3", pool);
    assert_eq!("Write(\"/c/p/2/tasks\", \"101\")", asked.last().unwrap());
    assert!(!asked.iter().any(|action| action.starts_with("WriteString")));

    cpuset.pin_task(0, 102);
    serve(&mut cpuset, &mut pool, &mut asked).unwrap();
    assert_eq!("1,3", pool);

    asked.clear();
    cpuset.release_threads();
    serve(&mut cpuset, &mut pool, &mut asked).unwrap();
    assert_eq!("1,3,2,0", pool);
    assert!(!cpuset.is_isolated(2));
    assert!(!cpuset.is_isolated(0));
    assert_eq!(14, asked.len());
    assert_eq!("RemoveDir(\"/c/p/2\")", asked[1]);
    assert_eq!("RemoveDir(\"/c/p/0\")", asked[8]);

    asked.clear();
    cpuset.release_threads();
    serve(&mut cpuset, &mut pool, &mut asked).unwrap();
    assert_eq!(0, asked.len());
}

#[test]
fn every_operation_ends_if_everything_fails() {
    let mut cpuset = CpuSet::new("/c", "p").unwrap();
    cpuset.pin_task(1, 2);
    for _ in 0..2 {
        if let Step::Perform(_) = cpuset.next_step() {
            cpuset.reply(Reply::Failed(Error::other("no".to_string())));
        }
    }
    match cpuset.next_step() {
        Step::Finished(result) => assert_error(
            ErrorKind::Other,
            "Failed to isolate the host cpu thread `1` - no",
            result,
        ),
        Step::Perform(_) => panic!("the operation is expected to be finished"),
    }
    assert!(!cpuset.is_isolated(1));
}

#[test]
fn malformed_lists_of_cpus_are_not_accepted() {
    let mut cpuset = CpuSet::new("/c", "p").unwrap();
    cpuset.pin_task(1, 2);
    while let Step::Perform(action) = cpuset.next_step() {
        match action {
            Action::ReadToString(path) if path == "/c/p/pool/cpuset.cpus" => {
                if !cpuset.accepts(&Reply::Text("x".to_string())) {
                    assert!(cpuset.accepts(&Reply::Text(" 0-3\n".to_string())));
                    return;
                }
                cpuset.reply(Reply::Text("0".to_string()));
            }
            Action::SourceMountedAt(_, _) => cpuset.reply(Reply::Flag(true)),
            _ => cpuset.reply(Reply::Text("0".to_string())),
        }
    }
    panic!("the pool was not read");
}

#[test]
fn names_of_the_current_directory_are_prefixes() {
    assert!(CpuSet::new("/c", ".").is_ok());
    assert!(CpuSet::new("/c", "p/").is_ok());
    assert!(CpuSet::new("/c", "").is_err());
    assert!(CpuSet::new("", "p").is_err());
}
