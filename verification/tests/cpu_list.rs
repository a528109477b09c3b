use qemu_launcher::cpu_list::{
    is_valid_cpus_list, list_cpus, parse_cpus_file, parse_cpus_list, read_cpus_list, remove_cpu,
    same_cpus,
};
use qemu_launcher::error::ErrorKind;
use qemu_launcher::task_status::{get_cpus_from_task_status, get_task_cpus, is_status_readable};

#[test]
fn written_cpus_are_read_back() {
    for cpus in [vec![], vec![0], vec![3, 1, 2], vec![7, 7], vec![usize::MAX]] {
        assert_eq!(cpus, parse_cpus_list(&list_cpus(&cpus)));
    }
    assert_eq!("3,1,2", list_cpus(&vec![3, 1, 2]));
    assert_eq!("", list_cpus(&vec![]));
}

#[test]
fn files_are_read_without_the_space_around_the_list() {
    assert_eq!(vec![0, 1, 2, 5], parse_cpus_file("\n 0-2,5 \n"));
    assert_eq!(Vec::<usize>::new(), parse_cpus_file(" \n"));
}

#[test]
fn backward_ranges_are_empty() {
    assert_eq!(vec![9], parse_cpus_list("5-3,9"));
    assert_eq!(vec![4], parse_cpus_list("4-4"));
    assert_eq!(vec![1, 2], parse_cpus_list("+1-+2"));
}

#[test]
fn malformed_lists_are_told_apart() {
    for text in ["h", "0-x", "-1", "0-1-2", ",", "1,", "1,,2", " 1", "1 ", "1;2"] {
        assert!(!is_valid_cpus_list(text), "{}", text);
        assert_eq!(None, read_cpus_list(text));
    }
    assert!(!is_valid_cpus_list("18446744073709551616"));
    assert!(!is_valid_cpus_list("18446744073709551615-18446744073709551615"));
    assert!(is_valid_cpus_list(""));
    assert!(is_valid_cpus_list("18446744073709551615"));
}

#[test]
fn taken_cpus_are_gone_and_can_be_put_back() {
    let pool = vec![0, 1, 2, 3];
    let rest = remove_cpu(&pool, 2);
    assert_eq!(vec![0, 1, 3], rest);
    assert_eq!(pool, remove_cpu(&pool, 9));
    assert_eq!(vec![1], remove_cpu(&vec![2, 1, 2], 2));

    let mut reread = parse_cpus_file(&list_cpus(&rest));
    reread.push(2);
    assert_eq!("0,1,3,2", list_cpus(&reread));
    reread.sort();
    assert_eq!(pool, reread);

    let mut doubled = remove_cpu(&vec![5, 1, 5, 2], 1);
    assert_eq!(vec![5, 5, 2], doubled);
    doubled.push(1);
    doubled.sort();
    assert_eq!(vec![1, 2, 5, 5], doubled);
    assert_eq!("1", list_cpus(&vec![1]));
}

#[test]
fn lists_are_the_same_in_the_same_order_only() {
    assert!(same_cpus(&vec![1, 2], &vec![1, 2]));
    assert!(!same_cpus(&vec![1, 2], &vec![2, 1]));
    assert!(!same_cpus(&vec![1, 2], &vec![1, 2, 3]));
    assert!(same_cpus(&vec![], &vec![]));
}

#[test]
fn status_of_a_task_gives_its_cpus() {
    let status = "Name:\tbash\nCpus_allowed:\tf\nCpus_allowed_list:\t0-3\nMems_allowed:\t1\n";
    assert_eq!("0-3", get_cpus_from_task_status(status).unwrap());
    assert_eq!(vec![0, 1, 2, 3], get_task_cpus("17", status).unwrap());
    assert!(is_status_readable(status));
}

#[test]
fn malformed_status_is_an_error() {
    let error = get_cpus_from_task_status("Name:\tbash\nno separator\n").unwrap_err();
    assert_eq!(ErrorKind::Other, error.kind());
    assert_eq!("malformed process status field: no separator", error.to_string());
    let error = get_task_cpus("17", "a:\tb:\tc\n").unwrap_err();
    assert_eq!(ErrorKind::Other, error.kind());
    assert_eq!("Task ID 17: malformed process status field: a:\tb:\tc", error.to_string());
}

#[test]
fn status_without_the_list_is_an_error() {
    let error = get_task_cpus("17", "Name:\tbash\n").unwrap_err();
    assert_eq!(
        "Task ID 17: process status does not contain the `Cpus_allowed_list` field.",
        error.to_string()
    );
    assert!(is_status_readable("Name:\tbash\n"));
}

#[test]
fn status_with_a_malformed_list_is_not_readable() {
    assert!(!is_status_readable("Cpus_allowed_list:\tx\n"));
    assert!(!is_status_readable("Cpus_allowed_list:\t 0\n"));
    assert!(is_status_readable("Cpus_allowed_list:\t\n"));
}
