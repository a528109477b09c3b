use qemu_launcher::json_value::{parse_json, Json};
use qemu_launcher::topology::{transform_vcpu_info, Topology};
use qemu_launcher::variables::Variables;

#[test]
fn variables_hold_one_value_for_each_name() {
    let mut vars = Variables::new();
    assert!(vars.is_empty());
    vars.insert("A".to_string(), "1".to_string());
    vars.insert("B".to_string(), "2".to_string());
    vars.insert("A".to_string(), "3".to_string());

    assert!(!vars.is_empty());
    assert_eq!(Some(&"3".to_string()), vars.get("A"));
    assert_eq!(Some(&"2".to_string()), vars.get("B"));
    assert_eq!(None, vars.get("C"));
    assert_eq!(
        &vec![
            ("A".to_string(), "3".to_string()),
            ("B".to_string(), "2".to_string())
        ],
        vars.pairs()
    );
}

#[test]
fn topology_holds_one_task_for_each_vcpu() {
    let mut topology = Topology::new();
    topology.insert((0, 0, 0), 10);
    topology.insert((0, 0, 1), 11);
    topology.insert((0, 0, 0), 12);

    assert_eq!(Some(12), topology.get_thread_id(0, 0, 0));
    assert_eq!(Some(11), topology.get_thread_id(0, 0, 1));
    assert_eq!(None, topology.get_thread_id(0, 1, 0));
    let mut tasks = topology.get_task_ids();
    tasks.sort();
    assert_eq!(vec![11, 12], tasks);
}

fn cpus(text: &str) -> Vec<Json> {
    match parse_json(text).unwrap() {
        Json::Array(_, items) => items,
        _ => panic!("an array is expected"),
    }
}

#[test]
fn last_task_of_a_vcpu_counts() {
    let list = cpus(
        "[{\"thread-id\": 1, \"props\": {\"core-id\": 2, \"thread-id\": 3, \"socket-id\": 4}},\
          {\"thread-id\": 9, \"props\": {\"core-id\": 2, \"thread-id\": 3, \"socket-id\": 4}}]",
    );
    let topology = transform_vcpu_info(&list).unwrap();
    assert_eq!(Some(9), topology.get_thread_id(4, 2, 3));
    assert_eq!(vec![9], topology.get_task_ids());
}

#[test]
fn second_vcpu_is_named_in_its_error() {
    let list = cpus(
        "[{\"thread-id\": 1, \"props\": {\"core-id\": 2, \"thread-id\": 3, \"socket-id\": 4}}, {}]",
    );
    assert_eq!(
        "`return.1.thread-id` is invalid, a positive number is expected, but got: `null`.",
        transform_vcpu_info(&list).unwrap_err().to_string()
    );
    let list = cpus("[{\"thread-id\": 1}]");
    assert_eq!(
        "Invalid vCPU info, expected `props` to be an object, but got: `null`.",
        transform_vcpu_info(&list).unwrap_err().to_string()
    );
    let list = cpus("[{\"thread-id\": 1, \"props\": {\"core-id\": 2.5}}]");
    assert_eq!(
        "`return.0.props.core-id` is invalid, a positive number is expected, but got: `2.5`.",
        transform_vcpu_info(&list).unwrap_err().to_string()
    );
}

#[test]
fn empty_list_of_vcpus_gives_no_tasks() {
    let topology = transform_vcpu_info(&vec![]).unwrap();
    assert_eq!(Vec::<usize>::new(), topology.get_task_ids());
}
