use qemu_launcher::config::Config;
use qemu_launcher::launcher::{config_file_path, handle_vcpu_pinning, usage, Order};
use qemu_launcher::topology::Topology;

fn config(options: &str) -> Config {
    let text = format!("launcher:\n  binary: qemu\n{}\nqemu: []\n", options);
    Config::new(&text).unwrap()
}

fn topology() -> Topology {
    let mut topology = Topology::new();
    topology.insert((0, 0, 0), 1000);
    topology.insert((0, 0, 1), 1001);
    topology
}

#[test]
fn usage_names_the_program_and_its_variables() {
    let text = usage("launcher");
    assert!(text.starts_with("Usage: launcher [-v] [-d] [-h] <vm-name>\n\n-h  display this help message\n"));
    assert!(text.contains("- QEMU_LAUNCHER_CONFIG_DIR - a path"));
    assert!(text.contains("\n                                    default: /sys/fs/cgroup/cpuset\n"));
    assert!(text.ends_with("                                default: qemu\n\n"));
    assert_eq!(13, text.lines().count());
}

#[test]
fn configuration_files_are_named_after_their_machines() {
    assert_eq!(
        "/usr/local/etc/qemu-launcher/foo.yml",
        config_file_path("/usr/local/etc/qemu-launcher", "foo")
    );
    assert_eq!("/etc/my-vms/bar.yml", config_file_path("/etc/my-vms", "bar"));
}

#[test]
fn each_pin_gives_one_order() {
    let config = config("  vcpu_pinning: {0: {0: {1: 6, 0: 2, 7: 3}}}");
    let orders = handle_vcpu_pinning(&topology(), &config);
    assert_eq!(3, orders.len());
    assert!(matches!(&orders[0], Order::Pin(6, 1001, failure)
        if failure == "Failed to pin the vCPU `0.0.1` core task ID `6` to the host CPU `1001`: "));
    assert!(matches!(&orders[1], Order::Pin(2, 1000, _)));
    assert!(matches!(&orders[2], Order::Report(text)
        if text == "The vCPU core `0.0.7` does not exist, unable to pin."));
}

#[test]
fn tasks_get_scheduler_and_priority_if_both_are_given() {
    let only = config("  scheduler: fifo");
    assert_eq!(0, handle_vcpu_pinning(&topology(), &only).len());
    let only = config("  priority: 3");
    assert_eq!(0, handle_vcpu_pinning(&topology(), &only).len());

    let both = config("  scheduler: fifo\n  priority: 3");
    let orders = handle_vcpu_pinning(&topology(), &both);
    assert_eq!(2, orders.len());
    let mut tasks = vec![];
    for order in &orders {
        match order {
            Order::Run(command, arguments, failure) => {
                assert_eq!("chrt", command);
                assert_eq!(vec!["--fifo", "--pid", "3"], arguments[..3]);
                assert_eq!(
                    &format!("Failed to change vCPU thread `{}` priority: ", arguments[3]),
                    failure
                );
                tasks.push(arguments[3].clone());
            }
            _ => panic!("a command is expected"),
        }
    }
    tasks.sort();
    assert_eq!(vec!["1000", "1001"], tasks);
}

#[test]
fn debugging_shows_the_mapping() {
    let config = config("  debug: true\n  vcpu_pinning: {0: {0: {0: 2}}}");
    let orders = handle_vcpu_pinning(&topology(), &config);
    assert_eq!(2, orders.len());
    assert!(matches!(&orders[0], Order::Report(text)
        if text == "Pinning the vCPU `0.0.0` to the host CPU `2`."));
    assert!(matches!(&orders[1], Order::Pin(2, 1000, _)));
}
