//! What the launcher does around qemu.
use crate::config::{Config, ConfigView};
use crate::text::{decimal_text, usize_text};
use crate::topology::{Topology, VcpuId};
use crate::vcpu_pinning::Pin;
use vstd::prelude::*;

verus! {

/// How the launcher is used.
pub open spec fn usage_text(name: Seq<char>) -> Seq<char> {
    "Usage: "@ + name
        + " [-v] [-d] [-h] <vm-name>\n\n"@
        + "-h  display this help message\n"@
        + "-v  enable verbose mode. In this mode additional information about program execution flow will be printed.\n"@
        + "-d  enable debugging mode. In this mode a lot of information about pretty much every step taken by the application will be printed.\n\n"@
        + "Supported environment variables:\n"@
        + "- QEMU_LAUNCHER_CONFIG_DIR - a path to the directory where virtual machine configuration files are stored.\n"@
        + "- QEMU_LAUNCHER_CPUSET_MOUNT_PATH - a path to the directory where a cpuset cgroup tree will be mounted.\n"@
        + "                                    default: /sys/fs/cgroup/cpuset\n"@
        + "- QEMU_LAUNCHER_CPUSET_PREFIX - a prefix (directory) under the mount path where qemu cpusets will be created\n"@
        + "                                default: qemu\n\n"@
}

/// Says how the launcher is used.
pub fn usage(name: &str) -> (r: String)
    ensures
        r@ == usage_text(name@),
{
    "Usage: ".to_owned().concat(name).concat(
        " [-v] [-d] [-h] <vm-name>\n\n",
    ).concat(
        "-h  display this help message\n",
    ).concat(
        "-v  enable verbose mode. In this mode additional information about program execution flow will be printed.\n",
    ).concat(
        "-d  enable debugging mode. In this mode a lot of information about pretty much every step taken by the application will be printed.\n\n",
    ).concat(
        "Supported environment variables:\n",
    ).concat(
        "- QEMU_LAUNCHER_CONFIG_DIR - a path to the directory where virtual machine configuration files are stored.\n",
    ).concat(
        "- QEMU_LAUNCHER_CPUSET_MOUNT_PATH - a path to the directory where a cpuset cgroup tree will be mounted.\n",
    ).concat(
        "                                    default: /sys/fs/cgroup/cpuset\n",
    ).concat(
        "- QEMU_LAUNCHER_CPUSET_PREFIX - a prefix (directory) under the mount path where qemu cpusets will be created\n",
    ).concat(
        "                                default: qemu\n\n",
    )
}

/// The path of the configuration file of a machine.
pub fn config_file_path(directory: &str, machine: &str) -> (r: String)
    ensures
        r@ == directory@ + "/"@ + machine@ + ".yml"@,
{
    directory.to_owned().concat("/").concat(machine).concat(".yml")
}

/// Something to do once the tasks of the vCPUs are known.
#[derive(Debug)]
pub enum Order {
    /// Tell the user something.
    Report(String),
    /// Pin a task (second) to a host CPU (first). If that fails, tell the user
    /// the text, and behind it the reason.
    Pin(usize, usize, String),
    /// Run a command with some arguments. If that fails, tell the user the text,
    /// and behind it the reason.
    Run(String, Vec<String>, String),
}

/// What an order says.
pub enum OrderView {
    Report(Seq<char>),
    Pin(usize, usize, Seq<char>),
    Run(Seq<char>, Seq<Seq<char>>, Seq<char>),
}

impl View for Order {
    type V = OrderView;

    open spec fn view(&self) -> OrderView {
        match self {
            Order::Report(text) => OrderView::Report(text@),
            Order::Pin(host, task, failure) => OrderView::Pin(*host, *task, failure@),
            Order::Run(command, arguments, failure) => OrderView::Run(
                command@,
                crate::text::texts(arguments@),
                failure@,
            ),
        }
    }
}

/// What a row of orders says.
pub open spec fn orders_view(orders: Seq<Order>) -> Seq<OrderView> {
    Seq::new(orders.len(), |i: int| orders[i]@)
}

/// The name of a vCPU: its socket, core and thread, with dots between them.
pub open spec fn vcpu_name(pin: Pin) -> Seq<char> {
    crate::text::decimal(pin.0 as nat) + "."@ + crate::text::decimal(pin.1 as nat) + "."@
        + crate::text::decimal(pin.2 as nat)
}

/// Writes the name of a vCPU.
fn name_vcpu(pin: Pin) -> (r: String)
    ensures
        r@ == vcpu_name(pin),
{
    usize_text(pin.0).concat(".").concat(usize_text(pin.1).as_str()).concat(".").concat(
        usize_text(pin.2).as_str(),
    )
}

/// What is done for one pinning: the task of the vCPU is pinned, if there is such
/// a vCPU. With debugging, the user is told first.
pub open spec fn pin_orders_for(pin: Pin, tasks: Map<VcpuId, usize>, debug: bool) -> Seq<
    OrderView,
> {
    let vcpu = (pin.0, pin.1, pin.2);
    if tasks.dom().contains(vcpu) {
        let task = crate::text::decimal(tasks[vcpu] as nat);
        let host = crate::text::decimal(pin.3 as nat);
        let order = OrderView::Pin(
            pin.3,
            tasks[vcpu],
            "Failed to pin the vCPU `"@ + vcpu_name(pin) + "` core task ID `"@ + host
                + "` to the host CPU `"@ + task + "`: "@,
        );
        if debug {
            seq![
                OrderView::Report(
                    "Pinning the vCPU `"@ + vcpu_name(pin) + "` to the host CPU `"@ + host + "`."@,
                ),
                order,
            ]
        } else {
            seq![order]
        }
    } else {
        seq![
            OrderView::Report(
                "The vCPU core `"@ + vcpu_name(pin) + "` does not exist, unable to pin."@,
            ),
        ]
    }
}

/// What is done for a row of pinnings.
pub open spec fn pin_orders(pins: Seq<Pin>, tasks: Map<VcpuId, usize>, debug: bool) -> Seq<
    OrderView,
>
    decreases pins.len(),
{
    if pins.len() == 0 {
        Seq::<OrderView>::empty()
    } else {
        pin_orders(pins.drop_last(), tasks, debug) + pin_orders_for(pins.last(), tasks, debug)
    }
}

/// The order that gives a task another scheduler and priority.
pub open spec fn schedule_order(scheduler: Seq<char>, priority: u8, task: usize) -> OrderView {
    OrderView::Run(
        "chrt"@,
        seq![
            "--"@ + scheduler,
            "--pid"@,
            crate::text::decimal(priority as nat),
            crate::text::decimal(task as nat),
        ],
        "Failed to change vCPU thread `"@ + crate::text::decimal(task as nat) + "` priority: "@,
    )
}

/// The orders that give tasks another scheduler and priority. Both have to be
/// given.
pub open spec fn schedule_orders(config: ConfigView, tasks: Seq<usize>) -> Seq<OrderView> {
    if config.scheduler is Some && config.priority is Some {
        Seq::new(
            tasks.len(),
            |i: int| schedule_order(config.scheduler->0, config.priority->0, tasks[i]),
        )
    } else {
        Seq::<OrderView>::empty()
    }
}

/// Adds an order to a row.
fn add_order(orders: &mut Vec<Order>, order: Order)
    ensures
        orders_view(final(orders)@) == orders_view(old(orders)@).push(order@),
{
    orders.push(order);
    assert(orders_view(orders@) =~= orders_view(old(orders)@).push(order@));
}

/// Adds what is done for one pinning.
fn order_pin(orders: &mut Vec<Order>, pin: Pin, vcpu_info: &Topology, debug: bool)
    ensures
        orders_view(final(orders)@) == orders_view(old(orders)@) + pin_orders_for(
            pin,
            vcpu_info@,
            debug,
        ),
{
    let ghost before = orders_view(orders@);
    let name = name_vcpu(pin);
    match vcpu_info.get_thread_id(pin.0, pin.1, pin.2) {
        Some(task_id) => {
            if debug {
                add_order(
                    orders,
                    Order::Report(
                        "Pinning the vCPU `".to_owned().concat(name.as_str()).concat(
                            "` to the host CPU `",
                        ).concat(usize_text(pin.3).as_str()).concat("`."),
                    ),
                );
            }
            let failure = "Failed to pin the vCPU `".to_owned().concat(name.as_str()).concat(
                "` core task ID `",
            ).concat(usize_text(pin.3).as_str()).concat("` to the host CPU `").concat(
                usize_text(task_id).as_str(),
            ).concat("`: ");
            add_order(orders, Order::Pin(pin.3, task_id, failure));
        },
        None => {
            add_order(
                orders,
                Order::Report(
                    "The vCPU core `".to_owned().concat(name.as_str()).concat(
                        "` does not exist, unable to pin.",
                    ),
                ),
            );
        },
    }
    assert(orders_view(orders@) =~= before + pin_orders_for(pin, vcpu_info@, debug));
}

/// The arguments of `chrt` for a task.
fn schedule_task(scheduler: &str, priority: u8, task_id: usize) -> (r: Order)
    ensures
        r@ == schedule_order(scheduler@, priority, task_id),
{
    let arguments = vec![
        "--".to_owned().concat(scheduler),
        "--pid".to_owned(),
        decimal_text(priority as u64),
        usize_text(task_id),
    ];
    assert(crate::text::texts(arguments@) =~= seq![
        "--"@ + scheduler@,
        "--pid"@,
        crate::text::decimal(priority as nat),
        crate::text::decimal(task_id as nat),
    ]);
    let failure = "Failed to change vCPU thread `".to_owned().concat(
        usize_text(task_id).as_str(),
    ).concat("` priority: ");
    Order::Run("chrt".to_owned(), arguments, failure)
}

/// What is done once the tasks of the vCPUs are known: first the tasks are pinned
/// as the configuration says, in its order, and then all tasks get the scheduler
/// and the priority, in no particular order.
pub fn handle_vcpu_pinning(vcpu_info: &Topology, config: &Config) -> (r: Vec<Order>)
    ensures
        exists|tasks: Seq<usize>| #[trigger]
            crate::topology::lists_values(tasks, vcpu_info@) && orders_view(r@) == pin_orders(
                config@.cpu_pinning,
                vcpu_info@,
                config@.debug,
            ) + schedule_orders(config@, tasks),
{
    let pins = config.get_cpu_pinning();
    let debug = config.debug();
    let mut orders: Vec<Order> = Vec::new();
    let mut i: usize = 0;
    assert(pins@.take(0) =~= Seq::<Pin>::empty());
    assert(orders_view(orders@) =~= Seq::<OrderView>::empty());
    while i < pins.len()
        invariant
            i <= pins@.len(),
            orders_view(orders@) == pin_orders(pins@.take(i as int), vcpu_info@, debug),
        decreases pins@.len() - i,
    {
        assert(pins@.take(i + 1).drop_last() =~= pins@.take(i as int));
        order_pin(&mut orders, pins[i], vcpu_info, debug);
        i = i + 1;
    }
    assert(pins@.take(i as int) =~= pins@);
    let ghost pinning = orders_view(orders@);
    let task_ids = vcpu_info.get_task_ids();
    if let (Some(scheduler), Some(priority)) = (config.get_scheduler(), config.get_priority()) {
        let ghost row = schedule_orders(config@, task_ids@);
        let mut n: usize = 0;
        assert(orders_view(orders@) =~= pinning + row.take(0));
        while n < task_ids.len()
            invariant
                n <= task_ids@.len(),
                row == schedule_orders(config@, task_ids@),
                config@.scheduler == Some(scheduler@),
                config@.priority == Some(priority),
                orders_view(orders@) == pinning + row.take(n as int),
            decreases task_ids@.len() - n,
        {
            add_order(&mut orders, schedule_task(scheduler.as_str(), priority, task_ids[n]));
            assert(orders_view(orders@) =~= pinning + row.take(n + 1));
            n = n + 1;
        }
        assert(row.take(n as int) =~= row);
    } else {
        assert(pinning + schedule_orders(config@, task_ids@) =~= pinning);
    }
    orders
}

/// Without debugging there is one order for each pinning, in the order of the
/// configuration.
pub proof fn one_order_for_each_pin(pins: Seq<Pin>, tasks: Map<VcpuId, usize>)
    ensures
        pin_orders(pins, tasks, false).len() == pins.len(),
        forall|i: int|
            0 <= i < pins.len() ==> seq![#[trigger] pin_orders(pins, tasks, false)[i]]
                == pin_orders_for(pins[i], tasks, false),
    decreases pins.len(),
{
    if pins.len() > 0 {
        let front = pins.drop_last();
        let all = pin_orders(pins, tasks, false);
        one_order_for_each_pin(front, tasks);
        assert forall|i: int| 0 <= i < pins.len() implies seq![#[trigger] all[i]] == pin_orders_for(
            pins[i],
            tasks,
            false,
        ) by {
            if i < front.len() {
                assert(all[i] == pin_orders(front, tasks, false)[i]);
                assert(front[i] == pins[i]);
            } else {
                assert(seq![all[i]] =~= pin_orders_for(pins[i], tasks, false));
            }
        }
    }
}

/// Tasks keep their scheduler unless both a scheduler and a priority are given.
pub proof fn scheduling_needs_both(config: ConfigView, tasks: Seq<usize>)
    requires
        config.scheduler is None || config.priority is None,
    ensures
        schedule_orders(config, tasks).len() == 0,
{
}

/// Without debugging, the order at the place of a pinning concerns the task of
/// exactly this socket, core and thread: it is pinned to the host CPU of the
/// pinning, or the user is told that there is no such vCPU.
pub proof fn pinning_concerns_its_own_vcpu(pins: Seq<Pin>, tasks: Map<VcpuId, usize>, at: int)
    requires
        0 <= at < pins.len(),
    ensures
        ({
            let (socket, core, thread, host) = pins[at];
            let name = crate::text::decimal(socket as nat) + "."@ + crate::text::decimal(
                core as nat,
            ) + "."@ + crate::text::decimal(thread as nat);
            let orders = pin_orders(pins, tasks, false);
            &&& orders.len() == pins.len()
            &&& tasks.dom().contains((socket, core, thread)) ==> orders[at] == OrderView::Pin(
                host,
                tasks[(socket, core, thread)],
                "Failed to pin the vCPU `"@ + name + "` core task ID `"@ + crate::text::decimal(
                    host as nat,
                ) + "` to the host CPU `"@ + crate::text::decimal(
                    tasks[(socket, core, thread)] as nat,
                ) + "`: "@,
            )
            &&& !tasks.dom().contains((socket, core, thread)) ==> orders[at] == OrderView::Report(
                "The vCPU core `"@ + name + "` does not exist, unable to pin."@,
            )
        }),
{
    one_order_for_each_pin(pins, tasks);
    assert(seq![pin_orders(pins, tasks, false)[at]][0] == pin_orders_for(
        pins[at],
        tasks,
        false,
    )[0]);
}

/// With debugging, the user is told of each pinning right before it is made.
/// Leaving out what the user is told of, there is no difference.
pub proof fn debugging_adds_reports(pins: Seq<Pin>, tasks: Map<VcpuId, usize>, pin: Pin)
    ensures
        ({
            let (socket, core, thread, host) = pin;
            let before = pin_orders(pins, tasks, true);
            let after = pin_orders(pins.push(pin), tasks, true);
            let alone = pin_orders(seq![pin], tasks, false);
            let name = crate::text::decimal(socket as nat) + "."@ + crate::text::decimal(
                core as nat,
            ) + "."@ + crate::text::decimal(thread as nat);
            let told = OrderView::Report(
                "Pinning the vCPU `"@ + name + "` to the host CPU `"@ + crate::text::decimal(
                    host as nat,
                ) + "`."@,
            );
            &&& pin_orders(Seq::<Pin>::empty(), tasks, true).len() == 0
            &&& tasks.dom().contains((socket, core, thread)) ==> after == before.push(told) + alone
            &&& !tasks.dom().contains((socket, core, thread)) ==> after == before + alone
        }),
{
    assert(pins.push(pin).drop_last() =~= pins);
    assert(seq![pin].drop_last() =~= Seq::<Pin>::empty());
    assert(pin_orders(Seq::<Pin>::empty(), tasks, false) =~= Seq::<OrderView>::empty());
    let alone = pin_orders(seq![pin], tasks, false);
    assert(alone =~= pin_orders_for(pin, tasks, false));
    let before = pin_orders(pins, tasks, true);
    let after = pin_orders(pins.push(pin), tasks, true);
    if tasks.dom().contains((pin.0, pin.1, pin.2)) {
        assert(after =~= before.push(pin_orders_for(pin, tasks, true)[0]) + alone);
    } else {
        assert(after =~= before + alone);
    }
}

/// No order for a pinning runs a command.
proof fn pin_orders_run_nothing(pins: Seq<Pin>, tasks: Map<VcpuId, usize>, debug: bool)
    ensures
        forall|i: int|
            0 <= i < pin_orders(pins, tasks, debug).len() ==> !(#[trigger] pin_orders(
                pins,
                tasks,
                debug,
            )[i] is Run),
    decreases pins.len(),
{
    if pins.len() > 0 {
        let front = pin_orders(pins.drop_last(), tasks, debug);
        let last = pin_orders_for(pins.last(), tasks, debug);
        let all = pin_orders(pins, tasks, debug);
        pin_orders_run_nothing(pins.drop_last(), tasks, debug);
        assert forall|i: int| 0 <= i < all.len() implies !(#[trigger] all[i] is Run) by {
            if i < front.len() {
                assert(all[i] == front[i]);
            } else {
                assert(all[i] == last[i - front.len()]);
            }
        }
    }
}

/// Whether a row of orders ends with one run of `chrt` for each vCPU that has a
/// task, and runs nothing before. `keys` are the vCPUs in the order of the runs.
pub open spec fn ends_with_runs(
    orders: Seq<OrderView>,
    keys: Seq<VcpuId>,
    tasks: Map<VcpuId, usize>,
    scheduler: Seq<char>,
    priority: u8,
) -> bool {
    let start = orders.len() - keys.len();
    &&& keys.no_duplicates()
    &&& forall|key: VcpuId| #[trigger] keys.contains(key) <==> tasks.dom().contains(key)
    &&& start >= 0
    &&& forall|i: int| 0 <= i < start ==> !(#[trigger] orders[i] is Run)
    &&& forall|i: int|
        start <= i < orders.len() ==> {
            let task = crate::text::decimal(tasks[keys[i - start]] as nat);
            #[trigger] orders[i] == OrderView::Run(
                "chrt"@,
                seq!["--"@ + scheduler, "--pid"@, crate::text::decimal(priority as nat), task],
                "Failed to change vCPU thread `"@ + task + "` priority: "@,
            )
        }
}

/// If a scheduler and a priority are given, `chrt` is run once for each vCPU that
/// has a task, behind all pinnings, whatever else the configuration says.
/// Otherwise no command is run.
pub proof fn every_task_is_scheduled(vcpu_info: &Topology, config: &Config, orders: Vec<Order>)
    requires
        call_ensures(handle_vcpu_pinning, (vcpu_info, config), orders),
    ensures
        ({
            let said = orders_view(orders@);
            match (config@.scheduler, config@.priority) {
                (Some(scheduler), Some(priority)) => exists|keys: Seq<VcpuId>| #[trigger]
                    ends_with_runs(said, keys, vcpu_info@, scheduler, priority),
                _ => forall|i: int| 0 <= i < said.len() ==> !(#[trigger] said[i] is Run),
            }
        }),
{
    let said = orders_view(orders@);
    let tasks = choose|tasks: Seq<usize>| #[trigger]
        crate::topology::lists_values(tasks, vcpu_info@) && said == pin_orders(
            config@.cpu_pinning,
            vcpu_info@,
            config@.debug,
        ) + schedule_orders(config@, tasks);
    let pinning = pin_orders(config@.cpu_pinning, vcpu_info@, config@.debug);
    let row = schedule_orders(config@, tasks);
    pin_orders_run_nothing(config@.cpu_pinning, vcpu_info@, config@.debug);
    assert(forall|i: int| 0 <= i < pinning.len() ==> #[trigger] said[i] == pinning[i]);
    if let (Some(scheduler), Some(priority)) = (config@.scheduler, config@.priority) {
        let keys = choose|keys: Seq<VcpuId>| #[trigger]
            crate::topology::are_keys(keys, vcpu_info@) && tasks == keys.map_values(
                |key: VcpuId| vcpu_info@[key],
            );
        let start = said.len() - keys.len();
        assert forall|i: int| start <= i < said.len() implies {
            let task = crate::text::decimal(vcpu_info@[keys[i - start]] as nat);
            #[trigger] said[i] == OrderView::Run(
                "chrt"@,
                seq!["--"@ + scheduler, "--pid"@, crate::text::decimal(priority as nat), task],
                "Failed to change vCPU thread `"@ + task + "` priority: "@,
            )
        } by {
            assert(said[i] == row[i - start]);
            assert(tasks[i - start] == vcpu_info@[keys[i - start]]);
        }
        assert(ends_with_runs(said, keys, vcpu_info@, scheduler, priority));
    }
}

/// Without debugging, what is ordered first is what the configuration's pinnings
/// ask for, one by one: the task of a vCPU that has one is pinned to the host CPU,
/// and of any other vCPU the user is told.
pub proof fn every_pinning_is_ordered(
    vcpu_info: &Topology,
    config: &Config,
    orders: Vec<Order>,
    at: int,
)
    requires
        call_ensures(handle_vcpu_pinning, (vcpu_info, config), orders),
        !config@.debug,
        0 <= at < config@.cpu_pinning.len(),
    ensures
        at < orders@.len(),
        ({
            let (socket, core, thread, host) = config@.cpu_pinning[at];
            if vcpu_info@.dom().contains((socket, core, thread)) {
                orders@[at]@ matches OrderView::Pin(cpu, task, _) && cpu == host && task
                    == vcpu_info@[(socket, core, thread)]
            } else {
                orders@[at]@ is Report
            }
        }),
{
    let said = orders_view(orders@);
    let pinning = pin_orders(config@.cpu_pinning, vcpu_info@, false);
    let tasks = choose|tasks: Seq<usize>| #[trigger]
        crate::topology::lists_values(tasks, vcpu_info@) && said == pin_orders(
            config@.cpu_pinning,
            vcpu_info@,
            config@.debug,
        ) + schedule_orders(config@, tasks);
    assert(said == pinning + schedule_orders(config@, tasks));
    pinning_concerns_its_own_vcpu(config@.cpu_pinning, vcpu_info@, at);
    assert(said[at] == pinning[at]);
    assert(said[at] == orders@[at]@);
}

/// The configuration file of a machine is the file in the directory that has the
/// machine's name and ends with `.yml`.
pub proof fn configuration_is_named_after_machine(directory: &str, machine: &str, path: String)
    requires
        call_ensures(config_file_path, (directory, machine), path),
    ensures
        path@ == directory@ + seq!['/'] + machine@ + seq!['.', 'y', 'm', 'l'],
{
    reveal_strlit("/");
    reveal_strlit(".yml");
    assert("/"@ =~= seq!['/']);
    assert(".yml"@ =~= seq!['.', 'y', 'm', 'l']);
}

} // verus!
