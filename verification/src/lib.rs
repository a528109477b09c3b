//! Launching of qemu virtual machines from configuration files, with pinning
//! of virtual CPUs to host CPUs.
pub mod arguments;
pub mod command_line;
pub mod config;
pub mod cpu_list;
pub mod cpuset;
pub mod cpuset_files;
pub mod cpuset_run;
pub mod environment;
pub mod error;
pub mod events;
pub mod exchange;
pub mod json_value;
pub mod launcher;
pub mod launcher_options;
pub mod pairs;
pub mod path;
pub mod process;
pub mod qmp;
pub mod task_status;
pub mod text;
pub mod topology;
pub mod variables;
pub mod vcpu_pinning;
pub mod yaml;
