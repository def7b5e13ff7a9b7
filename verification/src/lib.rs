//! A typed data model for launchd property-list service descriptors.
//!
//! The crate offers a validating builder for calendar intervals, an expander
//! that turns a five-unit cron schedule into the disjunctive list of calendar
//! intervals the descriptor format requires, small builder types for the
//! nested sub-schemas (resource limits, sockets, mach services, keep-alive),
//! and a strict bidirectional mapping between the typed descriptor and a
//! property-list document tree.

#![allow(unused_imports)]

pub mod calendar_interval;
pub mod document;
pub mod error;
pub mod keep_alive;
pub mod load_session_type;
pub mod mach_services;
pub mod process_type;
pub mod resource_limits;
pub mod sockets;
pub mod value;

pub use calendar_interval::{CalendarInterval, CronSchedule, CronUnit};
pub use error::Error;
pub use keep_alive::{KeepAliveOptions, KeepAliveType};
pub use load_session_type::LoadSessionType;
pub use mach_services::{MachServiceEntry, MachServiceOptions};
pub use process_type::ProcessType;
pub use resource_limits::ResourceLimits;
pub use sockets::{BonjourType, Socket, SocketOptions, Sockets};
pub use value::{Dict, PlistValue};

use vstd::prelude::*;

use crate::keep_alive::KeepAliveTypeView;
use crate::load_session_type::LoadSessionTypeView;
use crate::sockets::{SocketOptionsView, SocketsView};
use crate::value::SpecValue;

verus! {

/// Compatibility modes for inetd-style services; `Wait` is the one
/// recognized mode.
#[derive(Debug, Clone, Copy, PartialEq, Eq, Hash)]
pub enum InetdCompatibility {
    /// The service waits for the launched process before continuing.
    Wait,
}

impl DeepView for InetdCompatibility {
    type V = InetdCompatibility;

    open spec fn deep_view(&self) -> InetdCompatibility {
        *self
    }
}

/// The inetd-compatibility dictionary: for each recognized mode, whether
/// it is set. Its document keys decode through the closed
/// [`InetdCompatibility`] enumeration, so an unrecognized key is an
/// enum-deserialization error.
#[derive(Debug, Clone, Copy, PartialEq, Eq)]
pub struct InetdCompatibilityFlags {
    pub wait: Option<bool>,
}

impl DeepView for InetdCompatibilityFlags {
    type V = InetdCompatibilityFlags;

    open spec fn deep_view(&self) -> InetdCompatibilityFlags {
        *self
    }
}

/// The nested launch-events table: event subsystems, each holding named
/// event descriptions, each a dictionary of arbitrary document values.
pub type LaunchEvents = Dict<Dict<Dict<PlistValue>>>;

/// The ghost mirror of [`LaunchEvents`].
pub type LaunchEventsView = Seq<
    (Seq<char>, Seq<(Seq<char>, Seq<(Seq<char>, SpecValue)>)>),
>;

/// A launchd service descriptor: the mandatory label plus every
/// recognized optional key of the schema.
///
/// Field names map to document keys by capitalizing each word, except
/// `service_ipc` (`ServiceIPC`), `low_priority_io` (`LowPriorityIO`),
/// `low_priority_background_io` (`LowPriorityBackgroundIO`) and
/// `inetd_compatibility` (`inetdCompatibility`); the resource-limit
/// sub-schema likewise writes `cpu` as `CPU`.
#[derive(Debug, PartialEq)]
pub struct Launchd {
    pub label: String,
    pub disabled: Option<bool>,
    pub user_name: Option<String>,
    pub group_name: Option<String>,
    pub inetd_compatibility: Option<InetdCompatibilityFlags>,
    pub limit_load_to_hosts: Option<Vec<String>>,
    pub limit_load_from_hosts: Option<Vec<String>>,
    pub limit_load_to_session_type: Option<LoadSessionType>,
    pub limit_load_to_hardware: Option<Dict<Vec<String>>>,
    pub limit_load_from_hardware: Option<Dict<Vec<String>>>,
    pub program: Option<String>,
    pub bundle_program: Option<String>,
    pub program_arguments: Option<Vec<String>>,
    pub enable_globbing: Option<bool>,
    pub enable_transactions: Option<bool>,
    pub enable_pressured_exit: Option<bool>,
    pub on_demand: Option<bool>,
    pub service_ipc: Option<bool>,
    pub keep_alive: Option<KeepAliveType>,
    pub run_at_load: Option<bool>,
    pub root_directory: Option<String>,
    pub working_directory: Option<String>,
    pub environment_variables: Option<Dict<String>>,
    pub umask: Option<u16>,
    pub time_out: Option<u32>,
    pub exit_time_out: Option<u32>,
    pub throttle_interval: Option<u32>,
    pub init_groups: Option<bool>,
    pub watch_paths: Option<Vec<String>>,
    pub queue_directories: Option<Vec<String>>,
    pub start_on_mount: Option<bool>,
    pub start_interval: Option<u32>,
    pub start_calendar_intervals: Option<Vec<CalendarInterval>>,
    pub standard_in_path: Option<String>,
    pub standard_out_path: Option<String>,
    pub standard_error_path: Option<String>,
    pub debug: Option<bool>,
    pub wait_for_debugger: Option<bool>,
    pub soft_resource_limits: Option<ResourceLimits>,
    pub hard_resource_limits: Option<ResourceLimits>,
    pub nice: Option<i32>,
    pub process_type: Option<ProcessType>,
    pub abandon_process_group: Option<bool>,
    pub low_priority_io: Option<bool>,
    pub low_priority_background_io: Option<bool>,
    pub materialize_dataless_files: Option<bool>,
    pub launch_only_once: Option<bool>,
    pub mach_services: Option<Dict<MachServiceEntry>>,
    pub sockets: Option<Sockets>,
    pub launch_events: Option<LaunchEvents>,
    pub hopefully_exits_last: Option<bool>,
    pub hopefully_exits_first: Option<bool>,
    pub session_create: Option<bool>,
    pub legacy_timers: Option<bool>,
}

/// The ghost mirror of [`Launchd`].
pub struct LaunchdView {
    pub label: Seq<char>,
    pub disabled: Option<bool>,
    pub user_name: Option<Seq<char>>,
    pub group_name: Option<Seq<char>>,
    pub inetd_compatibility: Option<InetdCompatibilityFlags>,
    pub limit_load_to_hosts: Option<Seq<Seq<char>>>,
    pub limit_load_from_hosts: Option<Seq<Seq<char>>>,
    pub limit_load_to_session_type: Option<LoadSessionTypeView>,
    pub limit_load_to_hardware: Option<Seq<(Seq<char>, Seq<Seq<char>>)>>,
    pub limit_load_from_hardware: Option<Seq<(Seq<char>, Seq<Seq<char>>)>>,
    pub program: Option<Seq<char>>,
    pub bundle_program: Option<Seq<char>>,
    pub program_arguments: Option<Seq<Seq<char>>>,
    pub enable_globbing: Option<bool>,
    pub enable_transactions: Option<bool>,
    pub enable_pressured_exit: Option<bool>,
    pub on_demand: Option<bool>,
    pub service_ipc: Option<bool>,
    pub keep_alive: Option<KeepAliveTypeView>,
    pub run_at_load: Option<bool>,
    pub root_directory: Option<Seq<char>>,
    pub working_directory: Option<Seq<char>>,
    pub environment_variables: Option<Seq<(Seq<char>, Seq<char>)>>,
    pub umask: Option<u16>,
    pub time_out: Option<u32>,
    pub exit_time_out: Option<u32>,
    pub throttle_interval: Option<u32>,
    pub init_groups: Option<bool>,
    pub watch_paths: Option<Seq<Seq<char>>>,
    pub queue_directories: Option<Seq<Seq<char>>>,
    pub start_on_mount: Option<bool>,
    pub start_interval: Option<u32>,
    pub start_calendar_intervals: Option<Seq<CalendarInterval>>,
    pub standard_in_path: Option<Seq<char>>,
    pub standard_out_path: Option<Seq<char>>,
    pub standard_error_path: Option<Seq<char>>,
    pub debug: Option<bool>,
    pub wait_for_debugger: Option<bool>,
    pub soft_resource_limits: Option<ResourceLimits>,
    pub hard_resource_limits: Option<ResourceLimits>,
    pub nice: Option<i32>,
    pub process_type: Option<ProcessType>,
    pub abandon_process_group: Option<bool>,
    pub low_priority_io: Option<bool>,
    pub low_priority_background_io: Option<bool>,
    pub materialize_dataless_files: Option<bool>,
    pub launch_only_once: Option<bool>,
    pub mach_services: Option<Seq<(Seq<char>, MachServiceEntry)>>,
    pub sockets: Option<SocketsView>,
    pub launch_events: Option<LaunchEventsView>,
    pub hopefully_exits_last: Option<bool>,
    pub hopefully_exits_first: Option<bool>,
    pub session_create: Option<bool>,
    pub legacy_timers: Option<bool>,
}

impl DeepView for Launchd {
    type V = LaunchdView;

    open spec fn deep_view(&self) -> LaunchdView {
        LaunchdView {
            label: self.label@,
            disabled: self.disabled,
            user_name: self.user_name.deep_view(),
            group_name: self.group_name.deep_view(),
            inetd_compatibility: self.inetd_compatibility,
            limit_load_to_hosts: self.limit_load_to_hosts.deep_view(),
            limit_load_from_hosts: self.limit_load_from_hosts.deep_view(),
            limit_load_to_session_type: self.limit_load_to_session_type.deep_view(),
            limit_load_to_hardware: self.limit_load_to_hardware.deep_view(),
            limit_load_from_hardware: self.limit_load_from_hardware.deep_view(),
            program: self.program.deep_view(),
            bundle_program: self.bundle_program.deep_view(),
            program_arguments: self.program_arguments.deep_view(),
            enable_globbing: self.enable_globbing,
            enable_transactions: self.enable_transactions,
            enable_pressured_exit: self.enable_pressured_exit,
            on_demand: self.on_demand,
            service_ipc: self.service_ipc,
            keep_alive: self.keep_alive.deep_view(),
            run_at_load: self.run_at_load,
            root_directory: self.root_directory.deep_view(),
            working_directory: self.working_directory.deep_view(),
            environment_variables: self.environment_variables.deep_view(),
            umask: self.umask,
            time_out: self.time_out,
            exit_time_out: self.exit_time_out,
            throttle_interval: self.throttle_interval,
            init_groups: self.init_groups,
            watch_paths: self.watch_paths.deep_view(),
            queue_directories: self.queue_directories.deep_view(),
            start_on_mount: self.start_on_mount,
            start_interval: self.start_interval,
            start_calendar_intervals: self.start_calendar_intervals.deep_view(),
            standard_in_path: self.standard_in_path.deep_view(),
            standard_out_path: self.standard_out_path.deep_view(),
            standard_error_path: self.standard_error_path.deep_view(),
            debug: self.debug,
            wait_for_debugger: self.wait_for_debugger,
            soft_resource_limits: self.soft_resource_limits,
            hard_resource_limits: self.hard_resource_limits,
            nice: self.nice,
            process_type: self.process_type,
            abandon_process_group: self.abandon_process_group,
            low_priority_io: self.low_priority_io,
            low_priority_background_io: self.low_priority_background_io,
            materialize_dataless_files: self.materialize_dataless_files,
            launch_only_once: self.launch_only_once,
            mach_services: self.mach_services.deep_view(),
            sockets: self.sockets.deep_view(),
            launch_events: self.launch_events.deep_view(),
            hopefully_exits_last: self.hopefully_exits_last,
            hopefully_exits_first: self.hopefully_exits_first,
            session_create: self.session_create,
            legacy_timers: self.legacy_timers,
        }
    }
}

impl Launchd {
    /// The descriptor `new` builds: the label and the program path set,
    /// everything else unset.
    pub open spec fn spec_new(label: String, program: String) -> Launchd {
        Launchd {
            label: label,
            disabled: None,
            user_name: None,
            group_name: None,
            inetd_compatibility: None,
            limit_load_to_hosts: None,
            limit_load_from_hosts: None,
            limit_load_to_session_type: None,
            limit_load_to_hardware: None,
            limit_load_from_hardware: None,
            program: Some(program),
            bundle_program: None,
            program_arguments: None,
            enable_globbing: None,
            enable_transactions: None,
            enable_pressured_exit: None,
            on_demand: None,
            service_ipc: None,
            keep_alive: None,
            run_at_load: None,
            root_directory: None,
            working_directory: None,
            environment_variables: None,
            umask: None,
            time_out: None,
            exit_time_out: None,
            throttle_interval: None,
            init_groups: None,
            watch_paths: None,
            queue_directories: None,
            start_on_mount: None,
            start_interval: None,
            start_calendar_intervals: None,
            standard_in_path: None,
            standard_out_path: None,
            standard_error_path: None,
            debug: None,
            wait_for_debugger: None,
            soft_resource_limits: None,
            hard_resource_limits: None,
            nice: None,
            process_type: None,
            abandon_process_group: None,
            low_priority_io: None,
            low_priority_background_io: None,
            materialize_dataless_files: None,
            launch_only_once: None,
            mach_services: None,
            sockets: None,
            launch_events: None,
            hopefully_exits_last: None,
            hopefully_exits_first: None,
            session_create: None,
            legacy_timers: None,
        }
    }

    /// A new descriptor holding the mandatory label and the path of the
    /// program to run; every other field starts unset.
    pub fn new(label: String, program: String) -> (r: Self)
        ensures
            r == Self::spec_new(label, program),
    {
        Launchd {
            label: label,
            disabled: None,
            user_name: None,
            group_name: None,
            inetd_compatibility: None,
            limit_load_to_hosts: None,
            limit_load_from_hosts: None,
            limit_load_to_session_type: None,
            limit_load_to_hardware: None,
            limit_load_from_hardware: None,
            program: Some(program),
            bundle_program: None,
            program_arguments: None,
            enable_globbing: None,
            enable_transactions: None,
            enable_pressured_exit: None,
            on_demand: None,
            service_ipc: None,
            keep_alive: None,
            run_at_load: None,
            root_directory: None,
            working_directory: None,
            environment_variables: None,
            umask: None,
            time_out: None,
            exit_time_out: None,
            throttle_interval: None,
            init_groups: None,
            watch_paths: None,
            queue_directories: None,
            start_on_mount: None,
            start_interval: None,
            start_calendar_intervals: None,
            standard_in_path: None,
            standard_out_path: None,
            standard_error_path: None,
            debug: None,
            wait_for_debugger: None,
            soft_resource_limits: None,
            hard_resource_limits: None,
            nice: None,
            process_type: None,
            abandon_process_group: None,
            low_priority_io: None,
            low_priority_background_io: None,
            materialize_dataless_files: None,
            launch_only_once: None,
            mach_services: None,
            sockets: None,
            launch_events: None,
            hopefully_exits_last: None,
            hopefully_exits_first: None,
            session_create: None,
            legacy_timers: None,
        }
    }

    /// Replaces the label.
    pub fn with_label(self, label: String) -> (r: Self)
        ensures
            r == (Launchd { label: label, ..self }),
    {
        let mut s = self;
        s.label = label;
        s
    }

    /// Sets whether the service is disabled.
    pub fn with_disabled(self, disabled: bool) -> (r: Self)
        ensures
            r == (Launchd { disabled: Some(disabled), ..self }),
    {
        let mut s = self;
        s.disabled = Some(disabled);
        s
    }

    /// Marks the service disabled.
    pub fn disabled(self) -> (r: Self)
        ensures
            r == (Launchd { disabled: Some(true), ..self }),
    {
        self.with_disabled(true)
    }

    /// Sets the user to run the service as.
    pub fn with_user_name(self, user_name: String) -> (r: Self)
        ensures
            r == (Launchd { user_name: Some(user_name), ..self }),
    {
        let mut s = self;
        s.user_name = Some(user_name);
        s
    }

    /// Sets the group to run the service as.
    pub fn with_group_name(self, group_name: String) -> (r: Self)
        ensures
            r == (Launchd { group_name: Some(group_name), ..self }),
    {
        let mut s = self;
        s.group_name = Some(group_name);
        s
    }

    /// Sets the path of the program to run.
    pub fn with_program(self, path: String) -> (r: Self)
        ensures
            r == (Launchd { program: Some(path), ..self }),
    {
        let mut s = self;
        s.program = Some(path);
        s
    }

    /// Sets the bundle program.
    pub fn with_bundle_program(self, bundle: String) -> (r: Self)
        ensures
            r == (Launchd { bundle_program: Some(bundle), ..self }),
    {
        let mut s = self;
        s.bundle_program = Some(bundle);
        s
    }

    /// Sets the program argument vector.
    pub fn with_program_arguments(self, program_arguments: Vec<String>) -> (r: Self)
        ensures
            r == (Launchd { program_arguments: Some(program_arguments), ..self }),
    {
        let mut s = self;
        s.program_arguments = Some(program_arguments);
        s
    }

    /// Sets whether the service runs at load.
    pub fn with_run_at_load(self, run_at_load: bool) -> (r: Self)
        ensures
            r == (Launchd { run_at_load: Some(run_at_load), ..self }),
    {
        let mut s = self;
        s.run_at_load = Some(run_at_load);
        s
    }

    /// Marks the service as running at load.
    pub fn run_at_load(self) -> (r: Self)
        ensures
            r == (Launchd { run_at_load: Some(true), ..self }),
    {
        self.with_run_at_load(true)
    }

    /// Sets the watched queue directories.
    pub fn with_queue_directories(self, queue_directories: Vec<String>) -> (r: Self)
        ensures
            r == (Launchd { queue_directories: Some(queue_directories), ..self }),
    {
        let mut s = self;
        s.queue_directories = Some(queue_directories);
        s
    }

    /// Sets the watched paths.
    pub fn with_watch_paths(self, watch_paths: Vec<String>) -> (r: Self)
        ensures
            r == (Launchd { watch_paths: Some(watch_paths), ..self }),
    {
        let mut s = self;
        s.watch_paths = Some(watch_paths);
        s
    }

    /// Sets whether the service starts on mount.
    pub fn with_start_on_mount(self, start_on_mount: bool) -> (r: Self)
        ensures
            r == (Launchd { start_on_mount: Some(start_on_mount), ..self }),
    {
        let mut s = self;
        s.start_on_mount = Some(start_on_mount);
        s
    }

    /// Marks the service as starting on mount.
    pub fn start_on_mount(self) -> (r: Self)
        ensures
            r == (Launchd { start_on_mount: Some(true), ..self }),
    {
        self.with_start_on_mount(true)
    }

    /// Sets the start interval, in seconds.
    pub fn with_start_interval(self, start_interval: u32) -> (r: Self)
        ensures
            r == (Launchd { start_interval: Some(start_interval), ..self }),
    {
        let mut s = self;
        s.start_interval = Some(start_interval);
        s
    }

    /// Sets the calendar intervals at which the service starts.
    pub fn with_start_calendar_intervals(
        self,
        start_calendar_intervals: Vec<CalendarInterval>,
    ) -> (r: Self)
        ensures
            r == (Launchd { start_calendar_intervals: Some(start_calendar_intervals), ..self }),
    {
        let mut s = self;
        s.start_calendar_intervals = Some(start_calendar_intervals);
        s
    }

    /// Sets whether the process group is abandoned.
    pub fn with_abandon_process_group(self, value: bool) -> (r: Self)
        ensures
            r == (Launchd { abandon_process_group: Some(value), ..self }),
    {
        let mut s = self;
        s.abandon_process_group = Some(value);
        s
    }

    /// Marks the process group abandoned.
    pub fn abandon_process_group(self) -> (r: Self)
        ensures
            r == (Launchd { abandon_process_group: Some(true), ..self }),
    {
        self.with_abandon_process_group(true)
    }

    /// Sets the debug flag.
    pub fn with_debug(self, value: bool) -> (r: Self)
        ensures
            r == (Launchd { debug: Some(value), ..self }),
    {
        let mut s = self;
        s.debug = Some(value);
        s
    }

    /// Sets the debug flag to true.
    pub fn debug(self) -> (r: Self)
        ensures
            r == (Launchd { debug: Some(true), ..self }),
    {
        self.with_debug(true)
    }

    /// Sets whether globbing of arguments is enabled.
    pub fn with_enable_globbing(self, value: bool) -> (r: Self)
        ensures
            r == (Launchd { enable_globbing: Some(value), ..self }),
    {
        let mut s = self;
        s.enable_globbing = Some(value);
        s
    }

    /// Enables globbing of arguments.
    pub fn enable_globbing(self) -> (r: Self)
        ensures
            r == (Launchd { enable_globbing: Some(true), ..self }),
    {
        self.with_enable_globbing(true)
    }

    /// Sets whether transactions are enabled.
    pub fn with_enable_transactions(self, value: bool) -> (r: Self)
        ensures
            r == (Launchd { enable_transactions: Some(value), ..self }),
    {
        let mut s = self;
        s.enable_transactions = Some(value);
        s
    }

    /// Enables transactions.
    pub fn enable_transactions(self) -> (r: Self)
        ensures
            r == (Launchd { enable_transactions: Some(true), ..self }),
    {
        self.with_enable_transactions(true)
    }

    /// Sets whether pressured exit is enabled.
    pub fn with_enable_pressured_exit(self, value: bool) -> (r: Self)
        ensures
            r == (Launchd { enable_pressured_exit: Some(value), ..self }),
    {
        let mut s = self;
        s.enable_pressured_exit = Some(value);
        s
    }

    /// Enables pressured exit.
    pub fn enable_pressured_exit(self) -> (r: Self)
        ensures
            r == (Launchd { enable_pressured_exit: Some(true), ..self }),
    {
        self.with_enable_pressured_exit(true)
    }

    /// Sets the environment variables of the service.
    pub fn with_environment_variables(self, env: Dict<String>) -> (r: Self)
        ensures
            r == (Launchd { environment_variables: Some(env), ..self }),
    {
        let mut s = self;
        s.environment_variables = Some(env);
        s
    }

    /// Sets the exit timeout, in seconds.
    pub fn with_exit_timeout(self, timeout: u32) -> (r: Self)
        ensures
            r == (Launchd { exit_time_out: Some(timeout), ..self }),
    {
        let mut s = self;
        s.exit_time_out = Some(timeout);
        s
    }

    /// Sets whether supplementary groups are initialized.
    pub fn with_init_groups(self, value: bool) -> (r: Self)
        ensures
            r == (Launchd { init_groups: Some(value), ..self }),
    {
        let mut s = self;
        s.init_groups = Some(value);
        s
    }

    /// Initializes supplementary groups.
    pub fn init_groups(self) -> (r: Self)
        ensures
            r == (Launchd { init_groups: Some(true), ..self }),
    {
        self.with_init_groups(true)
    }

    /// Sets whether the service launches only once.
    pub fn with_launch_only_once(self, value: bool) -> (r: Self)
        ensures
            r == (Launchd { launch_only_once: Some(value), ..self }),
    {
        let mut s = self;
        s.launch_only_once = Some(value);
        s
    }

    /// Marks the service as launching only once.
    pub fn launch_only_once(self) -> (r: Self)
        ensures
            r == (Launchd { launch_only_once: Some(true), ..self }),
    {
        self.with_launch_only_once(true)
    }

    /// Sets the hosts the service must not load from.
    pub fn with_limit_load_from_hosts(self, value: Vec<String>) -> (r: Self)
        ensures
            r == (Launchd { limit_load_from_hosts: Some(value), ..self }),
    {
        let mut s = self;
        s.limit_load_from_hosts = Some(value);
        s
    }

    /// Sets the hosts the service is limited to.
    pub fn with_limit_to_from_hosts(self, value: Vec<String>) -> (r: Self)
        ensures
            r == (Launchd { limit_load_to_hosts: Some(value), ..self }),
    {
        let mut s = self;
        s.limit_load_to_hosts = Some(value);
        s
    }

    /// Sets the session type the service is limited to.
    pub fn with_limit_load_to_session_type(self, value: LoadSessionType) -> (r: Self)
        ensures
            r == (Launchd { limit_load_to_session_type: Some(value), ..self }),
    {
        let mut s = self;
        s.limit_load_to_session_type = Some(value);
        s
    }

    /// Sets the hardware the service is limited to.
    pub fn with_limit_load_to_hardware(self, value: Dict<Vec<String>>) -> (r: Self)
        ensures
            r == (Launchd { limit_load_to_hardware: Some(value), ..self }),
    {
        let mut s = self;
        s.limit_load_to_hardware = Some(value);
        s
    }

    /// Sets the hardware the service must not load on.
    pub fn with_limit_load_from_hardware(self, value: Dict<Vec<String>>) -> (r: Self)
        ensures
            r == (Launchd { limit_load_from_hardware: Some(value), ..self }),
    {
        let mut s = self;
        s.limit_load_from_hardware = Some(value);
        s
    }

    /// Sets whether I/O is low priority.
    pub fn with_low_priority_io(self, value: bool) -> (r: Self)
        ensures
            r == (Launchd { low_priority_io: Some(value), ..self }),
    {
        let mut s = self;
        s.low_priority_io = Some(value);
        s
    }

    /// Marks I/O low priority.
    pub fn low_priority_io(self) -> (r: Self)
        ensures
            r == (Launchd { low_priority_io: Some(true), ..self }),
    {
        self.with_low_priority_io(true)
    }

    /// Sets whether background I/O is low priority.
    pub fn with_low_priority_background_io(self, value: bool) -> (r: Self)
        ensures
            r == (Launchd { low_priority_background_io: Some(value), ..self }),
    {
        let mut s = self;
        s.low_priority_background_io = Some(value);
        s
    }

    /// Marks background I/O low priority.
    pub fn low_priority_background_io(self) -> (r: Self)
        ensures
            r == (Launchd { low_priority_background_io: Some(true), ..self }),
    {
        self.with_low_priority_background_io(true)
    }

    /// Sets the Mach services table.
    pub fn with_mach_services(self, services: Dict<MachServiceEntry>) -> (r: Self)
        ensures
            r == (Launchd { mach_services: Some(services), ..self }),
    {
        let mut s = self;
        s.mach_services = Some(services);
        s
    }

    /// Sets the scheduling priority adjustment.
    pub fn with_nice(self, nice: i32) -> (r: Self)
        ensures
            r == (Launchd { nice: Some(nice), ..self }),
    {
        let mut s = self;
        s.nice = Some(nice);
        s
    }

    /// Sets the root directory.
    pub fn with_root_directory(self, path: String) -> (r: Self)
        ensures
            r == (Launchd { root_directory: Some(path), ..self }),
    {
        let mut s = self;
        s.root_directory = Some(path);
        s
    }

    /// Sets the standard-error path.
    pub fn with_standard_error_path(self, path: String) -> (r: Self)
        ensures
            r == (Launchd { standard_error_path: Some(path), ..self }),
    {
        let mut s = self;
        s.standard_error_path = Some(path);
        s
    }

    /// Sets the standard-input path.
    pub fn with_standard_in_path(self, path: String) -> (r: Self)
        ensures
            r == (Launchd { standard_in_path: Some(path), ..self }),
    {
        let mut s = self;
        s.standard_in_path = Some(path);
        s
    }

    /// Sets the standard-output path.
    pub fn with_standard_out_path(self, path: String) -> (r: Self)
        ensures
            r == (Launchd { standard_out_path: Some(path), ..self }),
    {
        let mut s = self;
        s.standard_out_path = Some(path);
        s
    }

    /// Sets the throttle interval, in seconds.
    pub fn with_throttle_interval(self, value: u32) -> (r: Self)
        ensures
            r == (Launchd { throttle_interval: Some(value), ..self }),
    {
        let mut s = self;
        s.throttle_interval = Some(value);
        s
    }

    /// Sets the timeout, in seconds.
    pub fn with_timeout(self, timeout: u32) -> (r: Self)
        ensures
            r == (Launchd { time_out: Some(timeout), ..self }),
    {
        let mut s = self;
        s.time_out = Some(timeout);
        s
    }

    /// Sets the file-mode creation mask.
    pub fn with_umask(self, umask: u16) -> (r: Self)
        ensures
            r == (Launchd { umask: Some(umask), ..self }),
    {
        let mut s = self;
        s.umask = Some(umask);
        s
    }

    /// Sets whether the process waits for a debugger.
    pub fn with_wait_for_debugger(self, value: bool) -> (r: Self)
        ensures
            r == (Launchd { wait_for_debugger: Some(value), ..self }),
    {
        let mut s = self;
        s.wait_for_debugger = Some(value);
        s
    }

    /// Marks the process as waiting for a debugger.
    pub fn wait_for_debugger(self) -> (r: Self)
        ensures
            r == (Launchd { wait_for_debugger: Some(true), ..self }),
    {
        self.with_wait_for_debugger(true)
    }

    /// Sets whether dataless files are materialized.
    pub fn with_materialize_dataless_files(self, value: bool) -> (r: Self)
        ensures
            r == (Launchd { materialize_dataless_files: Some(value), ..self }),
    {
        let mut s = self;
        s.materialize_dataless_files = Some(value);
        s
    }

    /// Materializes dataless files.
    pub fn materialize_dataless_files(self) -> (r: Self)
        ensures
            r == (Launchd { materialize_dataless_files: Some(true), ..self }),
    {
        self.with_materialize_dataless_files(true)
    }

    /// Sets the working directory.
    pub fn with_working_directory(self, path: String) -> (r: Self)
        ensures
            r == (Launchd { working_directory: Some(path), ..self }),
    {
        let mut s = self;
        s.working_directory = Some(path);
        s
    }

    /// Sets the inetd-compatibility wait flag.
    pub fn with_inetd_compatibility(self, wait: bool) -> (r: Self)
        ensures
            r == (Launchd {
                inetd_compatibility: Some(InetdCompatibilityFlags { wait: Some(wait) }),
                ..self
            }),
    {
        let mut s = self;
        s.inetd_compatibility = Some(InetdCompatibilityFlags { wait: Some(wait) });
        s
    }

    /// Sets the keep-alive policy.
    pub fn with_keep_alive(self, keep_alive: KeepAliveType) -> (r: Self)
        ensures
            r == (Launchd { keep_alive: Some(keep_alive), ..self }),
    {
        let mut s = self;
        s.keep_alive = Some(keep_alive);
        s
    }

    /// Sets the process scheduling class.
    pub fn with_process_type(self, process_type: ProcessType) -> (r: Self)
        ensures
            r == (Launchd { process_type: Some(process_type), ..self }),
    {
        let mut s = self;
        s.process_type = Some(process_type);
        s
    }

    /// Sets the hard resource limits.
    pub fn with_hard_resource_limits(self, limits: ResourceLimits) -> (r: Self)
        ensures
            r == (Launchd { hard_resource_limits: Some(limits), ..self }),
    {
        let mut s = self;
        s.hard_resource_limits = Some(limits);
        s
    }

    /// Sets the soft resource limits.
    pub fn with_soft_resource_limits(self, limits: ResourceLimits) -> (r: Self)
        ensures
            r == (Launchd { soft_resource_limits: Some(limits), ..self }),
    {
        let mut s = self;
        s.soft_resource_limits = Some(limits);
        s
    }

    /// Sets the launch-events table.
    pub fn with_launch_events(self, value: LaunchEvents) -> (r: Self)
        ensures
            r == (Launchd { launch_events: Some(value), ..self }),
    {
        let mut s = self;
        s.launch_events = Some(value);
        s
    }

    /// Sets whether a session is created for the service.
    pub fn with_session_create(self, value: bool) -> (r: Self)
        ensures
            r == (Launchd { session_create: Some(value), ..self }),
    {
        let mut s = self;
        s.session_create = Some(value);
        s
    }

    /// Creates a session for the service.
    pub fn session_create(self) -> (r: Self)
        ensures
            r == (Launchd { session_create: Some(true), ..self }),
    {
        self.with_session_create(true)
    }

    /// Merges one more socket declaration into the descriptor.
    ///
    /// With no sockets set, the new value is stored as it is. A second
    /// single record turns the slot into a two-element list keeping both
    /// records in insertion order; a record added to a list is appended;
    /// a list added to a list is concatenated; a list added to a single
    /// record keeps that record at the head.
    pub fn with_socket(self, socket: Sockets) -> (r: Self)
        ensures
            r == (Launchd { sockets: r.sockets, ..self }),
            (match (self.sockets, socket) {
                (Option::<Sockets>::None, sock) => r.sockets == Some(sock),
                (Some(Sockets::Array(arr)), Sockets::Array(na)) => r.sockets matches Some(
                    Sockets::Array(out),
                ) && out@ == arr@ + na@,
                (Some(Sockets::Array(arr)), Sockets::Dictionary(nd)) => r.sockets matches Some(
                    Sockets::Array(out),
                ) && out@ == arr@.push(nd),
                (Some(Sockets::Dictionary(d)), Sockets::Dictionary(nd)) => r.sockets matches Some(
                    Sockets::Array(out),
                ) && out@ == seq![d, nd],
                (Some(Sockets::Dictionary(d)), Sockets::Array(na)) => r.sockets matches Some(
                    Sockets::Array(out),
                ) && out@ == seq![d] + na@,
            }),
    {
        let mut s = self;
        let cur = s.sockets;
        s.sockets = None;
        match (cur, socket) {
            (None, sock) => {
                s.sockets = Some(sock);
            },
            (Some(Sockets::Array(mut arr)), Sockets::Array(mut na)) => {
                arr.append(&mut na);
                s.sockets = Some(Sockets::Array(arr));
            },
            (Some(Sockets::Array(mut arr)), Sockets::Dictionary(nd)) => {
                arr.push(nd);
                s.sockets = Some(Sockets::Array(arr));
            },
            (Some(Sockets::Dictionary(d)), Sockets::Dictionary(nd)) => {
                let mut out: Vec<Dict<SocketOptions>> = Vec::new();
                out.push(d);
                out.push(nd);
                proof {
                    assert(out@ =~= seq![out@[0], out@[1]]);
                }
                s.sockets = Some(Sockets::Array(out));
            },
            (Some(Sockets::Dictionary(d)), Sockets::Array(mut na)) => {
                let ghost na0 = na@;
                na.insert(0, d);
                proof {
                    assert(na@ =~= seq![na@[0]] + na0);
                }
                s.sockets = Some(Sockets::Array(na));
            },
        }
        s
    }
}

} // verus!
