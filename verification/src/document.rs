//! The document boundary of the descriptor: the exact mapping between a
//! [`Launchd`] record and a property-list document tree. Framing the tree
//! as XML or binary bytes is the property-list codec's work, done outside
//! the verified library.

use vstd::prelude::*;

use crate::calendar_interval::CalendarInterval;
use crate::error::Error;
use crate::keep_alive::KeepAliveType;
use crate::load_session_type::LoadSessionType;
use crate::mach_services::MachServiceEntry;
use crate::process_type::ProcessType;
use crate::resource_limits::ResourceLimits;
use crate::sockets::Sockets;
use crate::value::{
    clone_string, lemma_record_fold_fault, lemma_record_fold_opt, lemma_record_fold_snoc,
    lemma_view_pairs_index, push_entry, record_fold, str_eq, view_pairs, DecodeFault, Dict,
    PlistCodec, PlistValue, SpecValue,
};
use crate::{InetdCompatibility, InetdCompatibilityFlags, LaunchEvents, Launchd, LaunchdView};

verus! {

impl InetdCompatibilityFlags {
    /// The record with no mode set.
    pub open spec fn spec_empty() -> Self {
        InetdCompatibilityFlags { wait: None }
    }

    /// How one dictionary entry updates the record while decoding: keys
    /// decode through the closed mode enumeration, so an unrecognized key
    /// is an enum-deserialization error carrying that key.
    pub open spec fn spec_step(acc: Self, k: Seq<char>, val: SpecValue) -> Result<
        Self,
        DecodeFault,
    > {
        if k == "Wait"@ {
            match <bool as PlistCodec>::spec_decoded(val) {
                Ok(b) => Ok(InetdCompatibilityFlags { wait: Some(b) }),
                Err(f) => Err(f),
            }
        } else {
            Err(DecodeFault::Enumeration(k))
        }
    }

    /// The step function, as a value `record_fold` can take.
    pub open spec fn spec_step_fn() -> spec_fn(Self, Seq<char>, SpecValue) -> Result<
        Self,
        DecodeFault,
    > {
        |acc: Self, k: Seq<char>, val: SpecValue| Self::spec_step(acc, k, val)
    }

    /// The dictionary entries that encode this record.
    pub open spec fn spec_fields(v: Self) -> Seq<(Seq<char>, SpecValue)> {
        let s = Seq::<(Seq<char>, SpecValue)>::empty();
        if v.wait is Some {
            s.push(("Wait"@, <bool as PlistCodec>::spec_encoded(v.wait->0)))
        } else {
            s
        }
    }
}

impl PlistCodec for InetdCompatibilityFlags {
    open spec fn wf_view(v: Self) -> bool {
        true
    }

    open spec fn spec_encoded(v: Self) -> SpecValue {
        SpecValue::Dictionary(Self::spec_fields(v))
    }

    open spec fn spec_decoded(v: SpecValue) -> Result<Self, DecodeFault> {
        match v {
            SpecValue::Dictionary(pairs) => record_fold(
                pairs,
                Self::spec_empty(),
                Self::spec_step_fn(),
            ),
            _ => Err(DecodeFault::Schema("dictionary value expected"@)),
        }
    }

    fn to_value(&self) -> (r: PlistValue) {
        let mut out: Vec<(String, PlistValue)> = Vec::new();
        proof {
            assert(view_pairs(out@) =~= Seq::<(Seq<char>, SpecValue)>::empty());
        }
        if let Some(b) = self.wait {
            push_entry(&mut out, "Wait", b.to_value());
        }
        proof {
            assert(view_pairs(out@) == Self::spec_fields(*self));
        }
        PlistValue::Dictionary(out)
    }

    fn from_value(v: &PlistValue) -> (r: Result<Self, Error>) {
        match v {
            PlistValue::Dictionary(pairs) => {
                proof {
                    lemma_view_pairs_index(pairs@);
                }
                let ghost vp: Seq<(Seq<char>, SpecValue)> = view_pairs(pairs@);
                let ghost step = Self::spec_step_fn();
                let mut acc = InetdCompatibilityFlags { wait: None };
                proof {
                    assert(vp.take(0) =~= Seq::<(Seq<char>, SpecValue)>::empty());
                }
                let mut i: usize = 0;
                while i < pairs.len()
                    invariant
                        i <= pairs.len(),
                        v@ == SpecValue::Dictionary(vp),
                        vp == view_pairs(pairs@),
                        vp.len() == pairs@.len(),
                        forall|j: int|
                            0 <= j < pairs@.len() ==> vp[j] == ((#[trigger] pairs@[j]).0@,
                            pairs@[j].1@),
                        step == Self::spec_step_fn(),
                        record_fold(vp.take(i as int), Self::spec_empty(), step) == Ok::<
                            Self,
                            DecodeFault,
                        >(acc),
                    decreases pairs.len() - i,
                {
                    let ghost prev = acc;
                    if str_eq(pairs[i].0.as_str(), "Wait") {
                        match <bool as PlistCodec>::from_value(&pairs[i].1) {
                            Ok(b) => {
                                acc = InetdCompatibilityFlags { wait: Some(b) };
                            },
                            Err(e) => {
                                proof {
                                    let f = <bool as PlistCodec>::spec_decoded(
                                        vp[i as int].1,
                                    )->Err_0;
                                    lemma_record_fold_fault(
                                        vp,
                                        i as int,
                                        Self::spec_empty(),
                                        step,
                                        f,
                                    );
                                }
                                return Err(e);
                            },
                        }
                    } else {
                        proof {
                            lemma_record_fold_fault(
                                vp,
                                i as int,
                                Self::spec_empty(),
                                step,
                                DecodeFault::Enumeration(vp[i as int].0),
                            );
                        }
                        return Err(Error::EnumDeserialization(clone_string(&pairs[i].0)));
                    }
                    proof {
                        assert(vp.take(i + 1 as int) =~= vp.take(i as int).push(vp[i as int]));
                        lemma_record_fold_snoc(
                            vp.take(i as int),
                            vp[i as int],
                            Self::spec_empty(),
                            step,
                        );
                        assert(record_fold(vp.take(i + 1 as int), Self::spec_empty(), step)
                            == Ok::<Self, DecodeFault>(acc));
                    }
                    i = i + 1;
                }
                proof {
                    assert(vp.take(pairs@.len() as int) =~= vp);
                }
                Ok(acc)
            },
            _ => Err(Error::Schema("dictionary value expected".to_owned())),
        }
    }

    proof fn lemma_round_trip(v: Self) {
        reveal_strlit("Wait");
        let step = Self::spec_step_fn();
        let s0 = Seq::<(Seq<char>, SpecValue)>::empty();
        if v.wait is Some {
            lemma_record_fold_snoc(
                s0,
                ("Wait"@, <bool as PlistCodec>::spec_encoded(v.wait->0)),
                Self::spec_empty(),
                step,
            );
        }
    }
}

impl Launchd {
    /// The abstract descriptor with an empty label and every optional
    /// field unset, the starting point of decoding.
    pub open spec fn spec_empty_view() -> LaunchdView {
        LaunchdView {
            label: Seq::empty(),
            disabled: None,
            user_name: None,
            group_name: None,
            inetd_compatibility: None,
            limit_load_to_hosts: None,
            limit_load_from_hosts: None,
            limit_load_to_session_type: None,
            limit_load_to_hardware: None,
            limit_load_from_hardware: None,
            program: None,
            bundle_program: None,
            program_arguments: None,
            enable_globbing: None,
            enable_transactions: None,
            enable_pressured_exit: None,
            on_demand: None,
            service_ipc: None,
            keep_alive: None,
            run_at_load: None,
            root_directory: None,
            working_directory: None,
            environment_variables: None,
            umask: None,
            time_out: None,
            exit_time_out: None,
            throttle_interval: None,
            init_groups: None,
            watch_paths: None,
            queue_directories: None,
            start_on_mount: None,
            start_interval: None,
            start_calendar_intervals: None,
            standard_in_path: None,
            standard_out_path: None,
            standard_error_path: None,
            debug: None,
            wait_for_debugger: None,
            soft_resource_limits: None,
            hard_resource_limits: None,
            nice: None,
            process_type: None,
            abandon_process_group: None,
            low_priority_io: None,
            low_priority_background_io: None,
            materialize_dataless_files: None,
            launch_only_once: None,
            mach_services: None,
            sockets: None,
            launch_events: None,
            hopefully_exits_last: None,
            hopefully_exits_first: None,
            session_create: None,
            legacy_timers: None,
        }
    }

    /// Whether a key names one of the boolean fields.
    pub open spec fn is_bool_key(k: Seq<char>) -> bool {
        ||| k == "Disabled"@
        ||| k == "EnableGlobbing"@
        ||| k == "EnableTransactions"@
        ||| k == "EnablePressuredExit"@
        ||| k == "OnDemand"@
        ||| k == "ServiceIPC"@
        ||| k == "RunAtLoad"@
        ||| k == "InitGroups"@
        ||| k == "StartOnMount"@
        ||| k == "Debug"@
        ||| k == "WaitForDebugger"@
        ||| k == "AbandonProcessGroup"@
        ||| k == "LowPriorityIO"@
        ||| k == "LowPriorityBackgroundIO"@
        ||| k == "MaterializeDatalessFiles"@
        ||| k == "LaunchOnlyOnce"@
        ||| k == "HopefullyExitsLast"@
        ||| k == "HopefullyExitsFirst"@
        ||| k == "SessionCreate"@
        ||| k == "LegacyTimers"@
    }

    /// The descriptor with the named boolean field replaced.
    pub open spec fn set_bool(l: LaunchdView, k: Seq<char>, b: bool) -> LaunchdView {
        if k == "Disabled"@ {
            LaunchdView { disabled: Some(b), ..l }
        } else if k == "EnableGlobbing"@ {
            LaunchdView { enable_globbing: Some(b), ..l }
        } else if k == "EnableTransactions"@ {
            LaunchdView { enable_transactions: Some(b), ..l }
        } else if k == "EnablePressuredExit"@ {
            LaunchdView { enable_pressured_exit: Some(b), ..l }
        } else if k == "OnDemand"@ {
            LaunchdView { on_demand: Some(b), ..l }
        } else if k == "ServiceIPC"@ {
            LaunchdView { service_ipc: Some(b), ..l }
        } else if k == "RunAtLoad"@ {
            LaunchdView { run_at_load: Some(b), ..l }
        } else if k == "InitGroups"@ {
            LaunchdView { init_groups: Some(b), ..l }
        } else if k == "StartOnMount"@ {
            LaunchdView { start_on_mount: Some(b), ..l }
        } else if k == "Debug"@ {
            LaunchdView { debug: Some(b), ..l }
        } else if k == "WaitForDebugger"@ {
            LaunchdView { wait_for_debugger: Some(b), ..l }
        } else if k == "AbandonProcessGroup"@ {
            LaunchdView { abandon_process_group: Some(b), ..l }
        } else if k == "LowPriorityIO"@ {
            LaunchdView { low_priority_io: Some(b), ..l }
        } else if k == "LowPriorityBackgroundIO"@ {
            LaunchdView { low_priority_background_io: Some(b), ..l }
        } else if k == "MaterializeDatalessFiles"@ {
            LaunchdView { materialize_dataless_files: Some(b), ..l }
        } else if k == "LaunchOnlyOnce"@ {
            LaunchdView { launch_only_once: Some(b), ..l }
        } else if k == "HopefullyExitsLast"@ {
            LaunchdView { hopefully_exits_last: Some(b), ..l }
        } else if k == "HopefullyExitsFirst"@ {
            LaunchdView { hopefully_exits_first: Some(b), ..l }
        } else if k == "SessionCreate"@ {
            LaunchdView { session_create: Some(b), ..l }
        } else {
            LaunchdView { legacy_timers: Some(b), ..l }
        }
    }

    /// Whether a key names one of the optional string fields.
    pub open spec fn is_text_key(k: Seq<char>) -> bool {
        ||| k == "UserName"@
        ||| k == "GroupName"@
        ||| k == "Program"@
        ||| k == "BundleProgram"@
        ||| k == "RootDirectory"@
        ||| k == "WorkingDirectory"@
        ||| k == "StandardInPath"@
        ||| k == "StandardOutPath"@
        ||| k == "StandardErrorPath"@
    }

    /// The descriptor with the named string field replaced.
    pub open spec fn set_text(l: LaunchdView, k: Seq<char>, x: Seq<char>) -> LaunchdView {
        if k == "UserName"@ {
            LaunchdView { user_name: Some(x), ..l }
        } else if k == "GroupName"@ {
            LaunchdView { group_name: Some(x), ..l }
        } else if k == "Program"@ {
            LaunchdView { program: Some(x), ..l }
        } else if k == "BundleProgram"@ {
            LaunchdView { bundle_program: Some(x), ..l }
        } else if k == "RootDirectory"@ {
            LaunchdView { root_directory: Some(x), ..l }
        } else if k == "WorkingDirectory"@ {
            LaunchdView { working_directory: Some(x), ..l }
        } else if k == "StandardInPath"@ {
            LaunchdView { standard_in_path: Some(x), ..l }
        } else if k == "StandardOutPath"@ {
            LaunchdView { standard_out_path: Some(x), ..l }
        } else {
            LaunchdView { standard_error_path: Some(x), ..l }
        }
    }

    /// Whether a key names one of the list-of-strings fields.
    pub open spec fn is_text_list_key(k: Seq<char>) -> bool {
        ||| k == "LimitLoadToHosts"@
        ||| k == "LimitLoadFromHosts"@
        ||| k == "ProgramArguments"@
        ||| k == "WatchPaths"@
        ||| k == "QueueDirectories"@
    }

    /// The descriptor with the named list-of-strings field replaced.
    pub open spec fn set_text_list(l: LaunchdView, k: Seq<char>, x: Seq<Seq<char>>) -> LaunchdView {
        if k == "LimitLoadToHosts"@ {
            LaunchdView { limit_load_to_hosts: Some(x), ..l }
        } else if k == "LimitLoadFromHosts"@ {
            LaunchdView { limit_load_from_hosts: Some(x), ..l }
        } else if k == "ProgramArguments"@ {
            LaunchdView { program_arguments: Some(x), ..l }
        } else if k == "WatchPaths"@ {
            LaunchdView { watch_paths: Some(x), ..l }
        } else {
            LaunchdView { queue_directories: Some(x), ..l }
        }
    }

    /// Whether a key names one of the 32-bit unsigned fields.
    pub open spec fn is_u32_key(k: Seq<char>) -> bool {
        ||| k == "TimeOut"@
        ||| k == "ExitTimeOut"@
        ||| k == "ThrottleInterval"@
        ||| k == "StartInterval"@
    }

    /// The descriptor with the named 32-bit unsigned field replaced.
    pub open spec fn set_u32(l: LaunchdView, k: Seq<char>, x: u32) -> LaunchdView {
        if k == "TimeOut"@ {
            LaunchdView { time_out: Some(x), ..l }
        } else if k == "ExitTimeOut"@ {
            LaunchdView { exit_time_out: Some(x), ..l }
        } else if k == "ThrottleInterval"@ {
            LaunchdView { throttle_interval: Some(x), ..l }
        } else {
            LaunchdView { start_interval: Some(x), ..l }
        }
    }

    /// How one dictionary entry updates the descriptor while decoding.
    /// The top-level schema is strict: an unrecognized key is a schema
    /// error carrying that key. The first component of the state records
    /// whether the mandatory label has been seen.
    pub open spec fn spec_step(acc: (bool, LaunchdView), k: Seq<char>, val: SpecValue) -> Result<
        (bool, LaunchdView),
        DecodeFault,
    > {
        if k == "Label"@ {
            match <String as PlistCodec>::spec_decoded(val) {
                Ok(x) => Ok((true, LaunchdView { label: x, ..acc.1 })),
                Err(f) => Err(f),
            }
        } else if Self::is_bool_key(k) {
            match <bool as PlistCodec>::spec_decoded(val) {
                Ok(b) => Ok((acc.0, Self::set_bool(acc.1, k, b))),
                Err(f) => Err(f),
            }
        } else if Self::is_text_key(k) {
            match <String as PlistCodec>::spec_decoded(val) {
                Ok(x) => Ok((acc.0, Self::set_text(acc.1, k, x))),
                Err(f) => Err(f),
            }
        } else if Self::is_text_list_key(k) {
            match <Vec<String> as PlistCodec>::spec_decoded(val) {
                Ok(x) => Ok((acc.0, Self::set_text_list(acc.1, k, x))),
                Err(f) => Err(f),
            }
        } else if Self::is_u32_key(k) {
            match <u32 as PlistCodec>::spec_decoded(val) {
                Ok(x) => Ok((acc.0, Self::set_u32(acc.1, k, x))),
                Err(f) => Err(f),
            }
        } else if k == "Umask"@ {
            match <u16 as PlistCodec>::spec_decoded(val) {
                Ok(x) => Ok((acc.0, LaunchdView { umask: Some(x), ..acc.1 })),
                Err(f) => Err(f),
            }
        } else if k == "Nice"@ {
            match <i32 as PlistCodec>::spec_decoded(val) {
                Ok(x) => Ok((acc.0, LaunchdView { nice: Some(x), ..acc.1 })),
                Err(f) => Err(f),
            }
        } else if k == "inetdCompatibility"@ {
            match <InetdCompatibilityFlags as PlistCodec>::spec_decoded(val) {
                Ok(x) => Ok((acc.0, LaunchdView { inetd_compatibility: Some(x), ..acc.1 })),
                Err(f) => Err(f),
            }
        } else if k == "LimitLoadToSessionType"@ {
            match <LoadSessionType as PlistCodec>::spec_decoded(val) {
                Ok(x) => Ok((acc.0, LaunchdView { limit_load_to_session_type: Some(x), ..acc.1 })),
                Err(f) => Err(f),
            }
        } else if k == "LimitLoadToHardware"@ {
            match <Dict<Vec<String>> as PlistCodec>::spec_decoded(val) {
                Ok(x) => Ok((acc.0, LaunchdView { limit_load_to_hardware: Some(x), ..acc.1 })),
                Err(f) => Err(f),
            }
        } else if k == "LimitLoadFromHardware"@ {
            match <Dict<Vec<String>> as PlistCodec>::spec_decoded(val) {
                Ok(x) => Ok((acc.0, LaunchdView { limit_load_from_hardware: Some(x), ..acc.1 })),
                Err(f) => Err(f),
            }
        } else if k == "KeepAlive"@ {
            match <KeepAliveType as PlistCodec>::spec_decoded(val) {
                Ok(x) => Ok((acc.0, LaunchdView { keep_alive: Some(x), ..acc.1 })),
                Err(f) => Err(f),
            }
        } else if k == "EnvironmentVariables"@ {
            match <Dict<String> as PlistCodec>::spec_decoded(val) {
                Ok(x) => Ok((acc.0, LaunchdView { environment_variables: Some(x), ..acc.1 })),
                Err(f) => Err(f),
            }
        } else if k == "StartCalendarIntervals"@ {
            match <Vec<CalendarInterval> as PlistCodec>::spec_decoded(val) {
                Ok(x) => Ok((acc.0, LaunchdView { start_calendar_intervals: Some(x), ..acc.1 })),
                Err(f) => Err(f),
            }
        } else if k == "SoftResourceLimits"@ {
            match <ResourceLimits as PlistCodec>::spec_decoded(val) {
                Ok(x) => Ok((acc.0, LaunchdView { soft_resource_limits: Some(x), ..acc.1 })),
                Err(f) => Err(f),
            }
        } else if k == "HardResourceLimits"@ {
            match <ResourceLimits as PlistCodec>::spec_decoded(val) {
                Ok(x) => Ok((acc.0, LaunchdView { hard_resource_limits: Some(x), ..acc.1 })),
                Err(f) => Err(f),
            }
        } else if k == "ProcessType"@ {
            match <ProcessType as PlistCodec>::spec_decoded(val) {
                Ok(x) => Ok((acc.0, LaunchdView { process_type: Some(x), ..acc.1 })),
                Err(f) => Err(f),
            }
        } else if k == "MachServices"@ {
            match <Dict<MachServiceEntry> as PlistCodec>::spec_decoded(val) {
                Ok(x) => Ok((acc.0, LaunchdView { mach_services: Some(x), ..acc.1 })),
                Err(f) => Err(f),
            }
        } else if k == "Sockets"@ {
            match <Sockets as PlistCodec>::spec_decoded(val) {
                Ok(x) => Ok((acc.0, LaunchdView { sockets: Some(x), ..acc.1 })),
                Err(f) => Err(f),
            }
        } else if k == "LaunchEvents"@ {
            match <LaunchEvents as PlistCodec>::spec_decoded(val) {
                Ok(x) => Ok((acc.0, LaunchdView { launch_events: Some(x), ..acc.1 })),
                Err(f) => Err(f),
            }
        } else {
            Err(DecodeFault::Schema(k))
        }
    }

    /// The step function, as a value `record_fold` can take.
    pub open spec fn spec_step_fn() -> spec_fn(
        (bool, LaunchdView),
        Seq<char>,
        SpecValue,
    ) -> Result<(bool, LaunchdView), DecodeFault> {
        |acc: (bool, LaunchdView), k: Seq<char>, val: SpecValue| Self::spec_step(acc, k, val)
    }

    /// One stretch of the encoded entry list, pushed onto `s`.
    #[verifier::opaque]
    pub open spec fn spec_fields_a(v: LaunchdView, s: Seq<(Seq<char>, SpecValue)>) -> Seq<
        (Seq<char>, SpecValue),
    > {
        let s = s.push(("Label"@, <String as PlistCodec>::spec_encoded(v.label)));
        let s = if v.disabled is Some {
            s.push(("Disabled"@, <bool as PlistCodec>::spec_encoded(v.disabled->0)))
        } else {
            s
        };
        let s = if v.user_name is Some {
            s.push(("UserName"@, <String as PlistCodec>::spec_encoded(v.user_name->0)))
        } else {
            s
        };
        let s = if v.group_name is Some {
            s.push(("GroupName"@, <String as PlistCodec>::spec_encoded(v.group_name->0)))
        } else {
            s
        };
        let s = if v.inetd_compatibility is Some {
            s.push(("inetdCompatibility"@, <InetdCompatibilityFlags as PlistCodec>::spec_encoded(v.inetd_compatibility->0)))
        } else {
            s
        };
        let s = if v.limit_load_to_hosts is Some {
            s.push(("LimitLoadToHosts"@, <Vec<String> as PlistCodec>::spec_encoded(v.limit_load_to_hosts->0)))
        } else {
            s
        };
        let s = if v.limit_load_from_hosts is Some {
            s.push(("LimitLoadFromHosts"@, <Vec<String> as PlistCodec>::spec_encoded(v.limit_load_from_hosts->0)))
        } else {
            s
        };
        let s = if v.limit_load_to_session_type is Some {
            s.push(("LimitLoadToSessionType"@, <LoadSessionType as PlistCodec>::spec_encoded(v.limit_load_to_session_type->0)))
        } else {
            s
        };
        let s = if v.limit_load_to_hardware is Some {
            s.push(("LimitLoadToHardware"@, <Dict<Vec<String>> as PlistCodec>::spec_encoded(v.limit_load_to_hardware->0)))
        } else {
            s
        };
        let s = if v.limit_load_from_hardware is Some {
            s.push(("LimitLoadFromHardware"@, <Dict<Vec<String>> as PlistCodec>::spec_encoded(v.limit_load_from_hardware->0)))
        } else {
            s
        };
        let s = if v.program is Some {
            s.push(("Program"@, <String as PlistCodec>::spec_encoded(v.program->0)))
        } else {
            s
        };
        let s = if v.bundle_program is Some {
            s.push(("BundleProgram"@, <String as PlistCodec>::spec_encoded(v.bundle_program->0)))
        } else {
            s
        };
        s
    }

    /// One stretch of the encoded entry list, pushed onto `s`.
    #[verifier::opaque]
    pub open spec fn spec_fields_b(v: LaunchdView, s: Seq<(Seq<char>, SpecValue)>) -> Seq<
        (Seq<char>, SpecValue),
    > {
        let s = if v.program_arguments is Some {
            s.push(("ProgramArguments"@, <Vec<String> as PlistCodec>::spec_encoded(v.program_arguments->0)))
        } else {
            s
        };
        let s = if v.enable_globbing is Some {
            s.push(("EnableGlobbing"@, <bool as PlistCodec>::spec_encoded(v.enable_globbing->0)))
        } else {
            s
        };
        let s = if v.enable_transactions is Some {
            s.push(("EnableTransactions"@, <bool as PlistCodec>::spec_encoded(v.enable_transactions->0)))
        } else {
            s
        };
        let s = if v.enable_pressured_exit is Some {
            s.push(("EnablePressuredExit"@, <bool as PlistCodec>::spec_encoded(v.enable_pressured_exit->0)))
        } else {
            s
        };
        let s = if v.on_demand is Some {
            s.push(("OnDemand"@, <bool as PlistCodec>::spec_encoded(v.on_demand->0)))
        } else {
            s
        };
        let s = if v.service_ipc is Some {
            s.push(("ServiceIPC"@, <bool as PlistCodec>::spec_encoded(v.service_ipc->0)))
        } else {
            s
        };
        let s = if v.keep_alive is Some {
            s.push(("KeepAlive"@, <KeepAliveType as PlistCodec>::spec_encoded(v.keep_alive->0)))
        } else {
            s
        };
        let s = if v.run_at_load is Some {
            s.push(("RunAtLoad"@, <bool as PlistCodec>::spec_encoded(v.run_at_load->0)))
        } else {
            s
        };
        let s = if v.root_directory is Some {
            s.push(("RootDirectory"@, <String as PlistCodec>::spec_encoded(v.root_directory->0)))
        } else {
            s
        };
        let s = if v.working_directory is Some {
            s.push(("WorkingDirectory"@, <String as PlistCodec>::spec_encoded(v.working_directory->0)))
        } else {
            s
        };
        let s = if v.environment_variables is Some {
            s.push(("EnvironmentVariables"@, <Dict<String> as PlistCodec>::spec_encoded(v.environment_variables->0)))
        } else {
            s
        };
        s
    }

    /// One stretch of the encoded entry list, pushed onto `s`.
    #[verifier::opaque]
    pub open spec fn spec_fields_c(v: LaunchdView, s: Seq<(Seq<char>, SpecValue)>) -> Seq<
        (Seq<char>, SpecValue),
    > {
        let s = if v.umask is Some {
            s.push(("Umask"@, <u16 as PlistCodec>::spec_encoded(v.umask->0)))
        } else {
            s
        };
        let s = if v.time_out is Some {
            s.push(("TimeOut"@, <u32 as PlistCodec>::spec_encoded(v.time_out->0)))
        } else {
            s
        };
        let s = if v.exit_time_out is Some {
            s.push(("ExitTimeOut"@, <u32 as PlistCodec>::spec_encoded(v.exit_time_out->0)))
        } else {
            s
        };
        let s = if v.throttle_interval is Some {
            s.push(("ThrottleInterval"@, <u32 as PlistCodec>::spec_encoded(v.throttle_interval->0)))
        } else {
            s
        };
        let s = if v.init_groups is Some {
            s.push(("InitGroups"@, <bool as PlistCodec>::spec_encoded(v.init_groups->0)))
        } else {
            s
        };
        let s = if v.watch_paths is Some {
            s.push(("WatchPaths"@, <Vec<String> as PlistCodec>::spec_encoded(v.watch_paths->0)))
        } else {
            s
        };
        let s = if v.queue_directories is Some {
            s.push(("QueueDirectories"@, <Vec<String> as PlistCodec>::spec_encoded(v.queue_directories->0)))
        } else {
            s
        };
        let s = if v.start_on_mount is Some {
            s.push(("StartOnMount"@, <bool as PlistCodec>::spec_encoded(v.start_on_mount->0)))
        } else {
            s
        };
        let s = if v.start_interval is Some {
            s.push(("StartInterval"@, <u32 as PlistCodec>::spec_encoded(v.start_interval->0)))
        } else {
            s
        };
        let s = if v.start_calendar_intervals is Some {
            s.push(("StartCalendarIntervals"@, <Vec<CalendarInterval> as PlistCodec>::spec_encoded(v.start_calendar_intervals->0)))
        } else {
            s
        };
        let s = if v.standard_in_path is Some {
            s.push(("StandardInPath"@, <String as PlistCodec>::spec_encoded(v.standard_in_path->0)))
        } else {
            s
        };
        s
    }

    /// One stretch of the encoded entry list, pushed onto `s`.
    #[verifier::opaque]
    pub open spec fn spec_fields_d(v: LaunchdView, s: Seq<(Seq<char>, SpecValue)>) -> Seq<
        (Seq<char>, SpecValue),
    > {
        let s = if v.standard_out_path is Some {
            s.push(("StandardOutPath"@, <String as PlistCodec>::spec_encoded(v.standard_out_path->0)))
        } else {
            s
        };
        let s = if v.standard_error_path is Some {
            s.push(("StandardErrorPath"@, <String as PlistCodec>::spec_encoded(v.standard_error_path->0)))
        } else {
            s
        };
        let s = if v.debug is Some {
            s.push(("Debug"@, <bool as PlistCodec>::spec_encoded(v.debug->0)))
        } else {
            s
        };
        let s = if v.wait_for_debugger is Some {
            s.push(("WaitForDebugger"@, <bool as PlistCodec>::spec_encoded(v.wait_for_debugger->0)))
        } else {
            s
        };
        let s = if v.soft_resource_limits is Some {
            s.push(("SoftResourceLimits"@, <ResourceLimits as PlistCodec>::spec_encoded(v.soft_resource_limits->0)))
        } else {
            s
        };
        let s = if v.hard_resource_limits is Some {
            s.push(("HardResourceLimits"@, <ResourceLimits as PlistCodec>::spec_encoded(v.hard_resource_limits->0)))
        } else {
            s
        };
        let s = if v.nice is Some {
            s.push(("Nice"@, <i32 as PlistCodec>::spec_encoded(v.nice->0)))
        } else {
            s
        };
        let s = if v.process_type is Some {
            s.push(("ProcessType"@, <ProcessType as PlistCodec>::spec_encoded(v.process_type->0)))
        } else {
            s
        };
        let s = if v.abandon_process_group is Some {
            s.push(("AbandonProcessGroup"@, <bool as PlistCodec>::spec_encoded(v.abandon_process_group->0)))
        } else {
            s
        };
        let s = if v.low_priority_io is Some {
            s.push(("LowPriorityIO"@, <bool as PlistCodec>::spec_encoded(v.low_priority_io->0)))
        } else {
            s
        };
        let s = if v.low_priority_background_io is Some {
            s.push(("LowPriorityBackgroundIO"@, <bool as PlistCodec>::spec_encoded(v.low_priority_background_io->0)))
        } else {
            s
        };
        s
    }

    /// One stretch of the encoded entry list, pushed onto `s`.
    #[verifier::opaque]
    pub open spec fn spec_fields_e(v: LaunchdView, s: Seq<(Seq<char>, SpecValue)>) -> Seq<
        (Seq<char>, SpecValue),
    > {
        let s = if v.materialize_dataless_files is Some {
            s.push(("MaterializeDatalessFiles"@, <bool as PlistCodec>::spec_encoded(v.materialize_dataless_files->0)))
        } else {
            s
        };
        let s = if v.launch_only_once is Some {
            s.push(("LaunchOnlyOnce"@, <bool as PlistCodec>::spec_encoded(v.launch_only_once->0)))
        } else {
            s
        };
        let s = if v.mach_services is Some {
            s.push(("MachServices"@, <Dict<MachServiceEntry> as PlistCodec>::spec_encoded(v.mach_services->0)))
        } else {
            s
        };
        let s = if v.sockets is Some {
            s.push(("Sockets"@, <Sockets as PlistCodec>::spec_encoded(v.sockets->0)))
        } else {
            s
        };
        let s = if v.launch_events is Some {
            s.push(("LaunchEvents"@, <LaunchEvents as PlistCodec>::spec_encoded(v.launch_events->0)))
        } else {
            s
        };
        let s = if v.hopefully_exits_last is Some {
            s.push(("HopefullyExitsLast"@, <bool as PlistCodec>::spec_encoded(v.hopefully_exits_last->0)))
        } else {
            s
        };
        let s = if v.hopefully_exits_first is Some {
            s.push(("HopefullyExitsFirst"@, <bool as PlistCodec>::spec_encoded(v.hopefully_exits_first->0)))
        } else {
            s
        };
        let s = if v.session_create is Some {
            s.push(("SessionCreate"@, <bool as PlistCodec>::spec_encoded(v.session_create->0)))
        } else {
            s
        };
        let s = if v.legacy_timers is Some {
            s.push(("LegacyTimers"@, <bool as PlistCodec>::spec_encoded(v.legacy_timers->0)))
        } else {
            s
        };
        s
    }

    /// The dictionary entries that encode a descriptor: the label first,
    /// then each set field, in schema order.
    pub open spec fn spec_fields(v: LaunchdView) -> Seq<(Seq<char>, SpecValue)> {
        Self::spec_fields_e(
            v,
            Self::spec_fields_d(
                v,
                Self::spec_fields_c(
                    v,
                    Self::spec_fields_b(v, Self::spec_fields_a(v, Seq::empty())),
                ),
            ),
        )
    }

    /// Which abstract descriptors are well formed: every map-like field
    /// keeps its keys unique.
    pub open spec fn spec_wf(v: LaunchdView) -> bool {
        &&& (v.limit_load_to_hardware matches Some(d)
            ==> <Dict<Vec<String>> as PlistCodec>::wf_view(d))
        &&& (v.limit_load_from_hardware matches Some(d)
            ==> <Dict<Vec<String>> as PlistCodec>::wf_view(d))
        &&& (v.keep_alive matches Some(ka) ==> <KeepAliveType as PlistCodec>::wf_view(ka))
        &&& (v.environment_variables matches Some(d) ==> <Dict<String> as PlistCodec>::wf_view(
            d,
        ))
        &&& (v.mach_services matches Some(d) ==> <Dict<MachServiceEntry> as PlistCodec>::wf_view(
            d,
        ))
        &&& (v.sockets matches Some(sv) ==> <Sockets as PlistCodec>::wf_view(sv))
        &&& (v.launch_events matches Some(ev) ==> <LaunchEvents as PlistCodec>::wf_view(ev))
    }

    /// The decoding of an abstract document tree into a descriptor: the
    /// entries folded left to right, the mandatory label required, and an
    /// unrecognized top-level key refused.
    pub open spec fn spec_from_document(t: SpecValue) -> Result<LaunchdView, DecodeFault> {
        match t {
            SpecValue::Dictionary(pairs) => match record_fold(
                pairs,
                (false, Self::spec_empty_view()),
                Self::spec_step_fn(),
            ) {
                Ok((seen, l)) => if seen {
                    Ok(l)
                } else {
                    Err(DecodeFault::Schema("missing mandatory key Label"@))
                },
                Err(f) => Err(f),
            },
            _ => Err(DecodeFault::Schema("dictionary value expected"@)),
        }
    }
}

impl Launchd {
    /// The executable starting point of decoding.
    fn empty_for_decode() -> (r: Launchd)
        ensures
            r.deep_view() == Self::spec_empty_view(),
    {
        Launchd {
            label: String::new(),
            disabled: None,
            user_name: None,
            group_name: None,
            inetd_compatibility: None,
            limit_load_to_hosts: None,
            limit_load_from_hosts: None,
            limit_load_to_session_type: None,
            limit_load_to_hardware: None,
            limit_load_from_hardware: None,
            program: None,
            bundle_program: None,
            program_arguments: None,
            enable_globbing: None,
            enable_transactions: None,
            enable_pressured_exit: None,
            on_demand: None,
            service_ipc: None,
            keep_alive: None,
            run_at_load: None,
            root_directory: None,
            working_directory: None,
            environment_variables: None,
            umask: None,
            time_out: None,
            exit_time_out: None,
            throttle_interval: None,
            init_groups: None,
            watch_paths: None,
            queue_directories: None,
            start_on_mount: None,
            start_interval: None,
            start_calendar_intervals: None,
            standard_in_path: None,
            standard_out_path: None,
            standard_error_path: None,
            debug: None,
            wait_for_debugger: None,
            soft_resource_limits: None,
            hard_resource_limits: None,
            nice: None,
            process_type: None,
            abandon_process_group: None,
            low_priority_io: None,
            low_priority_background_io: None,
            materialize_dataless_files: None,
            launch_only_once: None,
            mach_services: None,
            sockets: None,
            launch_events: None,
            hopefully_exits_last: None,
            hopefully_exits_first: None,
            session_create: None,
            legacy_timers: None,
        }
    }

    /// Emits one stretch of the encoded entry list.
    fn emit_fields_a(&self, out: &mut Vec<(String, PlistValue)>)
        ensures
            view_pairs(final(out)@) == Self::spec_fields_a(
                self.deep_view(),
                view_pairs(old(out)@),
            ),
    {
        proof {
            reveal(Launchd::spec_fields_a);
        }
        push_entry(out, "Label", self.label.to_value());
        if let Some(x) = self.disabled {
            push_entry(out, "Disabled", x.to_value());
        }
        if let Some(x) = &self.user_name {
            push_entry(out, "UserName", x.to_value());
        }
        if let Some(x) = &self.group_name {
            push_entry(out, "GroupName", x.to_value());
        }
        if let Some(x) = self.inetd_compatibility {
            push_entry(out, "inetdCompatibility", x.to_value());
        }
        if let Some(x) = &self.limit_load_to_hosts {
            push_entry(out, "LimitLoadToHosts", x.to_value());
        }
        if let Some(x) = &self.limit_load_from_hosts {
            push_entry(out, "LimitLoadFromHosts", x.to_value());
        }
        if let Some(x) = &self.limit_load_to_session_type {
            push_entry(out, "LimitLoadToSessionType", x.to_value());
        }
        if let Some(x) = &self.limit_load_to_hardware {
            push_entry(out, "LimitLoadToHardware", x.to_value());
        }
        if let Some(x) = &self.limit_load_from_hardware {
            push_entry(out, "LimitLoadFromHardware", x.to_value());
        }
        if let Some(x) = &self.program {
            push_entry(out, "Program", x.to_value());
        }
        if let Some(x) = &self.bundle_program {
            push_entry(out, "BundleProgram", x.to_value());
        }
    }

    /// Emits one stretch of the encoded entry list.
    fn emit_fields_b(&self, out: &mut Vec<(String, PlistValue)>)
        ensures
            view_pairs(final(out)@) == Self::spec_fields_b(
                self.deep_view(),
                view_pairs(old(out)@),
            ),
    {
        proof {
            reveal(Launchd::spec_fields_b);
        }
        if let Some(x) = &self.program_arguments {
            push_entry(out, "ProgramArguments", x.to_value());
        }
        if let Some(x) = self.enable_globbing {
            push_entry(out, "EnableGlobbing", x.to_value());
        }
        if let Some(x) = self.enable_transactions {
            push_entry(out, "EnableTransactions", x.to_value());
        }
        if let Some(x) = self.enable_pressured_exit {
            push_entry(out, "EnablePressuredExit", x.to_value());
        }
        if let Some(x) = self.on_demand {
            push_entry(out, "OnDemand", x.to_value());
        }
        if let Some(x) = self.service_ipc {
            push_entry(out, "ServiceIPC", x.to_value());
        }
        if let Some(x) = &self.keep_alive {
            push_entry(out, "KeepAlive", x.to_value());
        }
        if let Some(x) = self.run_at_load {
            push_entry(out, "RunAtLoad", x.to_value());
        }
        if let Some(x) = &self.root_directory {
            push_entry(out, "RootDirectory", x.to_value());
        }
        if let Some(x) = &self.working_directory {
            push_entry(out, "WorkingDirectory", x.to_value());
        }
        if let Some(x) = &self.environment_variables {
            push_entry(out, "EnvironmentVariables", x.to_value());
        }
    }

    /// Emits one stretch of the encoded entry list.
    fn emit_fields_c(&self, out: &mut Vec<(String, PlistValue)>)
        ensures
            view_pairs(final(out)@) == Self::spec_fields_c(
                self.deep_view(),
                view_pairs(old(out)@),
            ),
    {
        proof {
            reveal(Launchd::spec_fields_c);
        }
        if let Some(x) = self.umask {
            push_entry(out, "Umask", x.to_value());
        }
        if let Some(x) = self.time_out {
            push_entry(out, "TimeOut", x.to_value());
        }
        if let Some(x) = self.exit_time_out {
            push_entry(out, "ExitTimeOut", x.to_value());
        }
        if let Some(x) = self.throttle_interval {
            push_entry(out, "ThrottleInterval", x.to_value());
        }
        if let Some(x) = self.init_groups {
            push_entry(out, "InitGroups", x.to_value());
        }
        if let Some(x) = &self.watch_paths {
            push_entry(out, "WatchPaths", x.to_value());
        }
        if let Some(x) = &self.queue_directories {
            push_entry(out, "QueueDirectories", x.to_value());
        }
        if let Some(x) = self.start_on_mount {
            push_entry(out, "StartOnMount", x.to_value());
        }
        if let Some(x) = self.start_interval {
            push_entry(out, "StartInterval", x.to_value());
        }
        if let Some(x) = &self.start_calendar_intervals {
            push_entry(out, "StartCalendarIntervals", x.to_value());
        }
        if let Some(x) = &self.standard_in_path {
            push_entry(out, "StandardInPath", x.to_value());
        }
    }

    /// Emits one stretch of the encoded entry list.
    fn emit_fields_d(&self, out: &mut Vec<(String, PlistValue)>)
        ensures
            view_pairs(final(out)@) == Self::spec_fields_d(
                self.deep_view(),
                view_pairs(old(out)@),
            ),
    {
        proof {
            reveal(Launchd::spec_fields_d);
        }
        if let Some(x) = &self.standard_out_path {
            push_entry(out, "StandardOutPath", x.to_value());
        }
        if let Some(x) = &self.standard_error_path {
            push_entry(out, "StandardErrorPath", x.to_value());
        }
        if let Some(x) = self.debug {
            push_entry(out, "Debug", x.to_value());
        }
        if let Some(x) = self.wait_for_debugger {
            push_entry(out, "WaitForDebugger", x.to_value());
        }
        if let Some(x) = self.soft_resource_limits {
            push_entry(out, "SoftResourceLimits", x.to_value());
        }
        if let Some(x) = self.hard_resource_limits {
            push_entry(out, "HardResourceLimits", x.to_value());
        }
        if let Some(x) = self.nice {
            push_entry(out, "Nice", x.to_value());
        }
        if let Some(x) = self.process_type {
            push_entry(out, "ProcessType", x.to_value());
        }
        if let Some(x) = self.abandon_process_group {
            push_entry(out, "AbandonProcessGroup", x.to_value());
        }
        if let Some(x) = self.low_priority_io {
            push_entry(out, "LowPriorityIO", x.to_value());
        }
        if let Some(x) = self.low_priority_background_io {
            push_entry(out, "LowPriorityBackgroundIO", x.to_value());
        }
    }

    /// Emits one stretch of the encoded entry list.
    fn emit_fields_e(&self, out: &mut Vec<(String, PlistValue)>)
        ensures
            view_pairs(final(out)@) == Self::spec_fields_e(
                self.deep_view(),
                view_pairs(old(out)@),
            ),
    {
        proof {
            reveal(Launchd::spec_fields_e);
        }
        if let Some(x) = self.materialize_dataless_files {
            push_entry(out, "MaterializeDatalessFiles", x.to_value());
        }
        if let Some(x) = self.launch_only_once {
            push_entry(out, "LaunchOnlyOnce", x.to_value());
        }
        if let Some(x) = &self.mach_services {
            push_entry(out, "MachServices", x.to_value());
        }
        if let Some(x) = &self.sockets {
            push_entry(out, "Sockets", x.to_value());
        }
        if let Some(x) = &self.launch_events {
            push_entry(out, "LaunchEvents", x.to_value());
        }
        if let Some(x) = self.hopefully_exits_last {
            push_entry(out, "HopefullyExitsLast", x.to_value());
        }
        if let Some(x) = self.hopefully_exits_first {
            push_entry(out, "HopefullyExitsFirst", x.to_value());
        }
        if let Some(x) = self.session_create {
            push_entry(out, "SessionCreate", x.to_value());
        }
        if let Some(x) = self.legacy_timers {
            push_entry(out, "LegacyTimers", x.to_value());
        }
    }

    /// Encodes the descriptor as a document tree: a dictionary holding
    /// the label and each set field under its schema key, in schema
    /// order.
    pub fn to_document(&self) -> (r: PlistValue)
        ensures
            r@ == SpecValue::Dictionary(Self::spec_fields(self.deep_view())),
    {
        let mut out: Vec<(String, PlistValue)> = Vec::new();
        proof {
            assert(view_pairs(out@) =~= Seq::<(Seq<char>, SpecValue)>::empty());
        }
        self.emit_fields_a(&mut out);
        self.emit_fields_b(&mut out);
        self.emit_fields_c(&mut out);
        self.emit_fields_d(&mut out);
        self.emit_fields_e(&mut out);
        proof {
            assert(view_pairs(out@) == Self::spec_fields(self.deep_view()));
        }
        PlistValue::Dictionary(out)
    }

    /// Applies one dictionary entry to the decoding state, exactly as
    /// `spec_step` prescribes.
    #[verifier::rlimit(50)]
    #[verifier::spinoff_prover]
    fn apply_entry(seen: bool, acc0: Launchd, k: &String, val: &PlistValue) -> (r: Result<
        (bool, Launchd),
        Error,
    >)
        ensures
            (match r {
                Ok(p) => Self::spec_step((seen, acc0.deep_view()), k@, val@) == Ok::<
                    (bool, LaunchdView),
                    DecodeFault,
                >((p.0, p.1.deep_view())) && (Self::spec_wf(acc0.deep_view())
                    ==> Self::spec_wf(p.1.deep_view())),
                Err(e) => Self::spec_step((seen, acc0.deep_view()), k@, val@) matches Err(f)
                    && f.reflected_by(e),
            }),
    {
        let mut acc = acc0;
        let ks = k.as_str();
        if str_eq(ks, "Label") {
            match <String as PlistCodec>::from_value(val) {
                Ok(x) => {
                    acc.label = x;
                    Ok((true, acc))
                },
                Err(e) => Err(e),
            }
        } else if str_eq(ks, "Disabled") || str_eq(ks, "EnableGlobbing") || str_eq(ks, "EnableTransactions") || str_eq(ks, "EnablePressuredExit") || str_eq(ks, "OnDemand") || str_eq(ks, "ServiceIPC") || str_eq(ks, "RunAtLoad") || str_eq(ks, "InitGroups") || str_eq(ks, "StartOnMount") || str_eq(ks, "Debug") || str_eq(ks, "WaitForDebugger") || str_eq(ks, "AbandonProcessGroup") || str_eq(ks, "LowPriorityIO") || str_eq(ks, "LowPriorityBackgroundIO") || str_eq(ks, "MaterializeDatalessFiles") || str_eq(ks, "LaunchOnlyOnce") || str_eq(ks, "HopefullyExitsLast") || str_eq(ks, "HopefullyExitsFirst") || str_eq(ks, "SessionCreate") || str_eq(ks, "LegacyTimers") {
            match <bool as PlistCodec>::from_value(val) {
                Ok(x) => {
                    if str_eq(ks, "Disabled") {
                        acc.disabled = Some(x);
                    } else if str_eq(ks, "EnableGlobbing") {
                        acc.enable_globbing = Some(x);
                    } else if str_eq(ks, "EnableTransactions") {
                        acc.enable_transactions = Some(x);
                    } else if str_eq(ks, "EnablePressuredExit") {
                        acc.enable_pressured_exit = Some(x);
                    } else if str_eq(ks, "OnDemand") {
                        acc.on_demand = Some(x);
                    } else if str_eq(ks, "ServiceIPC") {
                        acc.service_ipc = Some(x);
                    } else if str_eq(ks, "RunAtLoad") {
                        acc.run_at_load = Some(x);
                    } else if str_eq(ks, "InitGroups") {
                        acc.init_groups = Some(x);
                    } else if str_eq(ks, "StartOnMount") {
                        acc.start_on_mount = Some(x);
                    } else if str_eq(ks, "Debug") {
                        acc.debug = Some(x);
                    } else if str_eq(ks, "WaitForDebugger") {
                        acc.wait_for_debugger = Some(x);
                    } else if str_eq(ks, "AbandonProcessGroup") {
                        acc.abandon_process_group = Some(x);
                    } else if str_eq(ks, "LowPriorityIO") {
                        acc.low_priority_io = Some(x);
                    } else if str_eq(ks, "LowPriorityBackgroundIO") {
                        acc.low_priority_background_io = Some(x);
                    } else if str_eq(ks, "MaterializeDatalessFiles") {
                        acc.materialize_dataless_files = Some(x);
                    } else if str_eq(ks, "LaunchOnlyOnce") {
                        acc.launch_only_once = Some(x);
                    } else if str_eq(ks, "HopefullyExitsLast") {
                        acc.hopefully_exits_last = Some(x);
                    } else if str_eq(ks, "HopefullyExitsFirst") {
                        acc.hopefully_exits_first = Some(x);
                    } else if str_eq(ks, "SessionCreate") {
                        acc.session_create = Some(x);
                    } else {
                        acc.legacy_timers = Some(x);
                    }
                    Ok((seen, acc))
                },
                Err(e) => Err(e),
            }
        } else if str_eq(ks, "UserName") || str_eq(ks, "GroupName") || str_eq(ks, "Program") || str_eq(ks, "BundleProgram") || str_eq(ks, "RootDirectory") || str_eq(ks, "WorkingDirectory") || str_eq(ks, "StandardInPath") || str_eq(ks, "StandardOutPath") || str_eq(ks, "StandardErrorPath") {
            match <String as PlistCodec>::from_value(val) {
                Ok(x) => {
                    if str_eq(ks, "UserName") {
                        acc.user_name = Some(x);
                    } else if str_eq(ks, "GroupName") {
                        acc.group_name = Some(x);
                    } else if str_eq(ks, "Program") {
                        acc.program = Some(x);
                    } else if str_eq(ks, "BundleProgram") {
                        acc.bundle_program = Some(x);
                    } else if str_eq(ks, "RootDirectory") {
                        acc.root_directory = Some(x);
                    } else if str_eq(ks, "WorkingDirectory") {
                        acc.working_directory = Some(x);
                    } else if str_eq(ks, "StandardInPath") {
                        acc.standard_in_path = Some(x);
                    } else if str_eq(ks, "StandardOutPath") {
                        acc.standard_out_path = Some(x);
                    } else {
                        acc.standard_error_path = Some(x);
                    }
                    Ok((seen, acc))
                },
                Err(e) => Err(e),
            }
        } else if str_eq(ks, "LimitLoadToHosts") || str_eq(ks, "LimitLoadFromHosts") || str_eq(ks, "ProgramArguments") || str_eq(ks, "WatchPaths") || str_eq(ks, "QueueDirectories") {
            match <Vec<String> as PlistCodec>::from_value(val) {
                Ok(x) => {
                    if str_eq(ks, "LimitLoadToHosts") {
                        acc.limit_load_to_hosts = Some(x);
                    } else if str_eq(ks, "LimitLoadFromHosts") {
                        acc.limit_load_from_hosts = Some(x);
                    } else if str_eq(ks, "ProgramArguments") {
                        acc.program_arguments = Some(x);
                    } else if str_eq(ks, "WatchPaths") {
                        acc.watch_paths = Some(x);
                    } else {
                        acc.queue_directories = Some(x);
                    }
                    Ok((seen, acc))
                },
                Err(e) => Err(e),
            }
        } else if str_eq(ks, "TimeOut") || str_eq(ks, "ExitTimeOut") || str_eq(ks, "ThrottleInterval") || str_eq(ks, "StartInterval") {
            match <u32 as PlistCodec>::from_value(val) {
                Ok(x) => {
                    if str_eq(ks, "TimeOut") {
                        acc.time_out = Some(x);
                    } else if str_eq(ks, "ExitTimeOut") {
                        acc.exit_time_out = Some(x);
                    } else if str_eq(ks, "ThrottleInterval") {
                        acc.throttle_interval = Some(x);
                    } else {
                        acc.start_interval = Some(x);
                    }
                    Ok((seen, acc))
                },
                Err(e) => Err(e),
            }
        } else if str_eq(ks, "Umask") {
            match <u16 as PlistCodec>::from_value(val) {
                Ok(x) => {
                    acc.umask = Some(x);
                    Ok((seen, acc))
                },
                Err(e) => Err(e),
            }
        } else if str_eq(ks, "Nice") {
            match <i32 as PlistCodec>::from_value(val) {
                Ok(x) => {
                    acc.nice = Some(x);
                    Ok((seen, acc))
                },
                Err(e) => Err(e),
            }
        } else if str_eq(ks, "inetdCompatibility") {
            match <InetdCompatibilityFlags as PlistCodec>::from_value(val) {
                Ok(x) => {
                    acc.inetd_compatibility = Some(x);
                    Ok((seen, acc))
                },
                Err(e) => Err(e),
            }
        } else if str_eq(ks, "LimitLoadToSessionType") {
            match <LoadSessionType as PlistCodec>::from_value(val) {
                Ok(x) => {
                    acc.limit_load_to_session_type = Some(x);
                    Ok((seen, acc))
                },
                Err(e) => Err(e),
            }
        } else if str_eq(ks, "LimitLoadToHardware") {
            match <Dict<Vec<String>> as PlistCodec>::from_value(val) {
                Ok(x) => {
                    acc.limit_load_to_hardware = Some(x);
                    Ok((seen, acc))
                },
                Err(e) => Err(e),
            }
        } else if str_eq(ks, "LimitLoadFromHardware") {
            match <Dict<Vec<String>> as PlistCodec>::from_value(val) {
                Ok(x) => {
                    acc.limit_load_from_hardware = Some(x);
                    Ok((seen, acc))
                },
                Err(e) => Err(e),
            }
        } else if str_eq(ks, "KeepAlive") {
            match <KeepAliveType as PlistCodec>::from_value(val) {
                Ok(x) => {
                    acc.keep_alive = Some(x);
                    Ok((seen, acc))
                },
                Err(e) => Err(e),
            }
        } else if str_eq(ks, "EnvironmentVariables") {
            match <Dict<String> as PlistCodec>::from_value(val) {
                Ok(x) => {
                    acc.environment_variables = Some(x);
                    Ok((seen, acc))
                },
                Err(e) => Err(e),
            }
        } else if str_eq(ks, "StartCalendarIntervals") {
            match <Vec<CalendarInterval> as PlistCodec>::from_value(val) {
                Ok(x) => {
                    acc.start_calendar_intervals = Some(x);
                    Ok((seen, acc))
                },
                Err(e) => Err(e),
            }
        } else if str_eq(ks, "SoftResourceLimits") {
            match <ResourceLimits as PlistCodec>::from_value(val) {
                Ok(x) => {
                    acc.soft_resource_limits = Some(x);
                    Ok((seen, acc))
                },
                Err(e) => Err(e),
            }
        } else if str_eq(ks, "HardResourceLimits") {
            match <ResourceLimits as PlistCodec>::from_value(val) {
                Ok(x) => {
                    acc.hard_resource_limits = Some(x);
                    Ok((seen, acc))
                },
                Err(e) => Err(e),
            }
        } else if str_eq(ks, "ProcessType") {
            match <ProcessType as PlistCodec>::from_value(val) {
                Ok(x) => {
                    acc.process_type = Some(x);
                    Ok((seen, acc))
                },
                Err(e) => Err(e),
            }
        } else if str_eq(ks, "MachServices") {
            match <Dict<MachServiceEntry> as PlistCodec>::from_value(val) {
                Ok(x) => {
                    acc.mach_services = Some(x);
                    Ok((seen, acc))
                },
                Err(e) => Err(e),
            }
        } else if str_eq(ks, "Sockets") {
            match <Sockets as PlistCodec>::from_value(val) {
                Ok(x) => {
                    acc.sockets = Some(x);
                    Ok((seen, acc))
                },
                Err(e) => Err(e),
            }
        } else if str_eq(ks, "LaunchEvents") {
            match <LaunchEvents as PlistCodec>::from_value(val) {
                Ok(x) => {
                    acc.launch_events = Some(x);
                    Ok((seen, acc))
                },
                Err(e) => Err(e),
            }
        } else {
            Err(Error::Schema(clone_string(k)))
        }
    }

    /// Decodes a document tree into a descriptor. The top-level schema
    /// is strict: an unrecognized key is a schema error carrying that
    /// key, a missing label is a schema error, and a value of the wrong
    /// shape is the fault of the field that owns it.
    #[verifier::rlimit(30)]
    pub fn from_document(v: &PlistValue) -> (r: Result<Launchd, Error>)
        ensures
            (match Self::spec_from_document(v@) {
                Ok(lv) => r matches Ok(l) && l.deep_view() == lv && Self::spec_wf(lv),
                Err(f) => r matches Err(e) && f.reflected_by(e),
            }),
    {
        match v {
            PlistValue::Dictionary(pairs) => {
                proof {
                    lemma_view_pairs_index(pairs@);
                }
                let ghost vp: Seq<(Seq<char>, SpecValue)> = view_pairs(pairs@);
                let ghost step = Self::spec_step_fn();
                let ghost init = (false, Self::spec_empty_view());
                let mut seen = false;
                let mut acc = Launchd::empty_for_decode();
                proof {
                    assert(vp.take(0) =~= Seq::<(Seq<char>, SpecValue)>::empty());
                }
                let mut i: usize = 0;
                while i < pairs.len()
                    invariant
                        i <= pairs.len(),
                        v@ == SpecValue::Dictionary(vp),
                        vp == view_pairs(pairs@),
                        vp.len() == pairs@.len(),
                        forall|j: int|
                            0 <= j < pairs@.len() ==> vp[j] == ((#[trigger] pairs@[j]).0@,
                            pairs@[j].1@),
                        step == Self::spec_step_fn(),
                        init == (false, Self::spec_empty_view()),
                        record_fold(vp.take(i as int), init, step) == Ok::<
                            (bool, LaunchdView),
                            DecodeFault,
                        >((seen, acc.deep_view())),
                        Self::spec_wf(acc.deep_view()),
                    decreases pairs.len() - i,
                {
                    let ghost prev: (bool, LaunchdView) = (seen, acc.deep_view());
                    match Self::apply_entry(seen, acc, &pairs[i].0, &pairs[i].1) {
                        Ok(p) => {
                            seen = p.0;
                            acc = p.1;
                            proof {
                                assert(vp.take(i + 1 as int) =~= vp.take(i as int).push(
                                    vp[i as int],
                                ));
                                lemma_record_fold_snoc(vp.take(i as int), vp[i as int], init, step);
                                assert(record_fold(vp.take(i + 1 as int), init, step) == Ok::<
                                    (bool, LaunchdView),
                                    DecodeFault,
                                >((seen, acc.deep_view())));
                            }
                        },
                        Err(e) => {
                            proof {
                                let f = Self::spec_step(prev, vp[i as int].0, vp[i as int].1)->Err_0;
                                lemma_record_fold_fault(vp, i as int, init, step, f);
                            }
                            return Err(e);
                        },
                    }
                    i = i + 1;
                }
                proof {
                    assert(vp.take(pairs@.len() as int) =~= vp);
                }
                if seen {
                    Ok(acc)
                } else {
                    Err(Error::Schema("missing mandatory key Label".to_owned()))
                }
            },
            _ => Err(Error::Schema("dictionary value expected".to_owned())),
        }
    }


}

} // verus!
