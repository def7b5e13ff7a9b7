//! Resource-limit records, used for both the soft and the hard limits of
//! a service.

use vstd::prelude::*;

use crate::error::Error;
use crate::value::{
    lemma_record_fold_fault, lemma_record_fold_opt, lemma_record_fold_snoc,
    lemma_view_pairs_index, push_entry, record_fold, str_eq, view_pairs, DecodeFault, PlistCodec,
    PlistValue, SpecValue,
};

verus! {

/// Limits on the resources of the launched process. The schema for this
/// record is not strict: unrecognized keys in a document are ignored.
#[derive(Debug, Default, Clone, Copy, PartialEq, Eq, Hash)]
pub struct ResourceLimits {
    pub core: Option<u64>,
    pub cpu: Option<u64>,
    pub data: Option<u64>,
    pub file_size: Option<u64>,
    pub memory_lock: Option<u64>,
    pub number_of_files: Option<u64>,
    pub number_of_processes: Option<u64>,
    pub resident_set_size: Option<u64>,
    pub stack: Option<u64>,
}

impl DeepView for ResourceLimits {
    type V = ResourceLimits;

    open spec fn deep_view(&self) -> ResourceLimits {
        *self
    }
}

impl ResourceLimits {
    /// The record with no limit set.
    pub open spec fn spec_empty() -> Self {
        ResourceLimits {
            core: None,
            cpu: None,
            data: None,
            file_size: None,
            memory_lock: None,
            number_of_files: None,
            number_of_processes: None,
            resident_set_size: None,
            stack: None,
        }
    }

    /// A new record with no limit set.
    pub fn new() -> (r: Self)
        ensures
            r == Self::spec_empty(),
    {
        ResourceLimits {
            core: None,
            cpu: None,
            data: None,
            file_size: None,
            memory_lock: None,
            number_of_files: None,
            number_of_processes: None,
            resident_set_size: None,
            stack: None,
        }
    }

    /// Sets the limit on core file size, in bytes.
    pub fn with_core(self, value: u64) -> (r: Self)
        ensures
            r == (ResourceLimits { core: Some(value), ..self }),
    {
        let mut s = self;
        s.core = Some(value);
        s
    }

    /// Sets the limit on CPU time, in seconds.
    pub fn with_cpu(self, value: u64) -> (r: Self)
        ensures
            r == (ResourceLimits { cpu: Some(value), ..self }),
    {
        let mut s = self;
        s.cpu = Some(value);
        s
    }

    /// Sets the limit on the data segment size, in bytes.
    pub fn with_data(self, value: u64) -> (r: Self)
        ensures
            r == (ResourceLimits { data: Some(value), ..self }),
    {
        let mut s = self;
        s.data = Some(value);
        s
    }

    /// Sets the limit on file size, in bytes.
    pub fn with_file_size(self, value: u64) -> (r: Self)
        ensures
            r == (ResourceLimits { file_size: Some(value), ..self }),
    {
        let mut s = self;
        s.file_size = Some(value);
        s
    }

    /// Sets the limit on locked memory, in bytes.
    pub fn with_memory_lock(self, value: u64) -> (r: Self)
        ensures
            r == (ResourceLimits { memory_lock: Some(value), ..self }),
    {
        let mut s = self;
        s.memory_lock = Some(value);
        s
    }

    /// Sets the limit on the number of open files.
    pub fn with_number_of_files(self, value: u64) -> (r: Self)
        ensures
            r == (ResourceLimits { number_of_files: Some(value), ..self }),
    {
        let mut s = self;
        s.number_of_files = Some(value);
        s
    }

    /// Sets the limit on the number of processes.
    pub fn with_number_of_processes(self, value: u64) -> (r: Self)
        ensures
            r == (ResourceLimits { number_of_processes: Some(value), ..self }),
    {
        let mut s = self;
        s.number_of_processes = Some(value);
        s
    }

    /// Sets the limit on the resident set size, in bytes.
    pub fn with_resident_set_size(self, value: u64) -> (r: Self)
        ensures
            r == (ResourceLimits { resident_set_size: Some(value), ..self }),
    {
        let mut s = self;
        s.resident_set_size = Some(value);
        s
    }

    /// Sets the limit on stack size, in bytes.
    pub fn with_stack(self, value: u64) -> (r: Self)
        ensures
            r == (ResourceLimits { stack: Some(value), ..self }),
    {
        let mut s = self;
        s.stack = Some(value);
        s
    }

    /// The dictionary entries that encode this record, in schema order.
    pub open spec fn spec_fields(v: Self) -> Seq<(Seq<char>, SpecValue)> {
        let s = Seq::<(Seq<char>, SpecValue)>::empty();
        let s = if v.core is Some {
            s.push(("Core"@, <u64 as PlistCodec>::spec_encoded(v.core->0)))
        } else {
            s
        };
        let s = if v.cpu is Some {
            s.push(("CPU"@, <u64 as PlistCodec>::spec_encoded(v.cpu->0)))
        } else {
            s
        };
        let s = if v.data is Some {
            s.push(("Data"@, <u64 as PlistCodec>::spec_encoded(v.data->0)))
        } else {
            s
        };
        let s = if v.file_size is Some {
            s.push(("FileSize"@, <u64 as PlistCodec>::spec_encoded(v.file_size->0)))
        } else {
            s
        };
        let s = if v.memory_lock is Some {
            s.push(("MemoryLock"@, <u64 as PlistCodec>::spec_encoded(v.memory_lock->0)))
        } else {
            s
        };
        let s = if v.number_of_files is Some {
            s.push(("NumberOfFiles"@, <u64 as PlistCodec>::spec_encoded(v.number_of_files->0)))
        } else {
            s
        };
        let s = if v.number_of_processes is Some {
            s.push(
                ("NumberOfProcesses"@, <u64 as PlistCodec>::spec_encoded(
                    v.number_of_processes->0,
                )),
            )
        } else {
            s
        };
        let s = if v.resident_set_size is Some {
            s.push(
                ("ResidentSetSize"@, <u64 as PlistCodec>::spec_encoded(v.resident_set_size->0)),
            )
        } else {
            s
        };
        let s = if v.stack is Some {
            s.push(("Stack"@, <u64 as PlistCodec>::spec_encoded(v.stack->0)))
        } else {
            s
        };
        s
    }

    /// Whether a key names a field of this record.
    pub open spec fn spec_known_key(k: Seq<char>) -> bool {
        ||| k == "Core"@
        ||| k == "CPU"@
        ||| k == "Data"@
        ||| k == "FileSize"@
        ||| k == "MemoryLock"@
        ||| k == "NumberOfFiles"@
        ||| k == "NumberOfProcesses"@
        ||| k == "ResidentSetSize"@
        ||| k == "Stack"@
    }

    /// The record with the named field replaced.
    pub open spec fn spec_set(acc: Self, k: Seq<char>, x: u64) -> Self {
        if k == "Core"@ {
            ResourceLimits { core: Some(x), ..acc }
        } else if k == "CPU"@ {
            ResourceLimits { cpu: Some(x), ..acc }
        } else if k == "Data"@ {
            ResourceLimits { data: Some(x), ..acc }
        } else if k == "FileSize"@ {
            ResourceLimits { file_size: Some(x), ..acc }
        } else if k == "MemoryLock"@ {
            ResourceLimits { memory_lock: Some(x), ..acc }
        } else if k == "NumberOfFiles"@ {
            ResourceLimits { number_of_files: Some(x), ..acc }
        } else if k == "NumberOfProcesses"@ {
            ResourceLimits { number_of_processes: Some(x), ..acc }
        } else if k == "ResidentSetSize"@ {
            ResourceLimits { resident_set_size: Some(x), ..acc }
        } else {
            ResourceLimits { stack: Some(x), ..acc }
        }
    }

    /// How one dictionary entry updates the record while decoding.
    pub open spec fn spec_step(acc: Self, k: Seq<char>, val: SpecValue) -> Result<
        Self,
        DecodeFault,
    > {
        if Self::spec_known_key(k) {
            match <u64 as PlistCodec>::spec_decoded(val) {
                Ok(x) => Ok(Self::spec_set(acc, k, x)),
                Err(f) => Err(f),
            }
        } else {
            Ok(acc)
        }
    }

    /// The step function, as a value `record_fold` can take.
    pub open spec fn spec_step_fn() -> spec_fn(Self, Seq<char>, SpecValue) -> Result<
        Self,
        DecodeFault,
    > {
        |acc: Self, k: Seq<char>, val: SpecValue| Self::spec_step(acc, k, val)
    }
}

impl PlistCodec for ResourceLimits {
    open spec fn wf_view(v: Self) -> bool {
        true
    }

    open spec fn spec_encoded(v: Self) -> SpecValue {
        SpecValue::Dictionary(Self::spec_fields(v))
    }

    open spec fn spec_decoded(v: SpecValue) -> Result<Self, DecodeFault> {
        match v {
            SpecValue::Dictionary(pairs) => record_fold(
                pairs,
                Self::spec_empty(),
                Self::spec_step_fn(),
            ),
            _ => Err(DecodeFault::Schema("dictionary value expected"@)),
        }
    }

    fn to_value(&self) -> (r: PlistValue) {
        let mut out: Vec<(String, PlistValue)> = Vec::new();
        proof {
            assert(view_pairs(out@) =~= Seq::<(Seq<char>, SpecValue)>::empty());
        }
        if let Some(x) = self.core {
            push_entry(&mut out, "Core", x.to_value());
        }
        if let Some(x) = self.cpu {
            push_entry(&mut out, "CPU", x.to_value());
        }
        if let Some(x) = self.data {
            push_entry(&mut out, "Data", x.to_value());
        }
        if let Some(x) = self.file_size {
            push_entry(&mut out, "FileSize", x.to_value());
        }
        if let Some(x) = self.memory_lock {
            push_entry(&mut out, "MemoryLock", x.to_value());
        }
        if let Some(x) = self.number_of_files {
            push_entry(&mut out, "NumberOfFiles", x.to_value());
        }
        if let Some(x) = self.number_of_processes {
            push_entry(&mut out, "NumberOfProcesses", x.to_value());
        }
        if let Some(x) = self.resident_set_size {
            push_entry(&mut out, "ResidentSetSize", x.to_value());
        }
        if let Some(x) = self.stack {
            push_entry(&mut out, "Stack", x.to_value());
        }
        proof {
            assert(view_pairs(out@) == Self::spec_fields(*self));
        }
        PlistValue::Dictionary(out)
    }

    #[verifier::rlimit(60)]
    fn from_value(v: &PlistValue) -> (r: Result<Self, Error>) {
        match v {
            PlistValue::Dictionary(pairs) => {
                proof {
                    lemma_view_pairs_index(pairs@);
                }
                let ghost vp: Seq<(Seq<char>, SpecValue)> = view_pairs(pairs@);
                let ghost step = Self::spec_step_fn();
                let mut acc = ResourceLimits::new();
                proof {
                    assert(vp.take(0) =~= Seq::<(Seq<char>, SpecValue)>::empty());
                }
                let mut i: usize = 0;
                while i < pairs.len()
                    invariant
                        i <= pairs.len(),
                        v@ == SpecValue::Dictionary(vp),
                        vp == view_pairs(pairs@),
                        vp.len() == pairs@.len(),
                        forall|j: int|
                            0 <= j < pairs@.len() ==> vp[j] == ((#[trigger] pairs@[j]).0@,
                            pairs@[j].1@),
                        step == Self::spec_step_fn(),
                        record_fold(vp.take(i as int), Self::spec_empty(), step) == Ok::<
                            Self,
                            DecodeFault,
                        >(acc),
                    decreases pairs.len() - i,
                {
                    let ghost prev = acc;
                    let ks = pairs[i].0.as_str();
                    let known = str_eq(ks, "Core") || str_eq(ks, "CPU") || str_eq(ks, "Data")
                        || str_eq(ks, "FileSize") || str_eq(ks, "MemoryLock") || str_eq(
                        ks,
                        "NumberOfFiles",
                    ) || str_eq(ks, "NumberOfProcesses") || str_eq(ks, "ResidentSetSize")
                        || str_eq(ks, "Stack");
                    if known {
                        match <u64 as PlistCodec>::from_value(&pairs[i].1) {
                            Ok(x) => {
                                if str_eq(ks, "Core") {
                                    acc.core = Some(x);
                                } else if str_eq(ks, "CPU") {
                                    acc.cpu = Some(x);
                                } else if str_eq(ks, "Data") {
                                    acc.data = Some(x);
                                } else if str_eq(ks, "FileSize") {
                                    acc.file_size = Some(x);
                                } else if str_eq(ks, "MemoryLock") {
                                    acc.memory_lock = Some(x);
                                } else if str_eq(ks, "NumberOfFiles") {
                                    acc.number_of_files = Some(x);
                                } else if str_eq(ks, "NumberOfProcesses") {
                                    acc.number_of_processes = Some(x);
                                } else if str_eq(ks, "ResidentSetSize") {
                                    acc.resident_set_size = Some(x);
                                } else {
                                    acc.stack = Some(x);
                                }
                            },
                            Err(e) => {
                                proof {
                                    let f = <u64 as PlistCodec>::spec_decoded(
                                        vp[i as int].1,
                                    )->Err_0;
                                    lemma_record_fold_fault(
                                        vp,
                                        i as int,
                                        Self::spec_empty(),
                                        step,
                                        f,
                                    );
                                }
                                return Err(e);
                            },
                        }
                    }
                    proof {
                        assert(vp.take(i + 1 as int) =~= vp.take(i as int).push(vp[i as int]));
                        lemma_record_fold_snoc(
                            vp.take(i as int),
                            vp[i as int],
                            Self::spec_empty(),
                            step,
                        );
                        assert(record_fold(vp.take(i + 1 as int), Self::spec_empty(), step)
                            == Ok::<Self, DecodeFault>(acc));
                    }
                    i = i + 1;
                }
                proof {
                    assert(vp.take(pairs@.len() as int) =~= vp);
                }
                Ok(acc)
            },
            _ => Err(Error::Schema("dictionary value expected".to_owned())),
        }
    }

    proof fn lemma_round_trip(v: Self) {
        reveal_strlit("Core");
        reveal_strlit("CPU");
        reveal_strlit("Data");
        reveal_strlit("FileSize");
        reveal_strlit("MemoryLock");
        reveal_strlit("NumberOfFiles");
        reveal_strlit("NumberOfProcesses");
        reveal_strlit("ResidentSetSize");
        reveal_strlit("Stack");
        assert("Core"@.len() == 4);
        assert("CPU"@.len() == 3);
        assert("Data"@.len() == 4);
        assert("FileSize"@.len() == 8);
        assert("MemoryLock"@.len() == 10);
        assert("NumberOfFiles"@.len() == 13);
        assert("NumberOfProcesses"@.len() == 17);
        assert("ResidentSetSize"@.len() == 15);
        assert("Stack"@.len() == 5);
        assert("Core"@[0] == 'C');
        assert("Data"@[0] == 'D');
        let step = Self::spec_step_fn();
        let m0 = Self::spec_empty();
        let s0 = Seq::<(Seq<char>, SpecValue)>::empty();
        let s1 = if v.core is Some {
            s0.push(("Core"@, <u64 as PlistCodec>::spec_encoded(v.core->0)))
        } else {
            s0
        };
        let m1 = ResourceLimits { core: v.core, ..m0 };
        lemma_record_fold_opt(
            s0,
            v.core is Some,
            ("Core"@, <u64 as PlistCodec>::spec_encoded(v.core->0)),
            m0,
            m0,
            m1,
            step,
        );
        let s2 = if v.cpu is Some {
            s1.push(("CPU"@, <u64 as PlistCodec>::spec_encoded(v.cpu->0)))
        } else {
            s1
        };
        let m2 = ResourceLimits { cpu: v.cpu, ..m1 };
        lemma_record_fold_opt(
            s1,
            v.cpu is Some,
            ("CPU"@, <u64 as PlistCodec>::spec_encoded(v.cpu->0)),
            m0,
            m1,
            m2,
            step,
        );
        let s3 = if v.data is Some {
            s2.push(("Data"@, <u64 as PlistCodec>::spec_encoded(v.data->0)))
        } else {
            s2
        };
        let m3 = ResourceLimits { data: v.data, ..m2 };
        lemma_record_fold_opt(
            s2,
            v.data is Some,
            ("Data"@, <u64 as PlistCodec>::spec_encoded(v.data->0)),
            m0,
            m2,
            m3,
            step,
        );
        let s4 = if v.file_size is Some {
            s3.push(("FileSize"@, <u64 as PlistCodec>::spec_encoded(v.file_size->0)))
        } else {
            s3
        };
        let m4 = ResourceLimits { file_size: v.file_size, ..m3 };
        lemma_record_fold_opt(
            s3,
            v.file_size is Some,
            ("FileSize"@, <u64 as PlistCodec>::spec_encoded(v.file_size->0)),
            m0,
            m3,
            m4,
            step,
        );
        let s5 = if v.memory_lock is Some {
            s4.push(("MemoryLock"@, <u64 as PlistCodec>::spec_encoded(v.memory_lock->0)))
        } else {
            s4
        };
        let m5 = ResourceLimits { memory_lock: v.memory_lock, ..m4 };
        lemma_record_fold_opt(
            s4,
            v.memory_lock is Some,
            ("MemoryLock"@, <u64 as PlistCodec>::spec_encoded(v.memory_lock->0)),
            m0,
            m4,
            m5,
            step,
        );
        let s6 = if v.number_of_files is Some {
            s5.push(("NumberOfFiles"@, <u64 as PlistCodec>::spec_encoded(v.number_of_files->0)))
        } else {
            s5
        };
        let m6 = ResourceLimits { number_of_files: v.number_of_files, ..m5 };
        lemma_record_fold_opt(
            s5,
            v.number_of_files is Some,
            ("NumberOfFiles"@, <u64 as PlistCodec>::spec_encoded(v.number_of_files->0)),
            m0,
            m5,
            m6,
            step,
        );
        let s7 = if v.number_of_processes is Some {
            s6.push(
                ("NumberOfProcesses"@, <u64 as PlistCodec>::spec_encoded(
                    v.number_of_processes->0,
                )),
            )
        } else {
            s6
        };
        let m7 = ResourceLimits { number_of_processes: v.number_of_processes, ..m6 };
        lemma_record_fold_opt(
            s6,
            v.number_of_processes is Some,
            ("NumberOfProcesses"@, <u64 as PlistCodec>::spec_encoded(v.number_of_processes->0)),
            m0,
            m6,
            m7,
            step,
        );
        let s8 = if v.resident_set_size is Some {
            s7.push(
                ("ResidentSetSize"@, <u64 as PlistCodec>::spec_encoded(v.resident_set_size->0)),
            )
        } else {
            s7
        };
        let m8 = ResourceLimits { resident_set_size: v.resident_set_size, ..m7 };
        lemma_record_fold_opt(
            s7,
            v.resident_set_size is Some,
            ("ResidentSetSize"@, <u64 as PlistCodec>::spec_encoded(v.resident_set_size->0)),
            m0,
            m7,
            m8,
            step,
        );
        let s9 = if v.stack is Some {
            s8.push(("Stack"@, <u64 as PlistCodec>::spec_encoded(v.stack->0)))
        } else {
            s8
        };
        let m9 = ResourceLimits { stack: v.stack, ..m8 };
        lemma_record_fold_opt(
            s8,
            v.stack is Some,
            ("Stack"@, <u64 as PlistCodec>::spec_encoded(v.stack->0)),
            m0,
            m8,
            m9,
            step,
        );
        assert(s9 == Self::spec_fields(v));
        assert(m9 == v);
    }
}

} // verus!
