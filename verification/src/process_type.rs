//! The closed enumeration of process scheduling classes.

use vstd::prelude::*;

use crate::error::Error;
use crate::value::{clone_string, str_eq, DecodeFault, PlistCodec, PlistValue, SpecValue};

verus! {

/// The scheduling class of the launched process, a closed set of
/// string-valued variants.
#[derive(Debug, Clone, Copy, PartialEq, Eq, Hash)]
pub enum ProcessType {
    /// Background process behavior.
    Background,
    /// Standard process behavior.
    Standard,
    /// Adaptive process behavior.
    Adaptive,
    /// Interactive process behavior.
    Interactive,
}

impl DeepView for ProcessType {
    type V = ProcessType;

    open spec fn deep_view(&self) -> ProcessType {
        *self
    }
}

impl ProcessType {
    /// The schema string of each variant.
    pub open spec fn spec_name(self) -> Seq<char> {
        match self {
            ProcessType::Background => "Background"@,
            ProcessType::Standard => "Standard"@,
            ProcessType::Adaptive => "Adaptive"@,
            ProcessType::Interactive => "Interactive"@,
        }
    }

    /// The variant a string names, if any.
    pub open spec fn spec_of_name(s: Seq<char>) -> Option<ProcessType> {
        if s == "Background"@ {
            Some(ProcessType::Background)
        } else if s == "Standard"@ {
            Some(ProcessType::Standard)
        } else if s == "Adaptive"@ {
            Some(ProcessType::Adaptive)
        } else if s == "Interactive"@ {
            Some(ProcessType::Interactive)
        } else {
            None
        }
    }

    /// Parses a scheduling class from its schema string; any other string
    /// is an enum-deserialization error carrying that string verbatim.
    pub fn from_name(s: &str) -> (r: Result<ProcessType, Error>)
        ensures
            (match Self::spec_of_name(s@) {
                Some(p) => r == Ok::<ProcessType, Error>(p),
                None => r matches Err(e) && e matches Error::EnumDeserialization(m) && m@ == s@,
            }),
    {
        if str_eq(s, "Background") {
            Ok(ProcessType::Background)
        } else if str_eq(s, "Standard") {
            Ok(ProcessType::Standard)
        } else if str_eq(s, "Adaptive") {
            Ok(ProcessType::Adaptive)
        } else if str_eq(s, "Interactive") {
            Ok(ProcessType::Interactive)
        } else {
            Err(Error::EnumDeserialization(s.to_owned()))
        }
    }
}

impl PlistCodec for ProcessType {
    open spec fn wf_view(v: Self) -> bool {
        true
    }

    open spec fn spec_encoded(v: Self) -> SpecValue {
        SpecValue::Text(v.spec_name())
    }

    open spec fn spec_decoded(v: SpecValue) -> Result<Self, DecodeFault> {
        match v {
            SpecValue::Text(s) => match Self::spec_of_name(s) {
                Some(p) => Ok(p),
                None => Err(DecodeFault::Enumeration(s)),
            },
            _ => Err(DecodeFault::Schema("string value expected"@)),
        }
    }

    fn to_value(&self) -> (r: PlistValue) {
        match self {
            ProcessType::Background => PlistValue::Text("Background".to_owned()),
            ProcessType::Standard => PlistValue::Text("Standard".to_owned()),
            ProcessType::Adaptive => PlistValue::Text("Adaptive".to_owned()),
            ProcessType::Interactive => PlistValue::Text("Interactive".to_owned()),
        }
    }

    fn from_value(v: &PlistValue) -> (r: Result<Self, Error>) {
        match v {
            PlistValue::Text(s) => Self::from_name(s.as_str()),
            _ => Err(Error::Schema("string value expected".to_owned())),
        }
    }

    proof fn lemma_round_trip(v: Self) {
        reveal_strlit("Background");
        reveal_strlit("Standard");
        reveal_strlit("Adaptive");
        reveal_strlit("Interactive");
        assert("Background"@.len() == 10);
        assert("Standard"@.len() == 8);
        assert("Adaptive"@.len() == 8);
        assert("Interactive"@.len() == 11);
        assert("Standard"@[0] == 'S');
        assert("Adaptive"@[0] == 'A');
    }
}

} // verus!
