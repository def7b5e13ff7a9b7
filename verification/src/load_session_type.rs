//! Session types for load limiting: a bare string or a list of strings.

use vstd::prelude::*;

use crate::error::Error;
use crate::value::{clone_string, DecodeFault, PlistCodec, PlistValue, SpecValue};

verus! {

/// A session type for load limiting. When decoding, the bare-string shape
/// is tried first, then the list shape.
#[derive(Debug, Clone, PartialEq, Eq)]
pub enum LoadSessionType {
    /// A single session type.
    BareString(String),
    /// Several session types.
    Array(Vec<String>),
}

/// The ghost mirror of [`LoadSessionType`].
pub enum LoadSessionTypeView {
    BareString(Seq<char>),
    Array(Seq<Seq<char>>),
}

impl DeepView for LoadSessionType {
    type V = LoadSessionTypeView;

    open spec fn deep_view(&self) -> LoadSessionTypeView {
        match self {
            LoadSessionType::BareString(s) => LoadSessionTypeView::BareString(s@),
            LoadSessionType::Array(v) => LoadSessionTypeView::Array(v.deep_view()),
        }
    }
}

impl From<String> for LoadSessionType {
    /// Wraps a single session type.
    fn from(value: String) -> (r: Self) {
        LoadSessionType::BareString(value)
    }
}

impl vstd::std_specs::convert::FromSpecImpl<String> for LoadSessionType {
    open spec fn obeys_from_spec() -> bool {
        true
    }

    open spec fn from_spec(value: String) -> Self {
        LoadSessionType::BareString(value)
    }
}

impl From<Vec<String>> for LoadSessionType {
    /// Wraps several session types.
    fn from(value: Vec<String>) -> (r: Self) {
        LoadSessionType::Array(value)
    }
}

impl vstd::std_specs::convert::FromSpecImpl<Vec<String>> for LoadSessionType {
    open spec fn obeys_from_spec() -> bool {
        true
    }

    open spec fn from_spec(value: Vec<String>) -> Self {
        LoadSessionType::Array(value)
    }
}

impl From<&str> for LoadSessionType {
    /// Wraps a single borrowed session type.
    fn from(value: &str) -> (r: Self)
        ensures
            r.deep_view() == LoadSessionTypeView::BareString(value@),
    {
        LoadSessionType::BareString(value.to_owned())
    }
}

impl vstd::std_specs::convert::FromSpecImpl<&str> for LoadSessionType {
    open spec fn obeys_from_spec() -> bool {
        false
    }

    open spec fn from_spec(value: &str) -> Self {
        arbitrary()
    }
}

impl From<Vec<&str>> for LoadSessionType {
    /// Wraps several borrowed session types.
    fn from(value: Vec<&str>) -> (r: Self)
        ensures
            (match r {
                LoadSessionType::Array(out) => out.deep_view() =~= value.deep_view(),
                _ => false,
            }),
    {
        let mut out: Vec<String> = Vec::new();
        let mut i: usize = 0;
        while i < value.len()
            invariant
                i <= value.len(),
                out@.len() == i,
                forall|j: int| 0 <= j < i ==> out@[j]@ == #[trigger] value@[j]@,
            decreases value.len() - i,
        {
            out.push(value[i].to_owned());
            i = i + 1;
        }
        proof {
            assert(out.deep_view() =~= value.deep_view());
        }
        LoadSessionType::Array(out)
    }
}

impl vstd::std_specs::convert::FromSpecImpl<Vec<&str>> for LoadSessionType {
    open spec fn obeys_from_spec() -> bool {
        false
    }

    open spec fn from_spec(value: Vec<&str>) -> Self {
        arbitrary()
    }
}

impl PlistCodec for LoadSessionType {
    open spec fn wf_view(v: LoadSessionTypeView) -> bool {
        true
    }

    open spec fn spec_encoded(v: LoadSessionTypeView) -> SpecValue {
        match v {
            LoadSessionTypeView::BareString(s) => SpecValue::Text(s),
            LoadSessionTypeView::Array(ss) => <Vec<String> as PlistCodec>::spec_encoded(ss),
        }
    }

    open spec fn spec_decoded(v: SpecValue) -> Result<LoadSessionTypeView, DecodeFault> {
        match v {
            SpecValue::Text(s) => Ok(LoadSessionTypeView::BareString(s)),
            SpecValue::Array(_) => match <Vec<String> as PlistCodec>::spec_decoded(v) {
                Ok(ss) => Ok(LoadSessionTypeView::Array(ss)),
                Err(f) => Err(f),
            },
            _ => Err(DecodeFault::Schema("no union shape matched"@)),
        }
    }

    fn to_value(&self) -> (r: PlistValue) {
        match self {
            LoadSessionType::BareString(s) => PlistValue::Text(clone_string(s)),
            LoadSessionType::Array(ss) => ss.to_value(),
        }
    }

    fn from_value(v: &PlistValue) -> (r: Result<Self, Error>) {
        match v {
            PlistValue::Text(s) => Ok(LoadSessionType::BareString(clone_string(s))),
            PlistValue::Array(_) => match <Vec<String> as PlistCodec>::from_value(v) {
                Ok(ss) => Ok(LoadSessionType::Array(ss)),
                Err(e) => Err(e),
            },
            _ => Err(Error::Schema("no union shape matched".to_owned())),
        }
    }

    proof fn lemma_round_trip(v: LoadSessionTypeView) {
        match v {
            LoadSessionTypeView::BareString(_) => {
            },
            LoadSessionTypeView::Array(ss) => {
                <Vec<String> as PlistCodec>::lemma_round_trip(ss);
            },
        }
    }
}

} // verus!
