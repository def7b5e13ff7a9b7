//! Keep-alive policy: a bare boolean or a record of conditions.

use vstd::prelude::*;

use crate::error::Error;
use crate::value::{
    dict_wf, lemma_record_fold_fault, lemma_record_fold_opt, lemma_record_fold_snoc,
    lemma_view_pairs_index, push_entry, record_fold, str_eq, view_pairs, DecodeFault, Dict,
    PlistCodec, PlistValue, SpecValue,
};

verus! {

/// Conditions under which a service is kept alive. The schema for this
/// record is not strict: unrecognized keys in a document are ignored.
#[derive(Debug, PartialEq)]
pub struct KeepAliveOptions {
    pub successful_exit: Option<bool>,
    pub network_state: Option<bool>,
    pub path_state: Option<Dict<bool>>,
    pub other_job_enabled: Option<Dict<bool>>,
}

/// The ghost mirror of [`KeepAliveOptions`].
pub struct KeepAliveOptionsView {
    pub successful_exit: Option<bool>,
    pub network_state: Option<bool>,
    pub path_state: Option<Seq<(Seq<char>, bool)>>,
    pub other_job_enabled: Option<Seq<(Seq<char>, bool)>>,
}

impl DeepView for KeepAliveOptions {
    type V = KeepAliveOptionsView;

    open spec fn deep_view(&self) -> KeepAliveOptionsView {
        KeepAliveOptionsView {
            successful_exit: self.successful_exit,
            network_state: self.network_state,
            path_state: self.path_state.deep_view(),
            other_job_enabled: self.other_job_enabled.deep_view(),
        }
    }
}

impl KeepAliveOptions {
    /// The record with no condition set.
    pub open spec fn spec_empty() -> KeepAliveOptionsView {
        KeepAliveOptionsView {
            successful_exit: None,
            network_state: None,
            path_state: None,
            other_job_enabled: None,
        }
    }

    /// A new record with no condition set.
    pub fn new() -> (r: Self)
        ensures
            r.deep_view() == Self::spec_empty(),
    {
        KeepAliveOptions {
            successful_exit: None,
            network_state: None,
            path_state: None,
            other_job_enabled: None,
        }
    }

    /// Sets whether keep-alive depends on a successful exit.
    pub fn with_successful_exit(self, value: bool) -> (r: Self)
        ensures
            r == (KeepAliveOptions { successful_exit: Some(value), ..self }),
    {
        let mut s = self;
        s.successful_exit = Some(value);
        s
    }

    /// Sets whether keep-alive depends on the network state.
    pub fn with_network_state(self, value: bool) -> (r: Self)
        ensures
            r == (KeepAliveOptions { network_state: Some(value), ..self }),
    {
        let mut s = self;
        s.network_state = Some(value);
        s
    }

    /// Sets the path-state conditions.
    pub fn with_path_state(self, value: Dict<bool>) -> (r: Self)
        ensures
            r == (KeepAliveOptions { path_state: Some(value), ..self }),
    {
        let mut s = self;
        s.path_state = Some(value);
        s
    }

    /// Sets the other-job-enabled conditions.
    pub fn with_other_job_enabled(self, value: Dict<bool>) -> (r: Self)
        ensures
            r == (KeepAliveOptions { other_job_enabled: Some(value), ..self }),
    {
        let mut s = self;
        s.other_job_enabled = Some(value);
        s
    }

    /// The dictionary entries that encode this record, in schema order.
    pub open spec fn spec_fields(v: KeepAliveOptionsView) -> Seq<(Seq<char>, SpecValue)> {
        let s = Seq::<(Seq<char>, SpecValue)>::empty();
        let s = if v.successful_exit is Some {
            s.push(("SuccessfulExit"@, <bool as PlistCodec>::spec_encoded(v.successful_exit->0)))
        } else {
            s
        };
        let s = if v.network_state is Some {
            s.push(("NetworkState"@, <bool as PlistCodec>::spec_encoded(v.network_state->0)))
        } else {
            s
        };
        let s = if v.path_state is Some {
            s.push(("PathState"@, <Dict<bool> as PlistCodec>::spec_encoded(v.path_state->0)))
        } else {
            s
        };
        let s = if v.other_job_enabled is Some {
            s.push(
                ("OtherJobEnabled"@, <Dict<bool> as PlistCodec>::spec_encoded(
                    v.other_job_enabled->0,
                )),
            )
        } else {
            s
        };
        s
    }

    /// How one dictionary entry updates the record while decoding.
    pub open spec fn spec_step(acc: KeepAliveOptionsView, k: Seq<char>, val: SpecValue) -> Result<
        KeepAliveOptionsView,
        DecodeFault,
    > {
        if k == "SuccessfulExit"@ {
            match <bool as PlistCodec>::spec_decoded(val) {
                Ok(b) => Ok(KeepAliveOptionsView { successful_exit: Some(b), ..acc }),
                Err(f) => Err(f),
            }
        } else if k == "NetworkState"@ {
            match <bool as PlistCodec>::spec_decoded(val) {
                Ok(b) => Ok(KeepAliveOptionsView { network_state: Some(b), ..acc }),
                Err(f) => Err(f),
            }
        } else if k == "PathState"@ {
            match <Dict<bool> as PlistCodec>::spec_decoded(val) {
                Ok(d) => Ok(KeepAliveOptionsView { path_state: Some(d), ..acc }),
                Err(f) => Err(f),
            }
        } else if k == "OtherJobEnabled"@ {
            match <Dict<bool> as PlistCodec>::spec_decoded(val) {
                Ok(d) => Ok(KeepAliveOptionsView { other_job_enabled: Some(d), ..acc }),
                Err(f) => Err(f),
            }
        } else {
            Ok(acc)
        }
    }

    /// The step function, as a value `record_fold` can take.
    pub open spec fn spec_step_fn() -> spec_fn(
        KeepAliveOptionsView,
        Seq<char>,
        SpecValue,
    ) -> Result<KeepAliveOptionsView, DecodeFault> {
        |acc: KeepAliveOptionsView, k: Seq<char>, val: SpecValue| Self::spec_step(acc, k, val)
    }
}

impl PlistCodec for KeepAliveOptions {
    open spec fn wf_view(v: KeepAliveOptionsView) -> bool {
        &&& (v.path_state matches Some(d) ==> dict_wf(d))
        &&& (v.other_job_enabled matches Some(d) ==> dict_wf(d))
    }

    open spec fn spec_encoded(v: KeepAliveOptionsView) -> SpecValue {
        SpecValue::Dictionary(Self::spec_fields(v))
    }

    open spec fn spec_decoded(v: SpecValue) -> Result<KeepAliveOptionsView, DecodeFault> {
        match v {
            SpecValue::Dictionary(pairs) => record_fold(
                pairs,
                Self::spec_empty(),
                Self::spec_step_fn(),
            ),
            _ => Err(DecodeFault::Schema("dictionary value expected"@)),
        }
    }

    fn to_value(&self) -> (r: PlistValue) {
        let mut out: Vec<(String, PlistValue)> = Vec::new();
        proof {
            assert(view_pairs(out@) =~= Seq::<(Seq<char>, SpecValue)>::empty());
        }
        if let Some(b) = self.successful_exit {
            push_entry(&mut out, "SuccessfulExit", b.to_value());
        }
        if let Some(b) = self.network_state {
            push_entry(&mut out, "NetworkState", b.to_value());
        }
        if let Some(d) = &self.path_state {
            push_entry(&mut out, "PathState", d.to_value());
        }
        if let Some(d) = &self.other_job_enabled {
            push_entry(&mut out, "OtherJobEnabled", d.to_value());
        }
        proof {
            assert(view_pairs(out@) == Self::spec_fields(self.deep_view()));
        }
        PlistValue::Dictionary(out)
    }

    #[verifier::rlimit(60)]
    fn from_value(v: &PlistValue) -> (r: Result<Self, Error>) {
        match v {
            PlistValue::Dictionary(pairs) => {
                proof {
                    lemma_view_pairs_index(pairs@);
                }
                let ghost vp: Seq<(Seq<char>, SpecValue)> = view_pairs(pairs@);
                let ghost step = Self::spec_step_fn();
                let mut acc = KeepAliveOptions::new();
                proof {
                    assert(vp.take(0) =~= Seq::<(Seq<char>, SpecValue)>::empty());
                }
                let mut i: usize = 0;
                while i < pairs.len()
                    invariant
                        i <= pairs.len(),
                        v@ == SpecValue::Dictionary(vp),
                        vp == view_pairs(pairs@),
                        vp.len() == pairs@.len(),
                        forall|j: int|
                            0 <= j < pairs@.len() ==> vp[j] == ((#[trigger] pairs@[j]).0@,
                            pairs@[j].1@),
                        step == Self::spec_step_fn(),
                        record_fold(vp.take(i as int), Self::spec_empty(), step) == Ok::<
                            KeepAliveOptionsView,
                            DecodeFault,
                        >(acc.deep_view()),
                        <Self as PlistCodec>::wf_view(acc.deep_view()),
                    decreases pairs.len() - i,
                {
                    let ghost prev = acc.deep_view();
                    let ks = pairs[i].0.as_str();
                    if str_eq(ks, "SuccessfulExit") {
                        match <bool as PlistCodec>::from_value(&pairs[i].1) {
                            Ok(b) => {
                                acc.successful_exit = Some(b);
                            },
                            Err(e) => {
                                proof {
                                    let f = <bool as PlistCodec>::spec_decoded(
                                        vp[i as int].1,
                                    )->Err_0;
                                    lemma_record_fold_fault(
                                        vp,
                                        i as int,
                                        Self::spec_empty(),
                                        step,
                                        f,
                                    );
                                }
                                return Err(e);
                            },
                        }
                    } else if str_eq(ks, "NetworkState") {
                        match <bool as PlistCodec>::from_value(&pairs[i].1) {
                            Ok(b) => {
                                acc.network_state = Some(b);
                            },
                            Err(e) => {
                                proof {
                                    let f = <bool as PlistCodec>::spec_decoded(
                                        vp[i as int].1,
                                    )->Err_0;
                                    lemma_record_fold_fault(
                                        vp,
                                        i as int,
                                        Self::spec_empty(),
                                        step,
                                        f,
                                    );
                                }
                                return Err(e);
                            },
                        }
                    } else if str_eq(ks, "PathState") {
                        match <Dict<bool> as PlistCodec>::from_value(&pairs[i].1) {
                            Ok(d) => {
                                acc.path_state = Some(d);
                            },
                            Err(e) => {
                                proof {
                                    let f = <Dict<bool> as PlistCodec>::spec_decoded(
                                        vp[i as int].1,
                                    )->Err_0;
                                    lemma_record_fold_fault(
                                        vp,
                                        i as int,
                                        Self::spec_empty(),
                                        step,
                                        f,
                                    );
                                }
                                return Err(e);
                            },
                        }
                    } else if str_eq(ks, "OtherJobEnabled") {
                        match <Dict<bool> as PlistCodec>::from_value(&pairs[i].1) {
                            Ok(d) => {
                                acc.other_job_enabled = Some(d);
                            },
                            Err(e) => {
                                proof {
                                    let f = <Dict<bool> as PlistCodec>::spec_decoded(
                                        vp[i as int].1,
                                    )->Err_0;
                                    lemma_record_fold_fault(
                                        vp,
                                        i as int,
                                        Self::spec_empty(),
                                        step,
                                        f,
                                    );
                                }
                                return Err(e);
                            },
                        }
                    }
                    proof {
                        assert(vp.take(i + 1 as int) =~= vp.take(i as int).push(vp[i as int]));
                        lemma_record_fold_snoc(
                            vp.take(i as int),
                            vp[i as int],
                            Self::spec_empty(),
                            step,
                        );
                        assert(record_fold(vp.take(i + 1 as int), Self::spec_empty(), step)
                            == Ok::<KeepAliveOptionsView, DecodeFault>(acc.deep_view()));
                    }
                    i = i + 1;
                }
                proof {
                    assert(vp.take(pairs@.len() as int) =~= vp);
                }
                Ok(acc)
            },
            _ => Err(Error::Schema("dictionary value expected".to_owned())),
        }
    }

    proof fn lemma_round_trip(v: KeepAliveOptionsView) {
        reveal_strlit("SuccessfulExit");
        reveal_strlit("NetworkState");
        reveal_strlit("PathState");
        reveal_strlit("OtherJobEnabled");
        assert("SuccessfulExit"@.len() == 14);
        assert("NetworkState"@.len() == 12);
        assert("PathState"@.len() == 9);
        assert("OtherJobEnabled"@.len() == 15);
        let step = Self::spec_step_fn();
        let m0 = Self::spec_empty();
        let s0 = Seq::<(Seq<char>, SpecValue)>::empty();
        let s1 = if v.successful_exit is Some {
            s0.push(("SuccessfulExit"@, <bool as PlistCodec>::spec_encoded(v.successful_exit->0)))
        } else {
            s0
        };
        let m1 = KeepAliveOptionsView { successful_exit: v.successful_exit, ..m0 };
        lemma_record_fold_opt(
            s0,
            v.successful_exit is Some,
            ("SuccessfulExit"@, <bool as PlistCodec>::spec_encoded(v.successful_exit->0)),
            m0,
            m0,
            m1,
            step,
        );
        let s2 = if v.network_state is Some {
            s1.push(("NetworkState"@, <bool as PlistCodec>::spec_encoded(v.network_state->0)))
        } else {
            s1
        };
        let m2 = KeepAliveOptionsView { network_state: v.network_state, ..m1 };
        lemma_record_fold_opt(
            s1,
            v.network_state is Some,
            ("NetworkState"@, <bool as PlistCodec>::spec_encoded(v.network_state->0)),
            m0,
            m1,
            m2,
            step,
        );
        if v.path_state is Some {
            <Dict<bool> as PlistCodec>::lemma_round_trip(v.path_state->0);
        }
        let s3 = if v.path_state is Some {
            s2.push(("PathState"@, <Dict<bool> as PlistCodec>::spec_encoded(v.path_state->0)))
        } else {
            s2
        };
        let m3 = KeepAliveOptionsView { path_state: v.path_state, ..m2 };
        lemma_record_fold_opt(
            s2,
            v.path_state is Some,
            ("PathState"@, <Dict<bool> as PlistCodec>::spec_encoded(v.path_state->0)),
            m0,
            m2,
            m3,
            step,
        );
        if v.other_job_enabled is Some {
            <Dict<bool> as PlistCodec>::lemma_round_trip(v.other_job_enabled->0);
        }
        let s4 = if v.other_job_enabled is Some {
            s3.push(
                ("OtherJobEnabled"@, <Dict<bool> as PlistCodec>::spec_encoded(
                    v.other_job_enabled->0,
                )),
            )
        } else {
            s3
        };
        let m4 = KeepAliveOptionsView { other_job_enabled: v.other_job_enabled, ..m3 };
        lemma_record_fold_opt(
            s3,
            v.other_job_enabled is Some,
            ("OtherJobEnabled"@, <Dict<bool> as PlistCodec>::spec_encoded(v.other_job_enabled->0)),
            m0,
            m3,
            m4,
            step,
        );
        assert(s4 == Self::spec_fields(v));
        assert(m4 == v);
    }
}

/// The keep-alive policy: a bare boolean or a record of conditions. When
/// decoding, the boolean shape is tried first, then the record shape.
#[derive(Debug, PartialEq)]
pub enum KeepAliveType {
    /// Keep-alive switched on or off unconditionally.
    Enabled(bool),
    /// Keep-alive under explicit conditions.
    Options(KeepAliveOptions),
}

/// The ghost mirror of [`KeepAliveType`].
pub enum KeepAliveTypeView {
    Enabled(bool),
    Options(KeepAliveOptionsView),
}

impl DeepView for KeepAliveType {
    type V = KeepAliveTypeView;

    open spec fn deep_view(&self) -> KeepAliveTypeView {
        match self {
            KeepAliveType::Enabled(b) => KeepAliveTypeView::Enabled(*b),
            KeepAliveType::Options(o) => KeepAliveTypeView::Options(o.deep_view()),
        }
    }
}

impl From<bool> for KeepAliveType {
    /// Wraps an unconditional keep-alive flag.
    fn from(value: bool) -> (r: Self) {
        KeepAliveType::Enabled(value)
    }
}

impl vstd::std_specs::convert::FromSpecImpl<bool> for KeepAliveType {
    open spec fn obeys_from_spec() -> bool {
        true
    }

    open spec fn from_spec(value: bool) -> Self {
        KeepAliveType::Enabled(value)
    }
}

impl From<KeepAliveOptions> for KeepAliveType {
    /// Wraps explicit keep-alive conditions.
    fn from(value: KeepAliveOptions) -> (r: Self) {
        KeepAliveType::Options(value)
    }
}

impl vstd::std_specs::convert::FromSpecImpl<KeepAliveOptions> for KeepAliveType {
    open spec fn obeys_from_spec() -> bool {
        true
    }

    open spec fn from_spec(value: KeepAliveOptions) -> Self {
        KeepAliveType::Options(value)
    }
}

impl PlistCodec for KeepAliveType {
    open spec fn wf_view(v: KeepAliveTypeView) -> bool {
        match v {
            KeepAliveTypeView::Enabled(_) => true,
            KeepAliveTypeView::Options(o) => <KeepAliveOptions as PlistCodec>::wf_view(o),
        }
    }

    open spec fn spec_encoded(v: KeepAliveTypeView) -> SpecValue {
        match v {
            KeepAliveTypeView::Enabled(b) => <bool as PlistCodec>::spec_encoded(b),
            KeepAliveTypeView::Options(o) => <KeepAliveOptions as PlistCodec>::spec_encoded(o),
        }
    }

    open spec fn spec_decoded(v: SpecValue) -> Result<KeepAliveTypeView, DecodeFault> {
        match v {
            SpecValue::Boolean(b) => Ok(KeepAliveTypeView::Enabled(b)),
            SpecValue::Dictionary(_) => match <KeepAliveOptions as PlistCodec>::spec_decoded(v) {
                Ok(o) => Ok(KeepAliveTypeView::Options(o)),
                Err(f) => Err(f),
            },
            _ => Err(DecodeFault::Schema("no union shape matched"@)),
        }
    }

    fn to_value(&self) -> (r: PlistValue) {
        match self {
            KeepAliveType::Enabled(b) => b.to_value(),
            KeepAliveType::Options(o) => o.to_value(),
        }
    }

    fn from_value(v: &PlistValue) -> (r: Result<Self, Error>) {
        match v {
            PlistValue::Boolean(b) => Ok(KeepAliveType::Enabled(*b)),
            PlistValue::Dictionary(_) => match <KeepAliveOptions as PlistCodec>::from_value(v) {
                Ok(o) => Ok(KeepAliveType::Options(o)),
                Err(e) => Err(e),
            },
            _ => Err(Error::Schema("no union shape matched".to_owned())),
        }
    }

    proof fn lemma_round_trip(v: KeepAliveTypeView) {
        match v {
            KeepAliveTypeView::Enabled(_) => {
            },
            KeepAliveTypeView::Options(o) => {
                <KeepAliveOptions as PlistCodec>::lemma_round_trip(o);
            },
        }
    }
}

} // verus!
