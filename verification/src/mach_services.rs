//! Mach-service entries: a service is either a bare boolean or a small
//! record of options.

use vstd::prelude::*;

use crate::error::Error;
use crate::value::{
    clone_string, lemma_record_fold_fault, lemma_record_fold_snoc, lemma_view_pairs_index,
    record_fold, str_eq, view_pairs, DecodeFault, PlistCodec, PlistValue, SpecValue,
};

verus! {

/// Options of a Mach service entry. The schema for this record is not
/// strict: unrecognized keys in a document are ignored.
#[derive(Debug, Clone, Copy, PartialEq, Eq, Default, Hash)]
pub struct MachServiceOptions {
    pub reset_at_close: Option<bool>,
    pub hide_until_check_in: Option<bool>,
}

impl DeepView for MachServiceOptions {
    type V = MachServiceOptions;

    open spec fn deep_view(&self) -> MachServiceOptions {
        *self
    }
}

impl MachServiceOptions {
    /// The record with no option set.
    pub open spec fn spec_empty() -> Self {
        MachServiceOptions { reset_at_close: None, hide_until_check_in: None }
    }

    /// A new record with no option set.
    pub fn new() -> (r: Self)
        ensures
            r == Self::spec_empty(),
    {
        MachServiceOptions { reset_at_close: None, hide_until_check_in: None }
    }

    /// Sets whether the service is reset at close.
    pub fn with_reset_at_close(self, value: bool) -> (r: Self)
        ensures
            r == (MachServiceOptions { reset_at_close: Some(value), ..self }),
    {
        let mut s = self;
        s.reset_at_close = Some(value);
        s
    }

    /// Sets the reset-at-close option to true.
    pub fn reset_at_close(self) -> (r: Self)
        ensures
            r == (MachServiceOptions { reset_at_close: Some(true), ..self }),
    {
        self.with_reset_at_close(true)
    }

    /// Sets whether the service is hidden until check-in.
    pub fn with_hide_until_check_in(self, value: bool) -> (r: Self)
        ensures
            r == (MachServiceOptions { hide_until_check_in: Some(value), ..self }),
    {
        let mut s = self;
        s.hide_until_check_in = Some(value);
        s
    }

    /// Sets the hide-until-check-in option to true.
    pub fn hide_until_check_in(self) -> (r: Self)
        ensures
            r == (MachServiceOptions { hide_until_check_in: Some(true), ..self }),
    {
        self.with_hide_until_check_in(true)
    }

    /// The dictionary entries that encode this record, in schema order.
    pub open spec fn spec_fields(v: Self) -> Seq<(Seq<char>, SpecValue)> {
        let s = Seq::<(Seq<char>, SpecValue)>::empty();
        let s = if v.reset_at_close is Some {
            s.push(("ResetAtClose"@, <bool as PlistCodec>::spec_encoded(v.reset_at_close->0)))
        } else {
            s
        };
        let s = if v.hide_until_check_in is Some {
            s.push(
                ("HideUntilCheckIn"@, <bool as PlistCodec>::spec_encoded(
                    v.hide_until_check_in->0,
                )),
            )
        } else {
            s
        };
        s
    }

    /// How one dictionary entry updates the record while decoding.
    pub open spec fn spec_step(acc: Self, k: Seq<char>, val: SpecValue) -> Result<
        Self,
        DecodeFault,
    > {
        if k == "ResetAtClose"@ {
            match <bool as PlistCodec>::spec_decoded(val) {
                Ok(b) => Ok(MachServiceOptions { reset_at_close: Some(b), ..acc }),
                Err(f) => Err(f),
            }
        } else if k == "HideUntilCheckIn"@ {
            match <bool as PlistCodec>::spec_decoded(val) {
                Ok(b) => Ok(MachServiceOptions { hide_until_check_in: Some(b), ..acc }),
                Err(f) => Err(f),
            }
        } else {
            Ok(acc)
        }
    }

    /// The step function, as a value `record_fold` can take.
    pub open spec fn spec_step_fn() -> spec_fn(Self, Seq<char>, SpecValue) -> Result<
        Self,
        DecodeFault,
    > {
        |acc: Self, k: Seq<char>, val: SpecValue| Self::spec_step(acc, k, val)
    }
}

impl PlistCodec for MachServiceOptions {
    open spec fn wf_view(v: Self) -> bool {
        true
    }

    open spec fn spec_encoded(v: Self) -> SpecValue {
        SpecValue::Dictionary(Self::spec_fields(v))
    }

    open spec fn spec_decoded(v: SpecValue) -> Result<Self, DecodeFault> {
        match v {
            SpecValue::Dictionary(pairs) => record_fold(
                pairs,
                Self::spec_empty(),
                Self::spec_step_fn(),
            ),
            _ => Err(DecodeFault::Schema("dictionary value expected"@)),
        }
    }

    fn to_value(&self) -> (r: PlistValue) {
        let mut out: Vec<(String, PlistValue)> = Vec::new();
        if let Some(b) = self.reset_at_close {
            out.push(("ResetAtClose".to_owned(), b.to_value()));
        }
        if let Some(b) = self.hide_until_check_in {
            out.push(("HideUntilCheckIn".to_owned(), b.to_value()));
        }
        proof {
            lemma_view_pairs_index(out@);
            let fs = Self::spec_fields(*self);
            assert(out@.len() == fs.len());
            assert forall|j: int| 0 <= j < out@.len() implies view_pairs(out@)[j] == fs[j] by {
                assert(view_pairs(out@)[j] == ((out@[j]).0@, out@[j].1@));
            }
            assert(view_pairs(out@) =~= fs);
        }
        PlistValue::Dictionary(out)
    }

    fn from_value(v: &PlistValue) -> (r: Result<Self, Error>) {
        match v {
            PlistValue::Dictionary(pairs) => {
                proof {
                    lemma_view_pairs_index(pairs@);
                }
                let ghost vp: Seq<(Seq<char>, SpecValue)> = view_pairs(pairs@);
                let ghost step = Self::spec_step_fn();
                let mut acc = MachServiceOptions::new();
                proof {
                    assert(vp.take(0) =~= Seq::<(Seq<char>, SpecValue)>::empty());
                }
                let mut i: usize = 0;
                while i < pairs.len()
                    invariant
                        i <= pairs.len(),
                        v@ == SpecValue::Dictionary(vp),
                        vp == view_pairs(pairs@),
                        vp.len() == pairs@.len(),
                        forall|j: int|
                            0 <= j < pairs@.len() ==> vp[j] == ((#[trigger] pairs@[j]).0@,
                            pairs@[j].1@),
                        step == Self::spec_step_fn(),
                        record_fold(vp.take(i as int), Self::spec_empty(), step) == Ok::<
                            Self,
                            DecodeFault,
                        >(acc),
                    decreases pairs.len() - i,
                {
                    let ghost prev = acc;
                    if str_eq(pairs[i].0.as_str(), "ResetAtClose") {
                        match <bool as PlistCodec>::from_value(&pairs[i].1) {
                            Ok(b) => {
                                acc.reset_at_close = Some(b);
                            },
                            Err(e) => {
                                proof {
                                    let f = <bool as PlistCodec>::spec_decoded(
                                        vp[i as int].1,
                                    )->Err_0;
                                    lemma_record_fold_fault(
                                        vp,
                                        i as int,
                                        Self::spec_empty(),
                                        step,
                                        f,
                                    );
                                }
                                return Err(e);
                            },
                        }
                    } else if str_eq(pairs[i].0.as_str(), "HideUntilCheckIn") {
                        match <bool as PlistCodec>::from_value(&pairs[i].1) {
                            Ok(b) => {
                                acc.hide_until_check_in = Some(b);
                            },
                            Err(e) => {
                                proof {
                                    let f = <bool as PlistCodec>::spec_decoded(
                                        vp[i as int].1,
                                    )->Err_0;
                                    lemma_record_fold_fault(
                                        vp,
                                        i as int,
                                        Self::spec_empty(),
                                        step,
                                        f,
                                    );
                                }
                                return Err(e);
                            },
                        }
                    }
                    proof {
                        assert(vp.take(i + 1 as int) =~= vp.take(i as int).push(vp[i as int]));
                        lemma_record_fold_snoc(vp.take(i as int), vp[i as int], Self::spec_empty(), step);
                        assert(record_fold(vp.take(i + 1 as int), Self::spec_empty(), step)
                            == Ok::<Self, DecodeFault>(acc));
                    }
                    i = i + 1;
                }
                proof {
                    assert(vp.take(pairs@.len() as int) =~= vp);
                }
                Ok(acc)
            },
            _ => Err(Error::Schema("dictionary value expected".to_owned())),
        }
    }

    proof fn lemma_round_trip(v: Self) {
        let e = Self::spec_fields(v);
        let step = Self::spec_step_fn();
        reveal_strlit("ResetAtClose");
        reveal_strlit("HideUntilCheckIn");
        assert("ResetAtClose"@.len() == 12);
        assert("HideUntilCheckIn"@.len() == 16);
        assert("ResetAtClose"@ != "HideUntilCheckIn"@);
        let s0 = Seq::<(Seq<char>, SpecValue)>::empty();
        let s1 = if v.reset_at_close is Some {
            s0.push(("ResetAtClose"@, <bool as PlistCodec>::spec_encoded(v.reset_at_close->0)))
        } else {
            s0
        };
        assert(record_fold(s0, Self::spec_empty(), step) == Ok::<Self, DecodeFault>(
            Self::spec_empty(),
        ));
        if v.reset_at_close is Some {
            lemma_record_fold_snoc(
                s0,
                ("ResetAtClose"@, <bool as PlistCodec>::spec_encoded(v.reset_at_close->0)),
                Self::spec_empty(),
                step,
            );
        }
        let m1 = MachServiceOptions { reset_at_close: v.reset_at_close, ..Self::spec_empty() };
        assert(step(Self::spec_empty(), "ResetAtClose"@, <bool as PlistCodec>::spec_encoded(
            v.reset_at_close->0,
        )) == Self::spec_step(Self::spec_empty(), "ResetAtClose"@, <bool as PlistCodec>::spec_encoded(
            v.reset_at_close->0,
        )));
        assert(record_fold(s1, Self::spec_empty(), step) == Ok::<Self, DecodeFault>(m1));
        let s2 = if v.hide_until_check_in is Some {
            s1.push(
                ("HideUntilCheckIn"@, <bool as PlistCodec>::spec_encoded(
                    v.hide_until_check_in->0,
                )),
            )
        } else {
            s1
        };
        if v.hide_until_check_in is Some {
            lemma_record_fold_snoc(
                s1,
                ("HideUntilCheckIn"@, <bool as PlistCodec>::spec_encoded(
                    v.hide_until_check_in->0,
                )),
                Self::spec_empty(),
                step,
            );
            assert(step(m1, "HideUntilCheckIn"@, <bool as PlistCodec>::spec_encoded(
                v.hide_until_check_in->0,
            )) == Self::spec_step(m1, "HideUntilCheckIn"@, <bool as PlistCodec>::spec_encoded(
                v.hide_until_check_in->0,
            )));
        }
        assert(record_fold(s2, Self::spec_empty(), step) == Ok::<Self, DecodeFault>(v));
        assert(e == s2);
        assert(record_fold(e, Self::spec_empty(), step) == Ok::<Self, DecodeFault>(v));
    }
}

/// One entry of the Mach-services table: either a bare boolean or a
/// record of options. When decoding, the boolean shape is tried first,
/// then the record shape.
#[derive(Debug, Clone, Copy, PartialEq, Eq, Hash)]
pub enum MachServiceEntry {
    /// The service is declared with a plain boolean.
    Boolean(bool),
    /// The service is declared with explicit options.
    Options(MachServiceOptions),
}

impl DeepView for MachServiceEntry {
    type V = MachServiceEntry;

    open spec fn deep_view(&self) -> MachServiceEntry {
        *self
    }
}

impl From<MachServiceOptions> for MachServiceEntry {
    /// Wraps options as a map-shaped entry.
    fn from(options: MachServiceOptions) -> (r: Self) {
        MachServiceEntry::Options(options)
    }
}

impl From<bool> for MachServiceEntry {
    /// Wraps a boolean as a boolean-shaped entry.
    fn from(value: bool) -> (r: Self) {
        MachServiceEntry::Boolean(value)
    }
}

impl vstd::std_specs::convert::FromSpecImpl<MachServiceOptions> for MachServiceEntry {
    open spec fn obeys_from_spec() -> bool {
        true
    }

    open spec fn from_spec(options: MachServiceOptions) -> Self {
        MachServiceEntry::Options(options)
    }
}

impl vstd::std_specs::convert::FromSpecImpl<bool> for MachServiceEntry {
    open spec fn obeys_from_spec() -> bool {
        true
    }

    open spec fn from_spec(value: bool) -> Self {
        MachServiceEntry::Boolean(value)
    }
}

impl PlistCodec for MachServiceEntry {
    open spec fn wf_view(v: Self) -> bool {
        true
    }

    open spec fn spec_encoded(v: Self) -> SpecValue {
        match v {
            MachServiceEntry::Boolean(b) => <bool as PlistCodec>::spec_encoded(b),
            MachServiceEntry::Options(o) => <MachServiceOptions as PlistCodec>::spec_encoded(o),
        }
    }

    open spec fn spec_decoded(v: SpecValue) -> Result<Self, DecodeFault> {
        match v {
            SpecValue::Boolean(b) => Ok(MachServiceEntry::Boolean(b)),
            SpecValue::Dictionary(_) => match <MachServiceOptions as PlistCodec>::spec_decoded(
                v,
            ) {
                Ok(o) => Ok(MachServiceEntry::Options(o)),
                Err(f) => Err(f),
            },
            _ => Err(DecodeFault::Schema("no union shape matched"@)),
        }
    }

    fn to_value(&self) -> (r: PlistValue) {
        match self {
            MachServiceEntry::Boolean(b) => b.to_value(),
            MachServiceEntry::Options(o) => o.to_value(),
        }
    }

    fn from_value(v: &PlistValue) -> (r: Result<Self, Error>) {
        match v {
            PlistValue::Boolean(b) => Ok(MachServiceEntry::Boolean(*b)),
            PlistValue::Dictionary(_) => match <MachServiceOptions as PlistCodec>::from_value(
                v,
            ) {
                Ok(o) => Ok(MachServiceEntry::Options(o)),
                Err(e) => Err(e),
            },
            _ => Err(Error::Schema("no union shape matched".to_owned())),
        }
    }

    proof fn lemma_round_trip(v: Self) {
        match v {
            MachServiceEntry::Boolean(b) => {
            },
            MachServiceEntry::Options(o) => {
                <MachServiceOptions as PlistCodec>::lemma_round_trip(o);
            },
        }
    }
}

} // verus!
