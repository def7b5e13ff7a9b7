//! The calendar-interval value type and its validating builder.
//!
//! A calendar interval is a partial point-in-time pattern: each of its five
//! fields is either unset (matches every value of that unit) or holds a
//! single validated integer.

use cron::TimeUnitSpec;
use vstd::prelude::*;

use crate::error::Error;
use crate::value::{
    lemma_record_fold_fault, lemma_record_fold_opt, lemma_record_fold_snoc,
    lemma_view_pairs_index, push_entry, record_fold, str_eq, view_pairs, DecodeFault, PlistCodec,
    PlistValue, SpecValue,
};

verus! {

/// One (possibly partial) point-in-time specification.
///
/// Allowed ranges: minute `0..=59`, hour `0..=23`, day `1..=31`,
/// weekday `0..=7` (both 0 and 7 may denote Sunday; the raw value is kept
/// as given), month `1..=12`. The setters validate; a value decoded from a
/// document is stored as found.
#[derive(Debug, Clone, Copy, PartialEq, Eq, Hash)]
pub struct CalendarInterval {
    pub minute: Option<u8>,
    pub hour: Option<u8>,
    pub day: Option<u8>,
    pub weekday: Option<u8>,
    pub month: Option<u8>,
}

impl Default for CalendarInterval {
    /// The fully-unset interval.
    fn default() -> (r: Self)
        ensures
            r == Self::empty(),
    {
        CalendarInterval { minute: None, hour: None, day: None, weekday: None, month: None }
    }
}

impl CalendarInterval {
    /// The fully-unset interval.
    pub open spec fn empty() -> Self {
        CalendarInterval { minute: None, hour: None, day: None, weekday: None, month: None }
    }

    /// `self` with only the minute replaced.
    pub open spec fn minute_set(self, v: u8) -> Self {
        CalendarInterval { minute: Some(v), ..self }
    }

    /// `self` with only the hour replaced.
    pub open spec fn hour_set(self, v: u8) -> Self {
        CalendarInterval { hour: Some(v), ..self }
    }

    /// `self` with only the day replaced.
    pub open spec fn day_set(self, v: u8) -> Self {
        CalendarInterval { day: Some(v), ..self }
    }

    /// `self` with only the weekday replaced.
    pub open spec fn weekday_set(self, v: u8) -> Self {
        CalendarInterval { weekday: Some(v), ..self }
    }

    /// `self` with only the month replaced.
    pub open spec fn month_set(self, v: u8) -> Self {
        CalendarInterval { month: Some(v), ..self }
    }

    /// True iff at least one field is set.
    pub open spec fn spec_is_initialized(self) -> bool {
        self.minute is Some || self.hour is Some || self.day is Some || self.weekday is Some
            || self.month is Some
    }

    /// A fresh, fully-unset interval.
    pub fn new() -> (r: Self)
        ensures
            r == Self::empty(),
    {
        CalendarInterval { minute: None, hour: None, day: None, weekday: None, month: None }
    }

    /// Sets the minute, accepting exactly `0..=59`.
    pub fn with_minute(self, minute: u8) -> (r: Result<Self, Error>)
        ensures
            minute <= 59 ==> r == Ok::<Self, Error>(self.minute_set(minute)),
            minute > 59 ==> r == Err::<Self, Error>(
                Error::CalendarFieldOutOfBounds { min: 0, max: 59, value: minute },
            ),
    {
        if minute > 59 {
            Err(Error::CalendarFieldOutOfBounds { min: 0, max: 59, value: minute })
        } else {
            let mut result = self;
            result.minute = Some(minute);
            Ok(result)
        }
    }

    /// Sets the hour, accepting exactly `0..=23`.
    pub fn with_hour(self, hour: u8) -> (r: Result<Self, Error>)
        ensures
            hour <= 23 ==> r == Ok::<Self, Error>(self.hour_set(hour)),
            hour > 23 ==> r == Err::<Self, Error>(
                Error::CalendarFieldOutOfBounds { min: 0, max: 23, value: hour },
            ),
    {
        if hour > 23 {
            Err(Error::CalendarFieldOutOfBounds { min: 0, max: 23, value: hour })
        } else {
            let mut result = self;
            result.hour = Some(hour);
            Ok(result)
        }
    }

    /// Sets the day of the month, accepting exactly `1..=31`.
    pub fn with_day(self, day: u8) -> (r: Result<Self, Error>)
        ensures
            1 <= day <= 31 ==> r == Ok::<Self, Error>(self.day_set(day)),
            !(1 <= day <= 31) ==> r == Err::<Self, Error>(
                Error::CalendarFieldOutOfBounds { min: 1, max: 31, value: day },
            ),
    {
        if day == 0 || day > 31 {
            Err(Error::CalendarFieldOutOfBounds { min: 1, max: 31, value: day })
        } else {
            let mut result = self;
            result.day = Some(day);
            Ok(result)
        }
    }

    /// Sets the weekday, accepting exactly `0..=7`.
    pub fn with_weekday(self, weekday: u8) -> (r: Result<Self, Error>)
        ensures
            weekday <= 7 ==> r == Ok::<Self, Error>(self.weekday_set(weekday)),
            weekday > 7 ==> r == Err::<Self, Error>(
                Error::CalendarFieldOutOfBounds { min: 0, max: 7, value: weekday },
            ),
    {
        if weekday > 7 {
            Err(Error::CalendarFieldOutOfBounds { min: 0, max: 7, value: weekday })
        } else {
            let mut result = self;
            result.weekday = Some(weekday);
            Ok(result)
        }
    }

    /// Sets the month, accepting exactly `1..=12`.
    pub fn with_month(self, month: u8) -> (r: Result<Self, Error>)
        ensures
            1 <= month <= 12 ==> r == Ok::<Self, Error>(self.month_set(month)),
            !(1 <= month <= 12) ==> r == Err::<Self, Error>(
                Error::CalendarFieldOutOfBounds { min: 1, max: 12, value: month },
            ),
    {
        if month == 0 || month > 12 {
            Err(Error::CalendarFieldOutOfBounds { min: 1, max: 12, value: month })
        } else {
            let mut result = self;
            result.month = Some(month);
            Ok(result)
        }
    }

    /// True iff at least one field is set; an interval that is not
    /// initialized would match every point in time and is discarded by the
    /// cron expansion.
    pub fn is_initialized(&self) -> (r: bool)
        ensures
            r == self.spec_is_initialized(),
    {
        self.minute.is_some() || self.hour.is_some() || self.day.is_some()
            || self.weekday.is_some() || self.month.is_some()
    }
}

impl DeepView for CalendarInterval {
    type V = CalendarInterval;

    open spec fn deep_view(&self) -> CalendarInterval {
        *self
    }
}

impl CalendarInterval {
    /// The dictionary entries that encode this record, in schema order.
    pub open spec fn spec_fields(v: Self) -> Seq<(Seq<char>, SpecValue)> {
        let s = Seq::<(Seq<char>, SpecValue)>::empty();
        let s = if v.minute is Some {
            s.push(("Minute"@, <u8 as PlistCodec>::spec_encoded(v.minute->0)))
        } else {
            s
        };
        let s = if v.hour is Some {
            s.push(("Hour"@, <u8 as PlistCodec>::spec_encoded(v.hour->0)))
        } else {
            s
        };
        let s = if v.day is Some {
            s.push(("Day"@, <u8 as PlistCodec>::spec_encoded(v.day->0)))
        } else {
            s
        };
        let s = if v.weekday is Some {
            s.push(("Weekday"@, <u8 as PlistCodec>::spec_encoded(v.weekday->0)))
        } else {
            s
        };
        let s = if v.month is Some {
            s.push(("Month"@, <u8 as PlistCodec>::spec_encoded(v.month->0)))
        } else {
            s
        };
        s
    }

    /// Whether a key names a field of this record.
    pub open spec fn spec_known_key(k: Seq<char>) -> bool {
        ||| k == "Minute"@
        ||| k == "Hour"@
        ||| k == "Day"@
        ||| k == "Weekday"@
        ||| k == "Month"@
    }

    /// The record with the named field replaced. The stored value is the
    /// raw document integer: range validation belongs to the setters, not
    /// to decoding.
    pub open spec fn spec_set(acc: Self, k: Seq<char>, x: u8) -> Self {
        if k == "Minute"@ {
            CalendarInterval { minute: Some(x), ..acc }
        } else if k == "Hour"@ {
            CalendarInterval { hour: Some(x), ..acc }
        } else if k == "Day"@ {
            CalendarInterval { day: Some(x), ..acc }
        } else if k == "Weekday"@ {
            CalendarInterval { weekday: Some(x), ..acc }
        } else {
            CalendarInterval { month: Some(x), ..acc }
        }
    }

    /// How one dictionary entry updates the record while decoding;
    /// unknown keys are ignored, as the schema for this record is not
    /// strict.
    pub open spec fn spec_step(acc: Self, k: Seq<char>, val: SpecValue) -> Result<
        Self,
        DecodeFault,
    > {
        if Self::spec_known_key(k) {
            match <u8 as PlistCodec>::spec_decoded(val) {
                Ok(x) => Ok(Self::spec_set(acc, k, x)),
                Err(f) => Err(f),
            }
        } else {
            Ok(acc)
        }
    }

    /// The step function, as a value `record_fold` can take.
    pub open spec fn spec_step_fn() -> spec_fn(Self, Seq<char>, SpecValue) -> Result<
        Self,
        DecodeFault,
    > {
        |acc: Self, k: Seq<char>, val: SpecValue| Self::spec_step(acc, k, val)
    }
}

impl PlistCodec for CalendarInterval {
    open spec fn wf_view(v: Self) -> bool {
        true
    }

    open spec fn spec_encoded(v: Self) -> SpecValue {
        SpecValue::Dictionary(Self::spec_fields(v))
    }

    open spec fn spec_decoded(v: SpecValue) -> Result<Self, DecodeFault> {
        match v {
            SpecValue::Dictionary(pairs) => record_fold(
                pairs,
                Self::empty(),
                Self::spec_step_fn(),
            ),
            _ => Err(DecodeFault::Schema("dictionary value expected"@)),
        }
    }

    fn to_value(&self) -> (r: PlistValue) {
        let mut out: Vec<(String, PlistValue)> = Vec::new();
        proof {
            assert(view_pairs(out@) =~= Seq::<(Seq<char>, SpecValue)>::empty());
        }
        if let Some(x) = self.minute {
            push_entry(&mut out, "Minute", x.to_value());
        }
        if let Some(x) = self.hour {
            push_entry(&mut out, "Hour", x.to_value());
        }
        if let Some(x) = self.day {
            push_entry(&mut out, "Day", x.to_value());
        }
        if let Some(x) = self.weekday {
            push_entry(&mut out, "Weekday", x.to_value());
        }
        if let Some(x) = self.month {
            push_entry(&mut out, "Month", x.to_value());
        }
        proof {
            assert(view_pairs(out@) == Self::spec_fields(*self));
        }
        PlistValue::Dictionary(out)
    }

    #[verifier::rlimit(60)]
    fn from_value(v: &PlistValue) -> (r: Result<Self, Error>) {
        match v {
            PlistValue::Dictionary(pairs) => {
                proof {
                    lemma_view_pairs_index(pairs@);
                }
                let ghost vp: Seq<(Seq<char>, SpecValue)> = view_pairs(pairs@);
                let ghost step = Self::spec_step_fn();
                let mut acc = CalendarInterval::new();
                proof {
                    assert(vp.take(0) =~= Seq::<(Seq<char>, SpecValue)>::empty());
                }
                let mut i: usize = 0;
                while i < pairs.len()
                    invariant
                        i <= pairs.len(),
                        v@ == SpecValue::Dictionary(vp),
                        vp == view_pairs(pairs@),
                        vp.len() == pairs@.len(),
                        forall|j: int|
                            0 <= j < pairs@.len() ==> vp[j] == ((#[trigger] pairs@[j]).0@,
                            pairs@[j].1@),
                        step == Self::spec_step_fn(),
                        record_fold(vp.take(i as int), Self::empty(), step) == Ok::<
                            Self,
                            DecodeFault,
                        >(acc),
                    decreases pairs.len() - i,
                {
                    let ghost prev = acc;
                    let ks = pairs[i].0.as_str();
                    let known = str_eq(ks, "Minute") || str_eq(ks, "Hour") || str_eq(ks, "Day")
                        || str_eq(ks, "Weekday") || str_eq(ks, "Month");
                    if known {
                        match <u8 as PlistCodec>::from_value(&pairs[i].1) {
                            Ok(x) => {
                                if str_eq(ks, "Minute") {
                                    acc.minute = Some(x);
                                } else if str_eq(ks, "Hour") {
                                    acc.hour = Some(x);
                                } else if str_eq(ks, "Day") {
                                    acc.day = Some(x);
                                } else if str_eq(ks, "Weekday") {
                                    acc.weekday = Some(x);
                                } else {
                                    acc.month = Some(x);
                                }
                            },
                            Err(e) => {
                                proof {
                                    let f = <u8 as PlistCodec>::spec_decoded(
                                        vp[i as int].1,
                                    )->Err_0;
                                    lemma_record_fold_fault(vp, i as int, Self::empty(), step, f);
                                }
                                return Err(e);
                            },
                        }
                    }
                    proof {
                        assert(vp.take(i + 1 as int) =~= vp.take(i as int).push(vp[i as int]));
                        lemma_record_fold_snoc(vp.take(i as int), vp[i as int], Self::empty(), step);
                        assert(record_fold(vp.take(i + 1 as int), Self::empty(), step) == Ok::<
                            Self,
                            DecodeFault,
                        >(acc));
                    }
                    i = i + 1;
                }
                proof {
                    assert(vp.take(pairs@.len() as int) =~= vp);
                }
                Ok(acc)
            },
            _ => Err(Error::Schema("dictionary value expected".to_owned())),
        }
    }

    proof fn lemma_round_trip(v: Self) {
        reveal_strlit("Minute");
        reveal_strlit("Hour");
        reveal_strlit("Day");
        reveal_strlit("Weekday");
        reveal_strlit("Month");
        assert("Minute"@.len() == 6);
        assert("Hour"@.len() == 4);
        assert("Day"@.len() == 3);
        assert("Weekday"@.len() == 7);
        assert("Month"@.len() == 5);
        let step = Self::spec_step_fn();
        let m0 = Self::empty();
        let s0 = Seq::<(Seq<char>, SpecValue)>::empty();
        let s1 = if v.minute is Some {
            s0.push(("Minute"@, <u8 as PlistCodec>::spec_encoded(v.minute->0)))
        } else {
            s0
        };
        let m1 = CalendarInterval { minute: v.minute, ..m0 };
        lemma_record_fold_opt(
            s0,
            v.minute is Some,
            ("Minute"@, <u8 as PlistCodec>::spec_encoded(v.minute->0)),
            m0,
            m0,
            m1,
            step,
        );
        let s2 = if v.hour is Some {
            s1.push(("Hour"@, <u8 as PlistCodec>::spec_encoded(v.hour->0)))
        } else {
            s1
        };
        let m2 = CalendarInterval { hour: v.hour, ..m1 };
        lemma_record_fold_opt(
            s1,
            v.hour is Some,
            ("Hour"@, <u8 as PlistCodec>::spec_encoded(v.hour->0)),
            m0,
            m1,
            m2,
            step,
        );
        let s3 = if v.day is Some {
            s2.push(("Day"@, <u8 as PlistCodec>::spec_encoded(v.day->0)))
        } else {
            s2
        };
        let m3 = CalendarInterval { day: v.day, ..m2 };
        lemma_record_fold_opt(
            s2,
            v.day is Some,
            ("Day"@, <u8 as PlistCodec>::spec_encoded(v.day->0)),
            m0,
            m2,
            m3,
            step,
        );
        let s4 = if v.weekday is Some {
            s3.push(("Weekday"@, <u8 as PlistCodec>::spec_encoded(v.weekday->0)))
        } else {
            s3
        };
        let m4 = CalendarInterval { weekday: v.weekday, ..m3 };
        lemma_record_fold_opt(
            s3,
            v.weekday is Some,
            ("Weekday"@, <u8 as PlistCodec>::spec_encoded(v.weekday->0)),
            m0,
            m3,
            m4,
            step,
        );
        let s5 = if v.month is Some {
            s4.push(("Month"@, <u8 as PlistCodec>::spec_encoded(v.month->0)))
        } else {
            s4
        };
        let m5 = CalendarInterval { month: v.month, ..m4 };
        lemma_record_fold_opt(
            s4,
            v.month is Some,
            ("Month"@, <u8 as PlistCodec>::spec_encoded(v.month->0)),
            m0,
            m4,
            m5,
            step,
        );
        assert(s5 == Self::spec_fields(v));
        assert(m5 == v);
    }
}

/// Setting two different calendar fields gives the same record in either
/// order.
pub proof fn lemma_setters_commute(ci: CalendarInterval, h: u8, m: u8)
    ensures
        ci.hour_set(h).minute_set(m) == ci.minute_set(m).hour_set(h),
        ci.day_set(h).minute_set(m) == ci.minute_set(m).day_set(h),
        ci.weekday_set(h).minute_set(m) == ci.minute_set(m).weekday_set(h),
        ci.month_set(h).minute_set(m) == ci.minute_set(m).month_set(h),
        ci.day_set(h).hour_set(m) == ci.hour_set(m).day_set(h),
        ci.weekday_set(h).hour_set(m) == ci.hour_set(m).weekday_set(h),
        ci.month_set(h).hour_set(m) == ci.hour_set(m).month_set(h),
        ci.weekday_set(h).day_set(m) == ci.day_set(m).weekday_set(h),
        ci.month_set(h).day_set(m) == ci.day_set(m).month_set(h),
        ci.month_set(h).weekday_set(m) == ci.weekday_set(m).month_set(h),
{
}

/// Setting the same calendar field twice keeps only the last value.
pub proof fn lemma_setters_idempotent(ci: CalendarInterval, a: u8, b: u8)
    ensures
        ci.minute_set(a).minute_set(b) == ci.minute_set(b),
        ci.hour_set(a).hour_set(b) == ci.hour_set(b),
        ci.day_set(a).day_set(b) == ci.day_set(b),
        ci.weekday_set(a).weekday_set(b) == ci.weekday_set(b),
        ci.month_set(a).month_set(b) == ci.month_set(b),
{
}

/// One unit of a five-unit cron schedule: either the wildcard (matches
/// every value of the unit) or an explicit set of candidate ordinals.
#[derive(Debug, Clone, PartialEq, Eq)]
pub struct CronUnit {
    /// True iff the unit matches every value.
    pub wildcard: bool,
    /// The candidate ordinals, in iteration order.
    pub values: Vec<u32>,
}

/// The ghost mirror of [`CronUnit`].
pub struct CronUnitView {
    pub wildcard: bool,
    pub values: Seq<u32>,
}

impl DeepView for CronUnit {
    type V = CronUnitView;

    open spec fn deep_view(&self) -> CronUnitView {
        CronUnitView { wildcard: self.wildcard, values: self.values@ }
    }
}

/// A five-unit cron schedule, as the expansion consumes it.
#[derive(Debug, Clone, PartialEq, Eq)]
pub struct CronSchedule {
    pub minutes: CronUnit,
    pub hours: CronUnit,
    pub days_of_month: CronUnit,
    pub days_of_week: CronUnit,
    pub months: CronUnit,
}

/// The ghost mirror of [`CronSchedule`].
pub struct CronScheduleView {
    pub minutes: CronUnitView,
    pub hours: CronUnitView,
    pub days_of_month: CronUnitView,
    pub days_of_week: CronUnitView,
    pub months: CronUnitView,
}

impl DeepView for CronSchedule {
    type V = CronScheduleView;

    open spec fn deep_view(&self) -> CronScheduleView {
        CronScheduleView {
            minutes: self.minutes.deep_view(),
            hours: self.hours.deep_view(),
            days_of_month: self.days_of_month.deep_view(),
            days_of_week: self.days_of_week.deep_view(),
            months: self.months.deep_view(),
        }
    }
}

/// The ordinals one nesting level actually iterates: a wildcard unit is
/// left after its first pass, so only its first candidate is visited.
pub open spec fn eff(u: CronUnitView) -> Seq<u32> {
    if u.wildcard && u.values.len() >= 1 {
        u.values.take(1)
    } else {
        u.values
    }
}

/// Applies the month of a combination: conversion failure is an invalid
/// cron field, range failure is the field's own out-of-bounds error.
pub open spec fn spec_apply_month(ci: CalendarInterval, mo: u32) -> Result<
    CalendarInterval,
    Error,
> {
    if mo > 255 {
        Err(Error::InvalidCronField(mo))
    } else if 1 <= mo && mo <= 12 {
        Ok(ci.month_set(mo as u8))
    } else {
        Err(Error::CalendarFieldOutOfBounds { min: 1, max: 12, value: mo as u8 })
    }
}

/// Applies the weekday of a combination.
pub open spec fn spec_apply_weekday(ci: CalendarInterval, wd: u32) -> Result<
    CalendarInterval,
    Error,
> {
    if wd > 255 {
        Err(Error::InvalidCronField(wd))
    } else if wd <= 7 {
        Ok(ci.weekday_set(wd as u8))
    } else {
        Err(Error::CalendarFieldOutOfBounds { min: 0, max: 7, value: wd as u8 })
    }
}

/// Applies the day of month of a combination.
pub open spec fn spec_apply_day(ci: CalendarInterval, d: u32) -> Result<CalendarInterval, Error> {
    if d > 255 {
        Err(Error::InvalidCronField(d))
    } else if 1 <= d && d <= 31 {
        Ok(ci.day_set(d as u8))
    } else {
        Err(Error::CalendarFieldOutOfBounds { min: 1, max: 31, value: d as u8 })
    }
}

/// Applies the hour of a combination.
pub open spec fn spec_apply_hour(ci: CalendarInterval, h: u32) -> Result<CalendarInterval, Error> {
    if h > 255 {
        Err(Error::InvalidCronField(h))
    } else if h <= 23 {
        Ok(ci.hour_set(h as u8))
    } else {
        Err(Error::CalendarFieldOutOfBounds { min: 0, max: 23, value: h as u8 })
    }
}

/// Applies the minute of a combination.
pub open spec fn spec_apply_minute(ci: CalendarInterval, mi: u32) -> Result<
    CalendarInterval,
    Error,
> {
    if mi > 255 {
        Err(Error::InvalidCronField(mi))
    } else if mi <= 59 {
        Ok(ci.minute_set(mi as u8))
    } else {
        Err(Error::CalendarFieldOutOfBounds { min: 0, max: 59, value: mi as u8 })
    }
}

/// The interval one combination of candidates builds: starting from the
/// empty interval, each unit whose set is explicit (not the wildcard)
/// sets its field, in the order month, weekday, day, hour, minute.
pub open spec fn spec_combo(
    s: CronScheduleView,
    mo: u32,
    wd: u32,
    d: u32,
    h: u32,
    mi: u32,
) -> Result<CalendarInterval, Error> {
    let ci = CalendarInterval::empty();
    let r = if !s.months.wildcard {
        spec_apply_month(ci, mo)
    } else {
        Ok(ci)
    };
    match r {
        Err(e) => Err(e),
        Ok(ci) => {
            let r = if !s.days_of_week.wildcard {
                spec_apply_weekday(ci, wd)
            } else {
                Ok(ci)
            };
            match r {
                Err(e) => Err(e),
                Ok(ci) => {
                    let r = if !s.days_of_month.wildcard {
                        spec_apply_day(ci, d)
                    } else {
                        Ok(ci)
                    };
                    match r {
                        Err(e) => Err(e),
                        Ok(ci) => {
                            let r = if !s.hours.wildcard {
                                spec_apply_hour(ci, h)
                            } else {
                                Ok(ci)
                            };
                            match r {
                                Err(e) => Err(e),
                                Ok(ci) => {
                                    if !s.minutes.wildcard {
                                        spec_apply_minute(ci, mi)
                                    } else {
                                        Ok(ci)
                                    }
                                },
                            }
                        },
                    }
                },
            }
        },
    }
}

/// Concatenates the expansions of each candidate of one nesting level,
/// stopping at the first error.
pub open spec fn expand_fold(
    vals: Seq<u32>,
    f: spec_fn(u32) -> Result<Seq<CalendarInterval>, Error>,
) -> Result<Seq<CalendarInterval>, Error>
    decreases vals.len(),
{
    if vals.len() == 0 {
        Ok(Seq::empty())
    } else {
        match expand_fold(vals.drop_last(), f) {
            Ok(pre) => match f(vals.last()) {
                Ok(more) => Ok(pre + more),
                Err(e) => Err(e),
            },
            Err(e) => Err(e),
        }
    }
}

/// One unfolding step of `expand_fold` at the end of the sequence.
pub proof fn lemma_expand_fold_snoc(
    vals: Seq<u32>,
    v: u32,
    f: spec_fn(u32) -> Result<Seq<CalendarInterval>, Error>,
)
    ensures
        expand_fold(vals.push(v), f) == (match expand_fold(vals, f) {
            Ok(pre) => match f(v) {
                Ok(more) => Ok(pre + more),
                Err(e) => Err(e),
            },
            Err(e) => Err(e),
        }),
{
    assert(vals.push(v).drop_last() =~= vals);
    assert(vals.push(v).last() == v);
}

/// If the fold accepts a prefix and candidate `i` fails, the whole fold
/// ends in that error.
pub proof fn lemma_expand_fold_fault(
    vals: Seq<u32>,
    i: int,
    f: spec_fn(u32) -> Result<Seq<CalendarInterval>, Error>,
    e: Error,
)
    requires
        0 <= i < vals.len(),
        expand_fold(vals.take(i), f) is Ok,
        f(vals[i]) == Err::<Seq<CalendarInterval>, Error>(e),
    ensures
        expand_fold(vals, f) == Err::<Seq<CalendarInterval>, Error>(e),
    decreases vals.len(),
{
    if i == vals.len() - 1 {
        assert(vals.drop_last() =~= vals.take(i));
    } else {
        assert(vals.drop_last().take(i) =~= vals.take(i));
        assert(vals.drop_last()[i] == vals[i]);
        lemma_expand_fold_fault(vals.drop_last(), i, f, e);
    }
}

/// If every candidate of a level succeeds, the level's fold succeeds.
pub proof fn lemma_expand_fold_ok(
    vals: Seq<u32>,
    f: spec_fn(u32) -> Result<Seq<CalendarInterval>, Error>,
)
    requires
        forall|i: int| 0 <= i < vals.len() ==> f(#[trigger] vals[i]) is Ok,
    ensures
        expand_fold(vals, f) is Ok,
    decreases vals.len(),
{
    if vals.len() > 0 {
        assert forall|i: int| 0 <= i < vals.drop_last().len() implies f(
            #[trigger] vals.drop_last()[i],
        ) is Ok by {
            assert(vals.drop_last()[i] == vals[i]);
        }
        lemma_expand_fold_ok(vals.drop_last(), f);
        assert(vals.last() == vals[vals.len() - 1]);
    }
}

/// The innermost level: each minute candidate contributes the interval of
/// its combination, if that interval is initialized.
pub open spec fn minute_body(s: CronScheduleView, mo: u32, wd: u32, d: u32, h: u32) -> spec_fn(
    u32,
) -> Result<Seq<CalendarInterval>, Error> {
    |mi: u32|
        match spec_combo(s, mo, wd, d, h, mi) {
            Ok(ci) => Ok(
                if ci.spec_is_initialized() {
                    seq![ci]
                } else {
                    Seq::empty()
                },
            ),
            Err(e) => Err(e),
        }
}

/// The hour level iterates the minute level.
pub open spec fn hour_body(s: CronScheduleView, mo: u32, wd: u32, d: u32) -> spec_fn(u32) -> Result<
    Seq<CalendarInterval>,
    Error,
> {
    |h: u32| expand_fold(eff(s.minutes), minute_body(s, mo, wd, d, h))
}

/// The day level iterates the hour level.
pub open spec fn day_body(s: CronScheduleView, mo: u32, wd: u32) -> spec_fn(u32) -> Result<
    Seq<CalendarInterval>,
    Error,
> {
    |d: u32| expand_fold(eff(s.hours), hour_body(s, mo, wd, d))
}

/// The weekday level iterates the day level.
pub open spec fn weekday_body(s: CronScheduleView, mo: u32) -> spec_fn(u32) -> Result<
    Seq<CalendarInterval>,
    Error,
> {
    |wd: u32| expand_fold(eff(s.days_of_month), day_body(s, mo, wd))
}

/// The month level iterates the weekday level.
pub open spec fn month_body(s: CronScheduleView) -> spec_fn(u32) -> Result<
    Seq<CalendarInterval>,
    Error,
> {
    |mo: u32| expand_fold(eff(s.days_of_week), weekday_body(s, mo))
}

impl CronSchedule {
    /// The whole expansion: nested iteration with months outermost, then
    /// weekdays, days of month, hours, and minutes innermost.
    pub open spec fn spec_expand(s: CronScheduleView) -> Result<Seq<CalendarInterval>, Error> {
        expand_fold(eff(s.months), month_body(s))
    }
}

/// How many candidates one nesting level visits: a wildcard unit is left
/// after its first pass.
fn eff_len(u: &CronUnit) -> (n: usize)
    ensures
        n == eff(u.deep_view()).len(),
        n <= u.values@.len(),
{
    if u.wildcard {
        if u.values.len() >= 1 {
            1
        } else {
            0
        }
    } else {
        u.values.len()
    }
}

/// The candidates a level visits agree with the unit's own list.
proof fn lemma_eff_index(u: CronUnitView)
    ensures
        eff(u).len() <= u.values.len(),
        forall|j: int| 0 <= j < eff(u).len() ==> eff(u)[j] == u.values[j],
{
}

/// Builds the interval of one combination of candidates.
fn build_combo(s: &CronSchedule, mo: u32, wd: u32, d: u32, h: u32, mi: u32) -> (r: Result<
    CalendarInterval,
    Error,
>)
    ensures
        r == spec_combo(s.deep_view(), mo, wd, d, h, mi),
{
    let mut ci = CalendarInterval::new();
    if !s.months.wildcard {
        if mo > 255 {
            return Err(Error::InvalidCronField(mo));
        }
        match ci.with_month(mo as u8) {
            Ok(c) => {
                ci = c;
            },
            Err(e) => {
                return Err(e);
            },
        }
    }
    if !s.days_of_week.wildcard {
        if wd > 255 {
            return Err(Error::InvalidCronField(wd));
        }
        match ci.with_weekday(wd as u8) {
            Ok(c) => {
                ci = c;
            },
            Err(e) => {
                return Err(e);
            },
        }
    }
    if !s.days_of_month.wildcard {
        if d > 255 {
            return Err(Error::InvalidCronField(d));
        }
        match ci.with_day(d as u8) {
            Ok(c) => {
                ci = c;
            },
            Err(e) => {
                return Err(e);
            },
        }
    }
    if !s.hours.wildcard {
        if h > 255 {
            return Err(Error::InvalidCronField(h));
        }
        match ci.with_hour(h as u8) {
            Ok(c) => {
                ci = c;
            },
            Err(e) => {
                return Err(e);
            },
        }
    }
    if !s.minutes.wildcard {
        if mi > 255 {
            return Err(Error::InvalidCronField(mi));
        }
        match ci.with_minute(mi as u8) {
            Ok(c) => {
                ci = c;
            },
            Err(e) => {
                return Err(e);
            },
        }
    }
    Ok(ci)
}

/// The innermost loop: visits the minute candidates of one combination
/// prefix.
fn expand_minute_level(s: &CronSchedule, mo: u32, wd: u32, d: u32, h: u32) -> (r: Result<
    Vec<CalendarInterval>,
    Error,
>)
    ensures
        (match expand_fold(eff(s.deep_view().minutes), minute_body(s.deep_view(), mo, wd, d, h)) {
            Ok(sq) => r matches Ok(v) && v@ == sq,
            Err(e) => r == Err::<Vec<CalendarInterval>, Error>(e),
        }),
{
    let ghost ef = eff(s.deep_view().minutes);
    let ghost body = minute_body(s.deep_view(), mo, wd, d, h);
    proof {
        lemma_eff_index(s.deep_view().minutes);
    }
    let n = eff_len(&s.minutes);
    let mut out: Vec<CalendarInterval> = Vec::new();
    proof {
        assert(ef.take(0) =~= Seq::<u32>::empty());
    }
    let mut i: usize = 0;
    while i < n
        invariant
            i <= n,
            n == ef.len(),
            n <= s.minutes.values@.len(),
            ef == eff(s.deep_view().minutes),
            body == minute_body(s.deep_view(), mo, wd, d, h),
            forall|j: int| 0 <= j < ef.len() ==> ef[j] == s.minutes.values@[j],
            expand_fold(ef.take(i as int), body) == Ok::<Seq<CalendarInterval>, Error>(out@),
        decreases n - i,
    {
        let ghost prev = out@;
        let mi = s.minutes.values[i];
        match build_combo(s, mo, wd, d, h, mi) {
            Ok(ci) => {
                if ci.is_initialized() {
                    out.push(ci);
                }
                proof {
                    assert(ef.take(i + 1 as int) =~= ef.take(i as int).push(ef[i as int]));
                    lemma_expand_fold_snoc(ef.take(i as int), ef[i as int], body);
                    assert(out@ =~= prev + (if ci.spec_is_initialized() {
                        seq![ci]
                    } else {
                        Seq::<CalendarInterval>::empty()
                    }));
                }
            },
            Err(e) => {
                proof {
                    assert(body(ef[i as int]) == Err::<Seq<CalendarInterval>, Error>(e));
                    lemma_expand_fold_fault(ef, i as int, body, e);
                }
                return Err(e);
            },
        }
        i = i + 1;
    }
    proof {
        assert(ef.take(n as int) =~= ef);
    }
    Ok(out)
}

/// The hour loop of the expansion.
fn expand_hour_level(s: &CronSchedule, mo: u32, wd: u32, d: u32) -> (r: Result<
    Vec<CalendarInterval>,
    Error,
>)
    ensures
        (match expand_fold(eff(s.deep_view().hours), hour_body(s.deep_view(), mo, wd, d)) {
            Ok(sq) => r matches Ok(v) && v@ == sq,
            Err(e) => r == Err::<Vec<CalendarInterval>, Error>(e),
        }),
{
    let ghost ef = eff(s.deep_view().hours);
    let ghost body = hour_body(s.deep_view(), mo, wd, d);
    proof {
        lemma_eff_index(s.deep_view().hours);
    }
    let n = eff_len(&s.hours);
    let mut out: Vec<CalendarInterval> = Vec::new();
    proof {
        assert(ef.take(0) =~= Seq::<u32>::empty());
    }
    let mut i: usize = 0;
    while i < n
        invariant
            i <= n,
            n == ef.len(),
            n <= s.hours.values@.len(),
            ef == eff(s.deep_view().hours),
            body == hour_body(s.deep_view(), mo, wd, d),
            forall|j: int| 0 <= j < ef.len() ==> ef[j] == s.hours.values@[j],
            expand_fold(ef.take(i as int), body) == Ok::<Seq<CalendarInterval>, Error>(out@),
        decreases n - i,
    {
        let ghost prev = out@;
        let h = s.hours.values[i];
        match expand_minute_level(s, mo, wd, d, h) {
            Ok(mut sub) => {
                let ghost subv = sub@;
                out.append(&mut sub);
                proof {
                    assert(ef.take(i + 1 as int) =~= ef.take(i as int).push(ef[i as int]));
                    lemma_expand_fold_snoc(ef.take(i as int), ef[i as int], body);
                    assert(body(ef[i as int]) == Ok::<Seq<CalendarInterval>, Error>(subv));
                    assert(out@ == prev + subv);
                }
            },
            Err(e) => {
                proof {
                    assert(body(ef[i as int]) == Err::<Seq<CalendarInterval>, Error>(e));
                    lemma_expand_fold_fault(ef, i as int, body, e);
                }
                return Err(e);
            },
        }
        i = i + 1;
    }
    proof {
        assert(ef.take(n as int) =~= ef);
    }
    Ok(out)
}

/// The day-of-month loop of the expansion.
fn expand_day_level(s: &CronSchedule, mo: u32, wd: u32) -> (r: Result<Vec<CalendarInterval>, Error>)
    ensures
        (match expand_fold(eff(s.deep_view().days_of_month), day_body(s.deep_view(), mo, wd)) {
            Ok(sq) => r matches Ok(v) && v@ == sq,
            Err(e) => r == Err::<Vec<CalendarInterval>, Error>(e),
        }),
{
    let ghost ef = eff(s.deep_view().days_of_month);
    let ghost body = day_body(s.deep_view(), mo, wd);
    proof {
        lemma_eff_index(s.deep_view().days_of_month);
    }
    let n = eff_len(&s.days_of_month);
    let mut out: Vec<CalendarInterval> = Vec::new();
    proof {
        assert(ef.take(0) =~= Seq::<u32>::empty());
    }
    let mut i: usize = 0;
    while i < n
        invariant
            i <= n,
            n == ef.len(),
            n <= s.days_of_month.values@.len(),
            ef == eff(s.deep_view().days_of_month),
            body == day_body(s.deep_view(), mo, wd),
            forall|j: int| 0 <= j < ef.len() ==> ef[j] == s.days_of_month.values@[j],
            expand_fold(ef.take(i as int), body) == Ok::<Seq<CalendarInterval>, Error>(out@),
        decreases n - i,
    {
        let ghost prev = out@;
        let d = s.days_of_month.values[i];
        match expand_hour_level(s, mo, wd, d) {
            Ok(mut sub) => {
                let ghost subv = sub@;
                out.append(&mut sub);
                proof {
                    assert(ef.take(i + 1 as int) =~= ef.take(i as int).push(ef[i as int]));
                    lemma_expand_fold_snoc(ef.take(i as int), ef[i as int], body);
                    assert(body(ef[i as int]) == Ok::<Seq<CalendarInterval>, Error>(subv));
                    assert(out@ == prev + subv);
                }
            },
            Err(e) => {
                proof {
                    assert(body(ef[i as int]) == Err::<Seq<CalendarInterval>, Error>(e));
                    lemma_expand_fold_fault(ef, i as int, body, e);
                }
                return Err(e);
            },
        }
        i = i + 1;
    }
    proof {
        assert(ef.take(n as int) =~= ef);
    }
    Ok(out)
}

/// The weekday loop of the expansion.
fn expand_weekday_level(s: &CronSchedule, mo: u32) -> (r: Result<Vec<CalendarInterval>, Error>)
    ensures
        (match expand_fold(eff(s.deep_view().days_of_week), weekday_body(s.deep_view(), mo)) {
            Ok(sq) => r matches Ok(v) && v@ == sq,
            Err(e) => r == Err::<Vec<CalendarInterval>, Error>(e),
        }),
{
    let ghost ef = eff(s.deep_view().days_of_week);
    let ghost body = weekday_body(s.deep_view(), mo);
    proof {
        lemma_eff_index(s.deep_view().days_of_week);
    }
    let n = eff_len(&s.days_of_week);
    let mut out: Vec<CalendarInterval> = Vec::new();
    proof {
        assert(ef.take(0) =~= Seq::<u32>::empty());
    }
    let mut i: usize = 0;
    while i < n
        invariant
            i <= n,
            n == ef.len(),
            n <= s.days_of_week.values@.len(),
            ef == eff(s.deep_view().days_of_week),
            body == weekday_body(s.deep_view(), mo),
            forall|j: int| 0 <= j < ef.len() ==> ef[j] == s.days_of_week.values@[j],
            expand_fold(ef.take(i as int), body) == Ok::<Seq<CalendarInterval>, Error>(out@),
        decreases n - i,
    {
        let ghost prev = out@;
        let wd = s.days_of_week.values[i];
        match expand_day_level(s, mo, wd) {
            Ok(mut sub) => {
                let ghost subv = sub@;
                out.append(&mut sub);
                proof {
                    assert(ef.take(i + 1 as int) =~= ef.take(i as int).push(ef[i as int]));
                    lemma_expand_fold_snoc(ef.take(i as int), ef[i as int], body);
                    assert(body(ef[i as int]) == Ok::<Seq<CalendarInterval>, Error>(subv));
                    assert(out@ == prev + subv);
                }
            },
            Err(e) => {
                proof {
                    assert(body(ef[i as int]) == Err::<Seq<CalendarInterval>, Error>(e));
                    lemma_expand_fold_fault(ef, i as int, body, e);
                }
                return Err(e);
            },
        }
        i = i + 1;
    }
    proof {
        assert(ef.take(n as int) =~= ef);
    }
    Ok(out)
}

impl CalendarInterval {
    /// Expands a five-unit cron schedule into the disjunctive list of
    /// calendar intervals it denotes: one interval per combination of
    /// explicit candidates, with months iterated outermost, then
    /// weekdays, days of month, hours, and minutes innermost; a wildcard
    /// level is left after its first pass, and a combination that sets no
    /// field at all is discarded.
    pub fn from_cron_units(schedule: &CronSchedule) -> (r: Result<Vec<CalendarInterval>, Error>)
        ensures
            (match CronSchedule::spec_expand(schedule.deep_view()) {
                Ok(sq) => r matches Ok(v) && v@ == sq,
                Err(e) => r == Err::<Vec<CalendarInterval>, Error>(e),
            }),
    {
        let ghost ef = eff(schedule.deep_view().months);
        let ghost body = month_body(schedule.deep_view());
        proof {
            lemma_eff_index(schedule.deep_view().months);
        }
        let n = eff_len(&schedule.months);
        let mut out: Vec<CalendarInterval> = Vec::new();
        proof {
            assert(ef.take(0) =~= Seq::<u32>::empty());
        }
        let mut i: usize = 0;
        while i < n
            invariant
                i <= n,
                n == ef.len(),
                n <= schedule.months.values@.len(),
                ef == eff(schedule.deep_view().months),
                body == month_body(schedule.deep_view()),
                forall|j: int| 0 <= j < ef.len() ==> ef[j] == schedule.months.values@[j],
                expand_fold(ef.take(i as int), body) == Ok::<Seq<CalendarInterval>, Error>(out@),
            decreases n - i,
        {
            let ghost prev = out@;
            let mo = schedule.months.values[i];
            match expand_weekday_level(schedule, mo) {
                Ok(mut sub) => {
                    let ghost subv = sub@;
                    out.append(&mut sub);
                    proof {
                        assert(ef.take(i + 1 as int) =~= ef.take(i as int).push(ef[i as int]));
                        lemma_expand_fold_snoc(ef.take(i as int), ef[i as int], body);
                        assert(body(ef[i as int]) == Ok::<Seq<CalendarInterval>, Error>(subv));
                        assert(out@ == prev + subv);
                    }
                },
                Err(e) => {
                    proof {
                        assert(body(ef[i as int]) == Err::<Seq<CalendarInterval>, Error>(e));
                        lemma_expand_fold_fault(ef, i as int, body, e);
                    }
                    return Err(e);
                },
            }
            i = i + 1;
        }
        proof {
            assert(ef.take(n as int) =~= ef);
        }
        Ok(out)
    }
}

/// Every candidate of a unit lies in the given inclusive range.
pub open spec fn all_within(vals: Seq<u32>, lo: u32, hi: u32) -> bool {
    forall|i: int| 0 <= i < vals.len() ==> lo <= #[trigger] vals[i] <= hi
}

/// Every unit's candidates lie within that unit's own inclusive bounds,
/// as a schedule parsed from a cron expression guarantees.
pub open spec fn spec_bounded(s: CronScheduleView) -> bool {
    &&& all_within(s.minutes.values, 0, 59)
    &&& all_within(s.hours.values, 0, 23)
    &&& all_within(s.days_of_month.values, 1, 31)
    &&& all_within(s.days_of_week.values, 1, 7)
    &&& all_within(s.months.values, 1, 12)
}

/// Every unit holds at least one candidate, as a schedule parsed from a
/// cron expression guarantees.
pub open spec fn spec_units_nonempty(s: CronScheduleView) -> bool {
    &&& s.minutes.values.len() >= 1
    &&& s.hours.values.len() >= 1
    &&& s.days_of_month.values.len() >= 1
    &&& s.days_of_week.values.len() >= 1
    &&& s.months.values.len() >= 1
}

/// A fold over at most one candidate whose expansion is empty is empty.
proof fn lemma_expand_fold_unit_empty(
    vals: Seq<u32>,
    f: spec_fn(u32) -> Result<Seq<CalendarInterval>, Error>,
)
    requires
        vals.len() <= 1,
        vals.len() == 1 ==> f(vals[0]) == Ok::<Seq<CalendarInterval>, Error>(Seq::empty()),
    ensures
        expand_fold(vals, f) == Ok::<Seq<CalendarInterval>, Error>(Seq::<
            CalendarInterval,
        >::empty()),
{
    if vals.len() == 1 {
        assert(vals.drop_last() =~= Seq::<u32>::empty());
        assert(expand_fold(vals.drop_last(), f) == Ok::<Seq<CalendarInterval>, Error>(Seq::<
            CalendarInterval,
        >::empty()));
        assert(vals.last() == vals[0]);
        assert(Seq::<CalendarInterval>::empty() + Seq::<CalendarInterval>::empty() =~= Seq::<
            CalendarInterval,
        >::empty());
    }
}

/// A fold over exactly one candidate yields that candidate's expansion.
proof fn lemma_expand_fold_single(
    vals: Seq<u32>,
    f: spec_fn(u32) -> Result<Seq<CalendarInterval>, Error>,
    res: Seq<CalendarInterval>,
)
    requires
        vals.len() == 1,
        f(vals[0]) == Ok::<Seq<CalendarInterval>, Error>(res),
    ensures
        expand_fold(vals, f) == Ok::<Seq<CalendarInterval>, Error>(res),
{
    assert(vals.drop_last() =~= Seq::<u32>::empty());
    assert(expand_fold(vals.drop_last(), f) == Ok::<Seq<CalendarInterval>, Error>(Seq::<
        CalendarInterval,
    >::empty()));
    assert(vals.last() == vals[0]);
    assert(Seq::<CalendarInterval>::empty() + res =~= res);
}

/// With every unit wildcard, each minute pass contributes nothing.
proof fn lemma_wild_minute(s: CronScheduleView, mo: u32, wd: u32, d: u32, h: u32)
    requires
        s.minutes.wildcard,
        s.hours.wildcard,
        s.days_of_month.wildcard,
        s.days_of_week.wildcard,
        s.months.wildcard,
    ensures
        hour_body(s, mo, wd, d)(h) == Ok::<Seq<CalendarInterval>, Error>(Seq::<
            CalendarInterval,
        >::empty()),
{
    let ef = eff(s.minutes);
    if ef.len() == 1 {
        assert(minute_body(s, mo, wd, d, h)(ef[0]) == Ok::<Seq<CalendarInterval>, Error>(Seq::<
            CalendarInterval,
        >::empty()));
    }
    lemma_expand_fold_unit_empty(ef, minute_body(s, mo, wd, d, h));
}

/// With every unit wildcard, each hour pass contributes nothing.
proof fn lemma_wild_hour(s: CronScheduleView, mo: u32, wd: u32, d: u32)
    requires
        s.minutes.wildcard,
        s.hours.wildcard,
        s.days_of_month.wildcard,
        s.days_of_week.wildcard,
        s.months.wildcard,
    ensures
        day_body(s, mo, wd)(d) == Ok::<Seq<CalendarInterval>, Error>(Seq::<
            CalendarInterval,
        >::empty()),
{
    let ef = eff(s.hours);
    if ef.len() == 1 {
        lemma_wild_minute(s, mo, wd, d, ef[0]);
    }
    lemma_expand_fold_unit_empty(ef, hour_body(s, mo, wd, d));
}

/// With every unit wildcard, each day pass contributes nothing.
proof fn lemma_wild_day(s: CronScheduleView, mo: u32, wd: u32)
    requires
        s.minutes.wildcard,
        s.hours.wildcard,
        s.days_of_month.wildcard,
        s.days_of_week.wildcard,
        s.months.wildcard,
    ensures
        weekday_body(s, mo)(wd) == Ok::<Seq<CalendarInterval>, Error>(Seq::<
            CalendarInterval,
        >::empty()),
{
    let ef = eff(s.days_of_month);
    if ef.len() == 1 {
        lemma_wild_hour(s, mo, wd, ef[0]);
    }
    lemma_expand_fold_unit_empty(ef, day_body(s, mo, wd));
}

/// With every unit wildcard, each weekday pass contributes nothing.
proof fn lemma_wild_weekday(s: CronScheduleView, mo: u32)
    requires
        s.minutes.wildcard,
        s.hours.wildcard,
        s.days_of_month.wildcard,
        s.days_of_week.wildcard,
        s.months.wildcard,
    ensures
        month_body(s)(mo) == Ok::<Seq<CalendarInterval>, Error>(Seq::<CalendarInterval>::empty()),
{
    let ef = eff(s.days_of_week);
    if ef.len() == 1 {
        lemma_wild_day(s, mo, ef[0]);
    }
    lemma_expand_fold_unit_empty(ef, weekday_body(s, mo));
}

/// Law: a schedule whose five units are all wildcard expands to the empty
/// list, whatever candidates the units carry.
pub proof fn lemma_expand_all_wildcard(s: CronScheduleView)
    requires
        s.minutes.wildcard,
        s.hours.wildcard,
        s.days_of_month.wildcard,
        s.days_of_week.wildcard,
        s.months.wildcard,
    ensures
        CronSchedule::spec_expand(s) == Ok::<Seq<CalendarInterval>, Error>(Seq::<
            CalendarInterval,
        >::empty()),
{
    let ef = eff(s.months);
    if ef.len() == 1 {
        lemma_wild_weekday(s, ef[0]);
    }
    lemma_expand_fold_unit_empty(ef, month_body(s));
}

/// Law: a schedule whose minute unit is the explicit set `{v}` (with
/// `v` a valid minute) and whose other four units are wildcard with at
/// least one candidate each expands to exactly one interval, with only
/// the minute set.
pub proof fn lemma_expand_single_minute(s: CronScheduleView, v: u32)
    requires
        !s.minutes.wildcard,
        s.minutes.values =~= seq![v],
        v <= 59,
        s.hours.wildcard,
        s.hours.values.len() >= 1,
        s.days_of_month.wildcard,
        s.days_of_month.values.len() >= 1,
        s.days_of_week.wildcard,
        s.days_of_week.values.len() >= 1,
        s.months.wildcard,
        s.months.values.len() >= 1,
    ensures
        CronSchedule::spec_expand(s) == Ok::<Seq<CalendarInterval>, Error>(
            seq![CalendarInterval::empty().minute_set(v as u8)],
        ),
{
    let ci = CalendarInterval::empty().minute_set(v as u8);
    let one = seq![ci];
    let efm = eff(s.minutes);
    assert(efm =~= seq![v]);
    let efh = eff(s.hours);
    assert(efh.len() == 1);
    let efd = eff(s.days_of_month);
    assert(efd.len() == 1);
    let efw = eff(s.days_of_week);
    assert(efw.len() == 1);
    let efmo = eff(s.months);
    assert(efmo.len() == 1);
    let mo = efmo[0];
    let wd = efw[0];
    let d = efd[0];
    let h = efh[0];
    assert(spec_combo(s, mo, wd, d, h, v) == Ok::<CalendarInterval, Error>(ci));
    assert(minute_body(s, mo, wd, d, h)(v) == Ok::<Seq<CalendarInterval>, Error>(one));
    lemma_expand_fold_single(efm, minute_body(s, mo, wd, d, h), one);
    assert(hour_body(s, mo, wd, d)(h) == Ok::<Seq<CalendarInterval>, Error>(one));
    lemma_expand_fold_single(efh, hour_body(s, mo, wd, d), one);
    assert(day_body(s, mo, wd)(d) == Ok::<Seq<CalendarInterval>, Error>(one));
    lemma_expand_fold_single(efd, day_body(s, mo, wd), one);
    assert(weekday_body(s, mo)(wd) == Ok::<Seq<CalendarInterval>, Error>(one));
    lemma_expand_fold_single(efw, weekday_body(s, mo), one);
    assert(month_body(s)(mo) == Ok::<Seq<CalendarInterval>, Error>(one));
    lemma_expand_fold_single(efmo, month_body(s), one);
}

/// With in-bounds candidates, every minute pass succeeds.
proof fn lemma_ok_minute(s: CronScheduleView, mo: u32, wd: u32, d: u32, h: u32)
    requires
        spec_bounded(s),
        !s.months.wildcard ==> 1 <= mo <= 12,
        !s.days_of_week.wildcard ==> wd <= 7,
        !s.days_of_month.wildcard ==> 1 <= d <= 31,
        !s.hours.wildcard ==> h <= 23,
    ensures
        hour_body(s, mo, wd, d)(h) is Ok,
{
    let ef = eff(s.minutes);
    lemma_eff_index(s.minutes);
    assert forall|j: int| 0 <= j < ef.len() implies minute_body(s, mo, wd, d, h)(
        #[trigger] ef[j],
    ) is Ok by {
        assert(ef[j] == s.minutes.values[j]);
        assert(0 <= s.minutes.values[j] <= 59);
    }
    lemma_expand_fold_ok(ef, minute_body(s, mo, wd, d, h));
}

/// With in-bounds candidates, every hour pass succeeds.
proof fn lemma_ok_hour(s: CronScheduleView, mo: u32, wd: u32, d: u32)
    requires
        spec_bounded(s),
        !s.months.wildcard ==> 1 <= mo <= 12,
        !s.days_of_week.wildcard ==> wd <= 7,
        !s.days_of_month.wildcard ==> 1 <= d <= 31,
    ensures
        day_body(s, mo, wd)(d) is Ok,
{
    let ef = eff(s.hours);
    lemma_eff_index(s.hours);
    assert forall|j: int| 0 <= j < ef.len() implies hour_body(s, mo, wd, d)(
        #[trigger] ef[j],
    ) is Ok by {
        assert(ef[j] == s.hours.values[j]);
        assert(0 <= s.hours.values[j] <= 23);
        lemma_ok_minute(s, mo, wd, d, ef[j]);
    }
    lemma_expand_fold_ok(ef, hour_body(s, mo, wd, d));
}

/// With in-bounds candidates, every day pass succeeds.
proof fn lemma_ok_day(s: CronScheduleView, mo: u32, wd: u32)
    requires
        spec_bounded(s),
        !s.months.wildcard ==> 1 <= mo <= 12,
        !s.days_of_week.wildcard ==> wd <= 7,
    ensures
        weekday_body(s, mo)(wd) is Ok,
{
    let ef = eff(s.days_of_month);
    lemma_eff_index(s.days_of_month);
    assert forall|j: int| 0 <= j < ef.len() implies day_body(s, mo, wd)(#[trigger] ef[j]) is Ok by {
        assert(ef[j] == s.days_of_month.values[j]);
        assert(1 <= s.days_of_month.values[j] <= 31);
        lemma_ok_hour(s, mo, wd, ef[j]);
    }
    lemma_expand_fold_ok(ef, day_body(s, mo, wd));
}

/// With in-bounds candidates, every weekday pass succeeds.
proof fn lemma_ok_weekday(s: CronScheduleView, mo: u32)
    requires
        spec_bounded(s),
        !s.months.wildcard ==> 1 <= mo <= 12,
    ensures
        month_body(s)(mo) is Ok,
{
    let ef = eff(s.days_of_week);
    lemma_eff_index(s.days_of_week);
    assert forall|j: int| 0 <= j < ef.len() implies weekday_body(s, mo)(
        #[trigger] ef[j],
    ) is Ok by {
        assert(ef[j] == s.days_of_week.values[j]);
        assert(1 <= s.days_of_week.values[j] <= 7);
        lemma_ok_day(s, mo, ef[j]);
    }
    lemma_expand_fold_ok(ef, weekday_body(s, mo));
}

/// Law: a schedule whose candidates all lie within their units' bounds
/// (as every schedule parsed from a cron expression does) expands without
/// error.
pub proof fn lemma_expand_bounded_ok(s: CronScheduleView)
    requires
        spec_bounded(s),
    ensures
        CronSchedule::spec_expand(s) is Ok,
{
    let ef = eff(s.months);
    lemma_eff_index(s.months);
    assert forall|j: int| 0 <= j < ef.len() implies month_body(s)(#[trigger] ef[j]) is Ok by {
        assert(ef[j] == s.months.values[j]);
        assert(1 <= s.months.values[j] <= 12);
        lemma_ok_weekday(s, ef[j]);
    }
    lemma_expand_fold_ok(ef, month_body(s));
}

/// If every candidate of a level expands to the same number of
/// intervals, the level multiplies that number by its candidate count.
pub proof fn lemma_expand_fold_len(
    vals: Seq<u32>,
    f: spec_fn(u32) -> Result<Seq<CalendarInterval>, Error>,
    n: nat,
)
    requires
        forall|i: int|
            0 <= i < vals.len() ==> (f(#[trigger] vals[i]) matches Ok(sq) && sq.len() == n),
    ensures
        expand_fold(vals, f) matches Ok(sq) && sq.len() == vals.len() * n,
    decreases vals.len(),
{
    if vals.len() == 0 {
    } else {
        assert forall|i: int| 0 <= i < vals.drop_last().len() implies f(
            #[trigger] vals.drop_last()[i],
        ) matches Ok(sq) && sq.len() == n by {
            assert(vals.drop_last()[i] == vals[i]);
        }
        lemma_expand_fold_len(vals.drop_last(), f, n);
        assert(vals.last() == vals[vals.len() - 1]);
        assert((vals.len() - 1) * n + n == vals.len() * n) by (nonlinear_arith);
    }
}

/// How many intervals one nesting level contributes per pass of the
/// levels above it: the size of an explicit candidate set, one for a
/// wildcard unit.
pub open spec fn unit_factor(u: CronUnitView) -> nat {
    if u.wildcard {
        1
    } else {
        u.values.len()
    }
}

/// Whether at least one of the five units is explicit.
pub open spec fn some_explicit(s: CronScheduleView) -> bool {
    ||| !s.minutes.wildcard
    ||| !s.hours.wildcard
    ||| !s.days_of_month.wildcard
    ||| !s.days_of_week.wildcard
    ||| !s.months.wildcard
}

/// With in-bounds, nonempty units, each minute pass yields one interval
/// per minute candidate when any unit is explicit, none otherwise.
proof fn lemma_len_minute(s: CronScheduleView, mo: u32, wd: u32, d: u32, h: u32)
    requires
        spec_bounded(s),
        spec_units_nonempty(s),
        !s.months.wildcard ==> 1 <= mo <= 12,
        !s.days_of_week.wildcard ==> wd <= 7,
        !s.days_of_month.wildcard ==> 1 <= d <= 31,
        !s.hours.wildcard ==> h <= 23,
    ensures
        hour_body(s, mo, wd, d)(h) matches Ok(sq) && sq.len() == eff(s.minutes).len() * (
        if some_explicit(s) {
            1nat
        } else {
            0nat
        }),
{
    let ef = eff(s.minutes);
    lemma_eff_index(s.minutes);
    let n: nat = if some_explicit(s) {
        1nat
    } else {
        0nat
    };
    assert forall|i: int| 0 <= i < ef.len() implies (minute_body(s, mo, wd, d, h)(
        #[trigger] ef[i],
    ) matches Ok(sq) && sq.len() == n) by {
        assert(ef[i] == s.minutes.values[i]);
        assert(0 <= s.minutes.values[i] <= 59);
    }
    lemma_expand_fold_len(ef, minute_body(s, mo, wd, d, h), n);
}

/// With in-bounds, nonempty units, each hour pass multiplies the minute
/// count by its candidate count.
proof fn lemma_len_hour(s: CronScheduleView, mo: u32, wd: u32, d: u32)
    requires
        spec_bounded(s),
        spec_units_nonempty(s),
        !s.months.wildcard ==> 1 <= mo <= 12,
        !s.days_of_week.wildcard ==> wd <= 7,
        !s.days_of_month.wildcard ==> 1 <= d <= 31,
    ensures
        day_body(s, mo, wd)(d) matches Ok(sq) && sq.len() == eff(s.hours).len() * (eff(
            s.minutes,
        ).len() * (
        if some_explicit(s) {
            1nat
        } else {
            0nat
        })),
{
    let ef = eff(s.hours);
    lemma_eff_index(s.hours);
    let n: nat = eff(s.minutes).len() * (
    if some_explicit(s) {
        1nat
    } else {
        0nat
    });
    assert forall|i: int| 0 <= i < ef.len() implies (hour_body(s, mo, wd, d)(
        #[trigger] ef[i],
    ) matches Ok(sq) && sq.len() == n) by {
        assert(ef[i] == s.hours.values[i]);
        assert(0 <= s.hours.values[i] <= 23);
        lemma_len_minute(s, mo, wd, d, ef[i]);
    }
    lemma_expand_fold_len(ef, hour_body(s, mo, wd, d), n);
}

/// With in-bounds, nonempty units, each day pass multiplies the counts
/// below it by its candidate count.
proof fn lemma_len_day(s: CronScheduleView, mo: u32, wd: u32)
    requires
        spec_bounded(s),
        spec_units_nonempty(s),
        !s.months.wildcard ==> 1 <= mo <= 12,
        !s.days_of_week.wildcard ==> wd <= 7,
    ensures
        weekday_body(s, mo)(wd) matches Ok(sq) && sq.len() == eff(s.days_of_month).len() * (eff(
            s.hours,
        ).len() * (eff(s.minutes).len() * (
        if some_explicit(s) {
            1nat
        } else {
            0nat
        }))),
{
    let ef = eff(s.days_of_month);
    lemma_eff_index(s.days_of_month);
    let n: nat = eff(s.hours).len() * (eff(s.minutes).len() * (
    if some_explicit(s) {
        1nat
    } else {
        0nat
    }));
    assert forall|i: int| 0 <= i < ef.len() implies (day_body(s, mo, wd)(
        #[trigger] ef[i],
    ) matches Ok(sq) && sq.len() == n) by {
        assert(ef[i] == s.days_of_month.values[i]);
        assert(1 <= s.days_of_month.values[i] <= 31);
        lemma_len_hour(s, mo, wd, ef[i]);
    }
    lemma_expand_fold_len(ef, day_body(s, mo, wd), n);
}

/// With in-bounds, nonempty units, each weekday pass multiplies the
/// counts below it by its candidate count.
proof fn lemma_len_weekday(s: CronScheduleView, mo: u32)
    requires
        spec_bounded(s),
        spec_units_nonempty(s),
        !s.months.wildcard ==> 1 <= mo <= 12,
    ensures
        month_body(s)(mo) matches Ok(sq) && sq.len() == eff(s.days_of_week).len() * (eff(
            s.days_of_month,
        ).len() * (eff(s.hours).len() * (eff(s.minutes).len() * (
        if some_explicit(s) {
            1nat
        } else {
            0nat
        })))),
{
    let ef = eff(s.days_of_week);
    lemma_eff_index(s.days_of_week);
    let n: nat = eff(s.days_of_month).len() * (eff(s.hours).len() * (eff(s.minutes).len() * (
    if some_explicit(s) {
        1nat
    } else {
        0nat
    })));
    assert forall|i: int| 0 <= i < ef.len() implies (weekday_body(s, mo)(
        #[trigger] ef[i],
    ) matches Ok(sq) && sq.len() == n) by {
        assert(ef[i] == s.days_of_week.values[i]);
        assert(1 <= s.days_of_week.values[i] <= 7);
        lemma_len_day(s, mo, ef[i]);
    }
    lemma_expand_fold_len(ef, weekday_body(s, mo), n);
}

/// Law: with every candidate in bounds and every unit nonempty (as a
/// parsed schedule guarantees), the expansion succeeds and yields exactly
/// one interval per combination of explicit candidates: its length is the
/// product of the explicit units' sizes, and zero when all five units
/// are wildcard.
pub proof fn lemma_expand_count(s: CronScheduleView)
    requires
        spec_bounded(s),
        spec_units_nonempty(s),
    ensures
        CronSchedule::spec_expand(s) matches Ok(sq) && sq.len() == (
        if some_explicit(s) {
            unit_factor(s.months) * (unit_factor(s.days_of_week) * (unit_factor(
                s.days_of_month,
            ) * (unit_factor(s.hours) * unit_factor(s.minutes))))
        } else {
            0nat
        }),
{
    let ef = eff(s.months);
    lemma_eff_index(s.months);
    let n: nat = eff(s.days_of_week).len() * (eff(s.days_of_month).len() * (eff(s.hours).len()
        * (eff(s.minutes).len() * (
    if some_explicit(s) {
        1nat
    } else {
        0nat
    }))));
    assert forall|i: int| 0 <= i < ef.len() implies (month_body(s)(#[trigger] ef[i]) matches Ok(
        sq,
    ) && sq.len() == n) by {
        assert(ef[i] == s.months.values[i]);
        assert(1 <= s.months.values[i] <= 12);
        lemma_len_weekday(s, ef[i]);
    }
    lemma_expand_fold_len(ef, month_body(s), n);
    assert(eff(s.minutes).len() == unit_factor(s.minutes));
    assert(eff(s.hours).len() == unit_factor(s.hours));
    assert(eff(s.days_of_month).len() == unit_factor(s.days_of_month));
    assert(eff(s.days_of_week).len() == unit_factor(s.days_of_week));
    assert(eff(s.months).len() == unit_factor(s.months));
    if some_explicit(s) {
        assert(ef.len() * n == unit_factor(s.months) * (unit_factor(s.days_of_week) * (
        unit_factor(s.days_of_month) * (unit_factor(s.hours) * (unit_factor(s.minutes)
            * 1nat))))) by (nonlinear_arith)
            requires
                ef.len() == unit_factor(s.months),
                n == unit_factor(s.days_of_week) * (unit_factor(s.days_of_month) * (unit_factor(
                    s.hours,
                ) * (unit_factor(s.minutes) * 1nat))),
        ;
        assert(unit_factor(s.hours) * (unit_factor(s.minutes) * 1nat) == unit_factor(s.hours)
            * unit_factor(s.minutes)) by (nonlinear_arith);
    } else {
        assert(ef.len() * n == 0) by (nonlinear_arith)
            requires
                n == 0,
        ;
    }
}

/// The cron parser's schedule type, carried through opaquely.
#[verifier::external_type_specification]
#[verifier::external_body]
pub struct ExSchedule(cron::Schedule);

/// The five unit sets a parsed schedule holds: for each unit, whether it
/// is the wildcard, and its candidate ordinals in iteration order.
pub uninterp spec fn schedule_units(s: cron::Schedule) -> CronScheduleView;

/// Relies on cron::Schedule::{minutes, hours, days_of_month, days_of_week,
/// months} and cron::TimeUnitSpec::{is_all, iter}: each unit iterates the
/// ordinals of its set in ascending order; the parser keeps every ordinal
/// within its unit's inclusive bounds (minutes 0 to 59, hours 0 to 23, days
/// of month 1 to 31, days of week 1 to 7, months 1 to 12) and gives every
/// unit at least one ordinal (a field is one or more specifiers, each
/// denoting at least one ordinal, and a wildcard unit holds its full
/// range); and is_all reports whether the set holds every ordinal of the
/// unit.
#[verifier::external_body]
fn extract_units(s: &cron::Schedule) -> (r: CronSchedule)
    ensures
        r.deep_view() == schedule_units(*s),
        spec_bounded(r.deep_view()),
        spec_units_nonempty(r.deep_view()),
{
    CronSchedule {
        minutes: CronUnit { wildcard: s.minutes().is_all(), values: s.minutes().iter().collect() },
        hours: CronUnit { wildcard: s.hours().is_all(), values: s.hours().iter().collect() },
        days_of_month: CronUnit {
            wildcard: s.days_of_month().is_all(),
            values: s.days_of_month().iter().collect(),
        },
        days_of_week: CronUnit {
            wildcard: s.days_of_week().is_all(),
            values: s.days_of_week().iter().collect(),
        },
        months: CronUnit { wildcard: s.months().is_all(), values: s.months().iter().collect() },
    }
}

impl CalendarInterval {
    /// Expands a parsed cron schedule into calendar intervals. A schedule
    /// from the cron parser always has in-bounds candidates, so the
    /// expansion cannot fail.
    pub fn from_cron_schedule(schedule: cron::Schedule) -> (r: Result<Vec<CalendarInterval>, Error>)
        ensures
            CronSchedule::spec_expand(schedule_units(schedule)) is Ok,
            r matches Ok(v) && v@ == CronSchedule::spec_expand(schedule_units(schedule))->Ok_0,
    {
        let units = extract_units(&schedule);
        proof {
            lemma_expand_bounded_ok(units.deep_view());
        }
        Self::from_cron_units(&units)
    }
}

/// A fresh interval is not initialized; after any single successful setter
/// call it is.
pub proof fn lemma_initialized_after_any_setter(ci: CalendarInterval, v: u8)
    ensures
        !CalendarInterval::empty().spec_is_initialized(),
        ci.minute_set(v).spec_is_initialized(),
        ci.hour_set(v).spec_is_initialized(),
        ci.day_set(v).spec_is_initialized(),
        ci.weekday_set(v).spec_is_initialized(),
        ci.month_set(v).spec_is_initialized(),
{
}

} // verus!
