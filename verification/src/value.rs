//! The property-list document model: an executable tree of plain values,
//! its ghost mirror, and the codec interface every descriptor type
//! implements to move between itself and a document tree.

use vstd::prelude::*;

use crate::error::Error;

verus! {

/// The ghost mirror of a document tree, used by every specification.
pub enum SpecValue {
    Boolean(bool),
    Integer(int),
    Text(Seq<char>),
    Data(Seq<u8>),
    Array(Seq<SpecValue>),
    Dictionary(Seq<(Seq<char>, SpecValue)>),
    Other,
}

/// One node of a property-list document tree, holding only plain values.
///
/// Reals, dates and uids have no place in the descriptor schema; a document
/// node of such a shape is carried through reading as [`PlistValue::Other`],
/// and refused when writing.
#[derive(Debug, PartialEq)]
pub enum PlistValue {
    Boolean(bool),
    /// Any integer a property list can carry lies in
    /// `i64::MIN ..= u64::MAX`; values outside that range can be built here
    /// but cannot be written to a document.
    Integer(i128),
    Text(String),
    Data(Vec<u8>),
    Array(Vec<PlistValue>),
    Dictionary(Vec<(String, PlistValue)>),
    Other,
}

/// The ghost mirror of a sequence of document nodes.
pub open spec fn view_seq(s: Seq<PlistValue>) -> Seq<SpecValue>
    decreases s,
{
    if s.len() == 0 {
        Seq::empty()
    } else {
        proof {
            vstd::seq::axiom_seq_index_decreases(s, s.len() - 1);
            vstd::seq::axiom_seq_subrange_decreases(s, 0, s.len() - 1);
        }
        view_seq(s.drop_last()).push(s.last()@)
    }
}

/// The ghost mirror of a sequence of keyed document nodes.
pub open spec fn view_pairs(s: Seq<(String, PlistValue)>) -> Seq<(Seq<char>, SpecValue)>
    decreases s,
{
    if s.len() == 0 {
        Seq::empty()
    } else {
        proof {
            vstd::seq::axiom_seq_index_decreases(s, s.len() - 1);
            vstd::seq::axiom_seq_subrange_decreases(s, 0, s.len() - 1);
        }
        view_pairs(s.drop_last()).push((s.last().0@, s.last().1@))
    }
}

impl View for PlistValue {
    type V = SpecValue;

    open spec fn view(&self) -> SpecValue
        decreases self,
    {
        match self {
            PlistValue::Boolean(b) => SpecValue::Boolean(*b),
            PlistValue::Integer(i) => SpecValue::Integer(*i as int),
            PlistValue::Text(s) => SpecValue::Text(s@),
            PlistValue::Data(d) => SpecValue::Data(d@),
            PlistValue::Array(items) => SpecValue::Array(view_seq(items@)),
            PlistValue::Dictionary(pairs) => SpecValue::Dictionary(view_pairs(pairs@)),
            PlistValue::Other => SpecValue::Other,
        }
    }
}

impl DeepView for PlistValue {
    type V = SpecValue;

    open spec fn deep_view(&self) -> SpecValue {
        self.view()
    }
}

/// `view_seq` agrees element-wise with the views of the elements.
pub proof fn lemma_view_seq_index(s: Seq<PlistValue>)
    ensures
        view_seq(s).len() == s.len(),
        forall|i: int| 0 <= i < s.len() ==> view_seq(s)[i] == #[trigger] s[i]@,
    decreases s.len(),
{
    if s.len() > 0 {
        lemma_view_seq_index(s.drop_last());
        assert(view_seq(s) == view_seq(s.drop_last()).push(s.last()@));
        assert forall|i: int| 0 <= i < s.len() implies view_seq(s)[i] == #[trigger] s[i]@ by {
            if i < s.len() - 1 {
                assert(view_seq(s)[i] == view_seq(s.drop_last())[i]);
                assert(s.drop_last()[i] == s[i]);
            } else {
                assert(s.last() == s[i]);
            }
        }
    }
}

/// `view_pairs` agrees element-wise with the views of the pairs.
pub proof fn lemma_view_pairs_index(s: Seq<(String, PlistValue)>)
    ensures
        view_pairs(s).len() == s.len(),
        forall|i: int| 0 <= i < s.len() ==> view_pairs(s)[i] == (#[trigger] s[i].0@, s[i].1@),
    decreases s.len(),
{
    if s.len() > 0 {
        lemma_view_pairs_index(s.drop_last());
        assert(view_pairs(s) == view_pairs(s.drop_last()).push((s.last().0@, s.last().1@)));
        assert forall|i: int| 0 <= i < s.len() implies view_pairs(s)[i] == (
        #[trigger] s[i].0@,
        s[i].1@,
        ) by {
            if i < s.len() - 1 {
                assert(view_pairs(s)[i] == view_pairs(s.drop_last())[i]);
                assert(s.drop_last()[i] == s[i]);
            } else {
                assert(s.last() == s[i]);
            }
        }
    }
}

/// Appending one pair appends its mirror.
pub proof fn lemma_view_pairs_push(s: Seq<(String, PlistValue)>, p: (String, PlistValue))
    ensures
        view_pairs(s.push(p)) == view_pairs(s).push((p.0@, p.1@)),
{
    assert(s.push(p).drop_last() =~= s);
    assert(s.push(p).last() == p);
}

/// Appends one keyed document node to the entry list a dictionary is
/// built from.
pub fn push_entry(out: &mut Vec<(String, PlistValue)>, k: &str, val: PlistValue)
    ensures
        view_pairs(final(out)@) == view_pairs(old(out)@).push((k@, val@)),
{
    let ghost s0 = out@;
    let p = (k.to_owned(), val);
    let ghost pv = p;
    out.push(p);
    proof {
        lemma_view_pairs_push(s0, pv);
    }
}

/// Content equality of two string slices.
pub fn str_eq(a: &str, b: &str) -> (r: bool)
    ensures
        r == (a@ == b@),
{
    let sa: String = a.to_owned();
    let sb: String = b.to_owned();
    sa == sb
}

/// An owned copy of a string.
pub fn clone_string(s: &String) -> (r: String)
    ensures
        r == *s,
{
    s.clone()
}

/// An owned copy of a byte vector.
pub fn clone_bytes(v: &Vec<u8>) -> (r: Vec<u8>)
    ensures
        r@ == v@,
{
    let mut out: Vec<u8> = Vec::new();
    let mut i: usize = 0;
    while i < v.len()
        invariant
            i <= v.len(),
            out@ == v@.take(i as int),
        decreases v.len() - i,
    {
        out.push(v[i]);
        proof {
            assert(out@ =~= v@.take(i + 1 as int));
        }
        i = i + 1;
    }
    proof {
        assert(v@.take(v.len() as int) =~= v@);
    }
    out
}

/// An owned copy of a vector of strings.
pub fn clone_strings(v: &Vec<String>) -> (r: Vec<String>)
    ensures
        r.deep_view() == v.deep_view(),
        r@.len() == v@.len(),
{
    let mut out: Vec<String> = Vec::new();
    let mut i: usize = 0;
    while i < v.len()
        invariant
            i <= v.len(),
            out@.len() == i,
            forall|j: int| 0 <= j < i ==> out@[j]@ == #[trigger] v@[j]@,
        decreases v.len() - i,
    {
        out.push(clone_string(&v[i]));
        i = i + 1;
    }
    proof {
        assert(out.deep_view() =~= v.deep_view());
    }
    out
}

impl PlistValue {
    /// A deep copy of a document node, equal to the original in content.
    pub fn duplicate(&self) -> (r: Self)
        ensures
            r@ == self@,
        decreases self,
    {
        match self {
            PlistValue::Boolean(b) => PlistValue::Boolean(*b),
            PlistValue::Integer(i) => PlistValue::Integer(*i),
            PlistValue::Text(s) => PlistValue::Text(clone_string(s)),
            PlistValue::Data(d) => PlistValue::Data(clone_bytes(d)),
            PlistValue::Array(items) => {
                let mut out: Vec<PlistValue> = Vec::new();
                let mut i: usize = 0;
                while i < items.len()
                    invariant
                        i <= items.len(),
                        out@.len() == i,
                        forall|j: int| 0 <= j < i ==> out@[j]@ == #[trigger] items@[j]@,
                        decreases_to!(*self => items@),
                    decreases items.len() - i,
                {
                    proof {
                        vstd::seq::axiom_seq_index_decreases(items@, i as int);
                    }
                    out.push(items[i].duplicate());
                    i = i + 1;
                }
                proof {
                    lemma_view_seq_index(items@);
                    lemma_view_seq_index(out@);
                    assert forall|j: int| 0 <= j < items@.len() implies view_seq(out@)[j]
                        == view_seq(items@)[j] by {
                        assert(view_seq(out@)[j] == out@[j]@);
                        assert(view_seq(items@)[j] == items@[j]@);
                    }
                    assert(view_seq(out@) =~= view_seq(items@));
                }
                PlistValue::Array(out)
            },
            PlistValue::Dictionary(pairs) => {
                let mut out: Vec<(String, PlistValue)> = Vec::new();
                let mut i: usize = 0;
                while i < pairs.len()
                    invariant
                        i <= pairs.len(),
                        out@.len() == i,
                        forall|j: int| 0 <= j < i ==> (#[trigger] out@[j]).0@ == pairs@[j].0@
                            && out@[j].1@ == pairs@[j].1@,
                        decreases_to!(*self => pairs@),
                    decreases pairs.len() - i,
                {
                    proof {
                        vstd::seq::axiom_seq_index_decreases(pairs@, i as int);
                    }
                    let k = clone_string(&pairs[i].0);
                    let val = pairs[i].1.duplicate();
                    out.push((k, val));
                    i = i + 1;
                }
                proof {
                    lemma_view_pairs_index(pairs@);
                    lemma_view_pairs_index(out@);
                    assert forall|j: int| 0 <= j < pairs@.len() implies view_pairs(out@)[j]
                        == view_pairs(pairs@)[j] by {
                        assert(view_pairs(out@)[j] == (out@[j].0@, out@[j].1@));
                        assert(view_pairs(pairs@)[j] == (pairs@[j].0@, pairs@[j].1@));
                    }
                    assert(view_pairs(out@) =~= view_pairs(pairs@));
                }
                PlistValue::Dictionary(out)
            },
            PlistValue::Other => PlistValue::Other,
        }
    }
}

/// The specification-level classification of a decode failure.
pub enum DecodeFault {
    /// The document does not fit the schema; carries a description or the
    /// offending key.
    Schema(Seq<char>),
    /// A string matched no variant of a closed enumeration; carries the
    /// raw string.
    Enumeration(Seq<char>),
}

impl DecodeFault {
    /// Which executable error realizes this fault.
    pub open spec fn reflected_by(self, e: Error) -> bool {
        match self {
            DecodeFault::Schema(t) => e matches Error::Schema(m) && m@ == t,
            DecodeFault::Enumeration(t) => e matches Error::EnumDeserialization(m) && m@ == t,
        }
    }
}

/// The interface between a descriptor type and the document tree: an exact
/// encoding, an exact decoding, and the proof that the two invert each
/// other on well-formed values.
pub trait PlistCodec: DeepView + Sized {
    /// Which abstract values of this type are well formed (for map-like
    /// types: keys are unique).
    spec fn wf_view(v: Self::V) -> bool;

    /// The document tree that encodes an abstract value.
    spec fn spec_encoded(v: Self::V) -> SpecValue;

    /// The decoding of an abstract document tree: the abstract value, or
    /// the first fault found.
    spec fn spec_decoded(v: SpecValue) -> Result<Self::V, DecodeFault>;

    /// Encodes `self` as a document tree.
    fn to_value(&self) -> (r: PlistValue)
        ensures
            r@ == Self::spec_encoded(self.deep_view()),
    ;

    /// Decodes a document tree, returning exactly what `spec_decoded`
    /// prescribes.
    fn from_value(v: &PlistValue) -> (r: Result<Self, Error>)
        ensures
            (match r {
                Ok(t) => Self::spec_decoded(v@) == Ok::<Self::V, DecodeFault>(t.deep_view())
                    && Self::wf_view(t.deep_view()),
                Err(e) => Self::spec_decoded(v@) matches Err(f) && f.reflected_by(e),
            }),
    ;

    /// Law: decoding an encoded well-formed value gives it back.
    proof fn lemma_round_trip(v: Self::V)
        requires
            Self::wf_view(v),
        ensures
            Self::spec_decoded(Self::spec_encoded(v)) == Ok::<Self::V, DecodeFault>(v),
    ;
}

impl PlistCodec for bool {
    open spec fn wf_view(v: bool) -> bool {
        true
    }

    open spec fn spec_encoded(v: bool) -> SpecValue {
        SpecValue::Boolean(v)
    }

    open spec fn spec_decoded(v: SpecValue) -> Result<bool, DecodeFault> {
        match v {
            SpecValue::Boolean(b) => Ok(b),
            _ => Err(DecodeFault::Schema("boolean value expected"@)),
        }
    }

    fn to_value(&self) -> (r: PlistValue) {
        PlistValue::Boolean(*self)
    }

    fn from_value(v: &PlistValue) -> (r: Result<bool, Error>) {
        match v {
            PlistValue::Boolean(b) => Ok(*b),
            _ => Err(Error::Schema("boolean value expected".to_owned())),
        }
    }

    proof fn lemma_round_trip(v: bool) {
    }
}

impl PlistCodec for String {
    open spec fn wf_view(v: Seq<char>) -> bool {
        true
    }

    open spec fn spec_encoded(v: Seq<char>) -> SpecValue {
        SpecValue::Text(v)
    }

    open spec fn spec_decoded(v: SpecValue) -> Result<Seq<char>, DecodeFault> {
        match v {
            SpecValue::Text(s) => Ok(s),
            _ => Err(DecodeFault::Schema("string value expected"@)),
        }
    }

    fn to_value(&self) -> (r: PlistValue) {
        PlistValue::Text(clone_string(self))
    }

    fn from_value(v: &PlistValue) -> (r: Result<String, Error>) {
        match v {
            PlistValue::Text(s) => Ok(clone_string(s)),
            _ => Err(Error::Schema("string value expected".to_owned())),
        }
    }

    proof fn lemma_round_trip(v: Seq<char>) {
    }
}

impl PlistCodec for u8 {
    open spec fn wf_view(v: u8) -> bool {
        true
    }

    open spec fn spec_encoded(v: u8) -> SpecValue {
        SpecValue::Integer(v as int)
    }

    open spec fn spec_decoded(v: SpecValue) -> Result<u8, DecodeFault> {
        match v {
            SpecValue::Integer(i) => if 0 <= i <= u8::MAX {
                Ok(i as u8)
            } else {
                Err(DecodeFault::Schema("integer value out of range for this field"@))
            },
            _ => Err(DecodeFault::Schema("integer value expected"@)),
        }
    }

    fn to_value(&self) -> (r: PlistValue) {
        PlistValue::Integer(*self as i128)
    }

    fn from_value(v: &PlistValue) -> (r: Result<u8, Error>) {
        match v {
            PlistValue::Integer(i) => if 0 <= *i && *i <= u8::MAX as i128 {
                Ok(*i as u8)
            } else {
                Err(Error::Schema("integer value out of range for this field".to_owned()))
            },
            _ => Err(Error::Schema("integer value expected".to_owned())),
        }
    }

    proof fn lemma_round_trip(v: u8) {
    }
}

impl PlistCodec for u16 {
    open spec fn wf_view(v: u16) -> bool {
        true
    }

    open spec fn spec_encoded(v: u16) -> SpecValue {
        SpecValue::Integer(v as int)
    }

    open spec fn spec_decoded(v: SpecValue) -> Result<u16, DecodeFault> {
        match v {
            SpecValue::Integer(i) => if 0 <= i <= u16::MAX {
                Ok(i as u16)
            } else {
                Err(DecodeFault::Schema("integer value out of range for this field"@))
            },
            _ => Err(DecodeFault::Schema("integer value expected"@)),
        }
    }

    fn to_value(&self) -> (r: PlistValue) {
        PlistValue::Integer(*self as i128)
    }

    fn from_value(v: &PlistValue) -> (r: Result<u16, Error>) {
        match v {
            PlistValue::Integer(i) => if 0 <= *i && *i <= u16::MAX as i128 {
                Ok(*i as u16)
            } else {
                Err(Error::Schema("integer value out of range for this field".to_owned()))
            },
            _ => Err(Error::Schema("integer value expected".to_owned())),
        }
    }

    proof fn lemma_round_trip(v: u16) {
    }
}

impl PlistCodec for u32 {
    open spec fn wf_view(v: u32) -> bool {
        true
    }

    open spec fn spec_encoded(v: u32) -> SpecValue {
        SpecValue::Integer(v as int)
    }

    open spec fn spec_decoded(v: SpecValue) -> Result<u32, DecodeFault> {
        match v {
            SpecValue::Integer(i) => if 0 <= i <= u32::MAX {
                Ok(i as u32)
            } else {
                Err(DecodeFault::Schema("integer value out of range for this field"@))
            },
            _ => Err(DecodeFault::Schema("integer value expected"@)),
        }
    }

    fn to_value(&self) -> (r: PlistValue) {
        PlistValue::Integer(*self as i128)
    }

    fn from_value(v: &PlistValue) -> (r: Result<u32, Error>) {
        match v {
            PlistValue::Integer(i) => if 0 <= *i && *i <= u32::MAX as i128 {
                Ok(*i as u32)
            } else {
                Err(Error::Schema("integer value out of range for this field".to_owned()))
            },
            _ => Err(Error::Schema("integer value expected".to_owned())),
        }
    }

    proof fn lemma_round_trip(v: u32) {
    }
}

impl PlistCodec for u64 {
    open spec fn wf_view(v: u64) -> bool {
        true
    }

    open spec fn spec_encoded(v: u64) -> SpecValue {
        SpecValue::Integer(v as int)
    }

    open spec fn spec_decoded(v: SpecValue) -> Result<u64, DecodeFault> {
        match v {
            SpecValue::Integer(i) => if 0 <= i <= u64::MAX {
                Ok(i as u64)
            } else {
                Err(DecodeFault::Schema("integer value out of range for this field"@))
            },
            _ => Err(DecodeFault::Schema("integer value expected"@)),
        }
    }

    fn to_value(&self) -> (r: PlistValue) {
        PlistValue::Integer(*self as i128)
    }

    fn from_value(v: &PlistValue) -> (r: Result<u64, Error>) {
        match v {
            PlistValue::Integer(i) => if 0 <= *i && *i <= u64::MAX as i128 {
                Ok(*i as u64)
            } else {
                Err(Error::Schema("integer value out of range for this field".to_owned()))
            },
            _ => Err(Error::Schema("integer value expected".to_owned())),
        }
    }

    proof fn lemma_round_trip(v: u64) {
    }
}

impl PlistCodec for i32 {
    open spec fn wf_view(v: i32) -> bool {
        true
    }

    open spec fn spec_encoded(v: i32) -> SpecValue {
        SpecValue::Integer(v as int)
    }

    open spec fn spec_decoded(v: SpecValue) -> Result<i32, DecodeFault> {
        match v {
            SpecValue::Integer(i) => if i32::MIN <= i <= i32::MAX {
                Ok(i as i32)
            } else {
                Err(DecodeFault::Schema("integer value out of range for this field"@))
            },
            _ => Err(DecodeFault::Schema("integer value expected"@)),
        }
    }

    fn to_value(&self) -> (r: PlistValue) {
        PlistValue::Integer(*self as i128)
    }

    fn from_value(v: &PlistValue) -> (r: Result<i32, Error>) {
        match v {
            PlistValue::Integer(i) => if i32::MIN as i128 <= *i && *i <= i32::MAX as i128 {
                Ok(*i as i32)
            } else {
                Err(Error::Schema("integer value out of range for this field".to_owned()))
            },
            _ => Err(Error::Schema("integer value expected".to_owned())),
        }
    }

    proof fn lemma_round_trip(v: i32) {
    }
}

impl PlistCodec for i64 {
    open spec fn wf_view(v: i64) -> bool {
        true
    }

    open spec fn spec_encoded(v: i64) -> SpecValue {
        SpecValue::Integer(v as int)
    }

    open spec fn spec_decoded(v: SpecValue) -> Result<i64, DecodeFault> {
        match v {
            SpecValue::Integer(i) => if i64::MIN <= i <= i64::MAX {
                Ok(i as i64)
            } else {
                Err(DecodeFault::Schema("integer value out of range for this field"@))
            },
            _ => Err(DecodeFault::Schema("integer value expected"@)),
        }
    }

    fn to_value(&self) -> (r: PlistValue) {
        PlistValue::Integer(*self as i128)
    }

    fn from_value(v: &PlistValue) -> (r: Result<i64, Error>) {
        match v {
            PlistValue::Integer(i) => if i64::MIN as i128 <= *i && *i <= i64::MAX as i128 {
                Ok(*i as i64)
            } else {
                Err(Error::Schema("integer value out of range for this field".to_owned()))
            },
            _ => Err(Error::Schema("integer value expected".to_owned())),
        }
    }

    proof fn lemma_round_trip(v: i64) {
    }
}

impl PlistCodec for PlistValue {
    open spec fn wf_view(v: SpecValue) -> bool {
        true
    }

    open spec fn spec_encoded(v: SpecValue) -> SpecValue {
        v
    }

    open spec fn spec_decoded(v: SpecValue) -> Result<SpecValue, DecodeFault> {
        Ok(v)
    }

    fn to_value(&self) -> (r: PlistValue) {
        self.duplicate()
    }

    fn from_value(v: &PlistValue) -> (r: Result<PlistValue, Error>) {
        Ok(v.duplicate())
    }

    proof fn lemma_round_trip(v: SpecValue) {
    }
}

/// The element-wise encoding of an abstract sequence.
pub open spec fn arr_encoded<V: PlistCodec>(s: Seq<V::V>) -> Seq<SpecValue> {
    Seq::new(s.len(), |i: int| V::spec_encoded(s[i]))
}

/// The element-wise decoding of an abstract sequence of trees: all
/// elements, or the leftmost fault.
pub open spec fn arr_decoded<V: PlistCodec>(s: Seq<SpecValue>) -> Result<
    Seq<V::V>,
    DecodeFault,
>
    decreases s.len(),
{
    if s.len() == 0 {
        Ok(Seq::empty())
    } else {
        match arr_decoded::<V>(s.drop_last()) {
            Ok(pre) => match V::spec_decoded(s.last()) {
                Ok(x) => Ok(pre.push(x)),
                Err(f) => Err(f),
            },
            Err(f) => Err(f),
        }
    }
}

/// If every element of a prefix decodes and element `i` faults, the whole
/// sequence decodes to that fault.
pub proof fn lemma_arr_decoded_fault<V: PlistCodec>(s: Seq<SpecValue>, i: int, f: DecodeFault)
    requires
        0 <= i < s.len(),
        arr_decoded::<V>(s.take(i)) is Ok,
        V::spec_decoded(s[i]) == Err::<V::V, DecodeFault>(f),
    ensures
        arr_decoded::<V>(s) == Err::<Seq<V::V>, DecodeFault>(f),
    decreases s.len(),
{
    if i == s.len() - 1 {
        assert(s.drop_last() =~= s.take(i));
    } else {
        assert(s.drop_last().take(i) =~= s.take(i));
        assert(s.drop_last()[i] == s[i]);
        lemma_arr_decoded_fault::<V>(s.drop_last(), i, f);
    }
}

/// Decoding an element-wise encoding of well-formed elements gives the
/// elements back.
pub proof fn lemma_arr_round_trip<V: PlistCodec>(s: Seq<V::V>)
    requires
        forall|i: int| 0 <= i < s.len() ==> V::wf_view(#[trigger] s[i]),
    ensures
        arr_decoded::<V>(arr_encoded::<V>(s)) == Ok::<Seq<V::V>, DecodeFault>(s),
    decreases s.len(),
{
    if s.len() == 0 {
        assert(arr_encoded::<V>(s) =~= Seq::<SpecValue>::empty());
        assert(s =~= Seq::<V::V>::empty());
    } else {
        assert forall|j: int| 0 <= j < s.drop_last().len() implies V::wf_view(
            #[trigger] s.drop_last()[j],
        ) by {
            assert(s.drop_last()[j] == s[j]);
        }
        lemma_arr_round_trip::<V>(s.drop_last());
        let e = arr_encoded::<V>(s);
        assert(e.len() == s.len());
        assert(e.drop_last() =~= arr_encoded::<V>(s.drop_last()));
        assert(arr_decoded::<V>(e.drop_last()) == Ok::<Seq<V::V>, DecodeFault>(s.drop_last()));
        assert(e.last() == V::spec_encoded(s.last()));
        V::lemma_round_trip(s.last());
        assert(arr_decoded::<V>(e) == Ok::<Seq<V::V>, DecodeFault>(
            s.drop_last().push(s.last()),
        ));
        assert(s.drop_last().push(s.last()) =~= s);
    }
}

impl<V: PlistCodec> PlistCodec for Vec<V> {
    open spec fn wf_view(v: Seq<V::V>) -> bool {
        forall|i: int| 0 <= i < v.len() ==> V::wf_view(#[trigger] v[i])
    }

    open spec fn spec_encoded(v: Seq<V::V>) -> SpecValue {
        SpecValue::Array(arr_encoded::<V>(v))
    }

    open spec fn spec_decoded(v: SpecValue) -> Result<Seq<V::V>, DecodeFault> {
        match v {
            SpecValue::Array(items) => arr_decoded::<V>(items),
            _ => Err(DecodeFault::Schema("array value expected"@)),
        }
    }

    fn to_value(&self) -> (r: PlistValue) {
        let mut out: Vec<PlistValue> = Vec::new();
        let mut i: usize = 0;
        while i < self.len()
            invariant
                i <= self.len(),
                out@.len() == i,
                forall|j: int| 0 <= j < i ==> out@[j]@ == arr_encoded::<V>(self.deep_view())[j],
            decreases self.len() - i,
        {
            proof {
                assert(self.deep_view()[i as int] == self[i as int].deep_view());
            }
            out.push(self[i].to_value());
            i = i + 1;
        }
        proof {
            lemma_view_seq_index(out@);
            assert(view_seq(out@) =~= arr_encoded::<V>(self.deep_view()));
        }
        PlistValue::Array(out)
    }

    fn from_value(v: &PlistValue) -> (r: Result<Vec<V>, Error>) {
        match v {
            PlistValue::Array(items) => {
                proof {
                    lemma_view_seq_index(items@);
                }
                let ghost vs: Seq<SpecValue> = view_seq(items@);
                let mut out: Vec<V> = Vec::new();
                proof {
                    assert(vs.take(0) =~= Seq::<SpecValue>::empty());
                    assert(out.deep_view() =~= Seq::<V::V>::empty());
                }
                let mut i: usize = 0;
                while i < items.len()
                    invariant
                        i <= items.len(),
                        out@.len() == i,
                        v@ == SpecValue::Array(vs),
                        vs == view_seq(items@),
                        vs.len() == items@.len(),
                        forall|j: int| 0 <= j < items@.len() ==> vs[j] == #[trigger] items@[j]@,
                        arr_decoded::<V>(vs.take(i as int)) == Ok::<Seq<V::V>, DecodeFault>(
                            out.deep_view(),
                        ),
                        forall|j: int| 0 <= j < i ==> V::wf_view(#[trigger] out.deep_view()[j]),
                    decreases items.len() - i,
                {
                    let ghost prev: Seq<V::V> = out.deep_view();
                    match V::from_value(&items[i]) {
                        Ok(x) => {
                            out.push(x);
                            proof {
                                assert(vs.take(i + 1 as int).drop_last() =~= vs.take(i as int));
                                assert(vs.take(i + 1 as int).last() == vs[i as int]);
                                assert(out.deep_view() =~= prev.push(x.deep_view()));
                            }
                        },
                        Err(e) => {
                            proof {
                                assert(vs[i as int] == items@[i as int]@);
                                let f = V::spec_decoded(vs[i as int])->Err_0;
                                lemma_arr_decoded_fault::<V>(vs, i as int, f);
                                assert(arr_decoded::<V>(vs) == Err::<Seq<V::V>, DecodeFault>(f));
                            }
                            return Err(e);
                        },
                    }
                    i = i + 1;
                }
                proof {
                    assert(vs.take(items@.len() as int) =~= vs);
                }
                Ok(out)
            },
            _ => Err(Error::Schema("array value expected".to_owned())),
        }
    }

    proof fn lemma_round_trip(v: Seq<V::V>) {
        lemma_arr_round_trip::<V>(v);
    }
}

/// Keys are pairwise distinct.
pub open spec fn dict_wf<T>(s: Seq<(Seq<char>, T)>) -> bool {
    forall|i: int, j: int| 0 <= i < j < s.len() ==> (#[trigger] s[i]).0 != (#[trigger] s[j]).0
}

/// Replaces the first entry bearing key `k` (appending the new entry at the
/// end), or appends if the key is absent.
pub open spec fn spec_upsert<T>(s: Seq<(Seq<char>, T)>, k: Seq<char>, v: T) -> Seq<
    (Seq<char>, T),
>
    decreases s.len(),
{
    if s.len() == 0 {
        seq![(k, v)]
    } else if s[0].0 == k {
        s.drop_first().push((k, v))
    } else {
        seq![s[0]] + spec_upsert(s.drop_first(), k, v)
    }
}

/// Upserting an absent key appends.
pub proof fn lemma_upsert_fresh<T>(s: Seq<(Seq<char>, T)>, k: Seq<char>, v: T)
    requires
        forall|i: int| 0 <= i < s.len() ==> (#[trigger] s[i]).0 != k,
    ensures
        spec_upsert(s, k, v) == s.push((k, v)),
    decreases s.len(),
{
    if s.len() == 0 {
        assert(spec_upsert(s, k, v) =~= s.push((k, v)));
    } else {
        assert forall|i: int| 0 <= i < s.drop_first().len() implies (#[trigger] s.drop_first()[i]).0
            != k by {
            assert(s.drop_first()[i] == s[i + 1]);
        }
        lemma_upsert_fresh(s.drop_first(), k, v);
        assert(seq![s[0]] + s.drop_first().push((k, v)) =~= s.push((k, v)));
    }
}

/// Upserting a key first present at position `i` removes that entry and
/// appends the new one.
pub proof fn lemma_upsert_found<T>(s: Seq<(Seq<char>, T)>, k: Seq<char>, v: T, i: int)
    requires
        0 <= i < s.len(),
        s[i].0 == k,
        forall|j: int| 0 <= j < i ==> (#[trigger] s[j]).0 != k,
    ensures
        spec_upsert(s, k, v) == s.remove(i).push((k, v)),
    decreases i,
{
    if i == 0 {
        assert(s.drop_first() =~= s.remove(0));
    } else {
        assert forall|j: int| 0 <= j < i - 1 implies (#[trigger] s.drop_first()[j]).0 != k by {
            assert(s.drop_first()[j] == s[j + 1]);
        }
        assert(s.drop_first()[i - 1] == s[i]);
        lemma_upsert_found(s.drop_first(), k, v, i - 1);
        assert(seq![s[0]] + s.drop_first().remove(i - 1).push((k, v)) =~= s.remove(i).push(
            (k, v),
        ));
    }
}

/// An upsert keeps keys distinct, and every entry of the result is the new
/// entry or one of the old ones.
pub proof fn lemma_upsert_props<T>(s: Seq<(Seq<char>, T)>, k: Seq<char>, v: T)
    requires
        dict_wf(s),
    ensures
        dict_wf(spec_upsert(s, k, v)),
        forall|idx: int|
            0 <= idx < spec_upsert(s, k, v).len() ==> (#[trigger] spec_upsert(s, k, v)[idx]) == (
            k,
            v,
            ) || s.contains(spec_upsert(s, k, v)[idx]),
    decreases s.len(),
{
    let res = spec_upsert(s, k, v);
    if s.len() == 0 {
        assert(res[0] == (k, v));
    } else if s[0].0 == k {
        assert forall|idx: int| 0 <= idx < res.len() implies (#[trigger] res[idx]) == (k, v)
            || s.contains(res[idx]) by {
            if idx < s.drop_first().len() {
                assert(res[idx] == s.drop_first()[idx]);
                assert(s.drop_first()[idx] == s[idx + 1]);
                assert(s.contains(res[idx]));
            }
        }
        assert forall|i: int, j: int| 0 <= i < j < res.len() implies (#[trigger] res[i]).0 != (
        #[trigger] res[j]).0 by {
            if j < s.drop_first().len() {
                assert(res[i] == s[i + 1] && res[j] == s[j + 1]);
            } else {
                assert(res[j] == (k, v));
                assert(res[i] == s[i + 1]);
                assert(s[i + 1].0 != s[0].0);
            }
        }
    } else {
        assert forall|i: int, j: int| 0 <= i < j < s.drop_first().len() implies (
        #[trigger] s.drop_first()[i]).0 != (#[trigger] s.drop_first()[j]).0 by {
            assert(s.drop_first()[i] == s[i + 1] && s.drop_first()[j] == s[j + 1]);
        }
        lemma_upsert_props(s.drop_first(), k, v);
        let sub = spec_upsert(s.drop_first(), k, v);
        assert forall|idx: int| 0 <= idx < res.len() implies (#[trigger] res[idx]) == (k, v)
            || s.contains(res[idx]) by {
            if idx == 0 {
                assert(res[0] == s[0]);
                assert(s.contains(s[0]));
            } else {
                assert(res[idx] == sub[idx - 1]);
                if sub[idx - 1] == (k, v) {
                } else {
                    assert(s.drop_first().contains(sub[idx - 1]));
                    let w = choose|w: int|
                        0 <= w < s.drop_first().len() && s.drop_first()[w] == sub[idx - 1];
                    assert(s[w + 1] == sub[idx - 1]);
                    assert(s.contains(res[idx]));
                }
            }
        }
        assert forall|i: int, j: int| 0 <= i < j < res.len() implies (#[trigger] res[i]).0 != (
        #[trigger] res[j]).0 by {
            if i == 0 {
                assert(res[j] == sub[j - 1]);
                if sub[j - 1] == (k, v) {
                    assert(res[0].0 == s[0].0);
                } else {
                    assert(s.drop_first().contains(sub[j - 1]));
                    let w = choose|w: int|
                        0 <= w < s.drop_first().len() && s.drop_first()[w] == sub[j - 1];
                    assert(s[w + 1] == sub[j - 1]);
                    assert(s[0].0 != s[w + 1].0);
                }
            } else {
                assert(res[i] == sub[i - 1] && res[j] == sub[j - 1]);
            }
        }
    }
}

/// An insertion-ordered map with string keys and unique-key
/// well-formedness, standing in for a hash map where the document format
/// needs a stable key order.
#[derive(Debug, PartialEq)]
pub struct Dict<V> {
    entries: Vec<(String, V)>,
}

impl<V: DeepView> DeepView for Dict<V> {
    type V = Seq<(Seq<char>, V::V)>;

    closed spec fn deep_view(&self) -> Seq<(Seq<char>, V::V)> {
        self.entries.deep_view()
    }
}

impl<V: DeepView> Dict<V> {
    /// The empty map.
    pub fn new() -> (r: Self)
        ensures
            r.deep_view() == Seq::<(Seq<char>, V::V)>::empty(),
            dict_wf(r.deep_view()),
    {
        let d = Dict { entries: Vec::new() };
        proof {
            assert(d.deep_view() =~= Seq::<(Seq<char>, V::V)>::empty());
        }
        d
    }

    /// How many entries the map holds.
    pub fn len(&self) -> (n: usize)
        ensures
            n == self.deep_view().len(),
    {
        self.entries.len()
    }

    /// The position of the first entry bearing key `k`, if any.
    fn position_of(&self, k: &str) -> (r: Option<usize>)
        ensures
            (match r {
                Some(i) => 0 <= i < self.deep_view().len() && self.deep_view()[i as int].0 == k@
                    && forall|j: int| 0 <= j < i ==> (#[trigger] self.deep_view()[j]).0 != k@,
                None => forall|j: int|
                    0 <= j < self.deep_view().len() ==> (#[trigger] self.deep_view()[j]).0 != k@,
            }),
    {
        let mut i: usize = 0;
        while i < self.entries.len()
            invariant
                i <= self.entries.len(),
                self.deep_view().len() == self.entries@.len(),
                forall|j: int| 0 <= j < i ==> (#[trigger] self.deep_view()[j]).0 != k@,
            decreases self.entries.len() - i,
        {
            if str_eq(self.entries[i].0.as_str(), k) {
                return Some(i);
            }
            i = i + 1;
        }
        None
    }

    /// Sets `k` to `v`: replaces the first entry with that key (moving it
    /// to the end) or appends a new entry.
    pub fn insert(&mut self, k: String, v: V)
        ensures
            final(self).deep_view() == spec_upsert(old(self).deep_view(), k@, v.deep_view()),
            dict_wf(old(self).deep_view()) ==> dict_wf(final(self).deep_view()),
    {
        let ghost s0 = self.deep_view();
        let pos = self.position_of(k.as_str());
        match pos {
            Some(i) => {
                self.entries.remove(i);
                self.entries.push((k, v));
                proof {
                    lemma_upsert_found(s0, k@, v.deep_view(), i as int);
                    assert(self.deep_view() =~= s0.remove(i as int).push((k@, v.deep_view())));
                }
            },
            None => {
                self.entries.push((k, v));
                proof {
                    lemma_upsert_fresh(s0, k@, v.deep_view());
                    assert(self.deep_view() =~= s0.push((k@, v.deep_view())));
                }
            },
        }
        proof {
            if dict_wf(s0) {
                lemma_upsert_props(s0, k@, v.deep_view());
            }
        }
    }
}

/// The entry-wise encoding of an abstract map.
pub open spec fn dict_encoded<V: PlistCodec>(s: Seq<(Seq<char>, V::V)>) -> Seq<
    (Seq<char>, SpecValue),
> {
    Seq::new(s.len(), |i: int| (s[i].0, V::spec_encoded(s[i].1)))
}

/// The entry-wise decoding of an abstract keyed tree sequence: entries
/// folded left to right with last-wins keys, or the leftmost fault.
pub open spec fn dict_decoded<V: PlistCodec>(s: Seq<(Seq<char>, SpecValue)>) -> Result<
    Seq<(Seq<char>, V::V)>,
    DecodeFault,
>
    decreases s.len(),
{
    if s.len() == 0 {
        Ok(Seq::empty())
    } else {
        match dict_decoded::<V>(s.drop_last()) {
            Ok(pre) => match V::spec_decoded(s.last().1) {
                Ok(x) => Ok(spec_upsert(pre, s.last().0, x)),
                Err(f) => Err(f),
            },
            Err(f) => Err(f),
        }
    }
}

/// If every entry of a prefix decodes and entry `i` faults, the whole
/// sequence decodes to that fault.
pub proof fn lemma_dict_decoded_fault<V: PlistCodec>(
    s: Seq<(Seq<char>, SpecValue)>,
    i: int,
    f: DecodeFault,
)
    requires
        0 <= i < s.len(),
        dict_decoded::<V>(s.take(i)) is Ok,
        V::spec_decoded(s[i].1) == Err::<V::V, DecodeFault>(f),
    ensures
        dict_decoded::<V>(s) == Err::<Seq<(Seq<char>, V::V)>, DecodeFault>(f),
    decreases s.len(),
{
    if i == s.len() - 1 {
        assert(s.drop_last() =~= s.take(i));
    } else {
        assert(s.drop_last().take(i) =~= s.take(i));
        assert(s.drop_last()[i] == s[i]);
        lemma_dict_decoded_fault::<V>(s.drop_last(), i, f);
    }
}

/// Decoding an entry-wise encoding of a well-formed map gives the map
/// back.
pub proof fn lemma_dict_round_trip<V: PlistCodec>(s: Seq<(Seq<char>, V::V)>)
    requires
        dict_wf(s),
        forall|i: int| 0 <= i < s.len() ==> V::wf_view((#[trigger] s[i]).1),
    ensures
        dict_decoded::<V>(dict_encoded::<V>(s)) == Ok::<Seq<(Seq<char>, V::V)>, DecodeFault>(s),
    decreases s.len(),
{
    if s.len() == 0 {
        assert(dict_encoded::<V>(s) =~= Seq::<(Seq<char>, SpecValue)>::empty());
        assert(s =~= Seq::<(Seq<char>, V::V)>::empty());
    } else {
        assert forall|i: int, j: int| 0 <= i < j < s.drop_last().len() implies (
        #[trigger] s.drop_last()[i]).0 != (#[trigger] s.drop_last()[j]).0 by {
            assert(s.drop_last()[i] == s[i] && s.drop_last()[j] == s[j]);
        }
        assert forall|i: int| 0 <= i < s.drop_last().len() implies V::wf_view(
            (#[trigger] s.drop_last()[i]).1,
        ) by {
            assert(s.drop_last()[i] == s[i]);
        }
        lemma_dict_round_trip::<V>(s.drop_last());
        let e = dict_encoded::<V>(s);
        assert(e.len() == s.len());
        assert(e.drop_last() =~= dict_encoded::<V>(s.drop_last()));
        assert(dict_decoded::<V>(e.drop_last()) == Ok::<Seq<(Seq<char>, V::V)>, DecodeFault>(
            s.drop_last(),
        ));
        assert(e.last().0 == s.last().0 && e.last().1 == V::spec_encoded(s.last().1));
        V::lemma_round_trip(s.last().1);
        assert forall|i: int| 0 <= i < s.drop_last().len() implies (
        #[trigger] s.drop_last()[i]).0 != s.last().0 by {
            assert(s.drop_last()[i] == s[i] && s.last() == s[s.len() - 1]);
        }
        lemma_upsert_fresh(s.drop_last(), s.last().0, s.last().1);
        assert(s.drop_last().push((s.last().0, s.last().1)) =~= s);
    }
}

impl<V: PlistCodec> PlistCodec for Dict<V> {
    open spec fn wf_view(v: Seq<(Seq<char>, V::V)>) -> bool {
        dict_wf(v) && forall|i: int| 0 <= i < v.len() ==> V::wf_view((#[trigger] v[i]).1)
    }

    open spec fn spec_encoded(v: Seq<(Seq<char>, V::V)>) -> SpecValue {
        SpecValue::Dictionary(dict_encoded::<V>(v))
    }

    open spec fn spec_decoded(v: SpecValue) -> Result<Seq<(Seq<char>, V::V)>, DecodeFault> {
        match v {
            SpecValue::Dictionary(pairs) => dict_decoded::<V>(pairs),
            _ => Err(DecodeFault::Schema("dictionary value expected"@)),
        }
    }

    fn to_value(&self) -> (r: PlistValue) {
        let mut out: Vec<(String, PlistValue)> = Vec::new();
        let mut i: usize = 0;
        while i < self.entries.len()
            invariant
                i <= self.entries.len(),
                out@.len() == i,
                self.deep_view().len() == self.entries@.len(),
                forall|j: int|
                    0 <= j < i ==> ((#[trigger] out@[j]).0@, out@[j].1@) == dict_encoded::<V>(
                        self.deep_view(),
                    )[j],
            decreases self.entries.len() - i,
        {
            proof {
                assert(self.deep_view()[i as int] == (
                    self.entries@[i as int].0@,
                    self.entries@[i as int].1.deep_view(),
                ));
            }
            let k = clone_string(&self.entries[i].0);
            let val = self.entries[i].1.to_value();
            out.push((k, val));
            i = i + 1;
        }
        proof {
            lemma_view_pairs_index(out@);
            assert forall|j: int| 0 <= j < out@.len() implies view_pairs(out@)[j]
                == dict_encoded::<V>(self.deep_view())[j] by {
                assert(view_pairs(out@)[j] == ((#[trigger] out@[j]).0@, out@[j].1@));
            }
            assert(view_pairs(out@) =~= dict_encoded::<V>(self.deep_view()));
        }
        PlistValue::Dictionary(out)
    }

    fn from_value(v: &PlistValue) -> (r: Result<Dict<V>, Error>) {
        match v {
            PlistValue::Dictionary(pairs) => {
                proof {
                    lemma_view_pairs_index(pairs@);
                }
                let ghost vp: Seq<(Seq<char>, SpecValue)> = view_pairs(pairs@);
                let mut out: Dict<V> = Dict::new();
                proof {
                    assert(vp.take(0) =~= Seq::<(Seq<char>, SpecValue)>::empty());
                }
                let mut i: usize = 0;
                while i < pairs.len()
                    invariant
                        i <= pairs.len(),
                        v@ == SpecValue::Dictionary(vp),
                        vp == view_pairs(pairs@),
                        vp.len() == pairs@.len(),
                        forall|j: int|
                            0 <= j < pairs@.len() ==> vp[j] == ((#[trigger] pairs@[j]).0@,
                            pairs@[j].1@),
                        dict_decoded::<V>(vp.take(i as int)) == Ok::<
                            Seq<(Seq<char>, V::V)>,
                            DecodeFault,
                        >(out.deep_view()),
                        dict_wf(out.deep_view()),
                        forall|j: int|
                            0 <= j < out.deep_view().len() ==> V::wf_view(
                                (#[trigger] out.deep_view()[j]).1,
                            ),
                    decreases pairs.len() - i,
                {
                    let ghost prev: Seq<(Seq<char>, V::V)> = out.deep_view();
                    match V::from_value(&pairs[i].1) {
                        Ok(x) => {
                            let k = clone_string(&pairs[i].0);
                            proof {
                                lemma_upsert_props(prev, k@, x.deep_view());
                            }
                            out.insert(k, x);
                            proof {
                                assert(vp.take(i + 1 as int).drop_last() =~= vp.take(i as int));
                                assert(vp.take(i + 1 as int).last() == vp[i as int]);
                                assert forall|j: int| 0 <= j < out.deep_view().len() implies
                                    V::wf_view((#[trigger] out.deep_view()[j]).1) by {
                                    if out.deep_view()[j] == (k@, x.deep_view()) {
                                    } else {
                                        assert(prev.contains(out.deep_view()[j]));
                                        let w = choose|w: int|
                                            0 <= w < prev.len() && prev[w] == out.deep_view()[j];
                                        assert(V::wf_view(prev[w].1));
                                    }
                                }
                            }
                        },
                        Err(e) => {
                            proof {
                                assert(vp[i as int].1 == pairs@[i as int].1@);
                                let f = V::spec_decoded(vp[i as int].1)->Err_0;
                                lemma_dict_decoded_fault::<V>(vp, i as int, f);
                            }
                            return Err(e);
                        },
                    }
                    i = i + 1;
                }
                proof {
                    assert(vp.take(pairs@.len() as int) =~= vp);
                }
                Ok(out)
            },
            _ => Err(Error::Schema("dictionary value expected".to_owned())),
        }
    }

    proof fn lemma_round_trip(v: Seq<(Seq<char>, V::V)>) {
        lemma_dict_round_trip::<V>(v);
    }
}

/// Folds the entries of a document dictionary left to right through a
/// record's per-key step function, stopping at the first fault.
pub open spec fn record_fold<A>(
    pairs: Seq<(Seq<char>, SpecValue)>,
    acc: A,
    step: spec_fn(A, Seq<char>, SpecValue) -> Result<A, DecodeFault>,
) -> Result<A, DecodeFault>
    decreases pairs.len(),
{
    if pairs.len() == 0 {
        Ok(acc)
    } else {
        match record_fold(pairs.drop_last(), acc, step) {
            Ok(m) => step(m, pairs.last().0, pairs.last().1),
            Err(f) => Err(f),
        }
    }
}

/// One unfolding step of `record_fold` at the end of the sequence.
pub proof fn lemma_record_fold_snoc<A>(
    pairs: Seq<(Seq<char>, SpecValue)>,
    p: (Seq<char>, SpecValue),
    acc: A,
    step: spec_fn(A, Seq<char>, SpecValue) -> Result<A, DecodeFault>,
)
    ensures
        record_fold(pairs.push(p), acc, step) == (match record_fold(pairs, acc, step) {
            Ok(m) => step(m, p.0, p.1),
            Err(f) => Err(f),
        }),
{
    assert(pairs.push(p).drop_last() =~= pairs);
    assert(pairs.push(p).last() == p);
}

/// Extends a fold state across one conditionally emitted entry.
pub proof fn lemma_record_fold_opt<A>(
    pairs: Seq<(Seq<char>, SpecValue)>,
    cond: bool,
    p: (Seq<char>, SpecValue),
    acc: A,
    m: A,
    m2: A,
    step: spec_fn(A, Seq<char>, SpecValue) -> Result<A, DecodeFault>,
)
    requires
        record_fold(pairs, acc, step) == Ok::<A, DecodeFault>(m),
        cond ==> step(m, p.0, p.1) == Ok::<A, DecodeFault>(m2),
        !cond ==> m2 == m,
    ensures
        record_fold(if cond { pairs.push(p) } else { pairs }, acc, step) == Ok::<A, DecodeFault>(
            m2,
        ),
{
    if cond {
        lemma_record_fold_snoc(pairs, p, acc, step);
    }
}

/// If the fold accepts a prefix and the step faults on entry `i`, the
/// whole fold ends in that fault.
pub proof fn lemma_record_fold_fault<A>(
    pairs: Seq<(Seq<char>, SpecValue)>,
    i: int,
    acc: A,
    step: spec_fn(A, Seq<char>, SpecValue) -> Result<A, DecodeFault>,
    f: DecodeFault,
)
    requires
        0 <= i < pairs.len(),
        (match record_fold(pairs.take(i), acc, step) {
            Ok(m) => step(m, pairs[i].0, pairs[i].1) == Err::<A, DecodeFault>(f),
            Err(_) => false,
        }),
    ensures
        record_fold(pairs, acc, step) == Err::<A, DecodeFault>(f),
    decreases pairs.len(),
{
    if i == pairs.len() - 1 {
        assert(pairs.drop_last() =~= pairs.take(i));
    } else {
        assert(pairs.drop_last().take(i) =~= pairs.take(i));
        assert(pairs.drop_last()[i] == pairs[i]);
        lemma_record_fold_fault(pairs.drop_last(), i, acc, step, f);
    }
}

} // verus!
