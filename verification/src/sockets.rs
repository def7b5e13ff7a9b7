//! Socket configurations: typed options, named sockets, and the one-or-many
//! socket slot of the descriptor.

use vstd::prelude::*;

use crate::error::Error;
use crate::value::{
    clone_string, dict_wf, lemma_record_fold_fault, lemma_record_fold_opt, lemma_record_fold_snoc,
    lemma_view_pairs_index, push_entry, record_fold, str_eq, view_pairs, DecodeFault, Dict,
    PlistCodec, PlistValue, SpecValue,
};

verus! {

/// The type of a socket, a closed set of string-valued variants.
#[derive(Debug, Clone, Copy, PartialEq, Eq, Hash)]
pub enum SocketType {
    Dgram,
    Stream,
    Seqpacket,
}

impl DeepView for SocketType {
    type V = SocketType;

    open spec fn deep_view(&self) -> SocketType {
        *self
    }
}

impl SocketType {
    /// The schema string of each variant.
    pub open spec fn spec_name(self) -> Seq<char> {
        match self {
            SocketType::Dgram => "dgram"@,
            SocketType::Stream => "stream"@,
            SocketType::Seqpacket => "seqpacket"@,
        }
    }

    /// The variant a string names, if any.
    pub open spec fn spec_of_name(s: Seq<char>) -> Option<SocketType> {
        if s == "dgram"@ {
            Some(SocketType::Dgram)
        } else if s == "stream"@ {
            Some(SocketType::Stream)
        } else if s == "seqpacket"@ {
            Some(SocketType::Seqpacket)
        } else {
            None
        }
    }
}

impl PlistCodec for SocketType {
    open spec fn wf_view(v: Self) -> bool {
        true
    }

    open spec fn spec_encoded(v: Self) -> SpecValue {
        SpecValue::Text(v.spec_name())
    }

    open spec fn spec_decoded(v: SpecValue) -> Result<Self, DecodeFault> {
        match v {
            SpecValue::Text(s) => match Self::spec_of_name(s) {
                Some(p) => Ok(p),
                None => Err(DecodeFault::Enumeration(s)),
            },
            _ => Err(DecodeFault::Schema("string value expected"@)),
        }
    }

    fn to_value(&self) -> (r: PlistValue) {
        match self {
            SocketType::Dgram => PlistValue::Text("dgram".to_owned()),
            SocketType::Stream => PlistValue::Text("stream".to_owned()),
            SocketType::Seqpacket => PlistValue::Text("seqpacket".to_owned()),
        }
    }

    fn from_value(v: &PlistValue) -> (r: Result<Self, Error>) {
        match v {
            PlistValue::Text(s) => {
                if str_eq(s.as_str(), "dgram") {
                    Ok(SocketType::Dgram)
                } else if str_eq(s.as_str(), "stream") {
                    Ok(SocketType::Stream)
                } else if str_eq(s.as_str(), "seqpacket") {
                    Ok(SocketType::Seqpacket)
                } else {
                    Err(Error::EnumDeserialization(clone_string(s)))
                }
            },
            _ => Err(Error::Schema("string value expected".to_owned())),
        }
    }

    proof fn lemma_round_trip(v: Self) {
        reveal_strlit("dgram");
        reveal_strlit("stream");
        reveal_strlit("seqpacket");
        assert("dgram"@.len() == 5);
        assert("stream"@.len() == 6);
        assert("seqpacket"@.len() == 9);
    }
}

/// The protocol of a socket, a closed set of string-valued variants.
#[derive(Debug, Clone, Copy, PartialEq, Eq, Hash)]
pub enum SocketProtocol {
    Tcp,
}

impl DeepView for SocketProtocol {
    type V = SocketProtocol;

    open spec fn deep_view(&self) -> SocketProtocol {
        *self
    }
}

impl SocketProtocol {
    /// The schema string of each variant.
    pub open spec fn spec_name(self) -> Seq<char> {
        "TCP"@
    }
}

impl PlistCodec for SocketProtocol {
    open spec fn wf_view(v: Self) -> bool {
        true
    }

    open spec fn spec_encoded(v: Self) -> SpecValue {
        SpecValue::Text(v.spec_name())
    }

    open spec fn spec_decoded(v: SpecValue) -> Result<Self, DecodeFault> {
        match v {
            SpecValue::Text(s) => if s == "TCP"@ {
                Ok(SocketProtocol::Tcp)
            } else {
                Err(DecodeFault::Enumeration(s))
            },
            _ => Err(DecodeFault::Schema("string value expected"@)),
        }
    }

    fn to_value(&self) -> (r: PlistValue) {
        PlistValue::Text("TCP".to_owned())
    }

    fn from_value(v: &PlistValue) -> (r: Result<Self, Error>) {
        match v {
            PlistValue::Text(s) => {
                if str_eq(s.as_str(), "TCP") {
                    Ok(SocketProtocol::Tcp)
                } else {
                    Err(Error::EnumDeserialization(clone_string(s)))
                }
            },
            _ => Err(Error::Schema("string value expected".to_owned())),
        }
    }

    proof fn lemma_round_trip(v: Self) {
    }
}

/// The address family of a socket, a closed set of string-valued variants.
#[derive(Debug, Clone, Copy, PartialEq, Eq, Hash)]
pub enum SocketFamily {
    IPv4,
    IPv6,
    Unix,
}

impl DeepView for SocketFamily {
    type V = SocketFamily;

    open spec fn deep_view(&self) -> SocketFamily {
        *self
    }
}

impl SocketFamily {
    /// The schema string of each variant.
    pub open spec fn spec_name(self) -> Seq<char> {
        match self {
            SocketFamily::IPv4 => "IPv4"@,
            SocketFamily::IPv6 => "IPv6"@,
            SocketFamily::Unix => "Unix"@,
        }
    }

    /// The variant a string names, if any.
    pub open spec fn spec_of_name(s: Seq<char>) -> Option<SocketFamily> {
        if s == "IPv4"@ {
            Some(SocketFamily::IPv4)
        } else if s == "IPv6"@ {
            Some(SocketFamily::IPv6)
        } else if s == "Unix"@ {
            Some(SocketFamily::Unix)
        } else {
            None
        }
    }
}

impl PlistCodec for SocketFamily {
    open spec fn wf_view(v: Self) -> bool {
        true
    }

    open spec fn spec_encoded(v: Self) -> SpecValue {
        SpecValue::Text(v.spec_name())
    }

    open spec fn spec_decoded(v: SpecValue) -> Result<Self, DecodeFault> {
        match v {
            SpecValue::Text(s) => match Self::spec_of_name(s) {
                Some(p) => Ok(p),
                None => Err(DecodeFault::Enumeration(s)),
            },
            _ => Err(DecodeFault::Schema("string value expected"@)),
        }
    }

    fn to_value(&self) -> (r: PlistValue) {
        match self {
            SocketFamily::IPv4 => PlistValue::Text("IPv4".to_owned()),
            SocketFamily::IPv6 => PlistValue::Text("IPv6".to_owned()),
            SocketFamily::Unix => PlistValue::Text("Unix".to_owned()),
        }
    }

    fn from_value(v: &PlistValue) -> (r: Result<Self, Error>) {
        match v {
            PlistValue::Text(s) => {
                if str_eq(s.as_str(), "IPv4") {
                    Ok(SocketFamily::IPv4)
                } else if str_eq(s.as_str(), "IPv6") {
                    Ok(SocketFamily::IPv6)
                } else if str_eq(s.as_str(), "Unix") {
                    Ok(SocketFamily::Unix)
                } else {
                    Err(Error::EnumDeserialization(clone_string(s)))
                }
            },
            _ => Err(Error::Schema("string value expected".to_owned())),
        }
    }

    proof fn lemma_round_trip(v: Self) {
        reveal_strlit("IPv4");
        reveal_strlit("IPv6");
        reveal_strlit("Unix");
        assert("IPv4"@.len() == 4);
        assert("IPv6"@.len() == 4);
        assert("Unix"@.len() == 4);
        assert("IPv4"@[0] == 'I' && "IPv4"@[3] == '4');
        assert("IPv6"@[0] == 'I' && "IPv6"@[3] == '6');
        assert("Unix"@[0] == 'U');
    }
}

/// A Bonjour advertisement: a flag, a service name, or a list of service
/// names. When decoding, the boolean shape is tried first, then the
/// string shape, then the list shape.
#[derive(Debug, Clone, PartialEq, Eq, Hash)]
pub enum BonjourType {
    /// A boolean advertisement flag.
    Boolean(bool),
    /// A single service name.
    String(String),
    /// Several service names.
    Array(Vec<String>),
}

/// The ghost mirror of [`BonjourType`].
pub enum BonjourTypeView {
    Boolean(bool),
    String(Seq<char>),
    Array(Seq<Seq<char>>),
}

impl DeepView for BonjourType {
    type V = BonjourTypeView;

    open spec fn deep_view(&self) -> BonjourTypeView {
        match self {
            BonjourType::Boolean(b) => BonjourTypeView::Boolean(*b),
            BonjourType::String(s) => BonjourTypeView::String(s@),
            BonjourType::Array(v) => BonjourTypeView::Array(v.deep_view()),
        }
    }
}

impl From<bool> for BonjourType {
    /// Wraps an advertisement flag.
    fn from(value: bool) -> (r: Self) {
        BonjourType::Boolean(value)
    }
}

impl vstd::std_specs::convert::FromSpecImpl<bool> for BonjourType {
    open spec fn obeys_from_spec() -> bool {
        true
    }

    open spec fn from_spec(value: bool) -> Self {
        BonjourType::Boolean(value)
    }
}

impl From<String> for BonjourType {
    /// Wraps a single service name.
    fn from(value: String) -> (r: Self) {
        BonjourType::String(value)
    }
}

impl vstd::std_specs::convert::FromSpecImpl<String> for BonjourType {
    open spec fn obeys_from_spec() -> bool {
        true
    }

    open spec fn from_spec(value: String) -> Self {
        BonjourType::String(value)
    }
}

impl From<Vec<String>> for BonjourType {
    /// Wraps several service names.
    fn from(value: Vec<String>) -> (r: Self) {
        BonjourType::Array(value)
    }
}

impl vstd::std_specs::convert::FromSpecImpl<Vec<String>> for BonjourType {
    open spec fn obeys_from_spec() -> bool {
        true
    }

    open spec fn from_spec(value: Vec<String>) -> Self {
        BonjourType::Array(value)
    }
}

impl PlistCodec for BonjourType {
    open spec fn wf_view(v: BonjourTypeView) -> bool {
        true
    }

    open spec fn spec_encoded(v: BonjourTypeView) -> SpecValue {
        match v {
            BonjourTypeView::Boolean(b) => SpecValue::Boolean(b),
            BonjourTypeView::String(s) => SpecValue::Text(s),
            BonjourTypeView::Array(ss) => <Vec<String> as PlistCodec>::spec_encoded(ss),
        }
    }

    open spec fn spec_decoded(v: SpecValue) -> Result<BonjourTypeView, DecodeFault> {
        match v {
            SpecValue::Boolean(b) => Ok(BonjourTypeView::Boolean(b)),
            SpecValue::Text(s) => Ok(BonjourTypeView::String(s)),
            SpecValue::Array(_) => match <Vec<String> as PlistCodec>::spec_decoded(v) {
                Ok(ss) => Ok(BonjourTypeView::Array(ss)),
                Err(f) => Err(f),
            },
            _ => Err(DecodeFault::Schema("no union shape matched"@)),
        }
    }

    fn to_value(&self) -> (r: PlistValue) {
        match self {
            BonjourType::Boolean(b) => PlistValue::Boolean(*b),
            BonjourType::String(s) => PlistValue::Text(clone_string(s)),
            BonjourType::Array(ss) => ss.to_value(),
        }
    }

    fn from_value(v: &PlistValue) -> (r: Result<Self, Error>) {
        match v {
            PlistValue::Boolean(b) => Ok(BonjourType::Boolean(*b)),
            PlistValue::Text(s) => Ok(BonjourType::String(clone_string(s))),
            PlistValue::Array(_) => match <Vec<String> as PlistCodec>::from_value(v) {
                Ok(ss) => Ok(BonjourType::Array(ss)),
                Err(e) => Err(e),
            },
            _ => Err(Error::Schema("no union shape matched".to_owned())),
        }
    }

    proof fn lemma_round_trip(v: BonjourTypeView) {
        match v {
            BonjourTypeView::Array(ss) => {
                <Vec<String> as PlistCodec>::lemma_round_trip(ss);
            },
            _ => {
            },
        }
    }
}

/// Options of one socket. The schema for this record is strict: an
/// unrecognized key in a document is a schema error carrying that key.
#[derive(Debug, Clone, Default, PartialEq)]
pub struct SocketOptions {
    pub sock_type: Option<SocketType>,
    pub sock_passive: Option<bool>,
    pub sock_node_name: Option<String>,
    pub sock_service_name: Option<String>,
    pub sock_family: Option<SocketFamily>,
    pub sock_protocol: Option<SocketProtocol>,
    pub sock_path_name: Option<String>,
    pub secure_socket_with_key: Option<String>,
    pub sock_path_mode: Option<i64>,
    pub bonjour: Option<BonjourType>,
    pub multicast_group: Option<String>,
}

/// The ghost mirror of [`SocketOptions`].
pub struct SocketOptionsView {
    pub sock_type: Option<SocketType>,
    pub sock_passive: Option<bool>,
    pub sock_node_name: Option<Seq<char>>,
    pub sock_service_name: Option<Seq<char>>,
    pub sock_family: Option<SocketFamily>,
    pub sock_protocol: Option<SocketProtocol>,
    pub sock_path_name: Option<Seq<char>>,
    pub secure_socket_with_key: Option<Seq<char>>,
    pub sock_path_mode: Option<i64>,
    pub bonjour: Option<BonjourTypeView>,
    pub multicast_group: Option<Seq<char>>,
}

impl DeepView for SocketOptions {
    type V = SocketOptionsView;

    open spec fn deep_view(&self) -> SocketOptionsView {
        SocketOptionsView {
            sock_type: self.sock_type,
            sock_passive: self.sock_passive,
            sock_node_name: self.sock_node_name.deep_view(),
            sock_service_name: self.sock_service_name.deep_view(),
            sock_family: self.sock_family,
            sock_protocol: self.sock_protocol,
            sock_path_name: self.sock_path_name.deep_view(),
            secure_socket_with_key: self.secure_socket_with_key.deep_view(),
            sock_path_mode: self.sock_path_mode,
            bonjour: self.bonjour.deep_view(),
            multicast_group: self.multicast_group.deep_view(),
        }
    }
}

impl SocketOptions {
    /// The record with no option set.
    pub open spec fn spec_empty() -> SocketOptionsView {
        SocketOptionsView {
            sock_type: None,
            sock_passive: None,
            sock_node_name: None,
            sock_service_name: None,
            sock_family: None,
            sock_protocol: None,
            sock_path_name: None,
            secure_socket_with_key: None,
            sock_path_mode: None,
            bonjour: None,
            multicast_group: None,
        }
    }

    /// A new record with no option set.
    pub fn new() -> (r: Self)
        ensures
            r.deep_view() == Self::spec_empty(),
    {
        SocketOptions {
            sock_type: None,
            sock_passive: None,
            sock_node_name: None,
            sock_service_name: None,
            sock_family: None,
            sock_protocol: None,
            sock_path_name: None,
            secure_socket_with_key: None,
            sock_path_mode: None,
            bonjour: None,
            multicast_group: None,
        }
    }

    /// The dictionary entries that encode this record, in schema order.
    pub open spec fn spec_fields(v: SocketOptionsView) -> Seq<(Seq<char>, SpecValue)> {
        let s = Seq::<(Seq<char>, SpecValue)>::empty();
        let s = if v.sock_type is Some {
            s.push(("SockType"@, <SocketType as PlistCodec>::spec_encoded(v.sock_type->0)))
        } else {
            s
        };
        let s = if v.sock_passive is Some {
            s.push(("SockPassive"@, <bool as PlistCodec>::spec_encoded(v.sock_passive->0)))
        } else {
            s
        };
        let s = if v.sock_node_name is Some {
            s.push(("SockNodeName"@, <String as PlistCodec>::spec_encoded(v.sock_node_name->0)))
        } else {
            s
        };
        let s = if v.sock_service_name is Some {
            s.push(
                ("SockServiceName"@, <String as PlistCodec>::spec_encoded(
                    v.sock_service_name->0,
                )),
            )
        } else {
            s
        };
        let s = if v.sock_family is Some {
            s.push(("SockFamily"@, <SocketFamily as PlistCodec>::spec_encoded(v.sock_family->0)))
        } else {
            s
        };
        let s = if v.sock_protocol is Some {
            s.push(
                ("SockProtocol"@, <SocketProtocol as PlistCodec>::spec_encoded(
                    v.sock_protocol->0,
                )),
            )
        } else {
            s
        };
        let s = if v.sock_path_name is Some {
            s.push(("SockPathName"@, <String as PlistCodec>::spec_encoded(v.sock_path_name->0)))
        } else {
            s
        };
        let s = if v.secure_socket_with_key is Some {
            s.push(
                ("SecureSocketWithKey"@, <String as PlistCodec>::spec_encoded(
                    v.secure_socket_with_key->0,
                )),
            )
        } else {
            s
        };
        let s = if v.sock_path_mode is Some {
            s.push(("SockPathMode"@, <i64 as PlistCodec>::spec_encoded(v.sock_path_mode->0)))
        } else {
            s
        };
        let s = if v.bonjour is Some {
            s.push(("Bonjour"@, <BonjourType as PlistCodec>::spec_encoded(v.bonjour->0)))
        } else {
            s
        };
        let s = if v.multicast_group is Some {
            s.push(
                ("MulticastGroup"@, <String as PlistCodec>::spec_encoded(v.multicast_group->0)),
            )
        } else {
            s
        };
        s
    }

    /// How one dictionary entry updates the record while decoding; this
    /// record is strict, so an unrecognized key is a schema error.
    pub open spec fn spec_step(acc: SocketOptionsView, k: Seq<char>, val: SpecValue) -> Result<
        SocketOptionsView,
        DecodeFault,
    > {
        if k == "SockType"@ {
            match <SocketType as PlistCodec>::spec_decoded(val) {
                Ok(x) => Ok(SocketOptionsView { sock_type: Some(x), ..acc }),
                Err(f) => Err(f),
            }
        } else if k == "SockPassive"@ {
            match <bool as PlistCodec>::spec_decoded(val) {
                Ok(x) => Ok(SocketOptionsView { sock_passive: Some(x), ..acc }),
                Err(f) => Err(f),
            }
        } else if k == "SockNodeName"@ {
            match <String as PlistCodec>::spec_decoded(val) {
                Ok(x) => Ok(SocketOptionsView { sock_node_name: Some(x), ..acc }),
                Err(f) => Err(f),
            }
        } else if k == "SockServiceName"@ {
            match <String as PlistCodec>::spec_decoded(val) {
                Ok(x) => Ok(SocketOptionsView { sock_service_name: Some(x), ..acc }),
                Err(f) => Err(f),
            }
        } else if k == "SockFamily"@ {
            match <SocketFamily as PlistCodec>::spec_decoded(val) {
                Ok(x) => Ok(SocketOptionsView { sock_family: Some(x), ..acc }),
                Err(f) => Err(f),
            }
        } else if k == "SockProtocol"@ {
            match <SocketProtocol as PlistCodec>::spec_decoded(val) {
                Ok(x) => Ok(SocketOptionsView { sock_protocol: Some(x), ..acc }),
                Err(f) => Err(f),
            }
        } else if k == "SockPathName"@ {
            match <String as PlistCodec>::spec_decoded(val) {
                Ok(x) => Ok(SocketOptionsView { sock_path_name: Some(x), ..acc }),
                Err(f) => Err(f),
            }
        } else if k == "SecureSocketWithKey"@ {
            match <String as PlistCodec>::spec_decoded(val) {
                Ok(x) => Ok(SocketOptionsView { secure_socket_with_key: Some(x), ..acc }),
                Err(f) => Err(f),
            }
        } else if k == "SockPathMode"@ {
            match <i64 as PlistCodec>::spec_decoded(val) {
                Ok(x) => Ok(SocketOptionsView { sock_path_mode: Some(x), ..acc }),
                Err(f) => Err(f),
            }
        } else if k == "Bonjour"@ {
            match <BonjourType as PlistCodec>::spec_decoded(val) {
                Ok(x) => Ok(SocketOptionsView { bonjour: Some(x), ..acc }),
                Err(f) => Err(f),
            }
        } else if k == "MulticastGroup"@ {
            match <String as PlistCodec>::spec_decoded(val) {
                Ok(x) => Ok(SocketOptionsView { multicast_group: Some(x), ..acc }),
                Err(f) => Err(f),
            }
        } else {
            Err(DecodeFault::Schema(k))
        }
    }

    /// The step function, as a value `record_fold` can take.
    pub open spec fn spec_step_fn() -> spec_fn(SocketOptionsView, Seq<char>, SpecValue) -> Result<
        SocketOptionsView,
        DecodeFault,
    > {
        |acc: SocketOptionsView, k: Seq<char>, val: SpecValue| Self::spec_step(acc, k, val)
    }
}

impl PlistCodec for SocketOptions {
    open spec fn wf_view(v: SocketOptionsView) -> bool {
        true
    }

    open spec fn spec_encoded(v: SocketOptionsView) -> SpecValue {
        SpecValue::Dictionary(Self::spec_fields(v))
    }

    open spec fn spec_decoded(v: SpecValue) -> Result<SocketOptionsView, DecodeFault> {
        match v {
            SpecValue::Dictionary(pairs) => record_fold(
                pairs,
                Self::spec_empty(),
                Self::spec_step_fn(),
            ),
            _ => Err(DecodeFault::Schema("dictionary value expected"@)),
        }
    }

    fn to_value(&self) -> (r: PlistValue) {
        let mut out: Vec<(String, PlistValue)> = Vec::new();
        proof {
            assert(view_pairs(out@) =~= Seq::<(Seq<char>, SpecValue)>::empty());
        }
        if let Some(x) = &self.sock_type {
            push_entry(&mut out, "SockType", x.to_value());
        }
        if let Some(x) = &self.sock_passive {
            push_entry(&mut out, "SockPassive", x.to_value());
        }
        if let Some(x) = &self.sock_node_name {
            push_entry(&mut out, "SockNodeName", x.to_value());
        }
        if let Some(x) = &self.sock_service_name {
            push_entry(&mut out, "SockServiceName", x.to_value());
        }
        if let Some(x) = &self.sock_family {
            push_entry(&mut out, "SockFamily", x.to_value());
        }
        if let Some(x) = &self.sock_protocol {
            push_entry(&mut out, "SockProtocol", x.to_value());
        }
        if let Some(x) = &self.sock_path_name {
            push_entry(&mut out, "SockPathName", x.to_value());
        }
        if let Some(x) = &self.secure_socket_with_key {
            push_entry(&mut out, "SecureSocketWithKey", x.to_value());
        }
        if let Some(x) = &self.sock_path_mode {
            push_entry(&mut out, "SockPathMode", x.to_value());
        }
        if let Some(x) = &self.bonjour {
            push_entry(&mut out, "Bonjour", x.to_value());
        }
        if let Some(x) = &self.multicast_group {
            push_entry(&mut out, "MulticastGroup", x.to_value());
        }
        proof {
            assert(view_pairs(out@) == Self::spec_fields(self.deep_view()));
        }
        PlistValue::Dictionary(out)
    }

    #[verifier::rlimit(100)]
    fn from_value(v: &PlistValue) -> (r: Result<Self, Error>) {
        match v {
            PlistValue::Dictionary(pairs) => {
                proof {
                    lemma_view_pairs_index(pairs@);
                }
                let ghost vp: Seq<(Seq<char>, SpecValue)> = view_pairs(pairs@);
                let ghost step = Self::spec_step_fn();
                let mut acc = SocketOptions::new();
                proof {
                    assert(vp.take(0) =~= Seq::<(Seq<char>, SpecValue)>::empty());
                }
                let mut i: usize = 0;
                while i < pairs.len()
                    invariant
                        i <= pairs.len(),
                        v@ == SpecValue::Dictionary(vp),
                        vp == view_pairs(pairs@),
                        vp.len() == pairs@.len(),
                        forall|j: int|
                            0 <= j < pairs@.len() ==> vp[j] == ((#[trigger] pairs@[j]).0@,
                            pairs@[j].1@),
                        step == Self::spec_step_fn(),
                        record_fold(vp.take(i as int), Self::spec_empty(), step) == Ok::<
                            SocketOptionsView,
                            DecodeFault,
                        >(acc.deep_view()),
                    decreases pairs.len() - i,
                {
                    let ghost prev = acc.deep_view();
                    let ks = pairs[i].0.as_str();
                    let val = &pairs[i].1;
                    let step_result: Result<(), Error> = if str_eq(ks, "SockType") {
                        match <SocketType as PlistCodec>::from_value(val) {
                            Ok(x) => {
                                acc.sock_type = Some(x);
                                Ok(())
                            },
                            Err(e) => Err(e),
                        }
                    } else if str_eq(ks, "SockPassive") {
                        match <bool as PlistCodec>::from_value(val) {
                            Ok(x) => {
                                acc.sock_passive = Some(x);
                                Ok(())
                            },
                            Err(e) => Err(e),
                        }
                    } else if str_eq(ks, "SockNodeName") {
                        match <String as PlistCodec>::from_value(val) {
                            Ok(x) => {
                                acc.sock_node_name = Some(x);
                                Ok(())
                            },
                            Err(e) => Err(e),
                        }
                    } else if str_eq(ks, "SockServiceName") {
                        match <String as PlistCodec>::from_value(val) {
                            Ok(x) => {
                                acc.sock_service_name = Some(x);
                                Ok(())
                            },
                            Err(e) => Err(e),
                        }
                    } else if str_eq(ks, "SockFamily") {
                        match <SocketFamily as PlistCodec>::from_value(val) {
                            Ok(x) => {
                                acc.sock_family = Some(x);
                                Ok(())
                            },
                            Err(e) => Err(e),
                        }
                    } else if str_eq(ks, "SockProtocol") {
                        match <SocketProtocol as PlistCodec>::from_value(val) {
                            Ok(x) => {
                                acc.sock_protocol = Some(x);
                                Ok(())
                            },
                            Err(e) => Err(e),
                        }
                    } else if str_eq(ks, "SockPathName") {
                        match <String as PlistCodec>::from_value(val) {
                            Ok(x) => {
                                acc.sock_path_name = Some(x);
                                Ok(())
                            },
                            Err(e) => Err(e),
                        }
                    } else if str_eq(ks, "SecureSocketWithKey") {
                        match <String as PlistCodec>::from_value(val) {
                            Ok(x) => {
                                acc.secure_socket_with_key = Some(x);
                                Ok(())
                            },
                            Err(e) => Err(e),
                        }
                    } else if str_eq(ks, "SockPathMode") {
                        match <i64 as PlistCodec>::from_value(val) {
                            Ok(x) => {
                                acc.sock_path_mode = Some(x);
                                Ok(())
                            },
                            Err(e) => Err(e),
                        }
                    } else if str_eq(ks, "Bonjour") {
                        match <BonjourType as PlistCodec>::from_value(val) {
                            Ok(x) => {
                                acc.bonjour = Some(x);
                                Ok(())
                            },
                            Err(e) => Err(e),
                        }
                    } else if str_eq(ks, "MulticastGroup") {
                        match <String as PlistCodec>::from_value(val) {
                            Ok(x) => {
                                acc.multicast_group = Some(x);
                                Ok(())
                            },
                            Err(e) => Err(e),
                        }
                    } else {
                        Err(Error::Schema(clone_string(&pairs[i].0)))
                    };
                    match step_result {
                        Ok(()) => {
                            proof {
                                assert(vp.take(i + 1 as int) =~= vp.take(i as int).push(
                                    vp[i as int],
                                ));
                                lemma_record_fold_snoc(
                                    vp.take(i as int),
                                    vp[i as int],
                                    Self::spec_empty(),
                                    step,
                                );
                                assert(record_fold(vp.take(i + 1 as int), Self::spec_empty(), step)
                                    == Ok::<SocketOptionsView, DecodeFault>(acc.deep_view()));
                            }
                        },
                        Err(e) => {
                            proof {
                                let f = (match Self::spec_step(prev, vp[i as int].0, vp[i as int].1) {
                                    Err(f) => f,
                                    Ok(_) => arbitrary(),
                                });
                                lemma_record_fold_fault(vp, i as int, Self::spec_empty(), step, f);
                            }
                            return Err(e);
                        },
                    }
                    i = i + 1;
                }
                proof {
                    assert(vp.take(pairs@.len() as int) =~= vp);
                }
                Ok(acc)
            },
            _ => Err(Error::Schema("dictionary value expected".to_owned())),
        }
    }

    #[verifier::rlimit(100)]
    proof fn lemma_round_trip(v: SocketOptionsView) {
        reveal_strlit("SockType");
        reveal_strlit("SockPassive");
        reveal_strlit("SockNodeName");
        reveal_strlit("SockServiceName");
        reveal_strlit("SockFamily");
        reveal_strlit("SockProtocol");
        reveal_strlit("SockPathName");
        reveal_strlit("SecureSocketWithKey");
        reveal_strlit("SockPathMode");
        reveal_strlit("Bonjour");
        reveal_strlit("MulticastGroup");
        assert("SockType"@.len() == 8);
        assert("SockPassive"@.len() == 11);
        assert("SockNodeName"@.len() == 12);
        assert("SockServiceName"@.len() == 15);
        assert("SockFamily"@.len() == 10);
        assert("SockProtocol"@.len() == 12);
        assert("SockPathName"@.len() == 12);
        assert("SecureSocketWithKey"@.len() == 19);
        assert("SockPathMode"@.len() == 12);
        assert("Bonjour"@.len() == 7);
        assert("MulticastGroup"@.len() == 14);
        assert("SockNodeName"@[4] == 'N');
        assert("SockProtocol"@[4] == 'P' && "SockProtocol"@[5] == 'r');
        assert("SockPathName"@[4] == 'P' && "SockPathName"@[5] == 'a' && "SockPathName"@[8]
            == 'N');
        assert("SockPathMode"@[4] == 'P' && "SockPathMode"@[5] == 'a' && "SockPathMode"@[8]
            == 'M');
        let step = Self::spec_step_fn();
        let m0 = Self::spec_empty();
        let s0 = Seq::<(Seq<char>, SpecValue)>::empty();
        if v.sock_type is Some {
            <SocketType as PlistCodec>::lemma_round_trip(v.sock_type->0);
        }
        let s1 = if v.sock_type is Some {
            s0.push(("SockType"@, <SocketType as PlistCodec>::spec_encoded(v.sock_type->0)))
        } else {
            s0
        };
        let m1 = SocketOptionsView { sock_type: v.sock_type, ..m0 };
        lemma_record_fold_opt(
            s0,
            v.sock_type is Some,
            ("SockType"@, <SocketType as PlistCodec>::spec_encoded(v.sock_type->0)),
            m0,
            m0,
            m1,
            step,
        );
        let s2 = if v.sock_passive is Some {
            s1.push(("SockPassive"@, <bool as PlistCodec>::spec_encoded(v.sock_passive->0)))
        } else {
            s1
        };
        let m2 = SocketOptionsView { sock_passive: v.sock_passive, ..m1 };
        lemma_record_fold_opt(
            s1,
            v.sock_passive is Some,
            ("SockPassive"@, <bool as PlistCodec>::spec_encoded(v.sock_passive->0)),
            m0,
            m1,
            m2,
            step,
        );
        let s3 = if v.sock_node_name is Some {
            s2.push(("SockNodeName"@, <String as PlistCodec>::spec_encoded(v.sock_node_name->0)))
        } else {
            s2
        };
        let m3 = SocketOptionsView { sock_node_name: v.sock_node_name, ..m2 };
        lemma_record_fold_opt(
            s2,
            v.sock_node_name is Some,
            ("SockNodeName"@, <String as PlistCodec>::spec_encoded(v.sock_node_name->0)),
            m0,
            m2,
            m3,
            step,
        );
        let s4 = if v.sock_service_name is Some {
            s3.push(
                ("SockServiceName"@, <String as PlistCodec>::spec_encoded(
                    v.sock_service_name->0,
                )),
            )
        } else {
            s3
        };
        let m4 = SocketOptionsView { sock_service_name: v.sock_service_name, ..m3 };
        lemma_record_fold_opt(
            s3,
            v.sock_service_name is Some,
            ("SockServiceName"@, <String as PlistCodec>::spec_encoded(v.sock_service_name->0)),
            m0,
            m3,
            m4,
            step,
        );
        if v.sock_family is Some {
            <SocketFamily as PlistCodec>::lemma_round_trip(v.sock_family->0);
        }
        let s5 = if v.sock_family is Some {
            s4.push(("SockFamily"@, <SocketFamily as PlistCodec>::spec_encoded(v.sock_family->0)))
        } else {
            s4
        };
        let m5 = SocketOptionsView { sock_family: v.sock_family, ..m4 };
        lemma_record_fold_opt(
            s4,
            v.sock_family is Some,
            ("SockFamily"@, <SocketFamily as PlistCodec>::spec_encoded(v.sock_family->0)),
            m0,
            m4,
            m5,
            step,
        );
        if v.sock_protocol is Some {
            <SocketProtocol as PlistCodec>::lemma_round_trip(v.sock_protocol->0);
        }
        let s6 = if v.sock_protocol is Some {
            s5.push(
                ("SockProtocol"@, <SocketProtocol as PlistCodec>::spec_encoded(
                    v.sock_protocol->0,
                )),
            )
        } else {
            s5
        };
        let m6 = SocketOptionsView { sock_protocol: v.sock_protocol, ..m5 };
        lemma_record_fold_opt(
            s5,
            v.sock_protocol is Some,
            ("SockProtocol"@, <SocketProtocol as PlistCodec>::spec_encoded(v.sock_protocol->0)),
            m0,
            m5,
            m6,
            step,
        );
        let s7 = if v.sock_path_name is Some {
            s6.push(("SockPathName"@, <String as PlistCodec>::spec_encoded(v.sock_path_name->0)))
        } else {
            s6
        };
        let m7 = SocketOptionsView { sock_path_name: v.sock_path_name, ..m6 };
        lemma_record_fold_opt(
            s6,
            v.sock_path_name is Some,
            ("SockPathName"@, <String as PlistCodec>::spec_encoded(v.sock_path_name->0)),
            m0,
            m6,
            m7,
            step,
        );
        let s8 = if v.secure_socket_with_key is Some {
            s7.push(
                ("SecureSocketWithKey"@, <String as PlistCodec>::spec_encoded(
                    v.secure_socket_with_key->0,
                )),
            )
        } else {
            s7
        };
        let m8 = SocketOptionsView { secure_socket_with_key: v.secure_socket_with_key, ..m7 };
        lemma_record_fold_opt(
            s7,
            v.secure_socket_with_key is Some,
            ("SecureSocketWithKey"@, <String as PlistCodec>::spec_encoded(
                v.secure_socket_with_key->0,
            )),
            m0,
            m7,
            m8,
            step,
        );
        let s9 = if v.sock_path_mode is Some {
            s8.push(("SockPathMode"@, <i64 as PlistCodec>::spec_encoded(v.sock_path_mode->0)))
        } else {
            s8
        };
        let m9 = SocketOptionsView { sock_path_mode: v.sock_path_mode, ..m8 };
        lemma_record_fold_opt(
            s8,
            v.sock_path_mode is Some,
            ("SockPathMode"@, <i64 as PlistCodec>::spec_encoded(v.sock_path_mode->0)),
            m0,
            m8,
            m9,
            step,
        );
        if v.bonjour is Some {
            <BonjourType as PlistCodec>::lemma_round_trip(v.bonjour->0);
        }
        let s10 = if v.bonjour is Some {
            s9.push(("Bonjour"@, <BonjourType as PlistCodec>::spec_encoded(v.bonjour->0)))
        } else {
            s9
        };
        let m10 = SocketOptionsView { bonjour: v.bonjour, ..m9 };
        lemma_record_fold_opt(
            s9,
            v.bonjour is Some,
            ("Bonjour"@, <BonjourType as PlistCodec>::spec_encoded(v.bonjour->0)),
            m0,
            m9,
            m10,
            step,
        );
        let s11 = if v.multicast_group is Some {
            s10.push(
                ("MulticastGroup"@, <String as PlistCodec>::spec_encoded(v.multicast_group->0)),
            )
        } else {
            s10
        };
        let m11 = SocketOptionsView { multicast_group: v.multicast_group, ..m10 };
        lemma_record_fold_opt(
            s10,
            v.multicast_group is Some,
            ("MulticastGroup"@, <String as PlistCodec>::spec_encoded(v.multicast_group->0)),
            m0,
            m10,
            m11,
            step,
        );
        assert(s11 == Self::spec_fields(v));
        assert(m11 == v);
    }
}

/// A named socket configuration holding a single entry.
#[derive(Debug, PartialEq)]
pub struct Socket {
    values: Dict<SocketOptions>,
}

impl DeepView for Socket {
    type V = Seq<(Seq<char>, SocketOptionsView)>;

    closed spec fn deep_view(&self) -> Seq<(Seq<char>, SocketOptionsView)> {
        self.values.deep_view()
    }
}

impl Socket {
    /// A socket configuration with a single named entry.
    pub fn new(name: String, options: SocketOptions) -> (r: Self)
        ensures
            r.deep_view() == Seq::<(Seq<char>, SocketOptionsView)>::empty().push(
                (name@, options.deep_view()),
            ),
            dict_wf(r.deep_view()),
    {
        let ghost nv = name@;
        let ghost ov = options.deep_view();
        let mut values: Dict<SocketOptions> = Dict::new();
        values.insert(name, options);
        proof {
            assert(values.deep_view() =~= Seq::<(Seq<char>, SocketOptionsView)>::empty().push(
                (nv, ov),
            ));
        }
        Socket { values }
    }

    /// The named entries of this socket configuration.
    pub fn into_values(self) -> (r: Dict<SocketOptions>)
        ensures
            r.deep_view() == self.deep_view(),
    {
        self.values
    }
}

/// The socket slot of a descriptor: one named dictionary of socket
/// configurations, or a list of such dictionaries. When decoding, the
/// dictionary shape is tried first, then the list shape.
#[derive(Debug, PartialEq)]
pub enum Sockets {
    /// A single dictionary of named socket configurations.
    Dictionary(Dict<SocketOptions>),
    /// A list of dictionaries of named socket configurations.
    Array(Vec<Dict<SocketOptions>>),
}

/// The ghost mirror of [`Sockets`].
pub enum SocketsView {
    Dictionary(Seq<(Seq<char>, SocketOptionsView)>),
    Array(Seq<Seq<(Seq<char>, SocketOptionsView)>>),
}

impl DeepView for Sockets {
    type V = SocketsView;

    open spec fn deep_view(&self) -> SocketsView {
        match self {
            Sockets::Dictionary(d) => SocketsView::Dictionary(d.deep_view()),
            Sockets::Array(v) => SocketsView::Array(v.deep_view()),
        }
    }
}

impl From<Socket> for Sockets {
    /// Wraps a single socket configuration as the dictionary shape.
    fn from(socket: Socket) -> (r: Self) {
        Sockets::Dictionary(socket.into_values())
    }
}

impl vstd::std_specs::convert::FromSpecImpl<Socket> for Sockets {
    open spec fn obeys_from_spec() -> bool {
        false
    }

    open spec fn from_spec(socket: Socket) -> Self {
        arbitrary()
    }
}

impl PlistCodec for Sockets {
    open spec fn wf_view(v: SocketsView) -> bool {
        match v {
            SocketsView::Dictionary(d) => dict_wf(d),
            SocketsView::Array(ds) => forall|i: int|
                0 <= i < ds.len() ==> dict_wf(#[trigger] ds[i]),
        }
    }

    open spec fn spec_encoded(v: SocketsView) -> SpecValue {
        match v {
            SocketsView::Dictionary(d) => <Dict<SocketOptions> as PlistCodec>::spec_encoded(d),
            SocketsView::Array(ds) => <Vec<Dict<SocketOptions>> as PlistCodec>::spec_encoded(ds),
        }
    }

    open spec fn spec_decoded(v: SpecValue) -> Result<SocketsView, DecodeFault> {
        match v {
            SpecValue::Dictionary(_) => match <Dict<SocketOptions> as PlistCodec>::spec_decoded(
                v,
            ) {
                Ok(d) => Ok(SocketsView::Dictionary(d)),
                Err(f) => Err(f),
            },
            SpecValue::Array(_) => match <Vec<Dict<SocketOptions>> as PlistCodec>::spec_decoded(
                v,
            ) {
                Ok(ds) => Ok(SocketsView::Array(ds)),
                Err(f) => Err(f),
            },
            _ => Err(DecodeFault::Schema("no union shape matched"@)),
        }
    }

    fn to_value(&self) -> (r: PlistValue) {
        match self {
            Sockets::Dictionary(d) => d.to_value(),
            Sockets::Array(ds) => ds.to_value(),
        }
    }

    fn from_value(v: &PlistValue) -> (r: Result<Self, Error>) {
        match v {
            PlistValue::Dictionary(_) => match <Dict<SocketOptions> as PlistCodec>::from_value(
                v,
            ) {
                Ok(d) => Ok(Sockets::Dictionary(d)),
                Err(e) => Err(e),
            },
            PlistValue::Array(_) => match <Vec<Dict<SocketOptions>> as PlistCodec>::from_value(
                v,
            ) {
                Ok(ds) => Ok(Sockets::Array(ds)),
                Err(e) => Err(e),
            },
            _ => Err(Error::Schema("no union shape matched".to_owned())),
        }
    }

    proof fn lemma_round_trip(v: SocketsView) {
        match v {
            SocketsView::Dictionary(d) => {
                <Dict<SocketOptions> as PlistCodec>::lemma_round_trip(d);
            },
            SocketsView::Array(ds) => {
                <Vec<Dict<SocketOptions>> as PlistCodec>::lemma_round_trip(ds);
            },
        }
    }
}

} // verus!
