//! Toxic descriptors: immutable records describing one fault effect on a
//! proxied stream. A descriptor's identity (its name) is derived from its
//! kind and its stream direction; two descriptors with the same kind and
//! stream denote the same server-side toxic.

use vstd::prelude::*;
use vstd::string::StringExecFns;

verus! {

/// Numeric type of toxic attribute values on the wire.
pub type ToxicValueType = u32;

/// Denominator of the `toxicity` ratio: a toxicity is given in millionths.
pub const TOXICITY_UNIT: u32 = 1_000_000;

/// Probability that a toxic fires on a stream event, as a ratio in [0, 1]
/// held in millionths. The wire carries it as a fraction of 1.
#[derive(Clone, Copy, PartialEq, Eq, Structural, Debug)]
pub struct Toxicity {
    pub millionths: u32,
}

impl Toxicity {
    /// A toxicity is a probability: at most one.
    pub open spec fn wf(self) -> bool {
        self.millionths <= TOXICITY_UNIT
    }

    /// A ratio in [0, 1], given in millionths.
    pub fn new(millionths: u32) -> (r: Toxicity)
        requires
            millionths <= TOXICITY_UNIT,
        ensures
            r.millionths == millionths,
            r.wf(),
    {
        Toxicity { millionths }
    }

    /// The toxic fires on every event.
    pub fn always() -> (r: Toxicity)
        ensures
            r.millionths == TOXICITY_UNIT,
            r.wf(),
    {
        Toxicity { millionths: TOXICITY_UNIT }
    }
}

/// Mathematical form of a toxic descriptor.
#[verifier::ext_equal]
pub struct ToxicView {
    pub name: Seq<char>,
    pub kind: Seq<char>,
    pub stream: Seq<char>,
    pub toxicity: Toxicity,
    pub attributes: Seq<(Seq<char>, ToxicValueType)>,
}

/// Wire identity of a toxic: `{kind}_{stream}`.
pub open spec fn toxic_name_of(kind: Seq<char>, stream: Seq<char>) -> Seq<char> {
    kind + "_"@ + stream
}

impl ToxicView {
    /// The name is always derived from kind and stream, and the toxicity is a
    /// valid ratio.
    pub open spec fn wf(self) -> bool {
        &&& self.name == toxic_name_of(self.kind, self.stream)
        &&& self.toxicity.wf()
    }
}

/// The descriptor a latency fault produces.
pub open spec fn latency_toxic(
    stream: Seq<char>,
    latency: ToxicValueType,
    jitter: ToxicValueType,
    toxicity: Toxicity,
) -> ToxicView {
    ToxicView {
        name: toxic_name_of("latency"@, stream),
        kind: "latency"@,
        stream,
        toxicity,
        attributes: seq![("latency"@, latency), ("jitter"@, jitter)],
    }
}

/// The descriptor a bandwidth fault produces.
pub open spec fn bandwidth_toxic(
    stream: Seq<char>,
    rate: ToxicValueType,
    toxicity: Toxicity,
) -> ToxicView {
    ToxicView {
        name: toxic_name_of("bandwidth"@, stream),
        kind: "bandwidth"@,
        stream,
        toxicity,
        attributes: seq![("rate"@, rate)],
    }
}

/// The descriptor a slow-close fault produces.
pub open spec fn slow_close_toxic(
    stream: Seq<char>,
    delay: ToxicValueType,
    toxicity: Toxicity,
) -> ToxicView {
    ToxicView {
        name: toxic_name_of("slow_close"@, stream),
        kind: "slow_close"@,
        stream,
        toxicity,
        attributes: seq![("delay"@, delay)],
    }
}

/// The descriptor a timeout fault produces.
pub open spec fn timeout_toxic(
    stream: Seq<char>,
    timeout: ToxicValueType,
    toxicity: Toxicity,
) -> ToxicView {
    ToxicView {
        name: toxic_name_of("timeout"@, stream),
        kind: "timeout"@,
        stream,
        toxicity,
        attributes: seq![("timeout"@, timeout)],
    }
}

/// The descriptor a slicer fault produces.
pub open spec fn slicer_toxic(
    stream: Seq<char>,
    average_size: ToxicValueType,
    size_variation: ToxicValueType,
    delay: ToxicValueType,
    toxicity: Toxicity,
) -> ToxicView {
    ToxicView {
        name: toxic_name_of("slicer"@, stream),
        kind: "slicer"@,
        stream,
        toxicity,
        attributes: seq![
            ("average_size"@, average_size),
            ("size_variation"@, size_variation),
            ("delay"@, delay),
        ],
    }
}

/// The descriptor a limit-data fault produces.
pub open spec fn limit_data_toxic(
    stream: Seq<char>,
    bytes: ToxicValueType,
    toxicity: Toxicity,
) -> ToxicView {
    ToxicView {
        name: toxic_name_of("limit_data"@, stream),
        kind: "limit_data"@,
        stream,
        toxicity,
        attributes: seq![("bytes"@, bytes)],
    }
}

/// One fault effect: kind, target stream, firing probability and the numeric
/// parameters fixed by the kind.
#[derive(Debug)]
pub struct ToxicPack {
    pub name: String,
    pub kind: String,
    pub stream: String,
    pub toxicity: Toxicity,
    pub attributes: Vec<(String, ToxicValueType)>,
}

impl View for ToxicPack {
    type V = ToxicView;

    open spec fn view(&self) -> ToxicView {
        ToxicView {
            name: self.name@,
            kind: self.kind@,
            stream: self.stream@,
            toxicity: self.toxicity,
            attributes: self.attributes.deep_view(),
        }
    }
}

impl DeepView for ToxicPack {
    type V = ToxicView;

    open spec fn deep_view(&self) -> ToxicView {
        self.view()
    }
}

impl ToxicPack {
    /// Builds a descriptor; the name is regenerated from kind and stream and
    /// is not independently settable.
    pub fn new(
        kind: String,
        stream: String,
        toxicity: Toxicity,
        attributes: Vec<(String, ToxicValueType)>,
    ) -> (r: ToxicPack)
        requires
            toxicity.wf(),
        ensures
            r@.name == toxic_name_of(kind@, stream@),
            r@.kind == kind@,
            r@.stream == stream@,
            r@.toxicity == toxicity,
            r@.attributes == attributes.deep_view(),
            r@.wf(),
    {
        let mut name = kind.clone();
        name.append("_");
        name.append(stream.as_str());
        ToxicPack { name, kind, stream, toxicity, attributes }
    }

    /// A latency toxic: delays data by `latency` ms with up to `jitter` ms of
    /// variation.
    pub fn latency(
        stream: String,
        latency: ToxicValueType,
        jitter: ToxicValueType,
        toxicity: Toxicity,
    ) -> (r: ToxicPack)
        requires
            toxicity.wf(),
        ensures
            r@ == latency_toxic(stream@, latency, jitter, toxicity),
            r@.wf(),
    {
        let mut attributes: Vec<(String, ToxicValueType)> = Vec::new();
        attributes.push((String::from_str("latency"), latency));
        attributes.push((String::from_str("jitter"), jitter));
        let r = ToxicPack::new(String::from_str("latency"), stream, toxicity, attributes);
        proof {
            assert(r@ =~= latency_toxic(r@.stream, latency, jitter, toxicity));
        }
        r
    }

    /// A bandwidth toxic: limits the stream to `rate` KB/s.
    pub fn bandwidth(stream: String, rate: ToxicValueType, toxicity: Toxicity) -> (r: ToxicPack)
        requires
            toxicity.wf(),
        ensures
            r@ == bandwidth_toxic(stream@, rate, toxicity),
            r@.wf(),
    {
        let mut attributes: Vec<(String, ToxicValueType)> = Vec::new();
        attributes.push((String::from_str("rate"), rate));
        let r = ToxicPack::new(String::from_str("bandwidth"), stream, toxicity, attributes);
        proof {
            assert(r@ =~= bandwidth_toxic(r@.stream, rate, toxicity));
        }
        r
    }

    /// A slow-close toxic: delays the close of the connection by `delay` ms.
    pub fn slow_close(stream: String, delay: ToxicValueType, toxicity: Toxicity) -> (r: ToxicPack)
        requires
            toxicity.wf(),
        ensures
            r@ == slow_close_toxic(stream@, delay, toxicity),
            r@.wf(),
    {
        let mut attributes: Vec<(String, ToxicValueType)> = Vec::new();
        attributes.push((String::from_str("delay"), delay));
        let r = ToxicPack::new(String::from_str("slow_close"), stream, toxicity, attributes);
        proof {
            assert(r@ =~= slow_close_toxic(r@.stream, delay, toxicity));
        }
        r
    }

    /// A timeout toxic: stops data and closes after `timeout` ms.
    pub fn timeout(stream: String, timeout: ToxicValueType, toxicity: Toxicity) -> (r: ToxicPack)
        requires
            toxicity.wf(),
        ensures
            r@ == timeout_toxic(stream@, timeout, toxicity),
            r@.wf(),
    {
        let mut attributes: Vec<(String, ToxicValueType)> = Vec::new();
        attributes.push((String::from_str("timeout"), timeout));
        let r = ToxicPack::new(String::from_str("timeout"), stream, toxicity, attributes);
        proof {
            assert(r@ =~= timeout_toxic(r@.stream, timeout, toxicity));
        }
        r
    }

    /// A slicer toxic: slices data into pieces of about `average_size` bytes,
    /// varied by `size_variation`, with `delay` microseconds between pieces.
    pub fn slicer(
        stream: String,
        average_size: ToxicValueType,
        size_variation: ToxicValueType,
        delay: ToxicValueType,
        toxicity: Toxicity,
    ) -> (r: ToxicPack)
        requires
            toxicity.wf(),
        ensures
            r@ == slicer_toxic(stream@, average_size, size_variation, delay, toxicity),
            r@.wf(),
    {
        let mut attributes: Vec<(String, ToxicValueType)> = Vec::new();
        attributes.push((String::from_str("average_size"), average_size));
        attributes.push((String::from_str("size_variation"), size_variation));
        attributes.push((String::from_str("delay"), delay));
        let r = ToxicPack::new(String::from_str("slicer"), stream, toxicity, attributes);
        proof {
            assert(r@ =~= slicer_toxic(r@.stream, average_size, size_variation, delay, toxicity));
        }
        r
    }

    /// A limit-data toxic: closes the connection after `bytes` bytes.
    pub fn limit_data(stream: String, bytes: ToxicValueType, toxicity: Toxicity) -> (r: ToxicPack)
        requires
            toxicity.wf(),
        ensures
            r@ == limit_data_toxic(stream@, bytes, toxicity),
            r@.wf(),
    {
        let mut attributes: Vec<(String, ToxicValueType)> = Vec::new();
        attributes.push((String::from_str("bytes"), bytes));
        let r = ToxicPack::new(String::from_str("limit_data"), stream, toxicity, attributes);
        proof {
            assert(r@ =~= limit_data_toxic(r@.stream, bytes, toxicity));
        }
        r
    }

    /// An exact copy of the descriptor.
    pub fn duplicate(&self) -> (r: ToxicPack)
        ensures
            r@ == self@,
    {
        let src = &self.attributes;
        let mut attributes: Vec<(String, ToxicValueType)> = Vec::new();
        let mut i: usize = 0;
        while i < src.len()
            invariant
                i <= src@.len(),
                attributes.deep_view() == src.deep_view().take(i as int),
            decreases src@.len() - i,
        {
            let ghost k = i as int;
            let ghost raw0 = attributes@;
            let ghost dv0 = attributes.deep_view();
            proof {
                assert(src.deep_view().len() == src@.len());
                assert(dv0.len() == k);
                assert(raw0.len() == k);
            }
            let pair = (src[i].0.clone(), src[i].1);
            proof {
                assert(pair.deep_view() == src.deep_view()[k]);
            }
            attributes.push(pair);
            proof {
                assert forall|j: int| 0 <= j < attributes@.len() implies attributes.deep_view()[j]
                    == src.deep_view().take(k + 1)[j] by {
                    assert(attributes.deep_view()[j] == attributes@[j].deep_view());
                    if j < k {
                        assert(attributes@[j] == raw0[j]);
                        assert(raw0[j].deep_view() == dv0[j]);
                        assert(dv0[j] == src.deep_view().take(k)[j]);
                        assert(src.deep_view().take(k)[j] == src.deep_view()[j]);
                    } else {
                        assert(attributes@[j] == pair);
                    }
                }
                assert(attributes.deep_view() =~~= src.deep_view().take(k + 1));
            }
            i = i + 1;
        }
        proof {
            assert(src.deep_view().take(src@.len() as int) =~= src.deep_view());
        }
        let r = ToxicPack {
            name: self.name.clone(),
            kind: self.kind.clone(),
            stream: self.stream.clone(),
            toxicity: self.toxicity,
            attributes,
        };
        proof {
            assert(r@ =~~= self@);
        }
        r
    }
}

} // verus!
