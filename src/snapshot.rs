//! The point-in-time view of a metrics registry that the encoder reads.
use vstd::prelude::*;
use crate::wire::{Label, LabelModel, MetricType, labels_model};

verus! {

/// The kind of a metric family as the registry reports it.
#[derive(Clone, Copy, Debug, PartialEq, Eq, Structural)]
pub enum MetricKind {
    Counter,
    Gauge,
    Histogram,
    Summary,
    Untyped,
}

/// The wire type that announces a family of the given kind.
pub open spec fn kind_wire_type(k: MetricKind) -> MetricType {
    match k {
        MetricKind::Counter => MetricType::Counter,
        MetricKind::Gauge => MetricType::Gauge,
        MetricKind::Histogram => MetricType::Histogram,
        MetricKind::Summary => MetricType::Summary,
        MetricKind::Untyped => MetricType::Unknown,
    }
}

impl MetricKind {
    pub fn wire_type(self) -> (r: MetricType)
        ensures
            r == kind_wire_type(self),
    {
        match self {
            MetricKind::Counter => MetricType::Counter,
            MetricKind::Gauge => MetricType::Gauge,
            MetricKind::Histogram => MetricType::Histogram,
            MetricKind::Summary => MetricType::Summary,
            MetricKind::Untyped => MetricType::Unknown,
        }
    }
}

/// One cumulative bucket: its upper bound in the wire's text form, and the
/// number of observations not above it.
#[derive(Clone, Debug)]
pub struct Bucket {
    pub upper_bound: String,
    pub cumulative_count: u64,
}

pub struct BucketModel {
    pub upper_bound: Seq<char>,
    pub cumulative_count: u64,
}

impl View for Bucket {
    type V = BucketModel;

    open spec fn view(&self) -> BucketModel {
        BucketModel { upper_bound: self.upper_bound@, cumulative_count: self.cumulative_count }
    }
}

/// A histogram sample; `sample_sum` holds the bits of an IEEE-754 double.
#[derive(Clone, Debug)]
pub struct HistogramData {
    pub buckets: Vec<Bucket>,
    pub sample_count: u64,
    pub sample_sum: u64,
}

pub struct HistogramModel {
    pub buckets: Seq<BucketModel>,
    pub sample_count: u64,
    pub sample_sum: u64,
}

impl View for HistogramData {
    type V = HistogramModel;

    open spec fn view(&self) -> HistogramModel {
        HistogramModel {
            buckets: self.buckets@.map_values(|b: Bucket| b@),
            sample_count: self.sample_count,
            sample_sum: self.sample_sum,
        }
    }
}

/// One labelled instance of a family. Counter and gauge values are the bits
/// of IEEE-754 doubles; each is present where the registry gave one.
#[derive(Clone, Debug)]
pub struct Metric {
    pub labels: Vec<Label>,
    pub counter: Option<u64>,
    pub gauge: Option<u64>,
    pub histogram: Option<HistogramData>,
}

pub struct MetricModel {
    pub labels: Seq<LabelModel>,
    pub counter: Option<u64>,
    pub gauge: Option<u64>,
    pub histogram: Option<HistogramModel>,
}

impl View for Metric {
    type V = MetricModel;

    open spec fn view(&self) -> MetricModel {
        MetricModel {
            labels: labels_model(self.labels@),
            counter: self.counter,
            gauge: self.gauge,
            histogram: match self.histogram {
                Some(h) => Some(h@),
                None => None,
            },
        }
    }
}

/// A named group of metrics of one kind.
#[derive(Clone, Debug)]
pub struct MetricFamily {
    pub name: String,
    pub kind: MetricKind,
    pub help: String,
    pub metrics: Vec<Metric>,
}

pub struct FamilyModel {
    pub name: Seq<char>,
    pub kind: MetricKind,
    pub help: Seq<char>,
    pub metrics: Seq<MetricModel>,
}

impl View for MetricFamily {
    type V = FamilyModel;

    open spec fn view(&self) -> FamilyModel {
        FamilyModel {
            name: self.name@,
            kind: self.kind,
            help: self.help@,
            metrics: self.metrics@.map_values(|m: Metric| m@),
        }
    }
}

/// The models of a snapshot's families.
pub open spec fn snapshot_model(s: Seq<MetricFamily>) -> Seq<FamilyModel> {
    s.map_values(|f: MetricFamily| f@)
}

} // verus!
