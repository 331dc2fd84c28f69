//! Remote-write wire records: labels, samples, series, metadata and the
//! request that carries them.
use vstd::prelude::*;

verus! {

/// Metric type codes of the remote-write protocol.
#[derive(Clone, Copy, Debug, PartialEq, Eq, Structural)]
pub enum MetricType {
    Unknown,
    Counter,
    Gauge,
    Histogram,
    GaugeHistogram,
    Summary,
    Info,
    Stateset,
}

/// The integer that stands for a metric type on the wire.
pub open spec fn metric_type_code(t: MetricType) -> i32 {
    match t {
        MetricType::Unknown => 0,
        MetricType::Counter => 1,
        MetricType::Gauge => 2,
        MetricType::Histogram => 3,
        MetricType::GaugeHistogram => 4,
        MetricType::Summary => 5,
        MetricType::Info => 6,
        MetricType::Stateset => 7,
    }
}

impl MetricType {
    /// The wire code of this type.
    pub fn code(self) -> (r: i32)
        ensures
            r == metric_type_code(self),
    {
        match self {
            MetricType::Unknown => 0,
            MetricType::Counter => 1,
            MetricType::Gauge => 2,
            MetricType::Histogram => 3,
            MetricType::GaugeHistogram => 4,
            MetricType::Summary => 5,
            MetricType::Info => 6,
            MetricType::Stateset => 7,
        }
    }
}

/// One `name = value` pair of a series.
#[derive(Clone, Debug)]
pub struct Label {
    pub name: String,
    pub value: String,
}

/// A label as a pair of character sequences.
pub struct LabelModel {
    pub name: Seq<char>,
    pub value: Seq<char>,
}

impl View for Label {
    type V = LabelModel;

    open spec fn view(&self) -> LabelModel {
        LabelModel { name: self.name@, value: self.value@ }
    }
}

/// The models of a sequence of labels.
pub open spec fn labels_model(v: Seq<Label>) -> Seq<LabelModel> {
    v.map_values(|l: Label| l@)
}

pub proof fn lemma_labels_model_push(v: Seq<Label>, x: Label)
    ensures
        labels_model(v.push(x)) == labels_model(v).push(x@),
{
    assert(labels_model(v.push(x)) =~= labels_model(v).push(x@));
}

impl Label {
    pub fn new(name: String, value: String) -> (r: Label)
        ensures
            r.name@ == name@,
            r.value@ == value@,
    {
        Label { name, value }
    }

    /// A copy of this label.
    pub fn duplicate(&self) -> (r: Label)
        ensures
            r@ == self@,
    {
        Label { name: self.name.clone(), value: self.value.clone() }
    }
}

/// The value of a sample: a count, or a real number given by the bits of its
/// IEEE-754 double.
#[derive(Clone, Copy, Debug, PartialEq, Eq, Structural)]
pub enum SampleValue {
    Count(u64),
    Real(u64),
}

/// One value of a series at one instant (milliseconds since the epoch).
#[derive(Clone, Copy, Debug, PartialEq, Eq, Structural)]
pub struct Sample {
    pub value: SampleValue,
    pub timestamp: i64,
}

/// A labelled sequence of samples.
#[derive(Clone, Debug)]
pub struct TimeSeries {
    pub labels: Vec<Label>,
    pub samples: Vec<Sample>,
}

pub struct TimeSeriesModel {
    pub labels: Seq<LabelModel>,
    pub samples: Seq<Sample>,
}

impl View for TimeSeries {
    type V = TimeSeriesModel;

    open spec fn view(&self) -> TimeSeriesModel {
        TimeSeriesModel { labels: labels_model(self.labels@), samples: self.samples@ }
    }
}

/// What a remote backend is told of a metric family.
#[derive(Clone, Debug)]
pub struct MetricMetadata {
    pub metric_type: i32,
    pub metric_family_name: String,
    pub help: String,
    pub unit: String,
}

pub struct MetadataModel {
    pub metric_type: i32,
    pub metric_family_name: Seq<char>,
    pub help: Seq<char>,
    pub unit: Seq<char>,
}

impl View for MetricMetadata {
    type V = MetadataModel;

    open spec fn view(&self) -> MetadataModel {
        MetadataModel {
            metric_type: self.metric_type,
            metric_family_name: self.metric_family_name@,
            help: self.help@,
            unit: self.unit@,
        }
    }
}

/// The unit of transmission: all series and metadata of one snapshot.
#[derive(Clone, Debug)]
pub struct WriteRequest {
    pub timeseries: Vec<TimeSeries>,
    pub metadata: Vec<MetricMetadata>,
}

pub struct WriteRequestModel {
    pub timeseries: Seq<TimeSeriesModel>,
    pub metadata: Seq<MetadataModel>,
}

impl View for WriteRequest {
    type V = WriteRequestModel;

    open spec fn view(&self) -> WriteRequestModel {
        WriteRequestModel {
            timeseries: self.timeseries@.map_values(|t: TimeSeries| t@),
            metadata: self.metadata@.map_values(|m: MetricMetadata| m@),
        }
    }
}

} // verus!
