//! Conversion of a snapshot into remote-write series and metadata.
//!
//! A name shared by a metric label and an external label is kept twice: the
//! sort is stable, so the metric's own label comes first.
use vstd::prelude::*;
use vstd::string::StringExecFns;
use crate::labels::{
    lemma_sort_keeps_names_distinct, lemma_sort_labels, names_distinct, sort_labels,
    sort_labels_exec, sorted_by_name,
};
use crate::snapshot::{
    FamilyModel, HistogramData, HistogramModel, Metric, MetricFamily, MetricKind, MetricModel,
    kind_wire_type, snapshot_model,
};
use crate::wire::{
    Label, LabelModel, MetadataModel, MetricMetadata, Sample, SampleValue, TimeSeries,
    TimeSeriesModel, WriteRequest, WriteRequestModel, labels_model, lemma_labels_model_push, metric_type_code,
};

verus! {

/// The reserved label that carries a series' name.
pub open spec fn name_key() -> Seq<char> {
    seq!['_', '_', 'n', 'a', 'm', 'e', '_', '_']
}

/// The label that carries a bucket's upper bound.
pub open spec fn le_key() -> Seq<char> {
    seq!['l', 'e']
}

pub open spec fn bucket_suffix() -> Seq<char> {
    seq!['_', 'b', 'u', 'c', 'k', 'e', 't']
}

pub open spec fn count_suffix() -> Seq<char> {
    seq!['_', 'c', 'o', 'u', 'n', 't']
}

pub open spec fn sum_suffix() -> Seq<char> {
    seq!['_', 's', 'u', 'm']
}

/// The external labels, none where there are none.
pub open spec fn external_model(ext: Option<Vec<Label>>) -> Seq<LabelModel> {
    match ext {
        Some(v) => labels_model(v@),
        None => Seq::empty(),
    }
}

/// `__name__`, then the metric's labels, then the external labels, unsorted.
pub open spec fn base_labels(
    series_name: Seq<char>,
    m: MetricModel,
    ext: Seq<LabelModel>,
) -> Seq<LabelModel> {
    seq![LabelModel { name: name_key(), value: series_name }] + m.labels + ext
}

/// A series of one sample.
pub open spec fn one_sample(
    labels: Seq<LabelModel>,
    value: SampleValue,
    now: i64,
) -> TimeSeriesModel {
    TimeSeriesModel { labels, samples: seq![Sample { value, timestamp: now }] }
}

pub open spec fn bucket_series(
    family: Seq<char>,
    m: MetricModel,
    ext: Seq<LabelModel>,
    upper_bound: Seq<char>,
    count: u64,
    now: i64,
) -> TimeSeriesModel {
    one_sample(
        sort_labels(
            base_labels(family + bucket_suffix(), m, ext).push(
                LabelModel { name: le_key(), value: upper_bound },
            ),
        ),
        SampleValue::Count(count),
        now,
    )
}

/// One series per bucket, then `_count`, then `_sum`.
pub open spec fn histogram_series(
    family: Seq<char>,
    m: MetricModel,
    h: HistogramModel,
    ext: Seq<LabelModel>,
    now: i64,
) -> Seq<TimeSeriesModel> {
    Seq::new(
        h.buckets.len(),
        |i: int|
            bucket_series(
                family,
                m,
                ext,
                h.buckets[i].upper_bound,
                h.buckets[i].cumulative_count,
                now,
            ),
    ) + seq![
        one_sample(sort_labels(base_labels(family + count_suffix(), m, ext)), SampleValue::Count(h.sample_count), now),
        one_sample(sort_labels(base_labels(family + sum_suffix(), m, ext)), SampleValue::Real(h.sample_sum), now),
    ]
}

/// The series that one metric of family `f` contributes.
pub open spec fn metric_series(
    f: FamilyModel,
    m: MetricModel,
    ext: Seq<LabelModel>,
    now: i64,
) -> Seq<TimeSeriesModel> {
    match f.kind {
        MetricKind::Counter => match m.counter {
            Some(v) => seq![one_sample(sort_labels(base_labels(f.name, m, ext)), SampleValue::Real(v), now)],
            None => Seq::empty(),
        },
        MetricKind::Gauge => match m.gauge {
            Some(v) => seq![one_sample(sort_labels(base_labels(f.name, m, ext)), SampleValue::Real(v), now)],
            None => Seq::empty(),
        },
        MetricKind::Histogram => match m.histogram {
            Some(h) => histogram_series(f.name, m, h, ext, now),
            None => Seq::empty(),
        },
        _ => Seq::empty(),
    }
}

/// The series of the metrics `ms` of family `f`, in order.
pub open spec fn metrics_series(
    f: FamilyModel,
    ms: Seq<MetricModel>,
    ext: Seq<LabelModel>,
    now: i64,
) -> Seq<TimeSeriesModel>
    decreases ms.len(),
{
    if ms.len() == 0 {
        Seq::empty()
    } else {
        metrics_series(f, ms.drop_last(), ext, now) + metric_series(f, ms.last(), ext, now)
    }
}

/// The series of the families `fs`, in order.
pub open spec fn families_series(
    fs: Seq<FamilyModel>,
    ext: Seq<LabelModel>,
    now: i64,
) -> Seq<TimeSeriesModel>
    decreases fs.len(),
{
    if fs.len() == 0 {
        Seq::empty()
    } else {
        families_series(fs.drop_last(), ext, now) + metrics_series(
            fs.last(),
            fs.last().metrics,
            ext,
            now,
        )
    }
}

/// The metadata record of a family; the registry knows no unit.
pub open spec fn family_metadata(f: FamilyModel) -> MetadataModel {
    MetadataModel {
        metric_type: metric_type_code(kind_wire_type(f.kind)),
        metric_family_name: f.name,
        help: f.help,
        unit: Seq::empty(),
    }
}

/// The request that a snapshot yields at time `now`.
pub open spec fn encode_model(
    fs: Seq<FamilyModel>,
    ext: Seq<LabelModel>,
    now: i64,
) -> WriteRequestModel {
    WriteRequestModel {
        timeseries: families_series(fs, ext, now),
        metadata: fs.map_values(|f: FamilyModel| family_metadata(f)),
    }
}

pub open spec fn series_model(v: Seq<TimeSeries>) -> Seq<TimeSeriesModel> {
    v.map_values(|t: TimeSeries| t@)
}

proof fn lemma_series_model_push(v: Seq<TimeSeries>, x: TimeSeries)
    ensures
        series_model(v.push(x)) == series_model(v).push(x@),
{
    assert(series_model(v.push(x)) =~= series_model(v).push(x@));
}

/// `__name__ = series_name`, the metric's labels, the external labels.
fn base_label_vec(series_name: String, m: &Metric, ext: &Vec<Label>) -> (r: Vec<Label>)
    ensures
        labels_model(r@) == base_labels(series_name@, m@, labels_model(ext@)),
{
    let mut r: Vec<Label> = Vec::new();
    proof {
        reveal_strlit("__name__");
        assert("__name__"@ =~= name_key());
    }
    let ghost sn = series_name@;
    let first = Label { name: String::from_str("__name__"), value: series_name };
    r.push(first);
    assert(labels_model(r@) =~= seq![LabelModel { name: name_key(), value: sn }]);
    let ghost head = labels_model(r@);
    let mut i: usize = 0;
    while i < m.labels.len()
        invariant
            i <= m.labels@.len(),
            labels_model(r@) == head + labels_model(m.labels@).take(i as int),
        decreases m.labels@.len() - i,
    {
        let ghost before = r@;
        let l = m.labels[i].duplicate();
        r.push(l);
        proof {
            lemma_labels_model_push(before, l);
        }
        assert(labels_model(m.labels@).take(i as int + 1) == labels_model(m.labels@).take(
            i as int,
        ).push(m.labels@[i as int]@));
        i = i + 1;
    }
    assert(labels_model(m.labels@).take(i as int) == labels_model(m.labels@));
    let ghost mid = labels_model(r@);
    let mut k: usize = 0;
    while k < ext.len()
        invariant
            k <= ext@.len(),
            labels_model(r@) == mid + labels_model(ext@).take(k as int),
        decreases ext@.len() - k,
    {
        let ghost before = r@;
        let l = ext[k].duplicate();
        r.push(l);
        proof {
            lemma_labels_model_push(before, l);
        }
        assert(labels_model(ext@).take(k as int + 1) == labels_model(ext@).take(k as int).push(
            ext@[k as int]@,
        ));
        k = k + 1;
    }
    assert(labels_model(ext@).take(k as int) == labels_model(ext@));
    assert(labels_model(r@) =~= base_labels(sn, m@, labels_model(ext@)));
    r
}

fn one_sample_exec(labels: Vec<Label>, value: SampleValue, now: i64) -> (r: TimeSeries)
    ensures
        r@ == one_sample(labels_model(labels@), value, now),
{
    let samples = vec![Sample { value, timestamp: now }];
    let r = TimeSeries { labels, samples };
    assert(r@.samples == seq![Sample { value, timestamp: now }]);
    r
}

/// Appends the series of histogram `h`, a sample of family `family`.
fn push_histogram_series(
    out: &mut Vec<TimeSeries>,
    family: &String,
    m: &Metric,
    h: &HistogramData,
    ext: &Vec<Label>,
    now: i64,
)
    ensures
        series_model(final(out)@) == series_model(old(out)@) + histogram_series(
            family@,
            m@,
            h@,
            labels_model(ext@),
            now,
        ),
{
    let ghost e = labels_model(ext@);
    let ghost start = series_model(out@);
    let ghost all = histogram_series(family@, m@, h@, e, now);
    proof {
        reveal_strlit("_bucket");
        reveal_strlit("_count");
        reveal_strlit("_sum");
        reveal_strlit("le");
        assert("_bucket"@ =~= bucket_suffix());
        assert("_count"@ =~= count_suffix());
        assert("_sum"@ =~= sum_suffix());
        assert("le"@ =~= le_key());
    }
    let mut i: usize = 0;
    while i < h.buckets.len()
        invariant
            i <= h.buckets@.len(),
            e == labels_model(ext@),
            all == histogram_series(family@, m@, h@, e, now),
            "_bucket"@ == bucket_suffix(),
            "le"@ == le_key(),
            series_model(out@) == start + all.take(i as int),
        decreases h.buckets@.len() - i,
    {
        let b = &h.buckets[i];
        let name = family.clone().concat("_bucket");
        assert(name@ == family@ + bucket_suffix());
        let mut labels = base_label_vec(name, m, ext);
        let ghost base = labels@;
        let le = Label { name: String::from_str("le"), value: b.upper_bound.clone() };
        assert(le@ == LabelModel { name: le_key(), value: b.upper_bound@ });
        labels.push(le);
        proof {
            lemma_labels_model_push(base, le);
        }
        let sorted = sort_labels_exec(labels);
        let ts = one_sample_exec(sorted, SampleValue::Count(b.cumulative_count), now);
        assert(ts@ == all[i as int]) by {
            assert(labels_model(labels@) == base_labels(family@ + bucket_suffix(), m@, e).push(
                LabelModel { name: le_key(), value: b.upper_bound@ },
            ));
        }
        let ghost before = out@;
        out.push(ts);
        proof {
            lemma_series_model_push(before, ts);
        }
        assert(all.take(i as int + 1) == all.take(i as int).push(all[i as int]));
        i = i + 1;
    }
    let count_name = family.clone().concat("_count");
    let ts_count = one_sample_exec(
        sort_labels_exec(base_label_vec(count_name, m, ext)),
        SampleValue::Count(h.sample_count),
        now,
    );
    let ghost before_count = out@;
    out.push(ts_count);
    proof {
        lemma_series_model_push(before_count, ts_count);
    }
    let sum_name = family.clone().concat("_sum");
    let ts_sum = one_sample_exec(
        sort_labels_exec(base_label_vec(sum_name, m, ext)),
        SampleValue::Real(h.sample_sum),
        now,
    );
    let ghost before_sum = out@;
    out.push(ts_sum);
    proof {
        lemma_series_model_push(before_sum, ts_sum);
    }
    assert(all =~= all.take(i as int).push(all[i as int]).push(all[i as int + 1]));
}

fn push_scalar_series(
    out: &mut Vec<TimeSeries>,
    family: &String,
    m: &Metric,
    v: u64,
    ext: &Vec<Label>,
    now: i64,
)
    ensures
        series_model(final(out)@) == series_model(old(out)@).push(
            one_sample(
                sort_labels(base_labels(family@, m@, labels_model(ext@))),
                SampleValue::Real(v),
                now,
            ),
        ),
{
    let labels = sort_labels_exec(base_label_vec(family.clone(), m, ext));
    let ts = one_sample_exec(labels, SampleValue::Real(v), now);
    let ghost before = out@;
    out.push(ts);
    proof {
        lemma_series_model_push(before, ts);
    }
}

/// Appends the series that metric `m` of family `f` contributes.
fn push_metric_series(
    out: &mut Vec<TimeSeries>,
    f: &MetricFamily,
    m: &Metric,
    ext: &Vec<Label>,
    now: i64,
)
    ensures
        series_model(final(out)@) == series_model(old(out)@) + metric_series(
            f@,
            m@,
            labels_model(ext@),
            now,
        ),
{
    let ghost start = series_model(out@);
    match f.kind {
        MetricKind::Counter => {
            if let Some(v) = m.counter {
                push_scalar_series(out, &f.name, m, v, ext, now);
            }
        },
        MetricKind::Gauge => {
            if let Some(v) = m.gauge {
                push_scalar_series(out, &f.name, m, v, ext, now);
            }
        },
        MetricKind::Histogram => {
            if let Some(h) = &m.histogram {
                push_histogram_series(out, &f.name, m, h, ext, now);
            }
        },
        _ => {},
    }
    assert(series_model(out@) =~= start + metric_series(f@, m@, labels_model(ext@), now));
}

fn family_metadata_exec(f: &MetricFamily) -> (r: MetricMetadata)
    ensures
        r@ == family_metadata(f@),
{
    MetricMetadata {
        metric_type: f.kind.wire_type().code(),
        metric_family_name: f.name.clone(),
        help: f.help.clone(),
        unit: String::new(),
    }
}

/// Converts a snapshot into the request that carries it: per family, one
/// metadata record and the series of its metrics, every sample stamped
/// `now_ms`.
pub fn encode(
    snapshot: &Vec<MetricFamily>,
    external_labels: &Option<Vec<Label>>,
    now_ms: i64,
) -> (r: WriteRequest)
    ensures
        r@ == encode_model(snapshot_model(snapshot@), external_model(*external_labels), now_ms),
{
    let no_labels: Vec<Label> = Vec::new();
    let ext: &Vec<Label> = match external_labels {
        Some(v) => v,
        None => &no_labels,
    };
    let ghost e = labels_model(ext@);
    assert(e =~= external_model(*external_labels));
    let ghost fs = snapshot_model(snapshot@);
    let mut timeseries: Vec<TimeSeries> = Vec::new();
    let mut metadata: Vec<MetricMetadata> = Vec::new();
    let mut i: usize = 0;
    while i < snapshot.len()
        invariant
            i <= snapshot@.len(),
            e == labels_model(ext@),
            fs == snapshot_model(snapshot@),
            series_model(timeseries@) == families_series(fs.take(i as int), e, now_ms),
            metadata@.map_values(|x: MetricMetadata| x@) == fs.take(i as int).map_values(
                |f: FamilyModel| family_metadata(f),
            ),
        decreases snapshot@.len() - i,
    {
        let f = &snapshot[i];
        let md = family_metadata_exec(f);
        let ghost md_before = metadata@;
        metadata.push(md);
        assert(metadata@.map_values(|x: MetricMetadata| x@) =~= md_before.map_values(
            |x: MetricMetadata| x@,
        ).push(md@));
        assert(fs.take(i as int + 1) =~= fs.take(i as int).push(f@));
        assert(fs.take(i as int + 1).map_values(|f: FamilyModel| family_metadata(f))
            =~= fs.take(i as int).map_values(|f: FamilyModel| family_metadata(f)).push(
            family_metadata(f@),
        ));
        let ghost fam_start = series_model(timeseries@);
        let mut j: usize = 0;
        while j < f.metrics.len()
            invariant
                j <= f@.metrics.len(),
                f == &snapshot@[i as int],
                e == labels_model(ext@),
                series_model(timeseries@) == fam_start + metrics_series(
                    f@,
                    f@.metrics.take(j as int),
                    e,
                    now_ms,
                ),
            decreases f@.metrics.len() - j,
        {
            push_metric_series(&mut timeseries, f, &f.metrics[j], ext, now_ms);
            assert(f@.metrics.take(j as int + 1).drop_last() =~= f@.metrics.take(j as int));
            assert(f@.metrics[j as int] == f.metrics@[j as int]@);
            j = j + 1;
        }
        assert(f@.metrics.take(j as int) =~= f@.metrics);
        assert(fs.take(i as int + 1).drop_last() =~= fs.take(i as int));
        i = i + 1;
    }
    assert(fs.take(i as int) =~= fs);
    WriteRequest { timeseries, metadata }
}

/// Every series has its labels sorted by name.
pub open spec fn all_sorted(s: Seq<TimeSeriesModel>) -> bool {
    forall|i: int| 0 <= i < s.len() ==> sorted_by_name(#[trigger] s[i].labels)
}

/// The series with their timestamps left out.
pub open spec fn without_times(s: Seq<TimeSeriesModel>) -> Seq<(Seq<LabelModel>, Seq<SampleValue>)> {
    s.map_values(
        |t: TimeSeriesModel| (t.labels, t.samples.map_values(|x: Sample| x.value)),
    )
}

proof fn lemma_one_family(f: FamilyModel, ext: Seq<LabelModel>, now: i64)
    ensures
        families_series(seq![f], ext, now) == metrics_series(f, f.metrics, ext, now),
{
    let one = seq![f];
    assert(one.drop_last() =~= Seq::<FamilyModel>::empty());
    assert(one.last() == f);
    assert(families_series(Seq::<FamilyModel>::empty(), ext, now) == Seq::<TimeSeriesModel>::empty());
    assert(families_series(one, ext, now) == families_series(one.drop_last(), ext, now)
        + metrics_series(one.last(), one.last().metrics, ext, now));
    assert(families_series(one, ext, now) =~= metrics_series(f, f.metrics, ext, now));
}

proof fn lemma_one_metric(f: FamilyModel, ext: Seq<LabelModel>, now: i64)
    requires
        f.metrics.len() == 1,
    ensures
        families_series(seq![f], ext, now) == metric_series(f, f.metrics[0], ext, now),
{
    lemma_one_family(f, ext, now);
    assert(f.metrics.drop_last() =~= Seq::<MetricModel>::empty());
    assert(metrics_series(f, Seq::<MetricModel>::empty(), ext, now) == Seq::<TimeSeriesModel>::empty());
    assert(metrics_series(f, f.metrics, ext, now) == metrics_series(f, f.metrics.drop_last(), ext, now)
        + metric_series(f, f.metrics.last(), ext, now));
    assert(metrics_series(f, f.metrics, ext, now) =~= metric_series(f, f.metrics[0], ext, now));
}

/// A counter or gauge family with one valued metric yields exactly one series,
/// named after the family; its labels are `__name__`, the metric's labels and
/// the external labels, sorted by name, each kept once.
pub proof fn lemma_scalar_family_one_series(f: FamilyModel, ext: Seq<LabelModel>, now: i64)
    requires
        f.metrics.len() == 1,
        (f.kind == MetricKind::Counter && f.metrics[0].counter is Some) || (f.kind
            == MetricKind::Gauge && f.metrics[0].gauge is Some),
    ensures
        ({
            let ts = encode_model(seq![f], ext, now).timeseries;
            let base = base_labels(f.name, f.metrics[0], ext);
            &&& ts.len() == 1
            &&& ts[0].labels == sort_labels(base)
            &&& sorted_by_name(ts[0].labels)
            &&& ts[0].labels.to_multiset() == base.to_multiset()
            &&& ts[0].labels.contains(LabelModel { name: name_key(), value: f.name })
        }),
{
    broadcast use vstd::seq_lib::group_to_multiset_ensures;

    lemma_one_metric(f, ext, now);
    let base = base_labels(f.name, f.metrics[0], ext);
    let ts = encode_model(seq![f], ext, now).timeseries;
    lemma_sort_labels(base);
    let x = LabelModel { name: name_key(), value: f.name };
    assert(base[0] == x);
    assert(base.contains(x));
    assert(base.to_multiset().count(x) > 0);
    assert(sort_labels(base).to_multiset().count(x) > 0);
    assert(sort_labels(base).contains(x));
    assert(ts.len() == 1);
    assert(ts[0].labels == sort_labels(base));
}

/// A histogram family with one metric of `B` buckets yields exactly `B + 2`
/// series: bucket `i` named `<family>_bucket` with `le` equal to its upper
/// bound and its cumulative count, then `<family>_count` and `<family>_sum`.
pub proof fn lemma_histogram_family_series(f: FamilyModel, ext: Seq<LabelModel>, now: i64)
    requires
        f.metrics.len() == 1,
        f.kind == MetricKind::Histogram,
        f.metrics[0].histogram is Some,
    ensures
        ({
            let ts = encode_model(seq![f], ext, now).timeseries;
            let m = f.metrics[0];
            let h = m.histogram->Some_0;
            let b = h.buckets.len();
            &&& ts.len() == b + 2
            &&& forall|i: int|
                0 <= i < b ==> {
                    &&& sorted_by_name(#[trigger] ts[i].labels)
                    &&& ts[i].labels.to_multiset() == base_labels(
                        f.name + bucket_suffix(),
                        m,
                        ext,
                    ).push(LabelModel { name: le_key(), value: h.buckets[i].upper_bound }).to_multiset()
                    &&& ts[i].labels.contains(
                        LabelModel { name: le_key(), value: h.buckets[i].upper_bound },
                    )
                    &&& ts[i].labels.contains(
                        LabelModel { name: name_key(), value: f.name + bucket_suffix() },
                    )
                    &&& ts[i].samples == seq![
                        Sample {
                            value: SampleValue::Count(h.buckets[i].cumulative_count),
                            timestamp: now,
                        },
                    ]
                }
            &&& ts[b as int].labels.contains(
                LabelModel { name: name_key(), value: f.name + count_suffix() },
            )
            &&& ts[b as int].samples == seq![
                Sample { value: SampleValue::Count(h.sample_count), timestamp: now },
            ]
            &&& ts[b + 1int].labels.contains(
                LabelModel { name: name_key(), value: f.name + sum_suffix() },
            )
            &&& ts[b + 1int].samples == seq![
                Sample { value: SampleValue::Real(h.sample_sum), timestamp: now },
            ]
        }),
{
    broadcast use vstd::seq_lib::group_to_multiset_ensures;

    lemma_one_metric(f, ext, now);
    let ts = encode_model(seq![f], ext, now).timeseries;
    let m = f.metrics[0];
    let h = m.histogram->Some_0;
    let b = h.buckets.len();
    assert forall|i: int| 0 <= i < b implies {
        &&& sorted_by_name(#[trigger] ts[i].labels)
        &&& ts[i].labels.to_multiset() == base_labels(f.name + bucket_suffix(), m, ext).push(
            LabelModel { name: le_key(), value: h.buckets[i].upper_bound },
        ).to_multiset()
        &&& ts[i].labels.contains(LabelModel { name: le_key(), value: h.buckets[i].upper_bound })
        &&& ts[i].labels.contains(LabelModel { name: name_key(), value: f.name + bucket_suffix() })
    } by {
        let base = base_labels(f.name + bucket_suffix(), m, ext);
        let le = LabelModel { name: le_key(), value: h.buckets[i].upper_bound };
        let full = base.push(le);
        lemma_sort_labels(full);
        let nm = LabelModel { name: name_key(), value: f.name + bucket_suffix() };
        assert(full[full.len() - 1] == le);
        assert(full.contains(le));
        assert(full[0] == nm);
        assert(full.contains(nm));
        assert(sort_labels(full).to_multiset().count(le) > 0);
        assert(sort_labels(full).to_multiset().count(nm) > 0);
        assert(ts[i] == bucket_series(f.name, m, ext, h.buckets[i].upper_bound, h.buckets[i].cumulative_count, now));
        assert(ts[i].labels == sort_labels(full));
    }
    let cb = base_labels(f.name + count_suffix(), m, ext);
    lemma_sort_labels(cb);
    assert(cb.contains(cb[0]));
    assert(sort_labels(cb).to_multiset().count(cb[0]) > 0);
    let sb = base_labels(f.name + sum_suffix(), m, ext);
    lemma_sort_labels(sb);
    assert(sb.contains(sb[0]));
    assert(sort_labels(sb).to_multiset().count(sb[0]) > 0);
    assert(ts[b as int].labels == sort_labels(cb));
    assert(ts[b + 1int].labels == sort_labels(sb));
}

proof fn lemma_metric_series_sorted(f: FamilyModel, m: MetricModel, ext: Seq<LabelModel>, now: i64)
    ensures
        all_sorted(metric_series(f, m, ext, now)),
{
    let s = metric_series(f, m, ext, now);
    lemma_sort_labels(base_labels(f.name, m, ext));
    if f.kind == MetricKind::Histogram && m.histogram is Some {
        let h = m.histogram->Some_0;
        lemma_sort_labels(base_labels(f.name + count_suffix(), m, ext));
        lemma_sort_labels(base_labels(f.name + sum_suffix(), m, ext));
        assert forall|i: int| 0 <= i < s.len() implies sorted_by_name(#[trigger] s[i].labels) by {
            if i < h.buckets.len() {
                lemma_sort_labels(
                    base_labels(f.name + bucket_suffix(), m, ext).push(
                        LabelModel { name: le_key(), value: h.buckets[i].upper_bound },
                    ),
                );
            }
        }
    }
}

proof fn lemma_metrics_series_sorted(
    f: FamilyModel,
    ms: Seq<MetricModel>,
    ext: Seq<LabelModel>,
    now: i64,
)
    ensures
        all_sorted(metrics_series(f, ms, ext, now)),
    decreases ms.len(),
{
    if ms.len() > 0 {
        lemma_metrics_series_sorted(f, ms.drop_last(), ext, now);
        lemma_metric_series_sorted(f, ms.last(), ext, now);
        let a = metrics_series(f, ms.drop_last(), ext, now);
        let b = metric_series(f, ms.last(), ext, now);
        assert forall|i: int| 0 <= i < a.len() + b.len() implies sorted_by_name(
            #[trigger] (a + b)[i].labels,
        ) by {
            if i < a.len() {
                assert((a + b)[i] == a[i]);
            } else {
                assert((a + b)[i] == b[i - a.len()]);
            }
        }
    }
}

/// Every series of every request has its labels sorted by name.
pub proof fn lemma_encoded_labels_sorted(fs: Seq<FamilyModel>, ext: Seq<LabelModel>, now: i64)
    ensures
        all_sorted(encode_model(fs, ext, now).timeseries),
    decreases fs.len(),
{
    if fs.len() > 0 {
        lemma_encoded_labels_sorted(fs.drop_last(), ext, now);
        lemma_metrics_series_sorted(fs.last(), fs.last().metrics, ext, now);
        let a = families_series(fs.drop_last(), ext, now);
        let b = metrics_series(fs.last(), fs.last().metrics, ext, now);
        assert forall|i: int| 0 <= i < a.len() + b.len() implies sorted_by_name(
            #[trigger] (a + b)[i].labels,
        ) by {
            if i < a.len() {
                assert((a + b)[i] == a[i]);
            } else {
                assert((a + b)[i] == b[i - a.len()]);
            }
        }
    }
}

proof fn lemma_without_times_concat(a: Seq<TimeSeriesModel>, b: Seq<TimeSeriesModel>)
    ensures
        without_times(a + b) == without_times(a) + without_times(b),
{
    assert(without_times(a + b) =~= without_times(a) + without_times(b));
}

proof fn lemma_metric_series_retimed(
    f: FamilyModel,
    m: MetricModel,
    ext: Seq<LabelModel>,
    t1: i64,
    t2: i64,
)
    ensures
        without_times(metric_series(f, m, ext, t1)) == without_times(
            metric_series(f, m, ext, t2),
        ),
{
    let a = metric_series(f, m, ext, t1);
    let b = metric_series(f, m, ext, t2);
    assert(a.len() == b.len());
    assert forall|i: int| 0 <= i < a.len() implies #[trigger] without_times(a)[i] == without_times(
        b,
    )[i] by {
        assert(a[i].labels == b[i].labels);
        assert(a[i].samples.map_values(|x: Sample| x.value) =~= b[i].samples.map_values(
            |x: Sample| x.value,
        ));
    }
    assert(without_times(a) =~= without_times(b));
}

proof fn lemma_metrics_series_retimed(
    f: FamilyModel,
    ms: Seq<MetricModel>,
    ext: Seq<LabelModel>,
    t1: i64,
    t2: i64,
)
    ensures
        without_times(metrics_series(f, ms, ext, t1)) == without_times(
            metrics_series(f, ms, ext, t2),
        ),
    decreases ms.len(),
{
    if ms.len() > 0 {
        lemma_metrics_series_retimed(f, ms.drop_last(), ext, t1, t2);
        lemma_metric_series_retimed(f, ms.last(), ext, t1, t2);
        lemma_without_times_concat(
            metrics_series(f, ms.drop_last(), ext, t1),
            metric_series(f, ms.last(), ext, t1),
        );
        lemma_without_times_concat(
            metrics_series(f, ms.drop_last(), ext, t2),
            metric_series(f, ms.last(), ext, t2),
        );
    }
}

/// Encoding one snapshot at two instants gives the same metadata and the same
/// series, labels and values, in the same order: only timestamps differ.
pub proof fn lemma_encode_same_but_times(
    fs: Seq<FamilyModel>,
    ext: Seq<LabelModel>,
    t1: i64,
    t2: i64,
)
    ensures
        without_times(encode_model(fs, ext, t1).timeseries) == without_times(
            encode_model(fs, ext, t2).timeseries,
        ),
        encode_model(fs, ext, t1).metadata == encode_model(fs, ext, t2).metadata,
    decreases fs.len(),
{
    if fs.len() > 0 {
        lemma_encode_same_but_times(fs.drop_last(), ext, t1, t2);
        lemma_metrics_series_retimed(fs.last(), fs.last().metrics, ext, t1, t2);
        lemma_without_times_concat(
            families_series(fs.drop_last(), ext, t1),
            metrics_series(fs.last(), fs.last().metrics, ext, t1),
        );
        lemma_without_times_concat(
            families_series(fs.drop_last(), ext, t2),
            metrics_series(fs.last(), fs.last().metrics, ext, t2),
        );
    }
}

proof fn lemma_base_distinct(
    series_name: Seq<char>,
    m: MetricModel,
    ext: Seq<LabelModel>,
    extra: Seq<LabelModel>,
)
    requires
        names_distinct(m.labels + ext + extra),
        forall|k: int|
            0 <= k < (m.labels + ext + extra).len() ==> (m.labels + ext + extra)[k].name
                != name_key(),
    ensures
        names_distinct(base_labels(series_name, m, ext) + extra),
{
    let rest = m.labels + ext + extra;
    let all = base_labels(series_name, m, ext) + extra;
    assert(all =~= seq![LabelModel { name: name_key(), value: series_name }] + rest);
    assert forall|i: int, j: int| 0 <= i < j < all.len() implies all[i].name != all[j].name by {
        if i == 0 {
            assert(all[j] == rest[j - 1]);
        } else {
            assert(all[i] == rest[i - 1] && all[j] == rest[j - 1]);
        }
    }
}

/// Where a metric's labels and the external labels hold each name once, none
/// of them `__name__` or `le`, every series of that metric holds each label
/// name once.
pub proof fn lemma_series_names_distinct(
    f: FamilyModel,
    m: MetricModel,
    ext: Seq<LabelModel>,
    now: i64,
)
    requires
        names_distinct(m.labels + ext),
        forall|k: int|
            0 <= k < (m.labels + ext).len() ==> (m.labels + ext)[k].name != name_key() && (
            m.labels + ext)[k].name != le_key(),
    ensures
        forall|i: int|
            0 <= i < metric_series(f, m, ext, now).len() ==> names_distinct(
                #[trigger] metric_series(f, m, ext, now)[i].labels,
            ),
{
    let s = metric_series(f, m, ext, now);
    let none = Seq::<LabelModel>::empty();
    assert(m.labels + ext + none =~= m.labels + ext);
    assert forall|n: Seq<char>| true implies #[trigger] names_distinct(base_labels(n, m, ext)) by {
        lemma_base_distinct(n, m, ext, none);
        assert(base_labels(n, m, ext) + none =~= base_labels(n, m, ext));
    }
    assert forall|i: int| 0 <= i < s.len() implies names_distinct(#[trigger] s[i].labels) by {
        if f.kind == MetricKind::Histogram && m.histogram is Some {
            let h = m.histogram->Some_0;
            if i < h.buckets.len() {
                let le = LabelModel { name: le_key(), value: h.buckets[i].upper_bound };
                let extra = seq![le];
                let rest = m.labels + ext + extra;
                assert(rest =~= (m.labels + ext).push(le));
                assert forall|a: int, b: int| 0 <= a < b < rest.len() implies rest[a].name
                    != rest[b].name by {
                    if b == rest.len() - 1 {
                        assert(rest[a] == (m.labels + ext)[a]);
                        assert(le_key() != name_key());
                    } else {
                        assert(rest[a] == (m.labels + ext)[a] && rest[b] == (m.labels + ext)[b]);
                    }
                }
                assert forall|k: int| 0 <= k < rest.len() implies rest[k].name != name_key() by {
                    if k < rest.len() - 1 {
                        assert(rest[k] == (m.labels + ext)[k]);
                    } else {
                        assert(rest[k] == le);
                        assert(le_key()[0] != name_key()[0]);
                    }
                }
                lemma_base_distinct(f.name + bucket_suffix(), m, ext, extra);
                assert(base_labels(f.name + bucket_suffix(), m, ext) + extra =~= base_labels(
                    f.name + bucket_suffix(),
                    m,
                    ext,
                ).push(le));
                lemma_sort_keeps_names_distinct(
                    base_labels(f.name + bucket_suffix(), m, ext).push(le),
                );
            } else if i == h.buckets.len() {
                lemma_sort_keeps_names_distinct(base_labels(f.name + count_suffix(), m, ext));
            } else {
                lemma_sort_keeps_names_distinct(base_labels(f.name + sum_suffix(), m, ext));
            }
        } else {
            lemma_sort_keeps_names_distinct(base_labels(f.name, m, ext));
        }
    }
}

} // verus!
