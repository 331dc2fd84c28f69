use seal_proxy::encoder::encode;
use seal_proxy::snapshot::{Bucket, HistogramData, Metric, MetricFamily, MetricKind};
use seal_proxy::wire::{Label, MetricType, SampleValue, TimeSeries};

fn label(n: &str, v: &str) -> Label {
    Label::new(n.to_string(), v.to_string())
}

fn pairs(ts: &TimeSeries) -> Vec<(String, String)> {
    ts.labels.iter().map(|l| (l.name.clone(), l.value.clone())).collect()
}

fn scalar(labels: Vec<Label>, counter: Option<f64>, gauge: Option<f64>) -> Metric {
    Metric {
        labels,
        counter: counter.map(|v| v.to_bits()),
        gauge: gauge.map(|v| v.to_bits()),
        histogram: None,
    }
}

fn latency_family() -> MetricFamily {
    let buckets = vec![
        Bucket { upper_bound: "10".to_string(), cumulative_count: 2 },
        Bucket { upper_bound: "50".to_string(), cumulative_count: 5 },
        Bucket { upper_bound: "+Inf".to_string(), cumulative_count: 5 },
    ];
    MetricFamily {
        name: "latency_ms".to_string(),
        kind: MetricKind::Histogram,
        help: "latency".to_string(),
        metrics: vec![Metric {
            labels: vec![],
            counter: None,
            gauge: None,
            histogram: Some(HistogramData {
                buckets,
                sample_count: 5,
                sample_sum: 120.0f64.to_bits(),
            }),
        }],
    }
}

#[test]
fn counter_with_external_label() {
    let fam = MetricFamily {
        name: "requests_total".to_string(),
        kind: MetricKind::Counter,
        help: "requests".to_string(),
        metrics: vec![scalar(vec![label("route", "/x")], Some(5.0), None)],
    };
    let req = encode(&vec![fam], &Some(vec![label("env", "prod")]), 1234);
    assert_eq!(req.timeseries.len(), 1);
    let ts = &req.timeseries[0];
    assert_eq!(
        pairs(ts),
        vec![
            ("__name__".to_string(), "requests_total".to_string()),
            ("env".to_string(), "prod".to_string()),
            ("route".to_string(), "/x".to_string()),
        ]
    );
    assert_eq!(ts.samples.len(), 1);
    assert_eq!(ts.samples[0].value, SampleValue::Real(5.0f64.to_bits()));
    assert_eq!(ts.samples[0].timestamp, 1234);
    assert_eq!(req.metadata.len(), 1);
    assert_eq!(req.metadata[0].metric_type, 1);
    assert_eq!(req.metadata[0].metric_family_name, "requests_total");
    assert_eq!(req.metadata[0].help, "requests");
    assert_eq!(req.metadata[0].unit, "");
}

#[test]
fn histogram_expands_to_buckets_count_and_sum() {
    let req = encode(&vec![latency_family()], &None, 7);
    assert_eq!(req.timeseries.len(), 5);
    let les = ["10", "50", "+Inf"];
    let counts = [2u64, 5, 5];
    for i in 0..3 {
        assert_eq!(
            pairs(&req.timeseries[i]),
            vec![
                ("__name__".to_string(), "latency_ms_bucket".to_string()),
                ("le".to_string(), les[i].to_string()),
            ]
        );
        assert_eq!(req.timeseries[i].samples[0].value, SampleValue::Count(counts[i]));
    }
    assert_eq!(
        pairs(&req.timeseries[3]),
        vec![("__name__".to_string(), "latency_ms_count".to_string())]
    );
    assert_eq!(req.timeseries[3].samples[0].value, SampleValue::Count(5));
    assert_eq!(
        pairs(&req.timeseries[4]),
        vec![("__name__".to_string(), "latency_ms_sum".to_string())]
    );
    assert_eq!(req.timeseries[4].samples[0].value, SampleValue::Real(120.0f64.to_bits()));
    assert_eq!(req.metadata[0].metric_type, MetricType::Histogram.code());
    assert_eq!(req.metadata[0].metric_type, 3);
}

#[test]
fn histogram_labels_sorted_with_le() {
    let mut fam = latency_family();
    fam.metrics[0].labels = vec![label("zone", "a"), label("host", "h")];
    let req = encode(&vec![fam], &Some(vec![label("env", "prod")]), 0);
    let names: Vec<String> = req.timeseries[0].labels.iter().map(|l| l.name.clone()).collect();
    assert_eq!(names, vec!["__name__", "env", "host", "le", "zone"]);
    let names: Vec<String> = req.timeseries[4].labels.iter().map(|l| l.name.clone()).collect();
    assert_eq!(names, vec!["__name__", "env", "host", "zone"]);
}

#[test]
fn gauge_series_and_metadata() {
    let fam = MetricFamily {
        name: "temp".to_string(),
        kind: MetricKind::Gauge,
        help: "h".to_string(),
        metrics: vec![scalar(vec![], None, Some(-1.5))],
    };
    let req = encode(&vec![fam], &None, 3);
    assert_eq!(req.timeseries.len(), 1);
    assert_eq!(req.timeseries[0].samples[0].value, SampleValue::Real((-1.5f64).to_bits()));
    assert_eq!(req.metadata[0].metric_type, 2);
}

#[test]
fn summary_and_untyped_have_metadata_only() {
    let summary = MetricFamily {
        name: "s".to_string(),
        kind: MetricKind::Summary,
        help: String::new(),
        metrics: vec![scalar(vec![], Some(1.0), Some(1.0))],
    };
    let untyped = MetricFamily {
        name: "u".to_string(),
        kind: MetricKind::Untyped,
        help: String::new(),
        metrics: vec![scalar(vec![], Some(1.0), Some(1.0))],
    };
    let req = encode(&vec![summary, untyped], &None, 3);
    assert_eq!(req.timeseries.len(), 0);
    assert_eq!(req.metadata.len(), 2);
    assert_eq!(req.metadata[0].metric_type, 5);
    assert_eq!(req.metadata[1].metric_type, 0);
}

#[test]
fn empty_family_and_absent_value() {
    let empty = MetricFamily {
        name: "e".to_string(),
        kind: MetricKind::Counter,
        help: String::new(),
        metrics: vec![],
    };
    let absent = MetricFamily {
        name: "a".to_string(),
        kind: MetricKind::Counter,
        help: String::new(),
        metrics: vec![scalar(vec![], None, Some(2.0))],
    };
    let req = encode(&vec![empty, absent], &None, 3);
    assert_eq!(req.timeseries.len(), 0);
    assert_eq!(req.metadata.len(), 2);
}

#[test]
fn encoding_twice_differs_only_in_timestamps() {
    let fam = MetricFamily {
        name: "requests_total".to_string(),
        kind: MetricKind::Counter,
        help: "requests".to_string(),
        metrics: vec![
            scalar(vec![label("route", "/a")], Some(1.0), None),
            scalar(vec![label("route", "/b")], Some(2.0), None),
        ],
    };
    let snap = vec![fam, latency_family()];
    let ext = Some(vec![label("env", "prod")]);
    let a = encode(&snap, &ext, 100);
    let b = encode(&snap, &ext, 200);
    assert_eq!(a.timeseries.len(), b.timeseries.len());
    for (x, y) in a.timeseries.iter().zip(b.timeseries.iter()) {
        assert_eq!(pairs(x), pairs(y));
        assert_eq!(x.samples[0].value, y.samples[0].value);
        assert_eq!(x.samples[0].timestamp, 100);
        assert_eq!(y.samples[0].timestamp, 200);
    }
}

#[test]
fn colliding_external_label_is_kept_after_metric_label() {
    let fam = MetricFamily {
        name: "c".to_string(),
        kind: MetricKind::Counter,
        help: String::new(),
        metrics: vec![scalar(vec![label("env", "dev")], Some(1.0), None)],
    };
    let req = encode(&vec![fam], &Some(vec![label("env", "prod")]), 0);
    assert_eq!(
        pairs(&req.timeseries[0]),
        vec![
            ("__name__".to_string(), "c".to_string()),
            ("env".to_string(), "dev".to_string()),
            ("env".to_string(), "prod".to_string()),
        ]
    );
}

#[test]
fn label_order_is_bytewise() {
    let fam = MetricFamily {
        name: "c".to_string(),
        kind: MetricKind::Counter,
        help: String::new(),
        metrics: vec![scalar(
            vec![label("b", "1"), label("B", "2"), label("ab", "3"), label("a", "4")],
            Some(1.0),
            None,
        )],
    };
    let req = encode(&vec![fam], &None, 0);
    let names: Vec<String> = req.timeseries[0].labels.iter().map(|l| l.name.clone()).collect();
    assert_eq!(names, vec!["B", "__name__", "a", "ab", "b"]);
}
