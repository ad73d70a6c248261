use std::time::Instant;

use single_page_web_server_rs::metrics::{
    bucket_index, metrics_reply, route, Bucket, Metric, MetricKind, MetricValue, Metrics,
    MetricsReply, MetricsRoute, BUCKET_BOUNDS,
};

const SECOND: u128 = 1_000_000_000;

fn buckets_of(value: &MetricValue) -> (&[Bucket], u64, u128) {
    match value {
        MetricValue::Histogram { sample_count, sample_sum_nanos, buckets } => {
            (buckets, *sample_count, *sample_sum_nanos)
        }
        other => panic!("not a histogram: {:?}", other),
    }
}

fn labels_of(metric: &Metric) -> Vec<(&str, &str)> {
    metric.labels.iter().map(|l| (l.name, l.value.as_str())).collect()
}

fn headers_of<'r>(reply: &'r MetricsReply<'_>) -> Vec<(&'r str, &'r str)> {
    reply.headers.iter().map(|h| (h.name, h.value.as_str())).collect()
}

#[test]
fn buckets_by_their_bounds() {
    assert_eq!(
        BUCKET_BOUNDS,
        [0, 5, 10, 25, 50, 75, 100, 250, 500, 750, 1000, 2500, 5000, 7500, 10000]
    );
    assert_eq!(bucket_index(0), 0);
    assert_eq!(bucket_index(1), 1);
    assert_eq!(bucket_index(5 * SECOND), 1);
    assert_eq!(bucket_index(5 * SECOND + 1), 2);
    assert_eq!(bucket_index(10 * SECOND), 2);
    assert_eq!(bucket_index(11 * SECOND), 3);
    assert_eq!(bucket_index(750 * SECOND), 9);
    assert_eq!(bucket_index(10_000 * SECOND), 14);
    assert_eq!(bucket_index(10_000 * SECOND + 1), 15);
    assert_eq!(bucket_index(u128::MAX), 15);
}

#[test]
fn nothing_is_exposed_before_the_first_request() {
    let metrics = Metrics::new();
    assert!(metrics.get_metrics().is_empty());
    assert!(Metrics::default().get_metrics().is_empty());
}

#[test]
fn a_begun_request_is_counted_and_in_flight() {
    let mut metrics = Metrics::new();
    metrics.record_request("GET");
    let families = metrics.get_metrics();
    assert_eq!(families.len(), 2);
    assert_eq!(families[0].name, "http_requests_total");
    assert_eq!(families[0].help, "Total number of HTTP requests");
    assert_eq!(families[0].kind, MetricKind::Counter);
    assert_eq!(families[1].name, "http_requests_in_flight");
    assert_eq!(families[1].help, "Number of HTTP requests currently in flight");
    assert_eq!(families[1].kind, MetricKind::Gauge);
    assert_eq!(families[0].metrics.len(), 1);
    assert_eq!(labels_of(&families[0].metrics[0]), vec![("method", "GET")]);
    assert_eq!(labels_of(&families[1].metrics[0]), vec![("method", "GET")]);
    assert!(matches!(families[0].metrics[0].value, MetricValue::Counter(1)));
    assert!(matches!(families[1].metrics[0].value, MetricValue::Gauge(1)));
}

#[test]
fn handling_times_are_summed_and_put_into_buckets() {
    let mut metrics = Metrics::new();
    for nanos in [0, 1, 3 * SECOND, 5 * SECOND, 7 * SECOND, 20_000 * SECOND] {
        metrics.record_request("GET");
        metrics.observe("GET", 200, nanos);
    }
    metrics.record_request("GET");
    metrics.observe("GET", 304, 2 * SECOND);

    let families = metrics.get_metrics();
    assert_eq!(families.len(), 3);
    assert_eq!(families[2].name, "http_request_duration_seconds");
    assert_eq!(families[2].help, "HTTP request duration in seconds");
    assert_eq!(families[2].kind, MetricKind::Histogram);
    assert_eq!(families[2].metrics.len(), 2);

    let ok = &families[2].metrics[0];
    assert_eq!(labels_of(ok), vec![("method", "GET"), ("status", "200")]);
    let (buckets, count, sum) = buckets_of(&ok.value);
    assert_eq!(count, 6);
    assert_eq!(sum, 20_015 * SECOND + 1);
    assert_eq!(buckets.len(), 16);
    let bounds: Vec<Option<u64>> = buckets.iter().map(|b| b.upper_bound_seconds).collect();
    let mut expected: Vec<Option<u64>> = BUCKET_BOUNDS.iter().map(|b| Some(*b)).collect();
    expected.push(None);
    assert_eq!(bounds, expected);
    let cumulative: Vec<u64> = buckets.iter().map(|b| b.cumulative_count).collect();
    assert_eq!(cumulative, vec![1, 4, 5, 5, 5, 5, 5, 5, 5, 5, 5, 5, 5, 5, 5, 6]);

    let not_modified = &families[2].metrics[1];
    assert_eq!(labels_of(not_modified), vec![("method", "GET"), ("status", "304")]);
    let (buckets, count, sum) = buckets_of(&not_modified.value);
    assert_eq!((count, sum), (1, 2 * SECOND));
    assert_eq!(buckets[0].cumulative_count, 0);
    assert_eq!(buckets[1].cumulative_count, 1);
    assert_eq!(buckets[15].cumulative_count, 1);

    assert!(matches!(families[0].metrics[0].value, MetricValue::Counter(7)));
    assert!(matches!(families[1].metrics[0].value, MetricValue::Gauge(0)));
}

#[test]
fn methods_are_kept_apart_in_the_order_they_came() {
    let mut metrics = Metrics::new();
    for method in ["POST", "GET", "POST", "DELETE", "GET", "POST"] {
        metrics.record_request(method);
    }
    metrics.record_response("GET", 200, Instant::now());
    let families = metrics.get_metrics();
    let counted: Vec<Vec<(&str, &str)>> = families[0].metrics.iter().map(labels_of).collect();
    assert_eq!(
        counted,
        vec![vec![("method", "POST")], vec![("method", "GET")], vec![("method", "DELETE")]]
    );
    assert!(matches!(families[0].metrics[0].value, MetricValue::Counter(3)));
    assert!(matches!(families[0].metrics[1].value, MetricValue::Counter(2)));
    assert!(matches!(families[0].metrics[2].value, MetricValue::Counter(1)));
    assert!(matches!(families[1].metrics[0].value, MetricValue::Gauge(3)));
    assert!(matches!(families[1].metrics[1].value, MetricValue::Gauge(1)));
    assert!(matches!(families[1].metrics[2].value, MetricValue::Gauge(1)));
}

#[test]
fn an_answer_without_a_begun_request_takes_one_from_the_gauge() {
    let mut metrics = Metrics::new();
    metrics.observe("GET", 200, 1);
    let families = metrics.get_metrics();
    assert_eq!(families.len(), 3);
    assert!(matches!(families[0].metrics[0].value, MetricValue::Counter(0)));
    assert!(matches!(families[1].metrics[0].value, MetricValue::Gauge(-1)));
}

#[test]
fn the_exposition_is_at_its_path_only() {
    assert_eq!(route("/metrics"), MetricsRoute::Exposition);
    for path in ["/", "", "/metrics/", "/Metrics", "/metric", "/metrics2", "metrics", "/index.html"] {
        assert_eq!(route(path), MetricsRoute::NotFound, "{path}");
    }
}

#[test]
fn replies_of_the_metrics_listener() {
    let text = b"http_requests_total{method=\"GET\"} 1\n";
    let ok = metrics_reply(MetricsRoute::Exposition, Some(text));
    assert_eq!(ok.status, 200);
    assert_eq!(headers_of(&ok), vec![("Content-Type", "text/plain")]);
    assert_eq!(ok.body, text);

    let failed = metrics_reply(MetricsRoute::Exposition, None);
    assert_eq!(failed.status, 500);
    assert!(failed.headers.is_empty());
    assert!(failed.body.is_empty());

    let lost = metrics_reply(MetricsRoute::NotFound, None);
    assert_eq!(lost.status, 404);
    assert!(lost.headers.is_empty());
    assert_eq!(lost.body, b"Not Found");

    let lost = metrics_reply(MetricsRoute::NotFound, Some(text));
    assert_eq!(lost.status, 404);
    assert_eq!(lost.body, b"Not Found");
}
