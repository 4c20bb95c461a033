use squo::metric::{Metric, MetricType};
use squo::text::{strip_trailing_colons, tokens_vec, u128_to_string};

#[test]
fn metric_type_tokens() {
    assert_eq!(MetricType::Counter.display(), "counter");
    assert_eq!(MetricType::Gauge.display(), "gauge");
    assert_eq!(MetricType::Untyped.display(), "untyped");
}

#[test]
fn render_unlabeled_sample() {
    let mut m = Metric {
        name: "squo_mem_total".to_string(),
        ptype: MetricType::Gauge,
        values: Vec::new(),
    };
    m.add("32149948", None);
    assert_eq!(m.render(), "# TYPE squo_mem_total gauge\nsquo_mem_total 32149948\n");
}

#[test]
fn render_labeled_sample() {
    let mut m = Metric {
        name: "squo_disk_total".to_string(),
        ptype: MetricType::Gauge,
        values: Vec::new(),
    };
    m.add("1982843801600", Some(vec![("path", "/")]));
    assert_eq!(
        m.render(),
        "# TYPE squo_disk_total gauge\nsquo_disk_total{path=\"/\"} 1982843801600\n"
    );
}

#[test]
fn render_two_labels_in_insertion_order() {
    let mut m = Metric {
        name: "squo_example".to_string(),
        ptype: MetricType::Untyped,
        values: Vec::new(),
    };
    m.add("7", Some(vec![("b", "2"), ("a", "1")]));
    assert_eq!(m.render(), "# TYPE squo_example untyped\nsquo_example{b=\"2\",a=\"1\"} 7\n");
}

#[test]
fn render_no_samples_keeps_header() {
    let m = Metric {
        name: "squo_empty".to_string(),
        ptype: MetricType::Gauge,
        values: Vec::new(),
    };
    assert_eq!(m.render(), "# TYPE squo_empty gauge\n\n");
}

#[test]
fn render_twice_is_byte_identical() {
    let mut m = Metric {
        name: "squo_network_bytes_sent".to_string(),
        ptype: MetricType::Counter,
        values: Vec::new(),
    };
    m.add("1598190", Some(vec![("device", "lo")]));
    m.add("42", Some(vec![("device", "eth0")]));
    let first = m.render();
    let second = m.render();
    assert_eq!(first, second);
    assert_eq!(
        first,
        "# TYPE squo_network_bytes_sent counter\nsquo_network_bytes_sent{device=\"lo\"} 1598190\nsquo_network_bytes_sent{device=\"eth0\"} 42\n"
    );
}

#[test]
fn earlier_samples_are_not_mutated() {
    let mut m = Metric {
        name: "squo_x".to_string(),
        ptype: MetricType::Gauge,
        values: Vec::new(),
    };
    m.add("1", None);
    let before = m.values[0].clone();
    m.add("2", Some(vec![("k", "v")]));
    assert_eq!(m.values[0], before);
    assert_eq!(m.values.len(), 2);
}

#[test]
fn decimal_rendering() {
    assert_eq!(u128_to_string(0), "0");
    assert_eq!(u128_to_string(7), "7");
    assert_eq!(u128_to_string(409600), "409600");
    assert_eq!(u128_to_string(18446744073709551615), "18446744073709551615");
}

#[test]
fn tokenizer_splits_on_whitespace() {
    let toks = tokens_vec("MemTotal:       32149948 kB");
    assert_eq!(toks, vec!["MemTotal:".to_string(), "32149948".to_string(), "kB".to_string()]);
    let toks2 = tokens_vec("  \t a  b\tc ");
    assert_eq!(toks2, vec!["a".to_string(), "b".to_string(), "c".to_string()]);
    let none: Vec<String> = tokens_vec("   \t ");
    assert_eq!(none.len(), 0);
}

#[test]
fn strip_colon_and_idempotence() {
    assert_eq!(strip_trailing_colons("lo:"), "lo");
    assert_eq!(strip_trailing_colons("eth0"), "eth0");
    assert_eq!(strip_trailing_colons("lo::"), "lo");
    let once = strip_trailing_colons("enp3s0:");
    let twice = strip_trailing_colons(once.as_str());
    assert_eq!(once, twice);
}
