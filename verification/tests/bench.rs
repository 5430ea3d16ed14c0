use faiss_rabitq::bench::{default_nprobe, lcg_sample, lcg_step, training_count};
use faiss_rabitq::{help_text, parse_args, parse_metric, recall_hits, valid_hits, BenchConfig, MetricType};

fn args(list: &[&str]) -> Vec<String> {
    list.iter().map(|s| s.to_string()).collect()
}

#[test]
fn default_configuration() {
    let cfg = BenchConfig::default();
    assert_eq!(cfg.embeddings, 100_000);
    assert_eq!(cfg.dimension, 64);
    assert_eq!(cfg.queries, 1_000);
    assert_eq!(cfg.k, 10);
    assert_eq!(cfg.nlist, 1_024);
    assert_eq!(cfg.rabitq_data_nbits, 1);
    assert_eq!(cfg.rabitq_nbits, 8);
    assert_eq!(cfg.hnsw_m, 32);
    assert_eq!(cfg.hnsw_ef_build, 200);
    assert_eq!(cfg.hnsw_ef_search, 128);
    assert_eq!(cfg.metric, MetricType::L2);
    assert!(!cfg.with_recall);
    assert_eq!(parse_args(&args(&[])).unwrap(), cfg);
}

#[test]
fn flags_set_fields() {
    let cfg = parse_args(&args(&[
        "-n", "5000", "-d", "32", "-q", "20", "--k", "7", "--nlist", "64", "--nbits", "4",
        "--data-nbits", "2", "--hnsw-m", "16", "--ef-build", "40", "--ef-search", "30",
        "--metric", "IP", "--with-recall",
    ]))
    .unwrap();
    assert_eq!(
        cfg,
        BenchConfig {
            embeddings: 5000,
            dimension: 32,
            queries: 20,
            k: 7,
            nlist: 64,
            rabitq_data_nbits: 2,
            rabitq_nbits: 4,
            hnsw_m: 16,
            hnsw_ef_build: 40,
            hnsw_ef_search: 30,
            metric: MetricType::InnerProduct,
            with_recall: true,
        }
    );
    let long = parse_args(&args(&[
        "--embeddings", "+300", "--dimension", "8", "--queries", "3", "--rabitq-nbits", "0",
        "--rabitq-data-nbits", "8", "--metric", "inner_product",
    ]))
    .unwrap();
    assert_eq!(long.embeddings, 300);
    assert_eq!(long.dimension, 8);
    assert_eq!(long.queries, 3);
    assert_eq!(long.rabitq_nbits, 0);
    assert_eq!(long.rabitq_data_nbits, 8);
    assert_eq!(long.metric, MetricType::InnerProduct);
    let later = parse_args(&args(&["--k", "3", "--k", "5"])).unwrap();
    assert_eq!(later.k, 5);
}

#[test]
fn bad_values_are_reported() {
    assert_eq!(
        parse_args(&args(&["--k"])).unwrap_err(),
        "missing value after --k"
    );
    assert_eq!(
        parse_args(&args(&["--embeddings", "ten"])).unwrap_err(),
        "invalid embeddings value: invalid digit found in string"
    );
    assert_eq!(
        parse_args(&args(&["-d", ""])).unwrap_err(),
        "invalid dimension value: cannot parse integer from empty string"
    );
    assert_eq!(
        parse_args(&args(&["--nbits", "256"])).unwrap_err(),
        "invalid rabitq nbits value: number too large to fit in target type"
    );
    assert_eq!(
        parse_args(&args(&["--data-nbits", "-1"])).unwrap_err(),
        "invalid rabitq data nbits value: invalid digit found in string"
    );
    assert_eq!(
        parse_args(&args(&["--queries", "+"])).unwrap_err(),
        "invalid queries value: invalid digit found in string"
    );
    assert_eq!(
        parse_args(&args(&["--nlist", "99999999999999999999999"])).unwrap_err(),
        "invalid nlist value: number too large to fit in target type"
    );
    assert_eq!(
        parse_args(&args(&["--hnsw-m", "x"])).unwrap_err(),
        "invalid hnsw-m value: invalid digit found in string"
    );
    assert_eq!(
        parse_args(&args(&["--ef-build", "1.5"])).unwrap_err(),
        "invalid ef-build value: invalid digit found in string"
    );
    assert_eq!(
        parse_args(&args(&["--ef-search", " 3"])).unwrap_err(),
        "invalid ef-search value: invalid digit found in string"
    );
    assert_eq!(
        parse_args(&args(&["--k", "k"])).unwrap_err(),
        "invalid k value: invalid digit found in string"
    );
    assert_eq!(
        parse_args(&args(&["--metric", "cosine"])).unwrap_err(),
        "unsupported metric 'cosine'. Use 'l2' or 'ip'."
    );
}

#[test]
fn unknown_flags_and_help() {
    assert_eq!(parse_args(&args(&["--help"])).unwrap_err(), help_text());
    assert_eq!(parse_args(&args(&["-h", "--bogus"])).unwrap_err(), help_text());
    assert_eq!(
        parse_args(&args(&["--bogus"])).unwrap_err(),
        format!("unknown argument '--bogus'\n\n{}", help_text())
    );
}

#[test]
fn help_text_lines() {
    let text = help_text();
    let lines: Vec<&str> = text.split('\n').collect();
    assert_eq!(lines.len(), 19);
    assert_eq!(lines[0], "Benchmark Faiss IVF-RaBitQ, IVF-SQ8, and HNSW from Rust");
    assert_eq!(lines[1], "");
    assert_eq!(lines[2], "Defaults:");
    assert_eq!(lines[18], "  -h, --help");
}

#[test]
fn configuration_checks() {
    let cases: [(&[&str], &str); 11] = [
        (&["-n", "0"], "embeddings must be > 0"),
        (&["-d", "0"], "dimension must be > 0"),
        (&["-q", "0"], "queries must be > 0"),
        (&["--k", "0"], "k must be > 0"),
        (&["-n", "5", "--k", "6"], "k must be <= embeddings"),
        (&["--nlist", "0"], "nlist must be > 0"),
        (&["--nbits", "9"], "rabitq nbits must be in [0, 8]"),
        (&["--data-nbits", "0"], "rabitq data nbits must be > 0"),
        (&["--hnsw-m", "0"], "hnsw-m must be > 0"),
        (&["--ef-build", "0"], "ef-build must be > 0"),
        (&["--ef-search", "0"], "ef-search must be > 0"),
    ];
    for (list, msg) in cases {
        assert_eq!(parse_args(&args(list)).unwrap_err(), msg);
    }
    assert!(parse_args(&args(&["-n", "5", "--k", "5"])).is_ok());
    assert_eq!(
        parse_args(&args(&["-n", "0", "-d", "0"])).unwrap_err(),
        "embeddings must be > 0"
    );
}

#[test]
fn metric_names() {
    assert_eq!(parse_metric("l2").unwrap(), MetricType::L2);
    assert_eq!(parse_metric("L2").unwrap(), MetricType::L2);
    assert_eq!(parse_metric("ip").unwrap(), MetricType::InnerProduct);
    assert_eq!(parse_metric("Inner_Product").unwrap(), MetricType::InnerProduct);
    assert_eq!(
        parse_metric("Cos").unwrap_err(),
        "unsupported metric 'Cos'. Use 'l2' or 'ip'."
    );
}

#[test]
fn counting_valid_hits() {
    assert_eq!(valid_hits(&[]), 0);
    assert_eq!(valid_hits(&[0, -1, 5, -1, 7]), 3);
    assert_eq!(valid_hits(&[-1, -1]), 0);
}

#[test]
fn counting_recall_hits() {
    let predicted = [1, 2, 3, -1, 5, 9];
    let truth = [3, 2, 7, 5, 6, 9];
    assert_eq!(recall_hits(&predicted, &truth, 3), 4);
    assert_eq!(recall_hits(&predicted, &truth, 6), 4);
    assert_eq!(recall_hits(&[-1, -1], &[-1, -1], 2), 0);
    assert_eq!(recall_hits(&[4, 4, 4, 4, 4], &[4, 0, 0, 0], 2), 2);
}

#[test]
fn nprobe_and_training_sizes() {
    assert_eq!(default_nprobe(1024), 64);
    assert_eq!(default_nprobe(8), 1);
    assert_eq!(default_nprobe(160), 10);
    assert_eq!(default_nprobe(100_000), 64);
    assert_eq!(training_count(100_000), 25_000);
    assert_eq!(training_count(512), 512);
}

#[test]
fn generator_steps() {
    let s0 = 0x1234_5678_9abc_def0_u64;
    let s1 = lcg_step(s0);
    assert_eq!(s1, s0.wrapping_mul(6364136223846793005).wrapping_add(1));
    assert_eq!(lcg_step(0), 1);
    assert_eq!(lcg_sample(s1), (s1 >> 33) as u32);
    assert_eq!(lcg_sample(u64::MAX), 0x7fff_ffff);
    let x = lcg_sample(s1) as f32 / (1_u32 << 31) as f32;
    assert!((0.0..1.0).contains(&x));
}

#[test]
fn readme_default_flags_give_the_defaults() {
    let cfg = parse_args(&args(&[
        "--embeddings", "100000", "--dimension", "64", "--queries", "1000", "--k", "10",
        "--nlist", "1024", "--hnsw-m", "32", "--metric", "l2",
    ]))
    .unwrap();
    assert_eq!(cfg, BenchConfig::default());
}
