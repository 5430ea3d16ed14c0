//! The benchmark's configuration and the integer side of its bookkeeping:
//! reading the command line, counting hits, and the pseudo-random stream
//! that the synthetic vectors are drawn from.

use vstd::prelude::*;
use crate::text::{str_equals, to_ascii_lower, ascii_lower};
use crate::number::{parse_unsigned, parse_unsigned_spec, int_error_text};
use crate::error::MetricType;

verus! {

/// How the benchmark runs.
#[derive(Debug, Clone, Copy, PartialEq, Eq, Structural)]
pub struct BenchConfig {
    pub embeddings: usize,
    pub dimension: usize,
    pub queries: usize,
    pub k: usize,
    pub nlist: usize,
    pub rabitq_data_nbits: u8,
    pub rabitq_nbits: u8,
    pub hnsw_m: usize,
    pub hnsw_ef_build: usize,
    pub hnsw_ef_search: usize,
    pub metric: MetricType,
    pub with_recall: bool,
}

/// The configuration without flags: 100000 embeddings of dimension 64,
/// 1000 queries for the 10 nearest, 1024 lists, RaBitQ with 1 data bit and
/// 8 query bits, HNSW with M 32, efConstruction 200 and efSearch 128, the L2
/// metric, and no recall.
pub open spec fn default_config() -> BenchConfig {
    BenchConfig {
        embeddings: 100000,
        dimension: 64,
        queries: 1000,
        k: 10,
        nlist: 1024,
        rabitq_data_nbits: 1,
        rabitq_nbits: 8,
        hnsw_m: 32,
        hnsw_ef_build: 200,
        hnsw_ef_search: 128,
        metric: MetricType::L2,
        with_recall: false,
    }
}

impl Default for BenchConfig {
    fn default() -> (c: Self)
        ensures
            c == default_config(),
    {
        BenchConfig {
            embeddings: 100000,
            dimension: 64,
            queries: 1000,
            k: 10,
            nlist: 1024,
            rabitq_data_nbits: 1,
            rabitq_nbits: 8,
            hnsw_m: 32,
            hnsw_ef_build: 200,
            hnsw_ef_search: 128,
            metric: MetricType::L2,
            with_recall: false,
        }
    }
}

/// The flags the benchmark knows.
#[derive(Debug, Clone, Copy, PartialEq, Eq, Structural)]
pub enum BenchFlag {
    Embeddings,
    Dimension,
    Queries,
    K,
    Nlist,
    Nbits,
    DataNbits,
    HnswM,
    EfBuild,
    EfSearch,
    Metric,
    WithRecall,
    Help,
}

/// Which flag an argument names, with its short and long spellings.
pub open spec fn flag_kind(a: Seq<char>) -> Option<BenchFlag> {
    if a == "--embeddings"@ || a == "-n"@ {
        Some(BenchFlag::Embeddings)
    } else if a == "--dimension"@ || a == "-d"@ {
        Some(BenchFlag::Dimension)
    } else if a == "--queries"@ || a == "-q"@ {
        Some(BenchFlag::Queries)
    } else if a == "--k"@ {
        Some(BenchFlag::K)
    } else if a == "--nlist"@ {
        Some(BenchFlag::Nlist)
    } else if a == "--nbits"@ || a == "--rabitq-nbits"@ {
        Some(BenchFlag::Nbits)
    } else if a == "--data-nbits"@ || a == "--rabitq-data-nbits"@ {
        Some(BenchFlag::DataNbits)
    } else if a == "--hnsw-m"@ {
        Some(BenchFlag::HnswM)
    } else if a == "--ef-build"@ {
        Some(BenchFlag::EfBuild)
    } else if a == "--ef-search"@ {
        Some(BenchFlag::EfSearch)
    } else if a == "--metric"@ {
        Some(BenchFlag::Metric)
    } else if a == "--with-recall"@ {
        Some(BenchFlag::WithRecall)
    } else if a == "--help"@ || a == "-h"@ {
        Some(BenchFlag::Help)
    } else {
        None
    }
}

/// Which flag an argument names.
pub fn classify_flag(a: &str) -> (f: Option<BenchFlag>)
    ensures
        f == flag_kind(a@),
{
    if str_equals(a, "--embeddings") || str_equals(a, "-n") {
        Some(BenchFlag::Embeddings)
    } else if str_equals(a, "--dimension") || str_equals(a, "-d") {
        Some(BenchFlag::Dimension)
    } else if str_equals(a, "--queries") || str_equals(a, "-q") {
        Some(BenchFlag::Queries)
    } else if str_equals(a, "--k") {
        Some(BenchFlag::K)
    } else if str_equals(a, "--nlist") {
        Some(BenchFlag::Nlist)
    } else if str_equals(a, "--nbits") || str_equals(a, "--rabitq-nbits") {
        Some(BenchFlag::Nbits)
    } else if str_equals(a, "--data-nbits") || str_equals(a, "--rabitq-data-nbits") {
        Some(BenchFlag::DataNbits)
    } else if str_equals(a, "--hnsw-m") {
        Some(BenchFlag::HnswM)
    } else if str_equals(a, "--ef-build") {
        Some(BenchFlag::EfBuild)
    } else if str_equals(a, "--ef-search") {
        Some(BenchFlag::EfSearch)
    } else if str_equals(a, "--metric") {
        Some(BenchFlag::Metric)
    } else if str_equals(a, "--with-recall") {
        Some(BenchFlag::WithRecall)
    } else if str_equals(a, "--help") || str_equals(a, "-h") {
        Some(BenchFlag::Help)
    } else {
        None
    }
}

/// The metric that a (case-insensitive) name selects: "l2", or "ip" and
/// "inner_product".
pub open spec fn metric_named(value: Seq<char>) -> Option<MetricType> {
    let lower = ascii_lower(value);
    if lower == "l2"@ {
        Some(MetricType::L2)
    } else if lower == "ip"@ || lower == "inner_product"@ {
        Some(MetricType::InnerProduct)
    } else {
        None
    }
}

/// The message for a metric name that selects none.
pub open spec fn unsupported_metric_text(value: Seq<char>) -> Seq<char> {
    "unsupported metric '"@ + value + "'. Use 'l2' or 'ip'."@
}

/// The metric that `value` names.
pub fn parse_metric(value: &str) -> (r: Result<MetricType, String>)
    ensures
        match metric_named(value@) {
            Some(m) => r == Ok::<MetricType, String>(m),
            None => r matches Err(s) && s@ == unsupported_metric_text(value@),
        },
{
    let lower = to_ascii_lower(value);
    if str_equals(lower.as_str(), "l2") {
        Ok(MetricType::L2)
    } else if str_equals(lower.as_str(), "ip") || str_equals(lower.as_str(), "inner_product") {
        Ok(MetricType::InnerProduct)
    } else {
        let mut m = String::from_str("unsupported metric '");
        m.append(value);
        m.append("'. Use 'l2' or 'ip'.");
        Err(m)
    }
}

/// The largest value that a numeric flag takes (its field is a `usize`, or
/// a `u8` for the RaBitQ bit counts).
pub open spec fn flag_max(f: BenchFlag) -> nat {
    match f {
        BenchFlag::Nbits | BenchFlag::DataNbits => 255,
        _ => usize::MAX as nat,
    }
}

/// The start of the message for a value that is not a number.
pub open spec fn value_error_prefix(f: BenchFlag) -> Seq<char> {
    match f {
        BenchFlag::Embeddings => "invalid embeddings value: "@,
        BenchFlag::Dimension => "invalid dimension value: "@,
        BenchFlag::Queries => "invalid queries value: "@,
        BenchFlag::K => "invalid k value: "@,
        BenchFlag::Nlist => "invalid nlist value: "@,
        BenchFlag::Nbits => "invalid rabitq nbits value: "@,
        BenchFlag::DataNbits => "invalid rabitq data nbits value: "@,
        BenchFlag::HnswM => "invalid hnsw-m value: "@,
        BenchFlag::EfBuild => "invalid ef-build value: "@,
        _ => "invalid ef-search value: "@,
    }
}

/// `cfg` with the field of the numeric flag `f` set to `n`.
pub open spec fn with_number(cfg: BenchConfig, f: BenchFlag, n: nat) -> BenchConfig {
    match f {
        BenchFlag::Embeddings => BenchConfig { embeddings: n as usize, ..cfg },
        BenchFlag::Dimension => BenchConfig { dimension: n as usize, ..cfg },
        BenchFlag::Queries => BenchConfig { queries: n as usize, ..cfg },
        BenchFlag::K => BenchConfig { k: n as usize, ..cfg },
        BenchFlag::Nlist => BenchConfig { nlist: n as usize, ..cfg },
        BenchFlag::Nbits => BenchConfig { rabitq_nbits: n as u8, ..cfg },
        BenchFlag::DataNbits => BenchConfig { rabitq_data_nbits: n as u8, ..cfg },
        BenchFlag::HnswM => BenchConfig { hnsw_m: n as usize, ..cfg },
        BenchFlag::EfBuild => BenchConfig { hnsw_ef_build: n as usize, ..cfg },
        _ => BenchConfig { hnsw_ef_search: n as usize, ..cfg },
    }
}

/// Whether a flag takes a value.
pub open spec fn takes_value(f: BenchFlag) -> bool {
    f != BenchFlag::WithRecall && f != BenchFlag::Help
}

/// `cfg` after the flag `f` (which takes a value) with value `value`.
pub open spec fn apply_value(cfg: BenchConfig, f: BenchFlag, value: Seq<char>) -> Result<
    BenchConfig,
    Seq<char>,
> {
    if f == BenchFlag::Metric {
        match metric_named(value) {
            Some(m) => Ok(BenchConfig { metric: m, ..cfg }),
            None => Err(unsupported_metric_text(value)),
        }
    } else {
        match parse_unsigned_spec(value, flag_max(f)) {
            Ok(n) => Ok(with_number(cfg, f, n)),
            Err(e) => Err(value_error_prefix(f) + int_error_text(e)),
        }
    }
}

/// The configuration after the arguments from position `i` on, starting
/// from `cfg`, or the message of the first argument that is refused.
pub open spec fn apply_args(cfg: BenchConfig, args: Seq<Seq<char>>, i: nat) -> Result<
    BenchConfig,
    Seq<char>,
>
    decreases args.len() - i,
{
    if i >= args.len() {
        Ok(cfg)
    } else {
        match flag_kind(args[i as int]) {
            None => Err("unknown argument '"@ + args[i as int] + "'\n\n"@ + help_text_spec()),
            Some(BenchFlag::Help) => Err(help_text_spec()),
            Some(BenchFlag::WithRecall) => apply_args(
                BenchConfig { with_recall: true, ..cfg },
                args,
                i + 1,
            ),
            Some(f) => if i + 1 >= args.len() {
                Err("missing value after "@ + args[i as int])
            } else {
                match apply_value(cfg, f, args[i + 1int]) {
                    Ok(c) => apply_args(c, args, i + 2),
                    Err(m) => Err(m),
                }
            },
        }
    }
}

/// The checks on a configuration, in order; the first that fails gives the
/// message.
pub open spec fn check_config(c: BenchConfig) -> Result<BenchConfig, Seq<char>> {
    if c.embeddings == 0 {
        Err("embeddings must be > 0"@)
    } else if c.dimension == 0 {
        Err("dimension must be > 0"@)
    } else if c.queries == 0 {
        Err("queries must be > 0"@)
    } else if c.k == 0 {
        Err("k must be > 0"@)
    } else if c.k > c.embeddings {
        Err("k must be <= embeddings"@)
    } else if c.nlist == 0 {
        Err("nlist must be > 0"@)
    } else if c.rabitq_nbits > 8 {
        Err("rabitq nbits must be in [0, 8]"@)
    } else if c.rabitq_data_nbits == 0 {
        Err("rabitq data nbits must be > 0"@)
    } else if c.hnsw_m == 0 {
        Err("hnsw-m must be > 0"@)
    } else if c.hnsw_ef_build == 0 {
        Err("ef-build must be > 0"@)
    } else if c.hnsw_ef_search == 0 {
        Err("ef-search must be > 0"@)
    } else {
        Ok(c)
    }
}

/// The configuration that the arguments (without the program name) give.
pub open spec fn bench_config_of(args: Seq<Seq<char>>) -> Result<BenchConfig, Seq<char>> {
    match apply_args(default_config(), args, 0) {
        Ok(c) => check_config(c),
        Err(m) => Err(m),
    }
}

/// The usage text.
pub open spec fn help_text_spec() -> Seq<char> {
    "Benchmark Faiss IVF-RaBitQ, IVF-SQ8, and HNSW from Rust"@ + "\n"@ + ""@ + "\n"@
        + "Defaults:"@ + "\n"@
        + "  --embeddings 100000 --dimension 64 --queries 1000 --k 10 --nlist 1024 --data-nbits 1 --nbits 8 --hnsw-m 32 --ef-build 200 --ef-search 128 --metric l2"@
        + "\n"@ + ""@ + "\n"@ + "Flags:"@ + "\n"@ + "  -n, --embeddings <usize>"@ + "\n"@
        + "  -d, --dimension <usize>"@ + "\n"@ + "  -q, --queries <usize>"@ + "\n"@
        + "      --k <usize>"@ + "\n"@ + "      --nlist <usize>"@ + "\n"@
        + "      --data-nbits, --rabitq-data-nbits <u8>"@ + "\n"@
        + "      --nbits, --rabitq-nbits <u8 in [0,8]>"@ + "\n"@ + "      --hnsw-m <usize>"@
        + "\n"@ + "      --ef-build <usize>"@ + "\n"@ + "      --ef-search <usize>"@ + "\n"@
        + "      --metric <l2|ip>"@ + "\n"@ + "      --with-recall"@ + "\n"@ + "  -h, --help"@
}

/// The usage text: one line for each flag, after the defaults.
pub fn help_text() -> (s: String)
    ensures
        s@ == help_text_spec(),
{
    let mut s = String::from_str("Benchmark Faiss IVF-RaBitQ, IVF-SQ8, and HNSW from Rust");
    s.append("\n");
    s.append("");
    s.append("\n");
    s.append("Defaults:");
    s.append("\n");
    s.append(
        "  --embeddings 100000 --dimension 64 --queries 1000 --k 10 --nlist 1024 --data-nbits 1 --nbits 8 --hnsw-m 32 --ef-build 200 --ef-search 128 --metric l2",
    );
    s.append("\n");
    s.append("");
    s.append("\n");
    s.append("Flags:");
    s.append("\n");
    s.append("  -n, --embeddings <usize>");
    s.append("\n");
    s.append("  -d, --dimension <usize>");
    s.append("\n");
    s.append("  -q, --queries <usize>");
    s.append("\n");
    s.append("      --k <usize>");
    s.append("\n");
    s.append("      --nlist <usize>");
    s.append("\n");
    s.append("      --data-nbits, --rabitq-data-nbits <u8>");
    s.append("\n");
    s.append("      --nbits, --rabitq-nbits <u8 in [0,8]>");
    s.append("\n");
    s.append("      --hnsw-m <usize>");
    s.append("\n");
    s.append("      --ef-build <usize>");
    s.append("\n");
    s.append("      --ef-search <usize>");
    s.append("\n");
    s.append("      --metric <l2|ip>");
    s.append("\n");
    s.append("      --with-recall");
    s.append("\n");
    s.append("  -h, --help");
    s
}

/// The views of a list of strings.
pub open spec fn arg_views(args: Seq<String>) -> Seq<Seq<char>> {
    args.map_values(|a: String| a@)
}

fn apply_value_exec(cfg: BenchConfig, f: BenchFlag, value: &str) -> (r: Result<BenchConfig, String>)
    requires
        takes_value(f),
    ensures
        match apply_value(cfg, f, value@) {
            Ok(c) => r == Ok::<BenchConfig, String>(c),
            Err(m) => r matches Err(s) && s@ == m,
        },
{
    if f == BenchFlag::Metric {
        return match parse_metric(value) {
            Ok(m) => Ok(BenchConfig { metric: m, ..cfg }),
            Err(e) => Err(e),
        };
    }
    let max: u64 = match f {
        BenchFlag::Nbits | BenchFlag::DataNbits => 255,
        _ => usize::MAX as u64,
    };
    match parse_unsigned(value, max) {
        Err(e) => {
            let mut m = match f {
                BenchFlag::Embeddings => String::from_str("invalid embeddings value: "),
                BenchFlag::Dimension => String::from_str("invalid dimension value: "),
                BenchFlag::Queries => String::from_str("invalid queries value: "),
                BenchFlag::K => String::from_str("invalid k value: "),
                BenchFlag::Nlist => String::from_str("invalid nlist value: "),
                BenchFlag::Nbits => String::from_str("invalid rabitq nbits value: "),
                BenchFlag::DataNbits => String::from_str("invalid rabitq data nbits value: "),
                BenchFlag::HnswM => String::from_str("invalid hnsw-m value: "),
                BenchFlag::EfBuild => String::from_str("invalid ef-build value: "),
                _ => String::from_str("invalid ef-search value: "),
            };
            let t = e.message();
            m.append(t.as_str());
            Err(m)
        },
        Ok(n) => {
            let c = match f {
                BenchFlag::Embeddings => BenchConfig { embeddings: n as usize, ..cfg },
                BenchFlag::Dimension => BenchConfig { dimension: n as usize, ..cfg },
                BenchFlag::Queries => BenchConfig { queries: n as usize, ..cfg },
                BenchFlag::K => BenchConfig { k: n as usize, ..cfg },
                BenchFlag::Nlist => BenchConfig { nlist: n as usize, ..cfg },
                BenchFlag::Nbits => BenchConfig { rabitq_nbits: n as u8, ..cfg },
                BenchFlag::DataNbits => BenchConfig { rabitq_data_nbits: n as u8, ..cfg },
                BenchFlag::HnswM => BenchConfig { hnsw_m: n as usize, ..cfg },
                BenchFlag::EfBuild => BenchConfig { hnsw_ef_build: n as usize, ..cfg },
                _ => BenchConfig { hnsw_ef_search: n as usize, ..cfg },
            };
            Ok(c)
        },
    }
}

fn check_config_exec(c: BenchConfig) -> (r: Result<BenchConfig, String>)
    ensures
        match check_config(c) {
            Ok(x) => r == Ok::<BenchConfig, String>(x),
            Err(m) => r matches Err(s) && s@ == m,
        },
{
    if c.embeddings == 0 {
        Err(String::from_str("embeddings must be > 0"))
    } else if c.dimension == 0 {
        Err(String::from_str("dimension must be > 0"))
    } else if c.queries == 0 {
        Err(String::from_str("queries must be > 0"))
    } else if c.k == 0 {
        Err(String::from_str("k must be > 0"))
    } else if c.k > c.embeddings {
        Err(String::from_str("k must be <= embeddings"))
    } else if c.nlist == 0 {
        Err(String::from_str("nlist must be > 0"))
    } else if c.rabitq_nbits > 8 {
        Err(String::from_str("rabitq nbits must be in [0, 8]"))
    } else if c.rabitq_data_nbits == 0 {
        Err(String::from_str("rabitq data nbits must be > 0"))
    } else if c.hnsw_m == 0 {
        Err(String::from_str("hnsw-m must be > 0"))
    } else if c.hnsw_ef_build == 0 {
        Err(String::from_str("ef-build must be > 0"))
    } else if c.hnsw_ef_search == 0 {
        Err(String::from_str("ef-search must be > 0"))
    } else {
        Ok(c)
    }
}

/// Reads the benchmark's arguments (without the program name): flags in
/// any order, each value flag followed by its value, later flags winning;
/// then the configuration is checked.
pub fn parse_args(args: &Vec<String>) -> (r: Result<BenchConfig, String>)
    ensures
        match bench_config_of(arg_views(args@)) {
            Ok(c) => r == Ok::<BenchConfig, String>(c),
            Err(m) => r matches Err(s) && s@ == m,
        },
{
    let ghost views = arg_views(args@);
    let mut cfg = BenchConfig::default();
    let mut i: usize = 0;
    while i < args.len()
        invariant
            i <= args@.len(),
            views == arg_views(args@),
            apply_args(cfg, views, i as nat) == apply_args(default_config(), views, 0),
        decreases args@.len() - i,
    {
        let flag = args[i].as_str();
        assert(views[i as int] == flag@);
        match classify_flag(flag) {
            None => {
                let mut m = String::from_str("unknown argument '");
                m.append(flag);
                m.append("'\n\n");
                let h = help_text();
                m.append(h.as_str());
                return Err(m);
            },
            Some(BenchFlag::Help) => {
                return Err(help_text());
            },
            Some(BenchFlag::WithRecall) => {
                cfg.with_recall = true;
                i = i + 1;
            },
            Some(f) => {
                if i + 1 >= args.len() {
                    let mut m = String::from_str("missing value after ");
                    m.append(flag);
                    return Err(m);
                }
                let value = args[i + 1].as_str();
                assert(views[i + 1] == value@);
                match apply_value_exec(cfg, f, value) {
                    Ok(c) => {
                        cfg = c;
                    },
                    Err(m) => {
                        return Err(m);
                    },
                }
                i = i + 2;
            },
        }
    }
    check_config_exec(cfg)
}

/// How many of `labels` are actual neighbours (the library fills missing
/// ones with -1).
pub open spec fn count_valid(labels: Seq<i64>) -> nat
    decreases labels.len(),
{
    if labels.len() == 0 {
        0
    } else {
        count_valid(labels.drop_last()) + if labels.last() >= 0 {
            1nat
        } else {
            0nat
        }
    }
}

/// The number of labels that name a vector (are not negative).
pub fn valid_hits(labels: &[i64]) -> (n: usize)
    ensures
        n == count_valid(labels@),
        n <= labels@.len(),
{
    let mut n: usize = 0;
    let mut i: usize = 0;
    while i < labels.len()
        invariant
            i <= labels@.len(),
            n == count_valid(labels@.take(i as int)),
            n <= i,
        decreases labels@.len() - i,
    {
        assert(labels@.take(i + 1).drop_last() =~= labels@.take(i as int));
        if labels[i] >= 0 {
            n = n + 1;
        }
        i = i + 1;
    }
    assert(labels@.take(labels@.len() as int) =~= labels@);
    n
}

/// Whether label `p` of `predicted` is a hit: it names a vector that the
/// row of the exact neighbours for its query (row `p / k` of
/// `ground_truth`) holds.
pub open spec fn is_hit(predicted: Seq<i64>, ground_truth: Seq<i64>, k: int, p: int) -> bool {
    predicted[p] >= 0 && ground_truth.subrange((p / k) * k, (p / k) * k + k).contains(
        predicted[p],
    )
}

/// The hits among the first `n` labels of `predicted`.
pub open spec fn count_hits(predicted: Seq<i64>, ground_truth: Seq<i64>, k: int, n: int) -> nat
    decreases n,
{
    if n <= 0 {
        0
    } else {
        count_hits(predicted, ground_truth, k, n - 1) + if is_hit(
            predicted,
            ground_truth,
            k,
            n - 1,
        ) {
            1nat
        } else {
            0nat
        }
    }
}

/// The number of predicted labels, over the whole rows of `k` labels in
/// `predicted`, that are hits.
pub fn recall_hits(predicted: &[i64], ground_truth: &[i64], k: usize) -> (hits: usize)
    requires
        k > 0,
        ground_truth@.len() >= (predicted@.len() / k as nat) * k,
    ensures
        hits == count_hits(predicted@, ground_truth@, k as int, (predicted@.len() / k as nat) * k),
        hits <= (predicted@.len() / k as nat) * k,
{
    let plen = predicted.len();
    let nq = plen / k;
    let mut hits: usize = 0;
    let mut q: usize = 0;
    assert(nq * k <= predicted@.len()) by (nonlinear_arith)
        requires nq == predicted@.len() / k as nat, k > 0;
    while q < nq
        invariant
            k > 0,
            nq == predicted@.len() / k as nat,
            nq * k <= predicted@.len(),
            plen == predicted@.len(),
            ground_truth@.len() >= nq * k,
            q <= nq,
            hits == count_hits(predicted@, ground_truth@, k as int, q * k),
            hits <= q * k,
        decreases nq - q,
    {
        assert(q * k + k <= nq * k) by (nonlinear_arith)
            requires q < nq, k > 0;
        let start = q * k;
        let row = &ground_truth[start..start + k];
        let mut j: usize = 0;
        while j < k
            invariant
                k > 0,
                q < nq,
                start == q * k,
                start + k <= nq * k,
                nq * k <= predicted@.len(),
                plen == predicted@.len(),
                ground_truth@.len() >= nq * k,
                row@ == ground_truth@.subrange(start as int, start + k),
                j <= k,
                hits == count_hits(predicted@, ground_truth@, k as int, start + j),
                hits <= start + j,
            decreases k - j,
        {
            let p = start + j;
            let id = predicted[p];
            assert((p as int) / (k as int) == q) by (nonlinear_arith)
                requires p == q * k + j, j < k, k > 0;
            let found = slice_holds(row, id);
            if id >= 0 && found {
                hits = hits + 1;
            }
            j = j + 1;
        }
        assert((q + 1) * k == q * k + k) by (nonlinear_arith);
        q = q + 1;
    }
    hits
}

/// Whether `s` holds `x`.
fn slice_holds(s: &[i64], x: i64) -> (b: bool)
    ensures
        b == s@.contains(x),
{
    let mut i: usize = 0;
    while i < s.len()
        invariant
            i <= s@.len(),
            forall|j: int| 0 <= j < i ==> s@[j] != x,
        decreases s@.len() - i,
    {
        if s[i] == x {
            return true;
        }
        i = i + 1;
    }
    false
}

/// The number of lists an IVF index probes in the benchmark: a sixteenth
/// of the lists, at least 1 and at most 64.
pub fn default_nprobe(nlist: usize) -> (p: usize)
    ensures
        p == (if nlist / 16 < 1 {
            1
        } else if nlist / 16 > 64 {
            64
        } else {
            nlist / 16
        }),
        1 <= p <= 64,
{
    let p = nlist / 16;
    if p < 1 {
        1
    } else if p > 64 {
        64
    } else {
        p
    }
}

/// How many of the embeddings train the IVF indexes: at most 25000.
pub fn training_count(embeddings: usize) -> (n: usize)
    ensures
        n == (if embeddings < 25000 { embeddings } else { 25000 }),
{
    if embeddings < 25000 {
        embeddings
    } else {
        25000
    }
}

/// The step of the generator behind the synthetic vectors: the state
/// times 6364136223846793005, plus 1, modulo 2^64.
pub fn lcg_step(state: u64) -> (next: u64)
    ensures
        next == (state as nat * 6364136223846793005 + 1) % 0x1_0000_0000_0000_0000,
{
    let m = state.wrapping_mul(6364136223846793005u64);
    let next = m.wrapping_add(1);
    proof {
        vstd::arithmetic::div_mod::lemma_add_mod_noop(
            (state as nat * 6364136223846793005) as int,
            1,
            0x1_0000_0000_0000_0000,
        );
    }
    next
}

/// The 31 high bits of a generator state, which the synthetic vectors scale
/// into [0, 1).
pub fn lcg_sample(state: u64) -> (x: u32)
    ensures
        x == state / 0x2_0000_0000,
        x < 0x8000_0000,
{
    let s = state >> 33u64;
    assert(state >> 33u64 == state / 0x2_0000_0000) by (bit_vector);
    assert(state / 0x2_0000_0000 < 0x8000_0000) by (nonlinear_arith);
    s as u32
}

} // verus!

verus! {

/// A parse outcome with `with_recall` switched on (errors are kept).
pub open spec fn set_recall(r: Result<BenchConfig, Seq<char>>) -> Result<BenchConfig, Seq<char>> {
    match r {
        Ok(c) => Ok(BenchConfig { with_recall: true, ..c }),
        Err(m) => Err(m),
    }
}

proof fn lemma_with_recall_flag()
    ensures
        flag_kind("--with-recall"@) == Some(BenchFlag::WithRecall),
{
    reveal_strlit("--embeddings");
    reveal_strlit("-n");
    reveal_strlit("--dimension");
    reveal_strlit("-d");
    reveal_strlit("--queries");
    reveal_strlit("-q");
    reveal_strlit("--k");
    reveal_strlit("--nlist");
    reveal_strlit("--nbits");
    reveal_strlit("--rabitq-nbits");
    reveal_strlit("--data-nbits");
    reveal_strlit("--rabitq-data-nbits");
    reveal_strlit("--hnsw-m");
    reveal_strlit("--ef-build");
    reveal_strlit("--ef-search");
    reveal_strlit("--metric");
    reveal_strlit("--with-recall");
    assert("--with-recall"@.len() != "--embeddings"@.len());
    assert("--with-recall"@.len() != "-n"@.len());
    assert("--with-recall"@.len() != "--dimension"@.len());
    assert("--with-recall"@.len() != "-d"@.len());
    assert("--with-recall"@.len() != "--queries"@.len());
    assert("--with-recall"@.len() != "-q"@.len());
    assert("--with-recall"@.len() != "--k"@.len());
    assert("--with-recall"@.len() != "--nlist"@.len());
    assert("--with-recall"@.len() != "--nbits"@.len());
    assert("--with-recall"@.len() != "--rabitq-nbits"@.len());
    assert("--with-recall"@.len() != "--data-nbits"@.len());
    assert("--with-recall"@.len() != "--rabitq-data-nbits"@.len());
    assert("--with-recall"@.len() != "--hnsw-m"@.len());
    assert("--with-recall"@.len() != "--ef-build"@.len());
    assert("--with-recall"@.len() != "--ef-search"@.len());
    assert("--with-recall"@.len() != "--metric"@.len());
}

/// Arguments behind a prefix are read as they would be alone.
proof fn lemma_apply_shift(c: BenchConfig, p: Seq<Seq<char>>, r: Seq<Seq<char>>, j: nat)
    ensures
        apply_args(c, p + r, p.len() + j) == apply_args(c, r, j),
    decreases r.len() - j,
{
    let s = p + r;
    if j < r.len() {
        assert(s[p.len() + j as int] == r[j as int]);
        if j + 1 < r.len() {
            assert(s[p.len() + j + 1int] == r[j + 1int]);
        }
        match flag_kind(r[j as int]) {
            Some(BenchFlag::WithRecall) => {
                lemma_apply_shift(BenchConfig { with_recall: true, ..c }, p, r, j + 1);
            },
            Some(f) => {
                if j + 1 < r.len() {
                    match apply_value(c, f, r[j + 1int]) {
                        Ok(c2) => {
                            lemma_apply_shift(c2, p, r, j + 2);
                        },
                        Err(_) => {},
                    }
                }
            },
            None => {},
        }
    }
}

/// A prefix that is read to its end leaves the configuration that the rest
/// starts from.
proof fn lemma_apply_prefix(c0: BenchConfig, a: Seq<Seq<char>>, r: Seq<Seq<char>>, i: nat)
    requires
        i <= a.len(),
        apply_args(c0, a, i) is Ok,
    ensures
        apply_args(c0, a + r, i) == apply_args(apply_args(c0, a, i)->Ok_0, a + r, a.len()),
    decreases a.len() - i,
{
    let s = a + r;
    if i < a.len() {
        assert(s[i as int] == a[i as int]);
        if i + 1 < a.len() {
            assert(s[i + 1int] == a[i + 1int]);
        }
        match flag_kind(a[i as int]) {
            Some(BenchFlag::WithRecall) => {
                lemma_apply_prefix(BenchConfig { with_recall: true, ..c0 }, a, r, i + 1);
            },
            Some(f) => {
                match apply_value(c0, f, a[i + 1int]) {
                    Ok(c2) => {
                        lemma_apply_prefix(c2, a, r, i + 2);
                    },
                    Err(_) => {},
                }
            },
            None => {},
        }
    }
}

/// Reading with `with_recall` already on gives what reading without it
/// gives, with it switched on.
proof fn lemma_apply_recall(c: BenchConfig, r: Seq<Seq<char>>, j: nat)
    ensures
        apply_args(BenchConfig { with_recall: true, ..c }, r, j) == set_recall(
            apply_args(c, r, j),
        ),
    decreases r.len() - j,
{
    let cw = BenchConfig { with_recall: true, ..c };
    if j < r.len() {
        match flag_kind(r[j as int]) {
            Some(BenchFlag::WithRecall) => {
                assert(BenchConfig { with_recall: true, ..cw } == cw);
                lemma_apply_recall(cw, r, j + 1);
                lemma_apply_recall(c, r, j + 1);
            },
            Some(f) => {
                if j + 1 < r.len() {
                    let v = r[j + 1int];
                    assert(apply_value(cw, f, v) == set_recall(apply_value(c, f, v)));
                    match apply_value(c, f, v) {
                        Ok(c2) => {
                            lemma_apply_recall(c2, r, j + 2);
                        },
                        Err(_) => {},
                    }
                }
            },
            None => {},
        }
    }
}

/// Where `--with-recall` stands does not change what the other flags do:
/// after arguments that are read to their end, it switches recall on and
/// the arguments after it are read as if it were not there.
pub proof fn lemma_with_recall_anywhere(a: Seq<Seq<char>>, b: Seq<Seq<char>>)
    requires
        apply_args(default_config(), a, 0) is Ok,
    ensures
        bench_config_of(a + seq!["--with-recall"@] + b) == set_recall(bench_config_of(a + b)),
{
    let wr = seq!["--with-recall"@];
    let d = default_config();
    let c = apply_args(d, a, 0)->Ok_0;
    lemma_with_recall_flag();
    assert(a + wr + b =~= a + (wr + b));
    lemma_apply_prefix(d, a, wr + b, 0);
    lemma_apply_shift(c, a, wr + b, 0);
    assert((wr + b)[0] == "--with-recall"@);
    lemma_apply_shift(BenchConfig { with_recall: true, ..c }, wr, b, 0);
    lemma_apply_recall(c, b, 0);
    lemma_apply_prefix(d, a, b, 0);
    lemma_apply_shift(c, a, b, 0);
    match apply_args(c, b, 0) {
        Ok(x) => {
            assert(check_config(BenchConfig { with_recall: true, ..x }) == set_recall(
                check_config(x),
            ));
        },
        Err(_) => {},
    }
}

/// `--with-recall` may come before or after other arguments that are read
/// to their end: the outcome is the same.
pub proof fn lemma_with_recall_moves(a: Seq<Seq<char>>, b: Seq<Seq<char>>)
    requires
        apply_args(default_config(), a, 0) is Ok,
        apply_args(default_config(), a + b, 0) is Ok,
    ensures
        bench_config_of(a + seq!["--with-recall"@] + b) == bench_config_of(
            a + b + seq!["--with-recall"@],
        ),
{
    lemma_with_recall_anywhere(a, b);
    lemma_with_recall_anywhere(a + b, Seq::empty());
    assert(a + b + Seq::<Seq<char>>::empty() =~= a + b);
}

/// Counting valid labels is additive, one for each label that is not
/// negative.
pub proof fn lemma_count_valid_additive(a: Seq<i64>, b: Seq<i64>)
    ensures
        count_valid(a + b) == count_valid(a) + count_valid(b),
        forall|x: i64| #[trigger] count_valid(seq![x]) == (if x >= 0 { 1nat } else { 0nat }),
    decreases b.len(),
{
    assert forall|x: i64| #[trigger] count_valid(seq![x]) == (if x >= 0 { 1nat } else { 0nat }) by {
        assert(seq![x].drop_last() =~= Seq::<i64>::empty());
        assert(seq![x].last() == x);
        assert(count_valid(Seq::<i64>::empty()) == 0);
    }
    if b.len() > 0 {
        lemma_count_valid_additive(a, b.drop_last());
        assert((a + b).drop_last() =~= a + b.drop_last());
        assert((a + b).last() == b.last());
    } else {
        assert(a + b =~= a);
    }
}

/// Each label of `predicted` is a hit exactly when it is not negative and
/// the row of the exact neighbours of its query holds it; in particular, a
/// result compared with itself has as many hits as valid labels.
pub proof fn lemma_self_recall(x: Seq<i64>, k: int, n: int)
    requires
        k > 0,
        0 <= n <= (x.len() as int / k) * k,
    ensures
        count_hits(x, x, k, n) == count_valid(x.take(n)),
{
    assert((x.len() as int / k) * k <= x.len()) by (nonlinear_arith)
        requires k > 0;
    if n > 0 {
        lemma_self_recall_step(x, k, n);
    } else {
        assert(x.take(0) =~= Seq::<i64>::empty());
    }
}

proof fn lemma_self_recall_step(x: Seq<i64>, k: int, n: int)
    requires
        k > 0,
        0 < n <= x.len(),
        n <= (x.len() as int / k) * k,
    ensures
        count_hits(x, x, k, n) == count_valid(x.take(n)),
    decreases n,
{
    let p = n - 1;
    if p > 0 {
        lemma_self_recall_step(x, k, p);
    } else {
        assert(x.take(0) =~= Seq::<i64>::empty());
    }
    assert(x.take(n).drop_last() =~= x.take(p));
    let q = p / k;
    assert(q * k <= p < q * k + k) by (nonlinear_arith)
        requires q == p / k, k > 0, p >= 0;
    assert(q * k + k <= (x.len() as int / k) * k) by (nonlinear_arith)
        requires q == p / k, k > 0, p >= 0, p < (x.len() as int / k) * k;
    assert((x.len() as int / k) * k <= x.len()) by (nonlinear_arith)
        requires k > 0;
    let row = x.subrange(q * k, q * k + k);
    assert(0 <= p - q * k < row.len());
    assert(row[p - q * k] == x[p]);
    assert(x.take(n).last() == x[p]);
    if x[p] >= 0 {
        assert(row.contains(x[p]));
        assert(is_hit(x, x, k, p));
    } else {
        assert(!is_hit(x, x, k, p));
    }
    assert(count_hits(x, x, k, p) == count_valid(x.take(p)));
    assert(count_hits(x, x, k, n) == count_hits(x, x, k, p) + (if is_hit(x, x, k, p) { 1nat } else { 0nat }));
    assert(count_valid(x.take(n)) == count_valid(x.take(p)) + (if x[p] >= 0 { 1nat } else { 0nat }));
}

/// Every hit is a valid label: the hits never outnumber the valid labels.
pub proof fn lemma_hits_at_most_valid(pred: Seq<i64>, truth: Seq<i64>, k: int, n: int)
    requires
        0 <= n <= pred.len(),
    ensures
        count_hits(pred, truth, k, n) <= count_valid(pred.take(n)),
    decreases n,
{
    if n > 0 {
        lemma_hits_at_most_valid(pred, truth, k, n - 1);
        assert(pred.take(n).drop_last() =~= pred.take(n - 1));
    } else {
        assert(pred.take(0) =~= Seq::<i64>::empty());
    }
}

} // verus!

verus! {

/// The value of the field that a numeric flag sets.
pub open spec fn numeric_field(c: BenchConfig, f: BenchFlag) -> nat {
    match f {
        BenchFlag::Embeddings => c.embeddings as nat,
        BenchFlag::Dimension => c.dimension as nat,
        BenchFlag::Queries => c.queries as nat,
        BenchFlag::K => c.k as nat,
        BenchFlag::Nlist => c.nlist as nat,
        BenchFlag::Nbits => c.rabitq_nbits as nat,
        BenchFlag::DataNbits => c.rabitq_data_nbits as nat,
        BenchFlag::HnswM => c.hnsw_m as nat,
        BenchFlag::EfBuild => c.hnsw_ef_build as nat,
        BenchFlag::EfSearch => c.hnsw_ef_search as nat,
        _ => 0,
    }
}

/// Whether a flag sets a number.
pub open spec fn is_numeric(f: BenchFlag) -> bool {
    f != BenchFlag::Metric && f != BenchFlag::WithRecall && f != BenchFlag::Help
}

/// A numeric flag followed by a number in decimal that fits its field sets
/// that field to the number and leaves every other setting as it was.
pub proof fn lemma_numeric_flag_sets_field(cfg: BenchConfig, flag: Seq<char>, n: nat)
    requires
        flag_kind(flag) matches Some(f) && is_numeric(f) && n <= flag_max(f),
    ensures
        apply_args(cfg, seq![flag, crate::text::decimal(n)], 0) matches Ok(c) && {
            let f = flag_kind(flag)->Some_0;
            &&& numeric_field(c, f) == n
            &&& forall|g: BenchFlag| is_numeric(g) && g != f ==> #[trigger] numeric_field(c, g)
                == numeric_field(cfg, g)
            &&& c.metric == cfg.metric
            &&& c.with_recall == cfg.with_recall
        },
{
    let f = flag_kind(flag)->Some_0;
    let d = crate::text::decimal(n);
    let args = seq![flag, d];
    crate::version::lemma_decimal_digits(n);
    crate::number::lemma_accumulate_digits(d, flag_max(f));
    assert(crate::text::is_digit(d[0]));
    assert(parse_unsigned_spec(d, flag_max(f)) == Ok::<nat, crate::number::IntParseError>(n));
    assert(args[0] == flag);
    assert(args[1] == d);
    let c = with_number(cfg, f, n);
    assert(apply_args(c, args, 2) == Ok::<BenchConfig, Seq<char>>(c));
    assert(apply_args(cfg, args, 0) == Ok::<BenchConfig, Seq<char>>(c));
}

} // verus!

verus! {

/// Metric names are read without regard to ASCII case: a name and its
/// lower-case form select the same metric.
pub proof fn lemma_metric_case_insensitive(v: Seq<char>)
    ensures
        metric_named(ascii_lower(v)) == metric_named(v),
{
    assert(ascii_lower(ascii_lower(v)) =~= ascii_lower(v));
}

} // verus!
