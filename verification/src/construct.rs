//! Building an index, step by step: the checks on the request, the release
//! check for IVF-RaBitQ, the factory call and the dimension the new index
//! reports. The caller performs each step against the library and hands
//! back what the library answered.

use vstd::prelude::*;
use crate::api::{support_outcome, raw_view, last_error_text, ensure_ivf_rabitq_support,
    last_error_message};
use crate::error::{FaissError, MetricType, metric_code};
use crate::index::{IndexKind, IndexShape, description_text, zero_param_text, dimension_outcome,
    reported_outcome, spec_needs_rabitq_support, index_description, needs_rabitq_support,
    check_factory_dimension, check_created};
use crate::text::{decimal, is_digit};
use crate::version::{lemma_decimal_digits, lemma_digit_run_concat, digit_run};
use crate::number::digits_value;

verus! {

/// What the caller does next while an index is built.
pub enum BuildStep {
    /// Load the library and hand back the version text it reports.
    CheckVersion,
    /// Load the library and call its index factory with these arguments.
    Create { dimension: i32, description: String, metric: i32 },
    /// Ask the new index for its dimension.
    ReadDimension,
    /// The index is built, with this shape.
    Done(IndexShape),
    /// Building stops with this error.
    Fail(FaissError),
}

/// Where a build stands.
#[derive(Debug, Clone, Copy, PartialEq, Eq, Structural)]
pub enum BuildPhase {
    AwaitVersion,
    AwaitCreate,
    AwaitDimension,
    Finished,
}

/// An index build under way.
pub struct IndexBuild {
    dimension: usize,
    description: String,
    metric: MetricType,
    phase: BuildPhase,
}

/// The step after the release check passed, or right away for kinds that
/// need none: the factory call, when the dimension passes its check.
pub open spec fn create_step_ok(dimension: nat, description: Seq<char>, metric: MetricType, s: BuildStep) -> bool {
    match s {
        BuildStep::Fail(e) => dimension_outcome(dimension, Err(e)),
        BuildStep::Create { dimension: d, description: t, metric: c } => dimension_outcome(
            dimension,
            Ok(d),
        ) && t@ == description && c == metric_code(metric),
        _ => false,
    }
}

impl IndexBuild {
    /// The phase of the build.
    pub closed spec fn phase(&self) -> BuildPhase {
        self.phase
    }

    /// The requested dimension.
    pub closed spec fn requested_dimension(&self) -> nat {
        self.dimension as nat
    }

    /// The factory description.
    pub closed spec fn spec_description(&self) -> Seq<char> {
        self.description@
    }

    /// The metric.
    pub closed spec fn spec_metric(&self) -> MetricType {
        self.metric
    }

    fn create_step(&mut self) -> (s: BuildStep)
        ensures
            create_step_ok(
                old(self).requested_dimension(),
                old(self).spec_description(),
                old(self).spec_metric(),
                s,
            ),
            final(self).requested_dimension() == old(self).requested_dimension(),
            final(self).spec_description() == old(self).spec_description(),
            final(self).spec_metric() == old(self).spec_metric(),
            s is Create ==> final(self).phase() == BuildPhase::AwaitCreate,
            s is Fail ==> final(self).phase() == BuildPhase::Finished,
    {
        match check_factory_dimension(self.dimension) {
            Err(e) => {
                self.phase = BuildPhase::Finished;
                BuildStep::Fail(e)
            },
            Ok(d) => {
                self.phase = BuildPhase::AwaitCreate;
                BuildStep::Create {
                    dimension: d,
                    description: self.description.clone(),
                    metric: self.metric.code(),
                }
            },
        }
    }

    /// Starts building an index of `kind` with `dimension` and size
    /// parameter `param` (`nlist` or `M`): the parameter is checked first;
    /// IVF-RaBitQ then needs the release check, the other kinds go on to the
    /// dimension check and the factory call.
    pub fn start(kind: IndexKind, dimension: usize, param: usize, metric: MetricType) -> (r: (
        IndexBuild,
        BuildStep,
    ))
        ensures
            param == 0 ==> (r.1 matches BuildStep::Fail(FaissError::InvalidArgument(m)) && m@
                == zero_param_text(kind)),
            param != 0 ==> r.0.requested_dimension() == dimension && r.0.spec_description()
                == description_text(kind, param as nat) && r.0.spec_metric() == metric,
            param != 0 && spec_needs_rabitq_support(kind) ==> r.1 is CheckVersion && r.0.phase()
                == BuildPhase::AwaitVersion,
            param != 0 && !spec_needs_rabitq_support(kind) ==> create_step_ok(
                dimension as nat,
                description_text(kind, param as nat),
                metric,
                r.1,
            ),
            r.1 is Create ==> r.0.phase() == BuildPhase::AwaitCreate,
            r.1 is Fail ==> r.0.phase() == BuildPhase::Finished,
    {
        match index_description(kind, param) {
            Err(e) => (
                IndexBuild {
                    dimension,
                    description: String::new(),
                    metric,
                    phase: BuildPhase::Finished,
                },
                BuildStep::Fail(e),
            ),
            Ok(description) => {
                let mut b = IndexBuild {
                    dimension,
                    description,
                    metric,
                    phase: BuildPhase::AwaitVersion,
                };
                if needs_rabitq_support(kind) {
                    (b, BuildStep::CheckVersion)
                } else {
                    let s = b.create_step();
                    (b, s)
                }
            },
        }
    }

    /// The library reported the version text `raw` (`None` for a null
    /// pointer): a library without IVF-RaBitQ stops the build, else the
    /// dimension check and the factory call follow.
    pub fn on_version(&mut self, raw: Option<Vec<u8>>) -> (s: BuildStep)
        requires
            old(self).phase() == BuildPhase::AwaitVersion,
        ensures
            support_outcome(raw_view(raw), Ok(())) ==> create_step_ok(
                old(self).requested_dimension(),
                old(self).spec_description(),
                old(self).spec_metric(),
                s,
            ),
            !support_outcome(raw_view(raw), Ok(())) ==> (s matches BuildStep::Fail(e)
                && support_outcome(raw_view(raw), Err(e))),
            s is Create ==> final(self).phase() == BuildPhase::AwaitCreate,
            s is Fail ==> final(self).phase() == BuildPhase::Finished,
    {
        match ensure_ivf_rabitq_support(raw) {
            Err(e) => {
                self.phase = BuildPhase::Finished;
                BuildStep::Fail(e)
            },
            Ok(()) => self.create_step(),
        }
    }

    /// The factory returned `status`, and an index pointer that is null or
    /// not: a failed call is an API error whose text is the library's last
    /// error (which `last_error` is called for, only then); a null index
    /// stops the build too; else the new index is asked for its dimension.
    pub fn on_created<F: FnOnce() -> Option<Vec<u8>>>(
        &mut self,
        status: i32,
        last_error: F,
        index_is_null: bool,
    ) -> (s: BuildStep)
        requires
            old(self).phase() == BuildPhase::AwaitCreate,
            status != 0 ==> call_requires(last_error, ()),
        ensures
            status != 0 ==> exists|raw: Option<Vec<u8>>|
                call_ensures(last_error, (), raw) && (s matches BuildStep::Fail(FaissError::Api(m))
                    && m@ == last_error_text(raw_view(raw))),
            status == 0 && index_is_null ==> (s matches BuildStep::Fail(FaissError::NullPointer(m))
                && m@ == "faiss_index_factory succeeded but returned a null index pointer"@),
            status == 0 && !index_is_null ==> s is ReadDimension && final(self).phase()
                == BuildPhase::AwaitDimension,
            s is Fail ==> final(self).phase() == BuildPhase::Finished,
    {
        if status != 0 {
            let raw = last_error();
            self.phase = BuildPhase::Finished;
            return BuildStep::Fail(FaissError::Api(last_error_message(raw)));
        }
        match check_created(index_is_null) {
            Err(e) => {
                self.phase = BuildPhase::Finished;
                BuildStep::Fail(e)
            },
            Ok(()) => {
                self.phase = BuildPhase::AwaitDimension;
                BuildStep::ReadDimension
            },
        }
    }

    /// The new index reports dimension `reported`: the build is done when it
    /// is positive.
    pub fn on_dimension(&mut self, reported: i32) -> (s: BuildStep)
        requires
            old(self).phase() == BuildPhase::AwaitDimension,
        ensures
            match s {
                BuildStep::Done(shape) => reported_outcome(reported, Ok(shape)),
                BuildStep::Fail(e) => reported_outcome(reported, Err(e)),
                _ => false,
            },
            final(self).phase() == BuildPhase::Finished,
    {
        self.phase = BuildPhase::Finished;
        match IndexShape::from_reported(reported) {
            Ok(shape) => BuildStep::Done(shape),
            Err(e) => BuildStep::Fail(e),
        }
    }
}

/// A factory description never holds a NUL char, so it always makes a C
/// string.
pub proof fn lemma_description_has_no_nul(kind: IndexKind, param: nat)
    ensures
        !description_text(kind, param).contains('\0'),
{
    reveal_strlit("IVF");
    reveal_strlit(",RaBitQ");
    reveal_strlit(",SQ8");
    reveal_strlit("HNSW");
    lemma_decimal_digits(param);
    let d = decimal(param);
    let t = description_text(kind, param);
    assert forall|i: int| 0 <= i < t.len() implies t[i] != '\0' by {
        match kind {
            IndexKind::IvfRaBitQ => {
                if 3 <= i < 3 + d.len() {
                    assert(t[i] == d[i - 3]);
                    assert(is_digit(d[i - 3]));
                }
            },
            IndexKind::IvfSq8 => {
                if 3 <= i < 3 + d.len() {
                    assert(t[i] == d[i - 3]);
                    assert(is_digit(d[i - 3]));
                }
            },
            IndexKind::Hnsw => {
                if 4 <= i {
                    assert(t[i] == d[i - 4]);
                    assert(is_digit(d[i - 4]));
                }
            },
        }
    }
}

} // verus!

verus! {

/// The text a factory description starts with.
pub open spec fn description_prefix(kind: IndexKind) -> Seq<char> {
    match kind {
        IndexKind::Hnsw => "HNSW"@,
        _ => "IVF"@,
    }
}

/// The text a factory description ends with.
pub open spec fn description_suffix(kind: IndexKind) -> Seq<char> {
    match kind {
        IndexKind::IvfRaBitQ => ",RaBitQ"@,
        IndexKind::IvfSq8 => ",SQ8"@,
        IndexKind::Hnsw => Seq::empty(),
    }
}

/// A factory description carries the requested size parameter: after the
/// kind's prefix come digits that read back as `param`, then the kind's
/// suffix and nothing else.
pub proof fn lemma_description_reads_back(kind: IndexKind, param: nat)
    ensures
        description_text(kind, param).take(description_prefix(kind).len() as int)
            == description_prefix(kind),
        digit_run(description_text(kind, param).skip(description_prefix(kind).len() as int)) >= 1,
        digits_value(
            description_text(kind, param).skip(description_prefix(kind).len() as int).take(
                digit_run(description_text(kind, param).skip(description_prefix(kind).len() as int))
                    as int,
            ),
        ) == param,
        description_text(kind, param).skip(description_prefix(kind).len() as int).skip(
            digit_run(description_text(kind, param).skip(description_prefix(kind).len() as int))
                as int,
        ) == description_suffix(kind),
{
    reveal_strlit(",RaBitQ");
    reveal_strlit(",SQ8");
    let pre = description_prefix(kind);
    let suf = description_suffix(kind);
    let d = decimal(param);
    let t = description_text(kind, param);
    lemma_decimal_digits(param);
    assert(t =~= pre + (d + suf));
    assert(t.take(pre.len() as int) =~= pre);
    assert(t.skip(pre.len() as int) =~= d + suf);
    assert(suf.len() == 0 || !is_digit(suf[0]));
    lemma_digit_run_concat(d, suf);
    assert((d + suf).take(d.len() as int) =~= d);
    assert((d + suf).skip(d.len() as int) =~= suf);
}

/// Different size parameters give different factory descriptions.
pub proof fn lemma_description_injective(kind: IndexKind, p1: nat, p2: nat)
    ensures
        description_text(kind, p1) == description_text(kind, p2) ==> p1 == p2,
{
    lemma_description_reads_back(kind, p1);
    lemma_description_reads_back(kind, p2);
}

} // verus!
