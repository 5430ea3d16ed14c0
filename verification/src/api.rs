//! Loading the Faiss C library and reading what it reports: where the
//! library is looked for, how failures are described, and how the version
//! text it reports is checked.

use vstd::prelude::*;
use crate::text::{join, append_joined, contains_char, lossy_text, utf8_lossy};
use crate::version::{FaissVersion, parse_version, version_precedes, spec_min_ivf_rabitq_version,
    min_ivf_rabitq_version};
use crate::error::FaissError;

verus! {

/// The places the library is looked for, in order: the path that
/// FAISS_C_LIB_PATH names, when it is set, then the build directories and
/// the names the dynamic loader resolves.
pub open spec fn candidate_list(env_path: Option<Seq<char>>) -> Seq<Seq<char>> {
    let fixed = seq![
        "/workspace/build/c_api/libfaiss_c.so"@,
        "/workspace/build/libfaiss_c.so"@,
        "libfaiss_c.so"@,
        "faiss_c"@,
    ];
    match env_path {
        Some(p) => seq![p] + fixed,
        None => fixed,
    }
}

/// A candidate that names a path (it holds a '/') is opened only when that
/// file exists.
pub open spec fn needs_probe(candidate: Seq<char>) -> bool {
    candidate.contains('/')
}

/// How one failed attempt to open a candidate is recorded.
pub open spec fn attempt_text(candidate: Seq<char>, err: Seq<char>) -> Seq<char> {
    candidate + ": "@ + err
}

/// The message when no candidate could be opened.
pub open spec fn load_failure_text(attempts: Seq<Seq<char>>) -> Seq<char> {
    "failed to load libfaiss_c. Set FAISS_C_LIB_PATH to the shared library path. Attempts: "@
        + join(attempts, " | "@)
}

/// What the loader does next.
pub enum LoadAction {
    /// Find out whether the file at this path exists.
    CheckExists(String),
    /// Open this candidate as a shared library.
    Open(String),
    /// Stop: no candidate could be opened.
    GiveUp(FaissError),
}

/// The search for the shared library, one candidate after another.
pub struct LibrarySearch {
    candidates: Vec<String>,
    next: usize,
    probed: bool,
    attempts: Vec<String>,
}

/// The abstract state of a search: the candidates, the position of the one
/// under way, whether its file was found to exist, and the failed attempts.
pub struct SearchView {
    pub candidates: Seq<Seq<char>>,
    pub next: nat,
    pub probed: bool,
    pub attempts: Seq<Seq<char>>,
}

impl View for LibrarySearch {
    type V = SearchView;

    closed spec fn view(&self) -> SearchView {
        SearchView {
            candidates: self.candidates@.map_values(|s: String| s@),
            next: self.next as nat,
            probed: self.probed,
            attempts: self.attempts@.map_values(|s: String| s@),
        }
    }
}

/// How many more events a search can take at most: two for each
/// candidate not yet passed (its probe and its opening), less one when the
/// file of the one under way was already found.
pub open spec fn steps_left(v: SearchView) -> int {
    2 * (v.candidates.len() - v.next) - (if v.probed {
        1int
    } else {
        0int
    })
}

/// The action that a search state calls for.
pub open spec fn search_action_ok(v: SearchView, a: LoadAction) -> bool {
    if v.next >= v.candidates.len() {
        a matches LoadAction::GiveUp(FaissError::LibraryLoad(m)) && m@ == load_failure_text(
            v.attempts,
        )
    } else if needs_probe(v.candidates[v.next as int]) && !v.probed {
        a matches LoadAction::CheckExists(p) && p@ == v.candidates[v.next as int]
    } else {
        a matches LoadAction::Open(p) && p@ == v.candidates[v.next as int]
    }
}

impl LibrarySearch {
    /// The well-formed states: the position is within the candidates (or
    /// just past them), and a found file belongs to a candidate that names a
    /// path.
    pub open spec fn wf(v: SearchView) -> bool {
        &&& v.next <= v.candidates.len()
        &&& v.probed ==> v.next < v.candidates.len() && needs_probe(v.candidates[v.next as int])
        &&& v.attempts.len() <= v.next
    }

    /// A search that starts at the first candidate.
    pub fn new(env_path: Option<String>) -> (s: Self)
        ensures
            s@.candidates == candidate_list(
                match env_path {
                    Some(p) => Some(p@),
                    None => None,
                },
            ),
            s@.next == 0,
            !s@.probed,
            s@.attempts.len() == 0,
            Self::wf(s@),
    {
        let mut candidates: Vec<String> = Vec::new();
        let ghost env = match &env_path {
            Some(p) => Some(p@),
            None => None::<Seq<char>>,
        };
        match env_path {
            Some(p) => candidates.push(p),
            None => {},
        }
        candidates.push(String::from_str("/workspace/build/c_api/libfaiss_c.so"));
        candidates.push(String::from_str("/workspace/build/libfaiss_c.so"));
        candidates.push(String::from_str("libfaiss_c.so"));
        candidates.push(String::from_str("faiss_c"));
        let s = LibrarySearch { candidates, next: 0, probed: false, attempts: Vec::new() };
        assert(s@.candidates =~= candidate_list(env));
        assert(s@.attempts =~= Seq::<Seq<char>>::empty());
        s
    }

    /// What to do next.
    pub fn action(&self) -> (a: LoadAction)
        requires
            Self::wf(self@),
        ensures
            search_action_ok(self@, a),
            a is GiveUp <==> steps_left(self@) == 0,
    {
        if self.next >= self.candidates.len() {
            let mut m = String::from_str(
                "failed to load libfaiss_c. Set FAISS_C_LIB_PATH to the shared library path. Attempts: ",
            );
            append_joined(&mut m, &self.attempts, " | ");
            LoadAction::GiveUp(FaissError::LibraryLoad(m))
        } else {
            let c = self.candidates[self.next].clone();
            if contains_char(c.as_str(), '/') && !self.probed {
                LoadAction::CheckExists(c)
            } else {
                LoadAction::Open(c)
            }
        }
    }

    /// The file of the candidate under way was looked for: when it exists
    /// the candidate is opened next, else the search moves on.
    pub fn record_exists(&mut self, exists: bool)
        requires
            Self::wf(old(self)@),
            old(self)@.next < old(self)@.candidates.len(),
            needs_probe(old(self)@.candidates[old(self)@.next as int]),
            !old(self)@.probed,
        ensures
            Self::wf(final(self)@),
            final(self)@.candidates == old(self)@.candidates,
            final(self)@.attempts == old(self)@.attempts,
            exists ==> final(self)@.next == old(self)@.next && final(self)@.probed,
            0 <= steps_left(final(self)@) < steps_left(old(self)@),
            !exists ==> final(self)@.next == old(self)@.next + 1 && !final(self)@.probed,
    {
        let n = self.candidates.len();
        assert(self@.candidates.len() == n);
        if exists {
            self.probed = true;
        } else {
            self.next = self.next + 1;
        }
    }

    /// Opening the candidate under way failed with `err`: the attempt is
    /// recorded and the search moves on.
    pub fn record_open_failure(&mut self, err: String)
        requires
            Self::wf(old(self)@),
            old(self)@.next < old(self)@.candidates.len(),
            needs_probe(old(self)@.candidates[old(self)@.next as int]) ==> old(self)@.probed,
        ensures
            Self::wf(final(self)@),
            final(self)@.candidates == old(self)@.candidates,
            final(self)@.next == old(self)@.next + 1,
            !final(self)@.probed,
            0 <= steps_left(final(self)@) < steps_left(old(self)@),
            final(self)@.attempts == old(self)@.attempts.push(
                attempt_text(old(self)@.candidates[old(self)@.next as int], err@),
            ),
    {
        let n = self.candidates.len();
        assert(self@.candidates.len() == n);
        let mut m = self.candidates[self.next].clone();
        m.append(": ");
        m.append(err.as_str());
        self.attempts.push(m);
        self.next = self.next + 1;
        self.probed = false;
        assert(self@.attempts =~= old(self)@.attempts.push(
            attempt_text(old(self)@.candidates[old(self)@.next as int], err@),
        ));
    }
}

/// The error for a symbol that the library does not export.
pub fn missing_symbol(name: &[u8], detail: String) -> (e: FaissError)
    ensures
        e matches FaissError::LibraryLoad(m) && m@ == "missing symbol "@ + utf8_lossy(name@)
            + ": "@ + detail@,
{
    let mut m = String::from_str("missing symbol ");
    let n = lossy_text(name);
    m.append(n.as_str());
    m.append(": ");
    m.append(detail.as_str());
    FaissError::LibraryLoad(m)
}

/// The text of the library's last error: what it reports (`None` for a null
/// pointer).
pub open spec fn last_error_text(raw: Option<Seq<u8>>) -> Seq<char> {
    match raw {
        None => "Faiss call failed without an error message"@,
        Some(b) => utf8_lossy(b),
    }
}

/// The view of a byte string that may be missing.
pub open spec fn raw_view(raw: Option<Vec<u8>>) -> Option<Seq<u8>> {
    match raw {
        None => None,
        Some(b) => Some(b@),
    }
}

/// The text for the library's last error, read from what it reports.
pub fn last_error_message(raw: Option<Vec<u8>>) -> (s: String)
    ensures
        s@ == last_error_text(raw_view(raw)),
{
    match raw {
        None => String::from_str("Faiss call failed without an error message"),
        Some(b) => lossy_text(b.as_slice()),
    }
}

/// The outcome of a call that returned the status `code`: 0 is success;
/// any other status is an API error whose text is the library's last error,
/// which `last_error` is called for (only then).
pub fn check_error<F: FnOnce() -> Option<Vec<u8>>>(code: i32, last_error: F) -> (r: Result<
    (),
    FaissError,
>)
    requires
        code != 0 ==> call_requires(last_error, ()),
    ensures
        code == 0 ==> r is Ok,
        code != 0 ==> exists|raw: Option<Vec<u8>>|
            call_ensures(last_error, (), raw) && (r matches Err(FaissError::Api(m)) && m@
                == last_error_text(raw_view(raw))),
{
    if code == 0 {
        Ok(())
    } else {
        let raw = last_error();
        Err(FaissError::Api(last_error_message(raw)))
    }
}

/// The version text that the library reports (`None` for a null pointer).
pub fn version_string_from(raw: Option<Vec<u8>>) -> (r: Result<String, FaissError>)
    ensures
        raw is None ==> (r matches Err(FaissError::NullPointer(m)) && m@
            == "faiss_get_version returned a null pointer"@),
        raw matches Some(b) ==> (r matches Ok(s) && s@ == utf8_lossy(b@)),
        raw matches Some(b) ==> (vstd::utf8::valid_utf8(b@) ==> (r matches Ok(s) && s@
            == vstd::utf8::decode_utf8(b@))),
{
    match raw {
        None => Err(FaissError::NullPointer("faiss_get_version returned a null pointer")),
        Some(b) => Ok(lossy_text(b.as_slice())),
    }
}

/// The version text of the library, given the outcome of loading it and
/// reading its version (`Ok(None)` for a null pointer).
pub fn faiss_version_string(loaded: Result<Option<Vec<u8>>, FaissError>) -> (r: Result<
    String,
    FaissError,
>)
    ensures
        match loaded {
            Err(e) => r == Err::<String, FaissError>(e),
            Ok(None) => r matches Err(FaissError::NullPointer(m)) && m@
                == "faiss_get_version returned a null pointer"@,
            Ok(Some(b)) => r matches Ok(s) && s@ == utf8_lossy(b@),
        },
{
    match loaded {
        Err(e) => Err(e),
        Ok(raw) => version_string_from(raw),
    }
}

/// The release of the library, given the outcome of loading it and reading
/// its version: a version text that does not name a release is a
/// `VersionParse` error that carries the text.
pub fn faiss_version(loaded: Result<Option<Vec<u8>>, FaissError>) -> (r: Result<
    FaissVersion,
    FaissError,
>)
    ensures
        match loaded {
            Err(e) => r == Err::<FaissVersion, FaissError>(e),
            Ok(None) => r matches Err(FaissError::NullPointer(m)) && m@
                == "faiss_get_version returned a null pointer"@,
            Ok(Some(b)) => match parse_version(utf8_lossy(b@)) {
                Some(v) => r == Ok::<FaissVersion, FaissError>(v),
                None => r matches Err(FaissError::VersionParse(t)) && t@ == utf8_lossy(b@),
            },
        },
{
    let version = faiss_version_string(loaded)?;
    match FaissVersion::parse(version.as_str()) {
        Some(v) => Ok(v),
        None => Err(FaissError::VersionParse(version)),
    }
}

/// What the release check answers for a library whose version reads `raw`
/// (`None` for a null pointer).
pub open spec fn support_outcome(raw: Option<Seq<u8>>, r: Result<(), FaissError>) -> bool {
    match raw {
        None => r matches Err(FaissError::NullPointer(m)) && m@
            == "faiss_get_version returned a null pointer"@,
        Some(b) => match parse_version(utf8_lossy(b)) {
            None => r matches Err(FaissError::VersionParse(t)) && t@ == utf8_lossy(b),
            Some(v) => if version_precedes(v, spec_min_ivf_rabitq_version()) {
                r matches Err(FaissError::VersionTooOld { found, required }) && found@
                    == utf8_lossy(b) && required == spec_min_ivf_rabitq_version()
            } else {
                r is Ok
            },
        },
    }
}

/// A library whose version text names a release is accepted exactly when
/// that release is 1.11.0 or later, counted as one number.
pub proof fn lemma_support_by_number(raw: Option<Vec<u8>>, r: Result<(), FaissError>)
    requires
        support_outcome(raw_view(raw), r),
        raw is Some,
        parse_version(utf8_lossy(raw->Some_0@)) is Some,
    ensures
        r is Ok <==> crate::version::version_number(parse_version(utf8_lossy(raw->Some_0@))->Some_0)
            >= crate::version::version_number(spec_min_ivf_rabitq_version()),
{
    let v = parse_version(utf8_lossy(raw->Some_0@))->Some_0;
    crate::version::lemma_precedes_by_number(v, spec_min_ivf_rabitq_version());
}

/// Whether the library, whose version reads `raw`, has IVF-RaBitQ indexes:
/// its version must name a release no older than 1.11.0.
pub fn ensure_ivf_rabitq_support(raw: Option<Vec<u8>>) -> (r: Result<(), FaissError>)
    ensures
        support_outcome(raw_view(raw), r),
{
    let version = version_string_from(raw)?;
    let parsed = match FaissVersion::parse(version.as_str()) {
        Some(v) => v,
        None => {
            return Err(FaissError::VersionParse(version.clone()));
        },
    };
    let min = min_ivf_rabitq_version();
    if parsed.precedes(&min) {
        return Err(FaissError::VersionTooOld { found: version, required: min });
    }
    Ok(())
}

} // verus!
