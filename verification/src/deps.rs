//! Results of the dependency checks (FFmpeg, pkg-config, GStreamer): their
//! report lines and tallies.
use crate::text::owned;
use vstd::prelude::*;
use vstd::string::StringSliceAdditionalSpecFns;

verus! {

/// The outcome of one dependency check.
#[derive(Debug)]
pub struct CheckResult {
    pub name: String,
    pub passed: bool,
    pub version: Option<String>,
}

impl CheckResult {
    /// A passed check with no version.
    pub fn pass(name: String) -> (r: Self)
        ensures
            r == (CheckResult { name, passed: true, version: None }),
    {
        CheckResult { name, passed: true, version: None }
    }

    /// A passed check with the version found.
    pub fn pass_with_version(name: String, version: String) -> (r: Self)
        ensures
            r == (CheckResult { name, passed: true, version: Some(version) }),
    {
        CheckResult { name, passed: true, version: Some(version) }
    }

    /// A failed check.
    pub fn fail(name: String) -> (r: Self)
        ensures
            r == (CheckResult { name, passed: false, version: None }),
    {
        CheckResult { name, passed: false, version: None }
    }

    /// The report line of the check: `[OK]   name (version)`, `[OK]   name`
    /// or `[FAIL] name`.
    pub fn report_line(&self) -> (s: String)
        ensures
            s@ == spec_report_line(*self),
    {
        if self.passed {
            let mut s = owned("[OK]   ");
            s.append(self.name.as_str());
            match &self.version {
                Some(v) => {
                    s.append(" (");
                    s.append(v.as_str());
                    s.append(")");
                },
                None => {},
            }
            s
        } else {
            let mut s = owned("[FAIL] ");
            s.append(self.name.as_str());
            s
        }
    }
}

/// The report line of a check.
pub open spec fn spec_report_line(r: CheckResult) -> Seq<char> {
    if r.passed {
        match r.version {
            Some(v) => "[OK]   "@ + r.name@ + " ("@ + v@ + ")"@,
            None => "[OK]   "@ + r.name@,
        }
    } else {
        "[FAIL] "@ + r.name@
    }
}

/// How many of the first `n` checks passed.
pub open spec fn passed_count(results: Seq<CheckResult>, n: int) -> nat
    decreases n,
{
    if n <= 0 {
        0
    } else {
        passed_count(results, n - 1) + if results[n - 1].passed { 1nat } else { 0nat }
    }
}

/// The number of passed and of failed checks.
pub fn tally(results: &[CheckResult]) -> (r: (usize, usize))
    ensures
        r.0 == passed_count(results@, results@.len() as int),
        r.0 + r.1 == results@.len(),
{
    let n = results.len();
    let mut passed: usize = 0;
    let mut i: usize = 0;
    while i < n
        invariant
            n == results@.len(),
            i <= n,
            passed == passed_count(results@, i as int),
            passed <= i,
        decreases n - i,
    {
        if results[i].passed {
            passed += 1;
        }
        i += 1;
    }
    (passed, n - passed)
}

/// Whether `hay` holds `needle` as a contiguous run.
pub open spec fn bytes_contain(hay: Seq<u8>, needle: Seq<u8>) -> bool {
    exists|i: int| 0 <= i && i + needle.len() <= hay.len() && #[trigger] hay.subrange(i, i + needle.len()) == needle
}

/// Whether `hay` holds `needle` as a contiguous run of bytes.
fn contains_bytes(hay: &[u8], needle: &[u8]) -> (r: bool)
    ensures
        r == bytes_contain(hay@, needle@),
{
    let n = hay.len();
    let m = needle.len();
    if m > n {
        return false;
    }
    let mut i: usize = 0;
    while i <= n - m
        invariant
            n == hay@.len(),
            m == needle@.len(),
            m <= n,
            i <= n - m + 1,
            forall|k: int| 0 <= k < i ==> #[trigger] hay@.subrange(k, k + m) != needle@,
        decreases n - m + 1 - i,
    {
        let mut j: usize = 0;
        let mut same = true;
        while j < m
            invariant
                n == hay@.len(),
                m == needle@.len(),
                i + m <= n,
                j <= m,
                same == (forall|t: int| 0 <= t < j ==> hay@[i + t] == needle@[t]),
            decreases m - j,
        {
            if hay[i + j] != needle[j] {
                same = false;
            }
            j += 1;
        }
        if same {
            assert(hay@.subrange(i as int, i + m) =~= needle@);
            return true;
        }
        proof {
            if hay@.subrange(i as int, i + m) == needle@ {
                assert forall|t: int| 0 <= t < m implies hay@[i + t] == needle@[t] by {
                    assert(hay@.subrange(i as int, i + m)[t] == hay@[i + t]);
                }
            }
        }
        i += 1;
    }
    proof {
        assert forall|k: int| 0 <= k && k + m <= n implies #[trigger] hay@.subrange(k, k + m) != needle@ by {}
    }
    false
}

/// Whether the GStreamer checks run: by default, unless default features
/// are switched off, and when features are named, exactly when they
/// mention `wayland-pipe`.
pub fn wayland_feature_enabled(no_default_features: bool, features: Option<&str>) -> (r: bool)
    ensures
        r == match features {
            Some(f) => bytes_contain(f.spec_bytes(), "wayland-pipe".spec_bytes()),
            None => !no_default_features,
        },
{
    match features {
        Some(f) => contains_bytes(f.as_bytes(), "wayland-pipe".as_bytes()),
        None => !no_default_features,
    }
}

/// The name under which a pkg-config module check is reported.
pub fn pkg_config_check_name(module: &str) -> (s: String)
    ensures
        s@ == "pkg-config: "@ + module@,
{
    let mut s = owned("pkg-config: ");
    s.append(module);
    s
}

/// The heading of a report section.
pub fn section_heading(title: &str) -> (s: String)
    ensures
        s@ == "== "@ + title@ + " =="@,
{
    let mut s = owned("== ");
    s.append(title);
    s.append(" ==");
    s
}

} // verus!
