//! Validated glob patterns for file path matching, backed by the
//! `glob` crate.
//!
//! A pattern is compiled once at construction and reused for all match
//! calls. Besides the compiled match, `matches` accepts paths that lie
//! strictly under a `dir/**` pattern's directory prefix.

use vstd::prelude::*;

verus! {

use crate::strutil::{is_prefix, is_suffix, starts_with, str_eq, ends_with};

/// The `glob` crate's compiled pattern type, carried opaquely.
#[verifier::external_type_specification]
#[verifier::external_body]
pub struct ExGlobCompiled(glob::Pattern);

/// Whether `glob::Pattern::new` accepts a pattern text; compilation
/// depends on the text alone.
pub uninterp spec fn glob_syntax_ok(pattern: Seq<char>) -> bool;

/// What `glob::Pattern::matches` answers for a pattern text and a path;
/// the answer depends on the two texts alone.
pub uninterp spec fn glob_matches(pattern: Seq<char>, path: Seq<char>) -> bool;

/// Relies on `glob::Pattern::new`: an invalid pattern yields an error,
/// and acceptance is a function of the pattern text.
#[verifier::external_body]
fn glob_compile(pattern: &str) -> (r: Result<glob::Pattern, String>)
    ensures
        r is Ok <==> glob_syntax_ok(pattern@),
{
    glob::Pattern::new(pattern).map_err(|e| e.to_string())
}

/// Relies on `glob::Pattern::matches`: the answer is a function of the
/// pattern's source text and the path. The `compiled` field of a
/// [`GlobPattern`] is only ever built from its `raw` text by
/// [`GlobPattern::new`].
#[verifier::external_body]
fn glob_match_compiled(p: &GlobPattern, path: &str) -> (r: bool)
    ensures
        r == glob_matches(p@, path@),
{
    p.compiled.matches(path)
}

/// Relies on `glob::Pattern`'s `Clone`: a clone is usable wherever the
/// original is; nothing more is assumed of it.
pub assume_specification[ <glob::Pattern as Clone>::clone ](p: &glob::Pattern) -> (r:
    glob::Pattern);

/// A validated glob pattern with its raw source text.
#[derive(Debug)]
pub struct GlobPattern {
    raw: String,
    compiled: glob::Pattern,
}

impl Clone for GlobPattern {
    /// A clone carries the same pattern text and compiled matcher.
    fn clone(&self) -> (r: Self)
        ensures
            r@ == self@,
    {
        GlobPattern { raw: self.raw.clone(), compiled: self.compiled.clone() }
    }
}

impl View for GlobPattern {
    type V = Seq<char>;

    closed spec fn view(&self) -> Seq<char> {
        self.raw@
    }
}

/// `s` without its trailing slashes.
pub open spec fn rtrim_slashes(s: Seq<char>) -> Seq<char>
    decreases s.len(),
{
    if s.len() > 0 && s[s.len() - 1] == '/' {
        rtrim_slashes(s.subrange(0, s.len() - 1))
    } else {
        s
    }
}

/// The directory-prefix fallback for `dir/**` patterns: the path lies
/// strictly under the pattern's directory.
pub open spec fn spec_glob_fallback(pattern: Seq<char>, path: Seq<char>) -> bool {
    is_suffix("/**"@, pattern) && {
        let prefix = rtrim_slashes(pattern.subrange(0, pattern.len() - 3));
        is_prefix(prefix, path) && prefix.len() < path.len() && path[prefix.len() as int] == '/'
    }
}

/// What [`GlobPattern::matches`] decides: the compiled glob match, or
/// the `dir/**` directory-prefix fallback.
pub open spec fn spec_glob_hit(pattern: Seq<char>, path: Seq<char>) -> bool {
    glob_matches(pattern, path) || spec_glob_fallback(pattern, path)
}

impl GlobPattern {
    /// Creates a new glob pattern; empty or syntactically invalid
    /// patterns are rejected.
    pub fn new(pattern: &str) -> (r: Result<GlobPattern, crate::model::ModelError>)
        ensures
            r is Ok <==> pattern@.len() > 0 && glob_syntax_ok(pattern@),
            r matches Ok(p) ==> p@ == pattern@,
            pattern@.len() == 0 ==> r matches Err(crate::model::ModelError::EmptyGlobPattern),
            pattern@.len() > 0 && !glob_syntax_ok(pattern@) ==> (r matches Err(
                crate::model::ModelError::InvalidGlobPattern { pattern: p, .. },
            ) && p@ == pattern@),
    {
        if pattern.unicode_len() == 0 {
            return Err(crate::model::ModelError::EmptyGlobPattern);
        }
        match glob_compile(pattern) {
            Ok(compiled) => Ok(GlobPattern { raw: pattern.to_owned(), compiled }),
            Err(reason) => Err(
                crate::model::ModelError::InvalidGlobPattern {
                    pattern: pattern.to_owned(),
                    reason,
                },
            ),
        }
    }

    /// Tests whether a relative file path matches this pattern, by the
    /// compiled glob or by the `dir/**` directory-prefix fallback.
    pub fn matches(&self, path: &str) -> (r: bool)
        ensures
            r == spec_glob_hit(self@, path@),
    {
        if glob_match_compiled(self, path) {
            return true;
        }
        // `dir/**` also covers anything strictly below `dir`.
        let raw_len = self.raw.as_str().unicode_len();
        if !ends_with(self.raw.as_str(), "/**") {
            return false;
        }
        proof {
            reveal_strlit("/**");
        }
        let prefix_raw = self.raw.as_str().substring_char(0, raw_len - 3);
        let prefix = trim_end_slashes(prefix_raw);
        proof {
            assert(prefix_raw@ == self.raw@.subrange(0, self.raw@.len() - 3));
        }
        let plen = prefix.unicode_len();
        let pathlen = path.unicode_len();
        if !starts_with(path, prefix) {
            return false;
        }
        if plen >= pathlen {
            return false;
        }
        path.get_char(plen) == '/'
    }

    /// Returns the pattern as a string slice.
    pub fn as_str(&self) -> (r: &str)
        ensures
            r@ == self@,
    {
        self.raw.as_str()
    }
}

/// Removes trailing slashes.
fn trim_end_slashes(s: &str) -> (r: &str)
    ensures
        r@ == rtrim_slashes(s@),
{
    let len = s.unicode_len();
    let mut end: usize = len;
    while end > 0 && s.get_char(end - 1) == '/'
        invariant
            0 <= end <= len,
            len == s@.len(),
            forall|j: int| end <= j < len ==> s@[j] == '/',
        decreases end,
    {
        end = end - 1;
    }
    proof {
        lemma_rtrim_slashes_at(s@, end as int);
    }
    s.substring_char(0, end)
}

/// Dropping `k` trailing slashes reaches the trimmed remainder.
proof fn lemma_rtrim_slashes_at(s: Seq<char>, k: int)
    requires
        0 <= k <= s.len(),
        forall|j: int| k <= j < s.len() ==> s[j] == '/',
        k == 0 || s[k - 1] != '/',
    ensures
        rtrim_slashes(s) == s.subrange(0, k),
    decreases s.len() - k,
{
    if k == s.len() {
        if s.len() == 0 || s[s.len() - 1] != '/' {
            assert(s.subrange(0, s.len() as int) =~= s);
        }
    } else {
        let t = s.subrange(0, s.len() - 1);
        assert forall|j: int| k <= j < t.len() implies t[j] == '/' by {
            assert(t[j] == s[j]);
        }
        lemma_rtrim_slashes_at(t, k);
        assert(t.subrange(0, k) =~= s.subrange(0, k));
    }
}

} // verus!
