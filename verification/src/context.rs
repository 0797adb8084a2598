//! Context types for rule execution.

use vstd::prelude::*;

verus! {

use crate::strutil::{
    ends_with,
    is_suffix,
    is_prefix,
    split_char,
    split_on,
    starts_with,
    str_eq,
    str_views,
};

/// The slash-separated components of a path.
pub open spec fn path_components(p: Seq<char>) -> Seq<Seq<char>> {
    split_on(p, '/')
}

/// A path names a test file: some directory component is `tests`,
/// `test`, or `benches`, or the file name follows a test convention.
pub open spec fn spec_is_test_path(p: Seq<char>) -> bool {
    let comps = path_components(p);
    ||| exists|i: int|
        0 <= i < comps.len() && ((#[trigger] comps[i]) == "tests"@ || comps[i] == "test"@
            || comps[i] == "benches"@)
    ||| {
        let name = comps.last();
        ||| is_suffix("_test.rs"@, name)
        ||| is_suffix("_tests.rs"@, name)
        ||| is_prefix("test_"@, name)
        ||| name == "tests.rs"@
    }
}

/// Detects if a file is a test file based on path conventions.
pub fn detect_test_file(path: &str) -> (r: bool)
    ensures
        r == spec_is_test_path(path@),
{
    let comps = split_char(path, '/');
    let n = comps.len();
    proof {
        assert(n > 0) by {
            assert(path_components(path@).len() > 0) by {
                let s = path@;
                let i = crate::strutil::first_idx(s, '/');
                if i < 0 || i >= s.len() {
                } else {
                }
            }
        }
    }
    let mut i: usize = 0;
    let mut found = false;
    while i < n
        invariant
            0 <= i <= n,
            n == comps@.len(),
            str_views(comps@) == path_components(path@),
            found == exists|j: int|
                0 <= j < i && ((#[trigger] str_views(comps@)[j]) == "tests"@ || str_views(
                    comps@,
                )[j] == "test"@ || str_views(comps@)[j] == "benches"@),
        decreases n - i,
    {
        if str_eq(comps[i].as_str(), "tests") || str_eq(comps[i].as_str(), "test") || str_eq(
            comps[i].as_str(),
            "benches",
        ) {
            proof {
                assert(str_views(comps@)[i as int] == comps@[i as int]@);
            }
            found = true;
        }
        i = i + 1;
    }
    if found {
        return true;
    }
    let name = &comps[n - 1];
    proof {
        assert(str_views(comps@)[n - 1] == comps@[n - 1]@);
        assert(path_components(path@).last() == name@);
    }
    ends_with(name.as_str(), "_test.rs") || ends_with(name.as_str(), "_tests.rs") || starts_with(
        name.as_str(),
        "test_",
    ) || str_eq(name.as_str(), "tests.rs")
}

/// A path component with any file extension removed: cut at the last
/// dot, unless the dot is the first character.
pub open spec fn strip_extension(name: Seq<char>) -> Seq<char> {
    if exists|i: int| 1 <= i < name.len() && name[i] == '.' {
        let cut = choose|i: int|
            1 <= i < name.len() && name[i] == '.' && forall|j: int|
                i < j < name.len() ==> name[j] != '.';
        name.subrange(0, cut)
    } else {
        name
    }
}

/// Cuts a path component at its last dot, keeping dot-initial names.
fn strip_extension_exec(name: &str) -> (r: String)
    ensures
        r@ == strip_extension(name@),
{
    let len = name.unicode_len();
    if len == 0 {
        proof {
            assert(!(exists|i: int| 1 <= i < name@.len() && name@[i] == '.'));
        }
        return name.to_owned();
    }
    let mut i: usize = len;
    // Scan right to left for the last dot after the first character.
    while i > 1
        invariant
            1 <= i <= len || (len == 0 && i == 0),
            len == name@.len(),
            forall|j: int| i <= j < len ==> name@[j] != '.',
        decreases i,
    {
        if name.get_char(i - 1) == '.' {
            let cut = i - 1;
            proof {
                let s = name@;
                assert(1 <= cut < s.len() && s[cut as int] == '.');
                assert(forall|j: int| cut < j < s.len() ==> s[j] != '.');
                let c = choose|k: int|
                    1 <= k < s.len() && s[k] == '.' && forall|j: int|
                        k < j < s.len() ==> s[j] != '.';
                assert(c == cut) by {
                    if c < cut {
                        assert(s[cut as int] == '.');
                    } else if c > cut {
                        assert(s[c] != '.');
                    }
                }
            }
            return name.substring_char(0, cut).to_owned();
        }
        i = i - 1;
    }
    proof {
        assert(!(exists|i: int| 1 <= i < name@.len() && name@[i] == '.'));
    }
    name.to_owned()
}

/// The logical module path of a relative file path: its slash
/// components with the extension stripped from the last, a trailing
/// `mod` or `lib` dropped, and `crate` prepended when anything remains.
pub open spec fn spec_module_path(rel: Seq<char>) -> Seq<Seq<char>> {
    let comps = path_components(rel);
    let stem = strip_extension(comps.last());
    let parts = comps.drop_last().push(stem).filter(|c: Seq<char>| c.len() > 0);
    let trimmed = if parts.len() > 0 && (parts.last() == "mod"@ || parts.last() == "lib"@) {
        parts.drop_last()
    } else {
        parts
    };
    if trimmed.len() > 0 {
        seq!["crate"@] + trimmed
    } else {
        trimmed
    }
}

/// Computes the module path from a relative file path.
pub fn compute_module_path(relative_path: &str) -> (r: Vec<String>)
    ensures
        str_views(r@) == spec_module_path(relative_path@),
{
    let comps = split_char(relative_path, '/');
    let n = comps.len();
    proof {
        assert(str_views(comps@).len() > 0);
    }
    let stem = strip_extension_exec(comps[n - 1].as_str());
    proof {
        assert(str_views(comps@)[n - 1] == comps@[n - 1]@);
        assert(stem@ == strip_extension(path_components(relative_path@).last()));
    }
    let mut parts: Vec<String> = Vec::new();
    let ghost all = path_components(relative_path@).drop_last().push(stem@);
    let ghost keep = |c: Seq<char>| c.len() > 0;
    let mut i: usize = 0;
    proof {
        assert(str_views(parts@) =~= all.subrange(0, 0).filter(keep));
    }
    while i < n - 1
        invariant
            0 <= i <= n - 1,
            n == comps@.len(),
            n >= 1,
            str_views(comps@) == path_components(relative_path@),
            all == path_components(relative_path@).drop_last().push(stem@),
            keep == |c: Seq<char>| c.len() > 0,
            stem@ == strip_extension(path_components(relative_path@).last()),
            str_views(parts@) == all.subrange(0, i as int).filter(keep),
        decreases n - 1 - i,
    {
        proof {
            assert(all[i as int] == str_views(comps@)[i as int]);
            crate::types::lemma_filter_push(all.subrange(0, i as int), all[i as int], keep);
            assert(all.subrange(0, i + 1) =~= all.subrange(0, i as int).push(all[i as int]));
        }
        let ghost old_parts = parts@;
        if comps[i].as_str().unicode_len() > 0 {
            parts.push(comps[i].clone());
            proof {
                assert(str_views(parts@) =~= str_views(old_parts).push(comps@[i as int]@));
            }
        }
        i = i + 1;
    }
    proof {
        assert(all[n - 1] == stem@);
        crate::types::lemma_filter_push(all.subrange(0, n - 1), all[n - 1], keep);
        assert(all.subrange(0, n as int) =~= all.subrange(0, n - 1).push(all[n - 1]));
    }
    let ghost old_parts = parts@;
    if stem.as_str().unicode_len() > 0 {
        parts.push(stem);
        proof {
            assert(str_views(parts@) =~= str_views(old_parts).push(all[n - 1]));
        }
    }
    proof {
        assert(all.subrange(0, n as int) =~= all);
    }
    // Drop a trailing `mod` or `lib`.
    let np = parts.len();
    if np > 0 {
        let last = &parts[np - 1];
        proof {
            assert(str_views(parts@)[np - 1] == parts@[np - 1]@);
        }
        if str_eq(last.as_str(), "mod") || str_eq(last.as_str(), "lib") {
            let ghost before_pop = parts@;
            let _ = parts.pop();
            proof {
                assert(str_views(parts@) =~= str_views(before_pop).drop_last());
            }
        }
    }
    // Prepend the crate marker when anything remains.
    if parts.len() > 0 {
        let mut out: Vec<String> = Vec::new();
        out.push("crate".to_owned());
        let ghost head = out@;
        let npp = parts.len();
        let mut k: usize = 0;
        proof {
            assert(str_views(out@) =~= seq!["crate"@] + str_views(parts@).subrange(0, 0));
        }
        while k < npp
            invariant
                0 <= k <= npp,
                npp == parts@.len(),
                str_views(out@) == seq!["crate"@] + str_views(parts@).subrange(0, k as int),
            decreases npp - k,
        {
            let ghost old_out = out@;
            out.push(parts[k].clone());
            proof {
                assert(str_views(out@) =~= str_views(old_out).push(parts@[k as int]@));
                assert(str_views(parts@).subrange(0, k + 1) =~= str_views(parts@).subrange(
                    0,
                    k as int,
                ).push(str_views(parts@)[k as int]));
                assert(str_views(out@) =~= seq!["crate"@] + str_views(parts@).subrange(0, k + 1));
            }
            k = k + 1;
        }
        proof {
            assert(str_views(parts@).subrange(0, npp as int) =~= str_views(parts@));
        }
        out
    } else {
        parts
    }
}

/// Context provided to per-file rules: metadata about the file being
/// analyzed that rules use to make context-aware decisions.
#[derive(Debug, Clone)]
pub struct FileContext {
    /// Absolute path to the file.
    pub path: String,
    /// File contents.
    pub content: String,
    /// Whether this file is detected as a test file.
    pub is_test: bool,
    /// Module path from crate root.
    pub mod_path: Vec<String>,
    /// Path relative to the project root.
    pub relative_path: String,
}

/// The path relative to `root`: the remainder after the root and a
/// slash, or the path itself when it does not lie under the root.
pub open spec fn spec_relative_to(path: Seq<char>, root: Seq<char>) -> Seq<char> {
    if is_prefix(root, path) && root.len() < path.len() && path[root.len() as int] == '/' {
        path.subrange(root.len() as int + 1, path.len() as int)
    } else if path == root {
        Seq::empty()
    } else {
        path
    }
}

impl FileContext {
    /// Creates a new file context, deriving the test flag, relative
    /// path, and module path from the paths.
    pub fn new(path: &str, content: &str, root: &str) -> (r: FileContext)
        ensures
            r.path@ == path@,
            r.content@ == content@,
            r.is_test == spec_is_test_path(path@),
            r.relative_path@ == spec_relative_to(path@, root@),
            str_views(r.mod_path@) == spec_module_path(spec_relative_to(path@, root@)),
    {
        let is_test = detect_test_file(path);
        let relative_path = relative_to(path, root);
        let mod_path = compute_module_path(relative_path.as_str());
        FileContext {
            path: path.to_owned(),
            content: content.to_owned(),
            is_test,
            mod_path,
            relative_path,
        }
    }

    /// Calculates the character offset of a 1-indexed line and column:
    /// the lengths of the preceding lines, each with its newline, plus
    /// the column offset within the line.
    pub fn offset_for(&self, line: usize, column: usize) -> (r: usize)
        requires
            self.content@.len() + column < usize::MAX,
        ensures
            r as int == spec_offset_for(self.content@, line as int, column as int),
    {
        if line == 0 {
            return 0;
        }
        let lines = split_char(self.content.as_str(), '\n');
        let n = lines.len();
        let ghost ls = spec_lines_of(self.content@);
        proof {
            lemma_sum_line_lens_bound(ls, ls.len() as int);
        }
        let mut offset: usize = 0;
        let mut i: usize = 0;
        proof {
            lemma_split_on_total_len(self.content@, '\n');
        }
        while i < n
            invariant
                0 <= i <= n,
                n == lines@.len(),
                ls == spec_lines_of(self.content@),
                str_views(lines@) == ls,
                line >= 1,
                self.content@.len() + column < usize::MAX,
                flat_len(ls, ls.len() as int) + ls.len() - 1 == self.content@.len(),
                offset as int == sum_line_lens(ls, i as int),
                i < line,
            decreases n - i,
        {
            proof {
                lemma_sum_line_lens_bound(ls, i as int);
                lemma_flat_len_mono(ls, i as int, ls.len() as int);
                assert(offset <= self.content@.len() + 1);
            }
            if i + 1 == line {
                let col = if column >= 1 {
                    column - 1
                } else {
                    0
                };
                return offset + col;
            }
            proof {
                lemma_sum_line_lens_bound(ls, i + 1);
                lemma_flat_len_mono(ls, i + 1, ls.len() as int);
                assert(sum_line_lens(ls, i + 1) <= self.content@.len() + 1);
                assert(str_views(lines@)[i as int] == lines@[i as int]@);
            }
            offset = offset + lines[i].as_str().unicode_len() + 1;
            i = i + 1;
        }
        offset
    }
}

/// The lines of a text, split on newlines.
pub open spec fn spec_lines_of(s: Seq<char>) -> Seq<Seq<char>> {
    split_on(s, '\n')
}

/// The lengths of the first `m` lines, each counted with its newline.
pub open spec fn sum_line_lens(lines: Seq<Seq<char>>, m: int) -> int
    decreases m,
{
    if m <= 0 {
        0
    } else {
        sum_line_lens(lines, m - 1) + lines[m - 1].len() + 1
    }
}

/// The character offset of a 1-indexed line and column in a text.
pub open spec fn spec_offset_for(s: Seq<char>, line: int, column: int) -> int {
    let lines = spec_lines_of(s);
    if line == 0 {
        0
    } else if line - 1 < lines.len() {
        sum_line_lens(lines, line - 1) + (if column >= 1 {
            column - 1
        } else {
            0
        })
    } else {
        sum_line_lens(lines, lines.len() as int)
    }
}

/// The summed line lengths count the flat lengths plus one newline per
/// line.
proof fn lemma_sum_line_lens_bound(lines: Seq<Seq<char>>, m: int)
    requires
        0 <= m,
    ensures
        sum_line_lens(lines, m) == flat_len(lines, m) + m,
    decreases m,
{
    if m > 0 {
        lemma_sum_line_lens_bound(lines, m - 1);
    }
}

/// Counting more lines never shrinks the flat total.
proof fn lemma_flat_len_mono(lines: Seq<Seq<char>>, a: int, b: int)
    requires
        a <= b,
    ensures
        flat_len(lines, a) <= flat_len(lines, b),
    decreases b - a,
{
    if a < b {
        lemma_flat_len_mono(lines, a, b - 1);
    }
}

/// The total length of the first `m` lines, without separators.
pub open spec fn flat_len(lines: Seq<Seq<char>>, m: int) -> int
    decreases m,
{
    if m <= 0 {
        0
    } else {
        flat_len(lines, m - 1) + lines[m - 1].len()
    }
}

/// Splitting never yields pieces longer than the text: the pieces plus
/// one separator per boundary reassemble the text exactly.
proof fn lemma_split_on_total_len(s: Seq<char>, c: char)
    ensures
        flat_len(split_on(s, c), split_on(s, c).len() as int) + split_on(s, c).len() - 1
            == s.len(),
    decreases s.len(),
{
    let i = crate::strutil::first_idx(s, c);
    if i < 0 || i >= s.len() {
        assert(split_on(s, c) =~= seq![s]);
        assert(split_on(s, c)[0] == s);
        assert(flat_len(split_on(s, c), 1) == flat_len(split_on(s, c), 0) + split_on(s, c)[0].len());
    } else {
        lemma_first_idx_in_range(s, c);
        let rest = s.subrange(i + 1, s.len() as int);
        lemma_split_on_total_len(rest, c);
        let pieces = split_on(s, c);
        let sub = split_on(rest, c);
        assert(pieces =~= seq![s.subrange(0, i)] + sub);
        lemma_flat_len_prepend(s.subrange(0, i), sub, sub.len() as int);
    }
}

/// The first index, when non-negative, lies within the sequence.
proof fn lemma_first_idx_in_range(s: Seq<char>, c: char)
    ensures
        crate::strutil::first_idx(s, c) >= 0 ==> crate::strutil::first_idx(s, c) < s.len(),
    decreases s.len(),
{
    if s.len() > 0 && s[0] != c {
        lemma_first_idx_in_range(s.subrange(1, s.len() as int), c);
    }
}

/// Prepending one piece adds its length to the flat total.
proof fn lemma_flat_len_prepend(x: Seq<char>, rest: Seq<Seq<char>>, m: int)
    requires
        0 <= m <= rest.len(),
    ensures
        flat_len(seq![x] + rest, m + 1) == x.len() + flat_len(rest, m),
    decreases m,
{
    let p = seq![x] + rest;
    if m == 0 {
        assert(p[0] == x);
        assert(flat_len(p, 1) == flat_len(p, 0) + p[0].len());
    } else {
        lemma_flat_len_prepend(x, rest, m - 1);
        assert(p[m] == rest[m - 1]);
        assert(flat_len(p, m + 1) == flat_len(p, m) + p[m].len());
        assert(flat_len(rest, m) == flat_len(rest, m - 1) + rest[m - 1].len());
    }
}

/// Cuts a path to be relative to a root directory.
pub fn relative_to(path: &str, root: &str) -> (r: String)
    ensures
        r@ == spec_relative_to(path@, root@),
{
    if str_eq(path, root) {
        if starts_with(path, root) && path.unicode_len() > root.unicode_len() {
        }
        let empty = String::new();
        proof {
            assert(!(is_prefix(root@, path@) && root@.len() < path@.len()));
        }
        return empty;
    }
    if starts_with(path, root) {
        let plen = path.unicode_len();
        let rlen = root.unicode_len();
        if rlen < plen && path.get_char(rlen) == '/' {
            return path.substring_char(rlen + 1, plen).to_owned();
        }
    }
    path.to_owned()
}

/// Context provided to project-wide rules.
#[derive(Debug, Clone)]
pub struct ProjectContext {
    /// Root directory of the project.
    pub root: String,
    /// All primary-language source files discovered in the project.
    pub source_files: Vec<String>,
    /// All manifest files found.
    pub cargo_files: Vec<String>,
}

impl ProjectContext {
    /// Creates a new project context with no files.
    pub fn new(root: String) -> (r: ProjectContext)
        ensures
            r.root@ == root@,
            r.source_files@.len() == 0,
            r.cargo_files@.len() == 0,
    {
        ProjectContext { root, source_files: Vec::new(), cargo_files: Vec::new() }
    }

    /// Sets the list of source files.
    pub fn with_source_files(self, files: Vec<String>) -> (r: ProjectContext)
        ensures
            r.root == self.root,
            r.source_files == files,
            r.cargo_files == self.cargo_files,
    {
        ProjectContext { source_files: files, ..self }
    }

    /// Sets the list of manifest files.
    pub fn with_cargo_files(self, files: Vec<String>) -> (r: ProjectContext)
        ensures
            r.root == self.root,
            r.source_files == self.source_files,
            r.cargo_files == files,
    {
        ProjectContext { cargo_files: files, ..self }
    }
}

} // verus!
