//! Which YAML files the inputs name.
//!
//! Paths are handled as text; `std::path` decides what their extension,
//! parent, joins and order are.
use crate::text::{ascii_lower, chars_equal, chars_of, has_char, lower_chars, opt_text};
use std::path::Path;
use vstd::prelude::*;

verus! {

/// The extension of a path (`Path::extension`), as text.
pub uninterp spec fn path_extension(p: Seq<char>) -> Option<Seq<char>>;

/// The parent of a path (`Path::parent`), as text.
pub uninterp spec fn path_parent(p: Seq<char>) -> Option<Seq<char>>;

/// `base` joined with `tail` (`Path::join`), as text.
pub uninterp spec fn path_join(base: Seq<char>, tail: Seq<char>) -> Seq<char>;

/// `p` with its extension set to `ext` (`Path::with_extension`), as text.
pub uninterp spec fn path_with_extension(p: Seq<char>, ext: Seq<char>) -> Seq<char>;

/// `Path` order: `a < b`.
pub uninterp spec fn path_less(a: Seq<char>, b: Seq<char>) -> bool;

/// `Path` equality: the same components.
pub uninterp spec fn path_same(a: Seq<char>, b: Seq<char>) -> bool;

/// Asks `Path::extension` for the extension of `p`.
/// Trusted: the text of the result is `path_extension(p)`.
#[verifier::external_body]
fn std_path_extension(p: &str) -> (r: Option<String>)
    ensures
        opt_text(r) == path_extension(p@),
{
    match Path::new(p).extension() {
        Some(e) => Some(e.to_string_lossy().into_owned()),
        None => None,
    }
}

/// Asks `Path::parent` for the parent of `p`.
/// Trusted: the text of the result is `path_parent(p)`.
#[verifier::external_body]
pub(crate) fn std_path_parent_of(p: &str) -> (r: Option<String>)
    ensures
        opt_text(r) == path_parent(p@),
{
    match Path::new(p).parent() {
        Some(q) => Some(q.to_string_lossy().into_owned()),
        None => None,
    }
}

/// Joins with `Path::join`.
/// Trusted: the text of the result is `path_join(base, tail)`.
#[verifier::external_body]
pub(crate) fn std_path_join(base: &str, tail: &str) -> (r: String)
    ensures
        r@ == path_join(base@, tail@),
{
    Path::new(base).join(tail).to_string_lossy().into_owned()
}

/// Sets the extension with `Path::with_extension`, which panics on an
/// extension that holds a path separator; such an extension is not admitted.
/// Trusted: the text of the result is `path_with_extension(p, ext)`.
#[verifier::external_body]
pub(crate) fn std_path_with_extension(p: &str, ext: &str) -> (r: String)
    requires
        !ext@.contains('/'),
        !ext@.contains('\\'),
    ensures
        r@ == path_with_extension(p@, ext@),
{
    Path::new(p).with_extension(ext).to_string_lossy().into_owned()
}

/// Compares with `<` on `Path`.
/// Trusted: the result is `path_less(a, b)`; and, as `Ord` requires, a path
/// that precedes another does not also follow it, and no path precedes itself.
#[verifier::external_body]
fn std_path_less(a: &str, b: &str) -> (r: bool)
    ensures
        r == path_less(a@, b@),
        r ==> !path_less(b@, a@),
        a@ == b@ ==> !r,
{
    Path::new(a) < Path::new(b)
}

/// Compares with `==` on `Path`.
/// Trusted: the result is `path_same(a, b)`; and, as `Eq` and `Ord` require,
/// the same text is the same path, two paths are equal exactly when neither
/// precedes the other, and equal paths precede and follow the same paths.
#[verifier::external_body]
fn std_path_same(a: &str, b: &str) -> (r: bool)
    ensures
        r == path_same(a@, b@),
        a@ == b@ ==> r,
        r == (!path_less(a@, b@) && !path_less(b@, a@)),
        r ==> (forall|c: Seq<char>|
            #![trigger path_less(c, a@)]
            #![trigger path_less(c, b@)]
            path_less(c, a@) == path_less(c, b@)),
{
    Path::new(a) == Path::new(b)
}

/// The path has the extension `yaml` or `yml`, in any case.
pub open spec fn yaml_extension(p: Seq<char>) -> bool {
    match path_extension(p) {
        Some(e) => {
            let lower = e.map_values(|c: char| ascii_lower(c));
            lower == "yaml"@ || lower == "yml"@
        },
        None => false,
    }
}

/// Whether the path names a YAML file by its extension (`.yaml` or `.yml`, in
/// any case).
pub fn is_yaml(path: &str) -> (r: bool)
    ensures
        r == yaml_extension(path@),
{
    match std_path_extension(path) {
        Some(ext) => {
            let lower = lower_chars(&chars_of(ext.as_str()));
            chars_equal(&lower, "yaml") || chars_equal(&lower, "yml")
        },
        None => false,
    }
}

/// Why the inputs do not name YAML files.
#[derive(Clone, Debug)]
pub enum InputError {
    NotYaml { path: String },
    NotFound { input: String },
    NoYamlFiles,
}

impl InputError {
    /// What went wrong, in words.
    pub fn message(&self) -> (r: String)
        ensures
            r@ == match self {
                InputError::NotYaml { path } => path@ + " is not a YAML file (.yaml or .yml)"@,
                InputError::NotFound { input } => "input '"@ + input@
                    + "' is not a file, directory, or glob pattern"@,
                InputError::NoYamlFiles => "no YAML invoice files found for the given input(s)"@,
            },
    {
        match self {
            InputError::NotYaml { path } => {
                let mut r = path.clone();
                r.append(" is not a YAML file (.yaml or .yml)");
                r
            },
            InputError::NotFound { input } => {
                let mut r = String::from_str("input '");
                r.append(input.as_str());
                r.append("' is not a file, directory, or glob pattern");
                r
            },
            InputError::NoYamlFiles => String::from_str(
                "no YAML invoice files found for the given input(s)",
            ),
        }
    }
}

/// A file is accepted where its name ends in `.yaml` or `.yml`.
pub fn ensure_yaml(path: &str) -> (r: Result<(), InputError>)
    ensures
        r is Ok <==> yaml_extension(path@),
        r matches Err(InputError::NotYaml { path: p }) ==> p@ == path@,
        r is Err ==> r matches Err(InputError::NotYaml { .. }),
{
    if is_yaml(path) {
        Ok(())
    } else {
        Err(InputError::NotYaml { path: String::from_str(path) })
    }
}

/// How one input is expanded into files.
#[derive(Clone, Copy, Debug, PartialEq, Eq)]
pub enum InputKind {
    /// A directory: its `.yaml` and `.yml` files, recursively.
    Directory,
    /// A single YAML file.
    File,
    /// A glob pattern: the YAML files that match it.
    Pattern,
}

/// The input holds a glob character (`*`, `?` or `[`).
pub open spec fn has_glob_char(s: Seq<char>) -> bool {
    s.contains('*') || s.contains('?') || s.contains('[')
}

/// A YAML file is one whose extension, in lower case, is `yaml` or `yml`; a
/// glob pattern is an input that holds `*`, `?` or `[` somewhere.
pub proof fn lemma_yaml_and_glob(p: Seq<char>)
    ensures
        yaml_extension(p) <==> (path_extension(p) matches Some(e) && (e.map_values(
            |c: char| ascii_lower(c),
        ) == "yaml"@ || e.map_values(|c: char| ascii_lower(c)) == "yml"@)),
        has_glob_char(p) <==> exists|i: int|
            0 <= i < p.len() && (p[i] == '*' || p[i] == '?' || p[i] == '['),
{
}

/// Decides how an input is expanded, given whether it names a directory or a
/// file: a directory is walked, a file must be YAML, and a text with a glob
/// character is a pattern; anything else is refused.
pub fn classify_input(input: &str, is_dir: bool, is_file: bool) -> (r: Result<
    InputKind,
    InputError,
>)
    ensures
        is_dir ==> r == Ok::<InputKind, InputError>(InputKind::Directory),
        !is_dir && is_file && yaml_extension(input@) ==> r == Ok::<InputKind, InputError>(
            InputKind::File,
        ),
        !is_dir && is_file && !yaml_extension(input@) ==> (r matches Err(
            InputError::NotYaml { path },
        ) && path@ == input@),
        !is_dir && !is_file && has_glob_char(input@) ==> r == Ok::<InputKind, InputError>(
            InputKind::Pattern,
        ),
        !is_dir && !is_file && !has_glob_char(input@) ==> (r matches Err(
            InputError::NotFound { input: i },
        ) && i@ == input@),
{
    if is_dir {
        return Ok(InputKind::Directory);
    }
    if is_file {
        return match ensure_yaml(input) {
            Ok(()) => Ok(InputKind::File),
            Err(e) => Err(e),
        };
    }
    let chars = chars_of(input);
    if has_char(&chars, '*') || has_char(&chars, '?') || has_char(&chars, '[') {
        return Ok(InputKind::Pattern);
    }
    Err(InputError::NotFound { input: String::from_str(input) })
}

/// Each path comes no later than the next one in `Path` order.
pub open spec fn in_path_order(s: Seq<String>) -> bool {
    forall|k: int| #![trigger s[k]] 0 <= k && k + 1 < s.len() ==> !path_less(s[k + 1]@, s[k]@)
}

/// Each path strictly precedes the next one in `Path` order, and differs from
/// it as text.
pub open spec fn strictly_in_path_order(s: Seq<String>) -> bool {
    forall|k: int| #![trigger s[k]] 0 <= k && k + 1 < s.len() ==> path_less(s[k]@, s[k + 1]@)
        && s[k]@ != s[k + 1]@
}

/// `t` is the text of a path of `b`.
pub open spec fn text_in(t: Seq<char>, b: Seq<String>) -> bool {
    exists|j: int| 0 <= j < b.len() && b[j]@ == t
}

/// Every path of `a` is, as text, a path of `b`.
pub open spec fn drawn_from(a: Seq<String>, b: Seq<String>) -> bool {
    forall|i: int| 0 <= i < a.len() ==> #[trigger] text_in(a[i]@, b)
}

/// `t` is, as text or as a `Path`, a path of `a`.
pub open spec fn covered_by(t: Seq<char>, a: Seq<String>) -> bool {
    exists|i: int| 0 <= i < a.len() && (a[i]@ == t || path_same(t, a[i]@))
}

/// Every path of `b` is, as text or as a `Path`, one of `a`.
pub open spec fn covers(a: Seq<String>, b: Seq<String>) -> bool {
    forall|j: int| 0 <= j < b.len() ==> #[trigger] covered_by(b[j]@, a)
}

proof fn lemma_insert_in_order(old: Seq<String>, p: int, x: String)
    requires
        0 <= p <= old.len(),
        in_path_order(old),
        p > 0 ==> !path_less(x@, old[p - 1]@),
        p < old.len() ==> !path_less(old[p]@, x@),
    ensures
        in_path_order(old.insert(p, x)),
{
    let s = old.insert(p, x);
    assert forall|k: int| #![trigger s[k]]
        0 <= k && k + 1 < s.len() implies !path_less(s[k + 1]@, s[k]@) by {
        if k + 1 < p {
            assert(old[k] == old[k]);
        } else if k + 1 == p {
        } else if k == p {
        } else {
            assert(old[k - 1] == old[k - 1]);
        }
    }
}

proof fn lemma_insert_drawn(old: Seq<String>, p: int, x: String, v: Seq<String>, i: int)
    requires
        0 <= p <= old.len(),
        0 <= i < v.len(),
        x@ == v[i]@,
        drawn_from(old, v.take(i)),
        drawn_from(v.take(i), old),
    ensures
        drawn_from(old.insert(p, x), v.take(i + 1)),
        drawn_from(v.take(i + 1), old.insert(p, x)),
{
    let s = old.insert(p, x);
    let vt = v.take(i + 1);
    let vo = v.take(i);
    assert forall|a: int| 0 <= a < s.len() implies #[trigger] text_in(s[a]@, vt) by {
        if a == p {
            assert(vt[i]@ == s[a]@);
        } else {
            let b = if a < p {
                a
            } else {
                a - 1
            };
            assert(s[a] == old[b]);
            assert(text_in(old[b]@, vo));
            let j = choose|j: int| 0 <= j < vo.len() && vo[j]@ == old[b]@;
            assert(vt[j] == vo[j]);
            assert(vt[j]@ == s[a]@);
        }
    }
    assert forall|j: int| 0 <= j < vt.len() implies #[trigger] text_in(vt[j]@, s) by {
        if j == i {
            assert(s[p]@ == vt[j]@);
        } else {
            assert(vt[j] == vo[j]);
            assert(text_in(vo[j]@, old));
            let b = choose|b: int| 0 <= b < old.len() && old[b]@ == vo[j]@;
            if b < p {
                assert(s[b] == old[b]);
                assert(s[b]@ == vt[j]@);
            } else {
                assert(s[b + 1] == old[b]);
                assert(s[b + 1]@ == vt[j]@);
            }
        }
    }
}

/// Insertion sort in `Path` order; equal paths keep their order.
fn sort_paths(v: &Vec<String>) -> (r: Vec<String>)
    ensures
        r@.len() == v@.len(),
        drawn_from(r@, v@),
        drawn_from(v@, r@),
        in_path_order(r@),
{
    let mut out: Vec<String> = Vec::new();
    let mut i: usize = 0;
    while i < v.len()
        invariant
            i <= v@.len(),
            out@.len() == i,
            drawn_from(out@, v@.take(i as int)),
            drawn_from(v@.take(i as int), out@),
            in_path_order(out@),
        decreases v.len() - i,
    {
        let x = v[i].clone();
        let mut p = out.len();
        loop
            invariant
                p <= out@.len(),
                x@ == v@[i as int]@,
                p < out@.len() ==> !path_less(out@[p as int]@, x@),
            ensures
                p <= out@.len(),
                p < out@.len() ==> !path_less(out@[p as int]@, x@),
                p > 0 ==> !path_less(x@, out@[p - 1]@),
            decreases p,
        {
            if p == 0 {
                break;
            }
            if !std_path_less(x.as_str(), out[p - 1].as_str()) {
                break;
            }
            p = p - 1;
        }
        let ghost old_out = out@;
        proof {
            lemma_insert_in_order(old_out, p as int, x);
            lemma_insert_drawn(old_out, p as int, x, v@, i as int);
        }
        out.insert(p, x);
        i = i + 1;
    }
    proof {
        assert(v@.take(v@.len() as int) == v@);
    }
    out
}

proof fn lemma_covers_extend(out: Seq<String>, s: Seq<String>, i: int, a: int)
    requires
        0 <= i < s.len(),
        0 <= a < out.len(),
        covers(out, s.take(i)),
        out[a]@ == s[i]@ || path_same(s[i]@, out[a]@),
    ensures
        covers(out, s.take(i + 1)),
{
    let st = s.take(i + 1);
    assert forall|j: int| 0 <= j < st.len() implies #[trigger] covered_by(st[j]@, out) by {
        if j == i {
            assert(st[j] == s[i]);
            assert(out[a]@ == st[j]@ || path_same(st[j]@, out[a]@));
        } else {
            assert(st[j] == s.take(i)[j]);
            assert(covered_by(s.take(i)[j]@, out));
        }
    }
}

proof fn lemma_covers_push(out: Seq<String>, s: Seq<String>, i: int, y: String)
    requires
        0 <= i < s.len(),
        y@ == s[i]@,
        covers(out, s.take(i)),
    ensures
        covers(out.push(y), s.take(i + 1)),
{
    let n = out.push(y);
    assert forall|j: int| 0 <= j < s.take(i).len() implies #[trigger] covered_by(
        s.take(i)[j]@,
        n,
    ) by {
        assert(covered_by(s.take(i)[j]@, out));
        let b = choose|b: int|
            0 <= b < out.len() && (out[b]@ == s.take(i)[j]@ || path_same(s.take(i)[j]@, out[b]@));
        assert(n[b] == out[b]);
    }
    assert(n[out.len() as int]@ == s[i]@);
    lemma_covers_extend(n, s, i, out.len() as int);
}

proof fn lemma_drawn_push(out: Seq<String>, s: Seq<String>, y: String, i: int)
    requires
        0 <= i < s.len(),
        y@ == s[i]@,
        drawn_from(out, s),
    ensures
        drawn_from(out.push(y), s),
{
    let n = out.push(y);
    assert forall|a: int| 0 <= a < n.len() implies #[trigger] text_in(n[a]@, s) by {
        if a == out.len() {
            assert(s[i]@ == n[a]@);
        } else {
            assert(n[a] == out[a]);
            assert(text_in(out[a]@, s));
        }
    }
}

/// Drops each path that is the same `Path` as the last one kept.
fn dedup_paths(s: &Vec<String>) -> (r: Vec<String>)
    requires
        in_path_order(s@),
    ensures
        s@.len() > 0 ==> r@.len() > 0,
        drawn_from(r@, s@),
        covers(r@, s@),
        strictly_in_path_order(r@),
{
    let mut out: Vec<String> = Vec::new();
    let mut i: usize = 0;
    while i < s.len()
        invariant
            i <= s@.len(),
            in_path_order(s@),
            i > 0 ==> out@.len() > 0,
            i == 0 ==> out@.len() == 0,
            drawn_from(out@, s@),
            covers(out@, s@.take(i as int)),
            strictly_in_path_order(out@),
            i > 0 ==> (s@[i - 1]@ == out@.last()@ || (forall|c: Seq<char>|
                #![trigger path_less(c, s@[i - 1]@)]
                path_less(c, s@[i - 1]@) == path_less(c, out@.last()@))),
        decreases s.len() - i,
    {
        let ghost old_out = out@;
        if i == 0 {
            let y = s[i].clone();
            proof {
                lemma_covers_push(old_out, s@, 0, y);
                lemma_drawn_push(old_out, s@, y, 0);
            }
            out.push(y);
        } else {
            let last = out.len() - 1;
            let same = std_path_same(s[i].as_str(), out[last].as_str());
            if same {
                proof {
                    lemma_covers_extend(old_out, s@, i as int, last as int);
                }
            } else {
                let y = s[i].clone();
                proof {
                    let yv = s@[i as int]@;
                    assert(s@[(i - 1) + 1] == s@[i as int]);
                    assert(!path_less(s@[i as int]@, s@[i - 1]@));
                    if s@[i - 1]@ != old_out.last()@ {
                        assert(path_less(yv, s@[i - 1]@) == path_less(yv, old_out.last()@));
                    }
                    assert(path_less(old_out[last as int]@, yv));
                    lemma_covers_push(old_out, s@, i as int, y);
                    lemma_drawn_push(old_out, s@, y, i as int);
                }
                out.push(y);
                proof {
                    let n = out@;
                    assert forall|k: int| #![trigger n[k]]
                        0 <= k && k + 1 < n.len() implies path_less(n[k]@, n[k + 1]@) && n[k]@
                        != n[k + 1]@ by {
                        if k + 1 < old_out.len() {
                            assert(old_out[k] == old_out[k]);
                        }
                    }
                }
            }
        }
        i = i + 1;
    }
    proof {
        assert(s@.take(s@.len() as int) == s@);
    }
    out
}

/// The YAML files that the inputs expanded to, in `Path` order, each `Path`
/// once; refused where there are none.
pub fn collect_yaml_paths(candidates: &Vec<String>) -> (r: Result<Vec<String>, InputError>)
    ensures
        match r {
            Ok(paths) => {
                &&& candidates@.len() > 0
                &&& paths@.len() > 0
                &&& drawn_from(paths@, candidates@)
                &&& covers(paths@, candidates@)
                &&& strictly_in_path_order(paths@)
            },
            Err(e) => candidates@.len() == 0 && e is NoYamlFiles,
        },
{
    if candidates.len() == 0 {
        return Err(InputError::NoYamlFiles);
    }
    let sorted = sort_paths(candidates);
    let unique = dedup_paths(&sorted);
    proof {
        assert forall|i: int| 0 <= i < unique@.len() implies #[trigger] text_in(
            unique@[i]@,
            candidates@,
        ) by {
            assert(text_in(unique@[i]@, sorted@));
            let k = choose|k: int| 0 <= k < sorted@.len() && sorted@[k]@ == unique@[i]@;
            assert(text_in(sorted@[k]@, candidates@));
        }
        assert forall|j: int| 0 <= j < candidates@.len() implies #[trigger] covered_by(
            candidates@[j]@,
            unique@,
        ) by {
            assert(text_in(candidates@[j]@, sorted@));
            let k = choose|k: int| 0 <= k < sorted@.len() && sorted@[k]@ == candidates@[j]@;
            assert(covered_by(sorted@[k]@, unique@));
        }
    }
    Ok(unique)
}

} // verus!
