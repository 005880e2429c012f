//! Clean-up of rendered HTML before it is laid out as a PDF.
use crate::text::{
    ascii_lower, chars_of, lower_chars, skip_whitespace, string_from_chars, sub_vec,
    trim_start_chars, trim_start_spec,
};
use vstd::prelude::*;

verus! {

/// Index of the first `c` in `s` at or after `i`.
pub open spec fn index_from(s: Seq<char>, c: char, i: nat) -> Option<nat>
    decreases s.len() - i,
{
    if i >= s.len() {
        None
    } else if s[i as int] == c {
        Some(i)
    } else {
        index_from(s, c, i + 1)
    }
}

/// `s` with every `pat` replaced by `rep`, scanning from the left
/// (`str::replace`).
pub open spec fn replace_all(s: Seq<char>, pat: Seq<char>, rep: Seq<char>) -> Seq<char>
    decreases s.len(),
{
    if s.len() == 0 {
        Seq::empty()
    } else if 0 < pat.len() <= s.len() && s.take(pat.len() as int) == pat {
        rep + replace_all(s.skip(pat.len() as int), pat, rep)
    } else {
        seq![s[0]] + replace_all(s.skip(1), pat, rep)
    }
}

/// `t` without a leading `<!doctype html>` (in any case) and the whitespace
/// after it.
pub open spec fn without_doctype(t: Seq<char>) -> Seq<char> {
    match index_from(t, '>', 0) {
        Some(k) => if t.take(k as int).map_values(|c: char| ascii_lower(c)) == "<!doctype html"@ {
            trim_start_spec(t.skip(k + 1int))
        } else {
            t
        },
        None => t,
    }
}

/// The HTML that the PDF layout receives.
pub open spec fn prepared_html(html: Seq<char>) -> Seq<char> {
    replace_all(without_doctype(trim_start_spec(html)), "<br>"@, "<br />"@)
}

fn find_char(v: &Vec<char>, c: char) -> (r: Option<usize>)
    ensures
        match r {
            Some(k) => index_from(v@, c, 0) == Some(k as nat),
            None => index_from(v@, c, 0) is None,
        },
        r matches Some(k) ==> k < v@.len() && v@[k as int] == c,
{
    let mut i: usize = 0;
    while i < v.len()
        invariant
            i <= v@.len(),
            index_from(v@, c, 0) == index_from(v@, c, i as nat),
        decreases v.len() - i,
    {
        if v[i] == c {
            return Some(i);
        }
        i = i + 1;
    }
    None
}

/// Whether `pat` occurs in `v` at `i`.
fn occurs_at(v: &Vec<char>, pat: &Vec<char>, i: usize) -> (r: bool)
    requires
        i <= v@.len(),
    ensures
        r == (pat@.len() <= v@.len() - i && v@.skip(i as int).take(pat@.len() as int) == pat@),
{
    if pat.len() > v.len() - i {
        return false;
    }
    let n = v.len();
    let mut k: usize = 0;
    while k < pat.len()
        invariant
            k <= pat@.len(),
            n == v@.len(),
            i <= v@.len(),
            pat@.len() <= v@.len() - i,
            forall|j: int| 0 <= j < k ==> v@[i + j] == pat@[j],
        decreases pat.len() - k,
    {
        if v[i + k] != pat[k] {
            proof {
                assert(v@.skip(i as int).take(pat@.len() as int)[k as int] != pat@[k as int]);
            }
            return false;
        }
        k = k + 1;
    }
    proof {
        assert(v@.skip(i as int).take(pat@.len() as int) =~= pat@);
    }
    true
}

fn replace_chars(v: &Vec<char>, pat: &Vec<char>, rep: &Vec<char>) -> (r: Vec<char>)
    requires
        pat@.len() > 0,
    ensures
        r@ == replace_all(v@, pat@, rep@),
{
    let mut out: Vec<char> = Vec::new();
    let mut i: usize = 0;
    proof {
        assert(v@.skip(0) == v@);
    }
    while i < v.len()
        invariant
            i <= v@.len(),
            pat@.len() > 0,
            out@ + replace_all(v@.skip(i as int), pat@, rep@) == replace_all(v@, pat@, rep@),
        decreases v.len() - i,
    {
        let ghost rest = v@.skip(i as int);
        if occurs_at(v, pat, i) {
            let mut k: usize = 0;
            let ghost before = out@;
            while k < rep.len()
                invariant
                    k <= rep@.len(),
                    out@ == before + rep@.take(k as int),
                decreases rep.len() - k,
            {
                out.push(rep[k]);
                proof {
                    assert(rep@.take(k + 1) == rep@.take(k as int).push(rep@[k as int]));
                }
                k = k + 1;
            }
            proof {
                assert(rep@.take(rep@.len() as int) == rep@);
                assert(rest.skip(pat@.len() as int) == v@.skip(i + pat@.len()));
                assert(before + (rep@ + replace_all(rest.skip(pat@.len() as int), pat@, rep@))
                    == out@ + replace_all(rest.skip(pat@.len() as int), pat@, rep@));
            }
            i = i + pat.len();
        } else {
            let ghost before = out@;
            out.push(v[i]);
            proof {
                assert(rest[0] == v@[i as int]);
                assert(rest.skip(1) == v@.skip(i + 1));
                assert(before + (seq![rest[0]] + replace_all(rest.skip(1), pat@, rep@))
                    == out@ + replace_all(rest.skip(1), pat@, rep@));
            }
            i = i + 1;
        }
    }
    proof {
        assert(v@.skip(i as int).len() == 0);
        assert(out@ + Seq::<char>::empty() == out@);
    }
    out
}

/// Drops a leading `<!DOCTYPE html>` (in any case) and writes each `<br>` as
/// `<br />`, for the PDF layout.
pub fn prepare_html(html: &str) -> (r: String)
    ensures
        r@ == prepared_html(html@),
{
    let chars = chars_of(html);
    let trimmed = trim_start_chars(&chars);
    let n = trimmed.len();
    let body = match find_char(&trimmed, '>') {
        Some(k) => {
            let first = lower_chars(&sub_vec(&trimmed, 0, k));
            let lit = chars_of("<!doctype html");
            if first.len() == lit.len() && is_prefix_equal(&first, &lit) {
                let start = skip_whitespace(&trimmed, k + 1);
                proof {
                    assert(trimmed@.subrange(0, k as int) == trimmed@.take(k as int));
                    assert(trimmed@.skip(start as int) == trimmed@.subrange(
                        start as int,
                        trimmed@.len() as int,
                    ));
                }
                sub_vec(&trimmed, start, trimmed.len())
            } else {
                proof {
                    assert(trimmed@.subrange(0, k as int) == trimmed@.take(k as int));
                }
                trimmed
            }
        },
        None => trimmed,
    };
    let pat = chars_of("<br>");
    let rep = chars_of("<br />");
    proof {
        reveal_strlit("<br>");
    }
    let out = replace_chars(&body, &pat, &rep);
    string_from_chars(&out)
}

/// Whether two vectors of the same length hold the same characters.
fn is_prefix_equal(a: &Vec<char>, b: &Vec<char>) -> (r: bool)
    requires
        a@.len() == b@.len(),
    ensures
        r == (a@ == b@),
{
    let mut i: usize = 0;
    while i < a.len()
        invariant
            i <= a@.len(),
            a@.len() == b@.len(),
            forall|k: int| 0 <= k < i ==> a@[k] == b@[k],
        decreases a.len() - i,
    {
        if a[i] != b[i] {
            return false;
        }
        i = i + 1;
    }
    proof {
        assert(a@ =~= b@);
    }
    true
}

/// No `<br>` (an unclosed line break tag) occurs in `s`.
pub open spec fn has_no_bare_br(s: Seq<char>) -> bool {
    forall|k: int| 0 <= k && k + 4 <= s.len() ==> #[trigger] s.subrange(k, k + 4) != "<br>"@
}

proof fn lemma_replace_head(t: Seq<char>)
    requires
        t.len() > 0,
    ensures
        replace_all(t, "<br>"@, "<br />"@).len() > 0,
        replace_all(t, "<br>"@, "<br />"@)[0] == t[0],
        t[0] != '<' ==> replace_all(t, "<br>"@, "<br />"@) == seq![t[0]] + replace_all(
            t.skip(1),
            "<br>"@,
            "<br />"@,
        ),
{
    reveal_strlit("<br>");
    reveal_strlit("<br />");
    let pat = "<br>"@;
    if 0 < pat.len() <= t.len() && t.take(pat.len() as int) == pat {
        assert(t[0] == t.take(4)[0]);
    }
}

proof fn lemma_replace_has_no_bare_br(t: Seq<char>)
    ensures
        has_no_bare_br(replace_all(t, "<br>"@, "<br />"@)),
    decreases t.len(),
{
    reveal_strlit("<br>");
    reveal_strlit("<br />");
    let pat = "<br>"@;
    let rep = "<br />"@;
    let r = replace_all(t, pat, rep);
    if t.len() == 0 {
        return;
    }
    if t.len() >= 4 && t.take(4) == pat {
        let rest = replace_all(t.skip(4), pat, rep);
        lemma_replace_has_no_bare_br(t.skip(4));
        assert(r == rep + rest);
        assert forall|k: int| 0 <= k && k + 4 <= r.len() implies #[trigger] r.subrange(k, k + 4)
            != pat by {
            if k >= 6 {
                assert(r.subrange(k, k + 4) =~= rest.subrange(k - 6, k - 6 + 4));
            } else if k == 0 {
                assert(r.subrange(k, k + 4)[3] == rep[3]);
                assert(rep[3] == ' ');
                assert(pat[3] == '>');
            } else {
                assert(r.subrange(k, k + 4)[0] == rep[k]);
                assert(rep[k] != '<');
                assert(pat[0] == '<');
            }
        }
    } else {
        let tail = t.skip(1);
        let rest = replace_all(tail, pat, rep);
        lemma_replace_has_no_bare_br(tail);
        assert(r == seq![t[0]] + rest);
        assert forall|k: int| 0 <= k && k + 4 <= r.len() implies #[trigger] r.subrange(k, k + 4)
            != pat by {
            if k >= 1 {
                assert(r.subrange(k, k + 4) =~= rest.subrange(k - 1, k - 1 + 4));
            } else if r.subrange(0, 4) == pat {
                assert(r.subrange(0, 4)[0] == r[0]);
                assert(pat[0] == '<');
                assert(t[0] == '<');
                assert(r.subrange(0, 4)[1] == rest[0]);
                assert(pat[1] == 'b');
                assert(rest.len() >= 3);
                lemma_replace_head(tail);
                assert(rest[0] == 'b');
                assert(tail[0] == 'b');
                let rest2 = replace_all(tail.skip(1), pat, rep);
                assert(rest == seq![tail[0]] + rest2);
                assert(r.subrange(0, 4)[2] == rest[1]);
                assert(rest[1] == rest2[0]);
                assert(pat[2] == 'r');
                lemma_replace_head(tail.skip(1));
                assert(tail.skip(1)[0] == 'r');
                let rest3 = replace_all(tail.skip(1).skip(1), pat, rep);
                assert(rest2 == seq![tail.skip(1)[0]] + rest3);
                assert(r.subrange(0, 4)[3] == rest[2]);
                assert(rest[2] == rest3[0]);
                assert(pat[3] == '>');
                lemma_replace_head(tail.skip(1).skip(1));
                assert(tail.skip(1).skip(1)[0] == '>');
                assert(t.take(4) =~= pat);
            }
        }
    }
}

/// After preparation, every line break tag is closed: no `<br>` is left.
pub proof fn lemma_prepared_html_has_no_bare_br(html: Seq<char>)
    ensures
        has_no_bare_br(prepared_html(html)),
{
    lemma_replace_has_no_bare_br(without_doctype(trim_start_spec(html)));
}

} // verus!
