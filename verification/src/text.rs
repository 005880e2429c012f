use crate::decimal::pow10;
use vstd::prelude::*;

verus! {

/// The text of an optional string.
pub open spec fn opt_text(o: Option<String>) -> Option<Seq<char>> {
    match o {
        Some(s) => Some(s@),
        None => None,
    }
}

/// Unicode `White_Space` property, as used by `char::is_whitespace`.
pub open spec fn is_unicode_whitespace(c: char) -> bool {
    let u = c as u32;
    ||| (0x09 <= u && u <= 0x0d)
    ||| u == 0x20
    ||| u == 0x85
    ||| u == 0xa0
    ||| u == 0x1680
    ||| (0x2000 <= u && u <= 0x200a)
    ||| u == 0x2028
    ||| u == 0x2029
    ||| u == 0x202f
    ||| u == 0x205f
    ||| u == 0x3000
}

pub fn is_whitespace(c: char) -> (r: bool)
    ensures
        r == is_unicode_whitespace(c),
{
    let u = c as u32;
    (0x09 <= u && u <= 0x0d) || u == 0x20 || u == 0x85 || u == 0xa0 || u == 0x1680 || (0x2000
        <= u && u <= 0x200a) || u == 0x2028 || u == 0x2029 || u == 0x202f || u == 0x205f || u
        == 0x3000
}

/// The characters of a string slice, in order.
pub fn chars_of(s: &str) -> (v: Vec<char>)
    ensures
        v@ == s@,
{
    let mut v: Vec<char> = Vec::new();
    for c in it: s.chars()
        invariant
            v@ == it.seq().take(it.index() as int),
            it.seq() == s@,
    {
        v.push(c);
    }
    v
}

pub open spec fn ascii_lower(c: char) -> char {
    if 'A' <= c && c <= 'Z' {
        ((c as u32) + 32) as char
    } else {
        c
    }
}

pub fn to_ascii_lower(c: char) -> (r: char)
    ensures
        r == ascii_lower(c),
{
    if 'A' <= c && c <= 'Z' {
        let b = (c as u8) + 32;
        b as char
    } else {
        c
    }
}

/// Every character is whitespace, so that `trim()` leaves nothing.
pub open spec fn is_blank(s: Seq<char>) -> bool {
    forall|i: int| 0 <= i < s.len() ==> #[trigger] is_unicode_whitespace(s[i])
}

/// `s.trim().is_empty()`.
pub fn is_blank_str(s: &str) -> (r: bool)
    ensures
        r == is_blank(s@),
{
    let v = chars_of(s);
    let mut i: usize = 0;
    while i < v.len()
        invariant
            i <= v.len(),
            v@ == s@,
            forall|k: int| 0 <= k < i ==> #[trigger] is_unicode_whitespace(v@[k]),
        decreases v.len() - i,
    {
        if !is_whitespace(v[i]) {
            return false;
        }
        i = i + 1;
    }
    true
}

/// ASCII letters and digits (`char::is_ascii_alphanumeric`).
pub open spec fn is_ascii_alnum(c: char) -> bool {
    ('0' <= c && c <= '9') || ('a' <= c && c <= 'z') || ('A' <= c && c <= 'Z')
}

pub fn ascii_alnum(c: char) -> (r: bool)
    ensures
        r == is_ascii_alnum(c),
{
    ('0' <= c && c <= '9') || ('a' <= c && c <= 'z') || ('A' <= c && c <= 'Z')
}

/// `s` without its leading whitespace (`trim_start`).
pub open spec fn trim_start_spec(s: Seq<char>) -> Seq<char>
    decreases s.len(),
{
    if s.len() > 0 && is_unicode_whitespace(s[0]) {
        trim_start_spec(s.drop_first())
    } else {
        s
    }
}

/// `s` without its trailing whitespace (`trim_end`).
pub open spec fn trim_end_spec(s: Seq<char>) -> Seq<char>
    decreases s.len(),
{
    if s.len() > 0 && is_unicode_whitespace(s.last()) {
        trim_end_spec(s.drop_last())
    } else {
        s
    }
}

/// `s` without leading and trailing whitespace (`trim`).
pub open spec fn trim_spec(s: Seq<char>) -> Seq<char> {
    trim_end_spec(trim_start_spec(s))
}

proof fn lemma_trim_start(s: Seq<char>)
    ensures
        trim_start_spec(s).len() > 0 ==> !is_unicode_whitespace(trim_start_spec(s)[0]),
    decreases s.len(),
{
    if s.len() > 0 && is_unicode_whitespace(s[0]) {
        lemma_trim_start(s.drop_first());
    }
}

proof fn lemma_trim_end(s: Seq<char>)
    ensures
        trim_end_spec(s).len() > 0 ==> !is_unicode_whitespace(trim_end_spec(s).last()),
        trim_end_spec(s).len() > 0 ==> trim_end_spec(s)[0] == s[0],
        trim_end_spec(s).len() <= s.len(),
    decreases s.len(),
{
    if s.len() > 0 && is_unicode_whitespace(s.last()) {
        lemma_trim_end(s.drop_last());
    }
}

/// A trimmed text that is not empty neither starts nor ends with whitespace.
pub proof fn lemma_trim_has_no_outer_whitespace(s: Seq<char>)
    ensures
        trim_spec(s).len() > 0 ==> !is_unicode_whitespace(trim_spec(s)[0])
            && !is_unicode_whitespace(trim_spec(s).last()),
{
    lemma_trim_start(s);
    lemma_trim_end(trim_start_spec(s));
}

/// The elements `from..to` of `v`.
pub fn sub_vec(v: &Vec<char>, from: usize, to: usize) -> (r: Vec<char>)
    requires
        from <= to <= v@.len(),
    ensures
        r@ == v@.subrange(from as int, to as int),
{
    let mut r: Vec<char> = Vec::new();
    let mut k: usize = from;
    while k < to
        invariant
            from <= k <= to,
            to <= v@.len(),
            r@ == v@.subrange(from as int, k as int),
        decreases to - k,
    {
        r.push(v[k]);
        proof {
            assert(v@.subrange(from as int, k + 1) == v@.subrange(from as int, k as int).push(
                v@[k as int],
            ));
        }
        k = k + 1;
    }
    r
}

/// Index of the first character of `v` that is not whitespace, at or after `from`.
pub fn skip_whitespace(v: &Vec<char>, from: usize) -> (r: usize)
    requires
        from <= v@.len(),
    ensures
        from <= r <= v@.len(),
        trim_start_spec(v@.skip(from as int)) == v@.skip(r as int),
{
    let mut i = from;
    while i < v.len() && is_whitespace(v[i])
        invariant
            from <= i <= v@.len(),
            trim_start_spec(v@.skip(from as int)) == trim_start_spec(v@.skip(i as int)),
        decreases v.len() - i,
    {
        proof {
            assert(v@.skip(i as int).drop_first() == v@.skip(i + 1));
        }
        i = i + 1;
    }
    proof {
        let rest = v@.skip(i as int);
        if rest.len() > 0 {
            assert(rest[0] == v@[i as int]);
        }
    }
    i
}

/// `s.trim_start()`.
pub fn trim_start_chars(v: &Vec<char>) -> (r: Vec<char>)
    ensures
        r@ == trim_start_spec(v@),
{
    let i = skip_whitespace(v, 0);
    proof {
        assert(v@.skip(0) == v@);
        assert(v@.skip(i as int) == v@.subrange(i as int, v@.len() as int));
    }
    sub_vec(v, i, v.len())
}

/// `s.trim()`.
pub fn trim_chars(v: &Vec<char>) -> (r: Vec<char>)
    ensures
        r@ == trim_spec(v@),
{
    let i = skip_whitespace(v, 0);
    proof {
        assert(v@.skip(0) == v@);
    }
    let mut j = v.len();
    while j > i && is_whitespace(v[j - 1])
        invariant
            i <= j <= v@.len(),
            trim_spec(v@) == trim_end_spec(v@.subrange(i as int, j as int)),
        decreases j,
    {
        proof {
            assert(v@.subrange(i as int, j as int).drop_last() == v@.subrange(
                i as int,
                j - 1,
            ));
        }
        j = j - 1;
    }
    sub_vec(v, i, j)
}

/// Whether `c` occurs in `v`.
pub fn has_char(v: &Vec<char>, c: char) -> (r: bool)
    ensures
        r == v@.contains(c),
{
    let mut i: usize = 0;
    while i < v.len()
        invariant
            i <= v@.len(),
            forall|k: int| 0 <= k < i ==> v@[k] != c,
        decreases v.len() - i,
    {
        if v[i] == c {
            proof {
                assert(v@[i as int] == c);
            }
            return true;
        }
        i = i + 1;
    }
    false
}

/// Whether `v` holds exactly the characters of `s`.
pub fn chars_equal(v: &Vec<char>, s: &str) -> (r: bool)
    ensures
        r == (v@ == s@),
{
    let w = chars_of(s);
    if v.len() != w.len() {
        return false;
    }
    let mut i: usize = 0;
    while i < v.len()
        invariant
            i <= v@.len(),
            v@.len() == w@.len(),
            w@ == s@,
            forall|k: int| 0 <= k < i ==> v@[k] == w@[k],
        decreases v.len() - i,
    {
        if v[i] != w[i] {
            return false;
        }
        i = i + 1;
    }
    proof {
        assert(v@ =~= w@);
    }
    true
}

/// Every ASCII letter of `v` in lower case (`to_ascii_lowercase`).
pub fn lower_chars(v: &Vec<char>) -> (r: Vec<char>)
    ensures
        r@ == v@.map_values(|c: char| ascii_lower(c)),
{
    let mut r: Vec<char> = Vec::new();
    let mut i: usize = 0;
    while i < v.len()
        invariant
            i <= v@.len(),
            r@ == v@.take(i as int).map_values(|c: char| ascii_lower(c)),
        decreases v.len() - i,
    {
        r.push(to_ascii_lower(v[i]));
        proof {
            assert(v@.take(i + 1).map_values(|c: char| ascii_lower(c)) =~= v@.take(
                i as int,
            ).map_values(|c: char| ascii_lower(c)).push(ascii_lower(v@[i as int])));
        }
        i = i + 1;
    }
    proof {
        assert(v@.take(v@.len() as int) == v@);
    }
    r
}

/// The character of a decimal digit.
pub open spec fn digit_char(d: nat) -> char {
    ((48 + d) as u8) as char
}

/// The decimal digits of `n`, most significant first, without leading zeros.
pub open spec fn decimal_digits(n: nat) -> Seq<char>
    decreases n,
{
    if n < 10 {
        seq![digit_char(n)]
    } else {
        decimal_digits(n / 10).push(digit_char(n % 10))
    }
}

/// `s` with `'0'`s in front, up to at least `width` characters.
pub open spec fn zero_pad(s: Seq<char>, width: nat) -> Seq<char> {
    if s.len() < width {
        Seq::new((width - s.len()) as nat, |i: int| '0') + s
    } else {
        s
    }
}

/// Every character is a decimal digit.
pub open spec fn all_digits(s: Seq<char>) -> bool {
    forall|i: int| 0 <= i < s.len() ==> '0' <= #[trigger] s[i] && s[i] <= '9'
}

/// The decimal digits of a number are at least one digit.
pub proof fn lemma_decimal_digits(n: nat)
    ensures
        decimal_digits(n).len() >= 1,
        all_digits(decimal_digits(n)),
    decreases n,
{
    if n >= 10 {
        lemma_decimal_digits(n / 10);
        let init = decimal_digits(n / 10);
        assert forall|i: int| 0 <= i < decimal_digits(n).len() implies '0' <= #[trigger] decimal_digits(
            n,
        )[i] && decimal_digits(n)[i] <= '9' by {
            if i < init.len() {
                assert(decimal_digits(n)[i] == init[i]);
            }
        }
    }
}

/// A number below `10^k` has at most `k` decimal digits.
pub proof fn lemma_decimal_digits_fit(n: nat, k: nat)
    requires
        k >= 1,
        n < pow10(k),
    ensures
        decimal_digits(n).len() <= k,
    decreases n,
{
    if n >= 10 {
        assert(pow10(k) == 10 * pow10((k - 1) as nat));
        if k == 1 {
            assert(pow10(0) == 1);
        }
        assert(n / 10 < pow10((k - 1) as nat)) by (nonlinear_arith)
            requires
                n < 10 * pow10((k - 1) as nat),
        ;
        lemma_decimal_digits_fit(n / 10, (k - 1) as nat);
    }
}

/// Padding with zeros gives at least `width` characters, and keeps a string
/// of digits a string of digits.
pub proof fn lemma_zero_pad(s: Seq<char>, width: nat)
    ensures
        zero_pad(s, width).len() == if s.len() < width {
            width as int
        } else {
            s.len() as int
        },
        all_digits(s) ==> all_digits(zero_pad(s, width)),
{
    if s.len() < width {
        let pad = Seq::new((width - s.len()) as nat, |i: int| '0');
        if all_digits(s) {
            assert forall|i: int| 0 <= i < zero_pad(s, width).len() implies '0' <= #[trigger] zero_pad(
                s,
                width,
            )[i] && zero_pad(s, width)[i] <= '9' by {
                if i < pad.len() {
                    assert(zero_pad(s, width)[i] == pad[i]);
                } else {
                    assert(zero_pad(s, width)[i] == s[i - pad.len()]);
                }
            }
        }
    }
}

/// The decimal digits of `n` (`format!("{}", n)`).
pub fn digits_of(n: u64) -> (v: Vec<char>)
    ensures
        v@ == decimal_digits(n as nat),
    decreases n,
{
    if n < 10 {
        let c = (48u8 + (n as u8)) as char;
        let mut v: Vec<char> = Vec::new();
        v.push(c);
        v
    } else {
        let mut v = digits_of(n / 10);
        let c = (48u8 + ((n % 10) as u8)) as char;
        v.push(c);
        v
    }
}

/// Puts `'0'`s in front of `v` until it has at least `width` characters.
pub fn pad_with_zeros(v: Vec<char>, width: usize) -> (r: Vec<char>)
    ensures
        r@ == zero_pad(v@, width as nat),
{
    if v.len() >= width {
        return v;
    }
    let missing = width - v.len();
    let mut r: Vec<char> = Vec::new();
    let mut i: usize = 0;
    while i < missing
        invariant
            i <= missing,
            r@ == Seq::new(i as nat, |k: int| '0'),
        decreases missing - i,
    {
        r.push('0');
        i = i + 1;
    }
    let mut j: usize = 0;
    while j < v.len()
        invariant
            j <= v.len(),
            r@ == Seq::new(missing as nat, |k: int| '0') + v@.take(j as int),
        decreases v.len() - j,
    {
        r.push(v[j]);
        proof {
            assert(v@.take(j + 1) == v@.take(j as int).push(v@[j as int]));
        }
        j = j + 1;
    }
    proof {
        assert(v@.take(v.len() as int) == v@);
    }
    r
}

/// Builds a `String` with `FromIterator::from_iter` (`collect`) over the
/// characters. Trusted: the string holds exactly those characters, in order.
#[verifier::external_body]
pub(crate) fn string_from_chars(v: &Vec<char>) -> (s: String)
    ensures
        s@ == v@,
{
    v.iter().collect()
}

} // verus!
