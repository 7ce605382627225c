//! Character-level string helpers with specifications over `Seq<char>`.
use vstd::prelude::*;
use vstd::string::*;

verus! {

/// `String::push` appends one character.
pub assume_specification[ String::push ](s: &mut String, ch: char)
    ensures
        final(s)@ == old(s)@.push(ch),
;

/// The Unicode `White_Space` property, which `char::is_whitespace` and `str::trim` use.
pub open spec fn is_ws(c: char) -> bool {
    let u = c as u32;
    ||| 0x09 <= u <= 0x0d
    ||| u == 0x20
    ||| u == 0x85
    ||| u == 0xa0
    ||| u == 0x1680
    ||| 0x2000 <= u <= 0x200a
    ||| u == 0x2028
    ||| u == 0x2029
    ||| u == 0x202f
    ||| u == 0x205f
    ||| u == 0x3000
}

/// A string that `str::trim` turns into the empty string.
pub open spec fn blank(s: Seq<char>) -> bool {
    forall|i: int| 0 <= i < s.len() ==> is_ws(#[trigger] s[i])
}

/// `s` with leading characters removed while `strip(c)` holds.
pub open spec fn strip_start(s: Seq<char>, slash: bool) -> Seq<char>
    decreases s.len(),
{
    if s.len() > 0 && strippable(s[0], slash) {
        strip_start(s.drop_first(), slash)
    } else {
        s
    }
}

/// `s` with trailing characters removed while `strip(c)` holds.
pub open spec fn strip_end(s: Seq<char>, slash: bool) -> Seq<char>
    decreases s.len(),
{
    if s.len() > 0 && strippable(s.last(), slash) {
        strip_end(s.drop_last(), slash)
    } else {
        s
    }
}

/// Which characters a trim removes: `'/'` for `trim_matches('/')`, white space for `trim`.
pub open spec fn strippable(c: char, slash: bool) -> bool {
    if slash {
        c == '/'
    } else {
        is_ws(c)
    }
}

/// What `str::trim` returns.
pub open spec fn trim_ws(s: Seq<char>) -> Seq<char> {
    strip_end(strip_start(s, false), false)
}

/// What `str::trim_matches('/')` returns.
pub open spec fn trim_slash(s: Seq<char>) -> Seq<char> {
    strip_end(strip_start(s, true), true)
}

/// The parts joined with `sep` between consecutive parts.
pub open spec fn join(parts: Seq<Seq<char>>, sep: Seq<char>) -> Seq<char>
    decreases parts.len(),
{
    if parts.len() == 0 {
        Seq::empty()
    } else if parts.len() == 1 {
        parts[0]
    } else {
        join(parts.drop_last(), sep) + sep + parts.last()
    }
}

/// The views of a vector of strings.
pub open spec fn views(v: Seq<String>) -> Seq<Seq<char>> {
    v.map_values(|s: String| s@)
}

/// Whether `pat` occurs in `s` at position `i`.
pub open spec fn occurs_at(s: Seq<char>, pat: Seq<char>, i: int) -> bool {
    0 <= i && i + pat.len() <= s.len() && s.subrange(i, i + pat.len()) == pat
}

/// Every non-overlapping occurrence of `pat` (found from the left) replaced by `rep`,
/// as `str::replace` does for a non-empty pattern.
pub open spec fn replace_all(s: Seq<char>, pat: Seq<char>, rep: Seq<char>) -> Seq<char>
    recommends
        pat.len() > 0,
    decreases s.len(),
{
    if s.len() == 0 || pat.len() == 0 {
        s
    } else if occurs_at(s, pat, 0) {
        rep + replace_all(s.skip(pat.len() as int), pat, rep)
    } else {
        seq![s[0]] + replace_all(s.drop_first(), pat, rep)
    }
}

/// Whether `s` ends with `suffix`.
pub open spec fn ends_with(s: Seq<char>, suffix: Seq<char>) -> bool {
    suffix.len() <= s.len() && s.subrange(s.len() - suffix.len(), s.len() as int) == suffix
}

/// The ASCII digit of a value below ten.
pub open spec fn digit_char(d: nat) -> char {
    ((d + 48) as u8) as char
}

/// The decimal digits of `n`, without sign or leading zeros.
pub open spec fn decimal(n: nat) -> Seq<char>
    decreases n,
{
    if n < 10 {
        seq![digit_char(n)]
    } else {
        decimal(n / 10).push(digit_char(n % 10))
    }
}

/// The decimal form of an integer, as `i64::to_string` writes it.
pub open spec fn signed_decimal(i: int) -> Seq<char> {
    if i < 0 {
        seq!['-'] + decimal((-i) as nat)
    } else {
        decimal(i as nat)
    }
}

/// The decimal digits of `n`, padded with zeros on the left to at least `width` digits.
pub open spec fn padded_decimal(n: nat, width: nat) -> Seq<char>
    decreases width,
{
    if decimal(n).len() >= width {
        decimal(n)
    } else {
        seq!['0'] + padded_decimal(n, (width - 1) as nat)
    }
}

/// `char::is_whitespace`.
pub fn is_whitespace_char(c: char) -> (r: bool)
    ensures
        r == is_ws(c),
{
    let u = c as u32;
    (0x09 <= u && u <= 0x0d) || u == 0x20 || u == 0x85 || u == 0xa0 || u == 0x1680 || (0x2000
        <= u && u <= 0x200a) || u == 0x2028 || u == 0x2029 || u == 0x202f || u == 0x205f || u
        == 0x3000
}

/// Whether `s.trim().is_empty()`.
pub fn is_blank(s: &str) -> (r: bool)
    ensures
        r == blank(s@),
{
    let n = s.unicode_len();
    let mut i: usize = 0;
    while i < n
        invariant
            n == s@.len(),
            i <= n,
            forall|j: int| 0 <= j < i ==> is_ws(#[trigger] s@[j]),
        decreases n - i,
    {
        if !is_whitespace_char(s.get_char(i)) {
            return false;
        }
        i = i + 1;
    }
    true
}

proof fn lemma_strip_start_skip(s: Seq<char>, i: int, slash: bool)
    requires
        0 <= i <= s.len(),
        forall|j: int| 0 <= j < i ==> strippable(#[trigger] s[j], slash),
    ensures
        strip_start(s, slash) == strip_start(s.subrange(i, s.len() as int), slash),
    decreases i,
{
    if i > 0 {
        assert(s.drop_first().subrange(i - 1, s.drop_first().len() as int) =~= s.subrange(
            i,
            s.len() as int,
        ));
        lemma_strip_start_skip(s.drop_first(), i - 1, slash);
    } else {
        assert(s.subrange(0, s.len() as int) =~= s);
    }
}

proof fn lemma_strip_end_cut(s: Seq<char>, k: int, slash: bool)
    requires
        0 <= k <= s.len(),
        forall|j: int| k <= j < s.len() ==> strippable(#[trigger] s[j], slash),
    ensures
        strip_end(s, slash) == strip_end(s.subrange(0, k), slash),
    decreases s.len() - k,
{
    if k < s.len() {
        assert(s.drop_last().subrange(0, k) =~= s.subrange(0, k));
        lemma_strip_end_cut(s.drop_last(), k, slash);
    } else {
        assert(s.subrange(0, k) =~= s);
    }
}

fn char_strippable(c: char, slash: bool) -> (r: bool)
    ensures
        r == strippable(c, slash),
{
    if slash {
        c == '/'
    } else {
        is_whitespace_char(c)
    }
}

/// `s` without its leading and trailing strippable characters.
fn strip_both(s: &str, slash: bool) -> (r: String)
    ensures
        r@ == strip_end(strip_start(s@, slash), slash),
{
    let n = s.unicode_len();
    let mut i: usize = 0;
    while i < n && char_strippable(s.get_char(i), slash)
        invariant
            n == s@.len(),
            i <= n,
            forall|j: int| 0 <= j < i ==> strippable(#[trigger] s@[j], slash),
        decreases n - i,
    {
        i = i + 1;
    }
    proof {
        lemma_strip_start_skip(s@, i as int, slash);
    }
    let ghost rest = s@.subrange(i as int, n as int);
    assert(strip_start(rest, slash) == rest);
    let mut k: usize = n;
    while k > i && char_strippable(s.get_char(k - 1), slash)
        invariant
            n == s@.len(),
            i <= k <= n,
            rest == s@.subrange(i as int, n as int),
            forall|j: int| k <= j < n ==> strippable(#[trigger] s@[j], slash),
        decreases k,
    {
        k = k - 1;
    }
    proof {
        assert forall|j: int| k - i <= j < rest.len() implies strippable(
            #[trigger] rest[j],
            slash,
        ) by {
            assert(rest[j] == s@[j + i]);
        }
        lemma_strip_end_cut(rest, k - i, slash);
        assert(rest.subrange(0, k - i) =~= s@.subrange(i as int, k as int));
    }
    let r = s.substring_char(i, k);
    r.to_owned()
}

/// `str::trim`.
pub fn trim(s: &str) -> (r: String)
    ensures
        r@ == trim_ws(s@),
{
    strip_both(s, false)
}

/// `str::trim_matches('/')`.
pub fn trim_slashes(s: &str) -> (r: String)
    ensures
        r@ == trim_slash(s@),
{
    strip_both(s, true)
}

/// Whether two strings hold the same characters.
pub fn str_eq(a: &str, b: &str) -> (r: bool)
    ensures
        r == (a@ == b@),
{
    let n = a.unicode_len();
    let m = b.unicode_len();
    if n != m {
        return false;
    }
    let mut i: usize = 0;
    while i < n
        invariant
            n == a@.len(),
            m == b@.len(),
            n == m,
            i <= n,
            forall|j: int| 0 <= j < i ==> a@[j] == b@[j],
        decreases n - i,
    {
        if a.get_char(i) != b.get_char(i) {
            return false;
        }
        i = i + 1;
    }
    assert(a@ =~= b@);
    true
}

/// Whether `pat` occurs in `s` at position `i`.
pub fn matches_at(s: &str, pat: &str, i: usize) -> (r: bool)
    requires
        i <= s@.len(),
    ensures
        r == occurs_at(s@, pat@, i as int),
{
    let n = s.unicode_len();
    let m = pat.unicode_len();
    if m > n - i {
        return false;
    }
    let mut j: usize = 0;
    while j < m
        invariant
            n == s@.len(),
            m == pat@.len(),
            i + m <= n,
            j <= m,
            forall|k: int| 0 <= k < j ==> s@[i + k] == pat@[k],
        decreases m - j,
    {
        if s.get_char(i + j) != pat.get_char(j) {
            assert(s@.subrange(i as int, i + m)[j as int] != pat@[j as int]);
            return false;
        }
        j = j + 1;
    }
    assert(s@.subrange(i as int, i + m) =~= pat@);
    true
}

/// Whether `s` ends with `suffix`, as `str::ends_with`.
pub fn str_ends_with(s: &str, suffix: &str) -> (r: bool)
    ensures
        r == ends_with(s@, suffix@),
{
    let n = s.unicode_len();
    let m = suffix.unicode_len();
    if m > n {
        return false;
    }
    matches_at(s, suffix, n - m)
}

proof fn lemma_replace_skip(s: Seq<char>, pat: Seq<char>, rep: Seq<char>, i: int)
    requires
        0 <= i < s.len(),
        pat.len() > 0,
    ensures
        occurs_at(s, pat, i) ==> replace_all(s.skip(i), pat, rep) == rep + replace_all(
            s.skip(i + pat.len()),
            pat,
            rep,
        ),
        !occurs_at(s, pat, i) ==> replace_all(s.skip(i), pat, rep) == seq![s[i]] + replace_all(
            s.skip(i + 1),
            pat,
            rep,
        ),
{
    let t = s.skip(i);
    if occurs_at(s, pat, i) {
        assert(t.subrange(0, pat.len() as int) =~= s.subrange(i, i + pat.len()));
        assert(t.skip(pat.len() as int) =~= s.skip(i + pat.len()));
    } else {
        if occurs_at(t, pat, 0) {
            assert(t.subrange(0, pat.len() as int) =~= s.subrange(i, i + pat.len()));
        }
        assert(t.drop_first() =~= s.skip(i + 1));
    }
}

/// `s.replace(pat, rep)` for a non-empty pattern.
pub fn replace(s: &str, pat: &str, rep: &str) -> (r: String)
    requires
        pat@.len() > 0,
    ensures
        r@ == replace_all(s@, pat@, rep@),
{
    let n = s.unicode_len();
    let m = pat.unicode_len();
    let mut out = String::new();
    let mut i: usize = 0;
    assert(s@.skip(0) =~= s@);
    while i < n
        invariant
            n == s@.len(),
            m == pat@.len(),
            m > 0,
            i <= n,
            out@ + replace_all(s@.skip(i as int), pat@, rep@) == replace_all(s@, pat@, rep@),
        decreases n - i,
    {
        proof {
            lemma_replace_skip(s@, pat@, rep@, i as int);
        }
        if matches_at(s, pat, i) {
            out.append(rep);
            i = i + m;
        } else {
            out.push(s.get_char(i));
            i = i + 1;
        }
        assert(out@ + replace_all(s@.skip(i as int), pat@, rep@) == replace_all(
            s@,
            pat@,
            rep@,
        ));
    }
    assert(s@.skip(n as int).len() == 0);
    assert(out@ =~= out@ + replace_all(s@.skip(n as int), pat@, rep@));
    out
}

/// The strings joined with the character `sep` between them, as `[String]::join`.
pub fn join_strings(parts: &Vec<String>, sep: char) -> (r: String)
    ensures
        r@ == join(views(parts@), seq![sep]),
{
    let mut out = String::new();
    let ghost vs = views(parts@);
    let mut i: usize = 0;
    while i < parts.len()
        invariant
            vs == views(parts@),
            i <= parts.len(),
            out@ == join(vs.take(i as int), seq![sep]),
        decreases parts.len() - i,
    {
        assert(vs.take(i + 1).drop_last() =~= vs.take(i as int));
        if i > 0 {
            out.push(sep);
        } else {
            assert(vs.take(0) =~= Seq::<Seq<char>>::empty());
        }
        out.append(parts[i].as_str());
        assert(out@ =~= join(vs.take(i + 1), seq![sep]));
        i = i + 1;
    }
    assert(vs.take(parts.len() as int) =~= vs);
    out
}

/// Appends the decimal digits of `n`.
pub fn push_decimal(out: &mut String, n: u64)
    ensures
        final(out)@ == old(out)@ + decimal(n as nat),
    decreases n,
{
    if n >= 10 {
        push_decimal(out, n / 10);
    }
    let d = (n % 10) as u8;
    out.push((d + 48) as char);
    proof {
        if n >= 10 {
            assert(decimal(n as nat) == decimal((n / 10) as nat).push(digit_char((n % 10) as nat)));
        }
    }
    assert(final(out)@ =~= old(out)@ + decimal(n as nat));
}

/// The decimal form of `n`, as `i64::to_string`.
pub fn i64_to_string(n: i64) -> (r: String)
    ensures
        r@ == signed_decimal(n as int),
{
    let mut out = String::new();
    if n < 0 {
        out.push('-');
        let m = (0 - (n as i128)) as u64;
        push_decimal(&mut out, m);
        assert(out@ =~= seq!['-'] + decimal(m as nat));
    } else {
        push_decimal(&mut out, n as u64);
        assert(out@ =~= decimal(n as nat));
    }
    out
}

/// The decimal form of `n`, as `usize::to_string`.
pub fn usize_to_string(n: usize) -> (r: String)
    ensures
        r@ == decimal(n as nat),
{
    let mut out = String::new();
    push_decimal(&mut out, n as u64);
    assert(out@ =~= decimal(n as nat));
    out
}

/// Appends `n` padded with zeros to at least `width` digits, as `format!("{:0width$}", n)`.
pub fn push_padded(out: &mut String, n: u64, width: usize)
    ensures
        final(out)@ == old(out)@ + padded_decimal(n as nat, width as nat),
{
    let mut digits = String::new();
    push_decimal(&mut digits, n);
    let len = digits.as_str().unicode_len();
    assert(digits@ =~= decimal(n as nat));
    let mut pad: usize = if len >= width {
        0
    } else {
        width - len
    };
    proof {
        lemma_padded_is_zeros_then_digits(n as nat, width as nat);
    }
    while pad > 0
        invariant
            old(out)@ + Seq::new((if len >= width { 0 } else { width - len }) as nat, |k: int| '0')
                == out@ + Seq::new(pad as nat, |k: int| '0'),
        decreases pad,
    {
        assert(Seq::new(pad as nat, |k: int| '0') =~= seq!['0'] + Seq::new(
            (pad - 1) as nat,
            |k: int| '0',
        ));
        out.push('0');
        pad = pad - 1;
        assert(out@ + Seq::new(pad as nat, |k: int| '0') =~= old(out)@ + Seq::new(
            (if len >= width {
                0
            } else {
                width - len
            }) as nat,
            |k: int| '0',
        ));
    }
    assert(out@ =~= out@ + Seq::new(0, |k: int| '0'));
    out.append(digits.as_str());
    assert(final(out)@ =~= old(out)@ + padded_decimal(n as nat, width as nat));
}

proof fn lemma_padded_is_zeros_then_digits(n: nat, width: nat)
    ensures
        padded_decimal(n, width) == Seq::new(
            (if decimal(n).len() >= width {
                0
            } else {
                width - decimal(n).len()
            }) as nat,
            |k: int| '0',
        ) + decimal(n),
    decreases width,
{
    if decimal(n).len() >= width {
        assert(Seq::new(0, |k: int| '0') + decimal(n) =~= decimal(n));
    } else {
        lemma_padded_is_zeros_then_digits(n, (width - 1) as nat);
        let c = (width - decimal(n).len()) as nat;
        if decimal(n).len() >= width - 1 {
            assert(decimal(n).len() == width - 1);
        }
        assert(seq!['0'] + (Seq::new((c - 1) as nat, |k: int| '0') + decimal(n)) =~= Seq::new(
            c,
            |k: int| '0',
        ) + decimal(n));
    }
}

/// A copy of a vector of strings.
pub fn clone_strings(v: &Vec<String>) -> (r: Vec<String>)
    ensures
        views(r@) == views(v@),
{
    let mut out: Vec<String> = Vec::new();
    let mut i: usize = 0;
    while i < v.len()
        invariant
            i <= v.len(),
            views(out@) == views(v@).take(i as int),
        decreases v.len() - i,
    {
        let ghost before = views(out@);
        let s = v[i].clone();
        out.push(s);
        assert(views(out@) =~= before.push(v@[i as int]@));
        assert(views(out@) =~= views(v@).take(i + 1));
        i = i + 1;
    }
    assert(views(v@).take(v.len() as int) =~= views(v@));
    out
}

/// What `strip_start` leaves does not start with a character it strips.
proof fn lemma_strip_start_head(s: Seq<char>, slash: bool)
    ensures
        strip_start(s, slash).len() == 0 || !strippable(strip_start(s, slash)[0], slash),
    decreases s.len(),
{
    if s.len() > 0 && strippable(s[0], slash) {
        lemma_strip_start_head(s.drop_first(), slash);
    }
}

/// What `strip_end` leaves is a prefix of `s` that does not end with a character it strips.
proof fn lemma_strip_end_prefix(s: Seq<char>, slash: bool)
    ensures
        strip_end(s, slash).len() <= s.len(),
        strip_end(s, slash) == s.take(strip_end(s, slash).len() as int),
        strip_end(s, slash).len() == 0 || !strippable(strip_end(s, slash).last(), slash),
    decreases s.len(),
{
    if s.len() > 0 && strippable(s.last(), slash) {
        lemma_strip_end_prefix(s.drop_last(), slash);
        let t = strip_end(s.drop_last(), slash);
        assert(s.drop_last().take(t.len() as int) =~= s.take(t.len() as int));
    } else {
        assert(s.take(s.len() as int) =~= s);
    }
}

/// Trimming twice is trimming once: `s.trim().trim() == s.trim()`, and the same for
/// `trim_matches('/')`.
pub proof fn lemma_trim_idempotent(s: Seq<char>, slash: bool)
    ensures
        strip_end(strip_start(strip_end(strip_start(s, slash), slash), slash), slash) == strip_end(
            strip_start(s, slash),
            slash,
        ),
{
    let x = strip_start(s, slash);
    lemma_strip_start_head(s, slash);
    lemma_strip_end_prefix(x, slash);
    let t = strip_end(x, slash);
    if t.len() > 0 {
        assert(t[0] == x[0]);
    }
    assert(strip_start(t, slash) == t);
    assert(strip_end(t, slash) == t);
}

/// A trimmed text is its own trim.
pub proof fn lemma_trim_ws_idempotent(s: Seq<char>)
    ensures
        trim_ws(trim_ws(s)) == trim_ws(s),
{
    lemma_trim_idempotent(s, false);
}

/// A text trimmed of `/` is its own trim.
pub proof fn lemma_trim_slash_idempotent(s: Seq<char>)
    ensures
        trim_slash(trim_slash(s)) == trim_slash(s),
{
    lemma_trim_idempotent(s, true);
}

} // verus!
