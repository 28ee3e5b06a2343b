//! String helpers with exact contracts: Unicode whitespace, trimming,
//! removal of every occurrence of a pattern, and lowercasing.

use vstd::prelude::*;

verus! {

/// Unicode `White_Space`, the property that `char::is_whitespace` and
/// `str::trim` go by.
pub open spec fn is_space_spec(c: char) -> bool {
    ('\t' <= c && c <= '\r') || c == ' ' || c == '\u{85}' || c == '\u{a0}'
        || c == '\u{1680}' || ('\u{2000}' <= c && c <= '\u{200a}') || c == '\u{2028}'
        || c == '\u{2029}' || c == '\u{202f}' || c == '\u{205f}' || c == '\u{3000}'
}

/// Tests a character against Unicode `White_Space`.
pub fn is_space(c: char) -> (r: bool)
    ensures
        r == is_space_spec(c),
{
    ('\t' <= c && c <= '\r') || c == ' ' || c == '\u{85}' || c == '\u{a0}'
        || c == '\u{1680}' || ('\u{2000}' <= c && c <= '\u{200a}') || c == '\u{2028}'
        || c == '\u{2029}' || c == '\u{202f}' || c == '\u{205f}' || c == '\u{3000}'
}

/// `s` without its leading whitespace.
pub open spec fn trim_start_spec(s: Seq<char>) -> Seq<char>
    decreases s.len(),
{
    if s.len() > 0 && is_space_spec(s[0]) {
        trim_start_spec(s.drop_first())
    } else {
        s
    }
}

/// `s` without its trailing whitespace.
pub open spec fn trim_end_spec(s: Seq<char>) -> Seq<char>
    decreases s.len(),
{
    if s.len() > 0 && is_space_spec(s.last()) {
        trim_end_spec(s.drop_last())
    } else {
        s
    }
}

/// `s` without leading and trailing whitespace, as `str::trim` gives it.
pub open spec fn trim_spec(s: Seq<char>) -> Seq<char> {
    trim_end_spec(trim_start_spec(s))
}

/// Whether `p` occurs in `s` at position `i`.
pub open spec fn occurs_at(s: Seq<char>, p: Seq<char>, i: int) -> bool {
    0 <= i && i + p.len() <= s.len() && s.subrange(i, i + p.len()) == p
}

/// Whether `p` occurs anywhere in `s`.
pub open spec fn contains_spec(s: Seq<char>, p: Seq<char>) -> bool {
    exists|i: int| occurs_at(s, p, i)
}

/// `s` with every occurrence of `p` removed, scanning from the left and
/// taking matches that do not overlap, as `str::replace(p, "")` does for a
/// non-empty `p`.
pub open spec fn remove_all_spec(s: Seq<char>, p: Seq<char>) -> Seq<char>
    decreases s.len(),
{
    if p.len() == 0 || s.len() < p.len() {
        s
    } else if s.subrange(0, p.len() as int) == p {
        remove_all_spec(s.subrange(p.len() as int, s.len() as int), p)
    } else {
        seq![s[0]] + remove_all_spec(s.drop_first(), p)
    }
}

proof fn lemma_trim_start_step(s: Seq<char>, i: int)
    requires
        0 <= i < s.len(),
        is_space_spec(s[i]),
    ensures
        trim_start_spec(s.subrange(i, s.len() as int)) == trim_start_spec(
            s.subrange(i + 1, s.len() as int),
        ),
{
    assert(s.subrange(i, s.len() as int).drop_first() =~= s.subrange(i + 1, s.len() as int));
}

proof fn lemma_trim_end_step(s: Seq<char>, i: int, j: int)
    requires
        0 <= i < j <= s.len(),
        is_space_spec(s[j - 1]),
    ensures
        trim_end_spec(s.subrange(i, j)) == trim_end_spec(s.subrange(i, j - 1)),
{
    assert(s.subrange(i, j).drop_last() =~= s.subrange(i, j - 1));
}

/// Whether every character of `s` is whitespace.
pub open spec fn all_space(s: Seq<char>) -> bool {
    forall|k: int| 0 <= k < s.len() ==> is_space_spec(#[trigger] s[k])
}

proof fn lemma_trim_start_prefix(pre: Seq<char>, t: Seq<char>)
    requires
        all_space(pre),
    ensures
        trim_start_spec(pre + t) == trim_start_spec(t),
    decreases pre.len(),
{
    if pre.len() > 0 {
        assert((pre + t).drop_first() =~= pre.drop_first() + t);
        assert(is_space_spec(pre[0]));
        lemma_trim_start_prefix(pre.drop_first(), t);
    } else {
        assert(pre + t =~= t);
    }
}

proof fn lemma_trim_end_suffix(t: Seq<char>, suf: Seq<char>)
    requires
        all_space(suf),
    ensures
        trim_end_spec(t + suf) == trim_end_spec(t),
    decreases suf.len(),
{
    if suf.len() > 0 {
        assert((t + suf).drop_last() =~= t + suf.drop_last());
        assert(is_space_spec(suf[suf.len() - 1]));
        lemma_trim_end_suffix(t, suf.drop_last());
    } else {
        assert(t + suf =~= t);
    }
}

proof fn lemma_trim_start_append(t: Seq<char>, suf: Seq<char>)
    requires
        all_space(suf),
    ensures
        trim_start_spec(t).len() > 0 ==> trim_start_spec(t + suf) == trim_start_spec(t) + suf,
        trim_start_spec(t).len() == 0 ==> trim_start_spec(t + suf).len() == 0,
    decreases t.len(),
{
    if t.len() == 0 {
        assert(t + suf =~= Seq::<char>::empty() + suf);
        lemma_trim_start_prefix(suf, Seq::<char>::empty());
        assert(suf + Seq::<char>::empty() =~= suf);
        assert(t + suf =~= suf);
    } else if is_space_spec(t[0]) {
        assert((t + suf).drop_first() =~= t.drop_first() + suf);
        lemma_trim_start_append(t.drop_first(), suf);
    } else {
        assert((t + suf)[0] == t[0]);
    }
}

/// Surrounding a string with whitespace does not change what it trims to.
pub proof fn lemma_trim_padding(pre: Seq<char>, t: Seq<char>, suf: Seq<char>)
    requires
        all_space(pre),
        all_space(suf),
    ensures
        trim_spec(pre + t + suf) == trim_spec(t),
{
    assert(pre + t + suf =~= pre + (t + suf));
    lemma_trim_start_prefix(pre, t + suf);
    lemma_trim_start_append(t, suf);
    if trim_start_spec(t).len() > 0 {
        lemma_trim_end_suffix(trim_start_spec(t), suf);
    } else {
        assert(trim_start_spec(t) =~= Seq::<char>::empty());
        assert(trim_start_spec(t + suf) =~= Seq::<char>::empty());
    }
}

/// Removes leading and trailing whitespace.
pub fn trim(s: &str) -> (r: String)
    ensures
        r@ == trim_spec(s@),
{
    let n = s.unicode_len();
    let mut i: usize = 0;
    assert(s@.subrange(0, n as int) =~= s@);
    while i < n && is_space(s.get_char(i))
        invariant
            i <= n,
            n == s@.len(),
            trim_start_spec(s@) == trim_start_spec(s@.subrange(i as int, n as int)),
        decreases n - i,
    {
        proof {
            lemma_trim_start_step(s@, i as int);
        }
        i = i + 1;
    }
    assert(trim_start_spec(s@.subrange(i as int, n as int)) == s@.subrange(i as int, n as int));
    let mut j: usize = n;
    while j > i && is_space(s.get_char(j - 1))
        invariant
            i <= j <= n,
            n == s@.len(),
            trim_spec(s@) == trim_end_spec(s@.subrange(i as int, j as int)),
        decreases j,
    {
        proof {
            lemma_trim_end_step(s@, i as int, j as int);
        }
        j = j - 1;
    }
    String::from_str(s.substring_char(i, j))
}

/// Whether `p` occurs in `s` at position `i`.
fn occurs_at_exec(s: &str, p: &str, i: usize) -> (r: bool)
    requires
        i <= s@.len(),
    ensures
        r == occurs_at(s@, p@, i as int),
{
    let n = s.unicode_len();
    let m = p.unicode_len();
    if m > n - i {
        return false;
    }
    let mut k: usize = 0;
    while k < m
        invariant
            k <= m,
            m == p@.len(),
            n == s@.len(),
            i + m <= n,
            forall|t: int| 0 <= t < k ==> s@[i + t] == p@[t],
        decreases m - k,
    {
        if s.get_char(i + k) != p.get_char(k) {
            assert(s@.subrange(i as int, i + m)[k as int] != p@[k as int]);
            return false;
        }
        k = k + 1;
    }
    assert(s@.subrange(i as int, i + m) =~= p@);
    true
}

proof fn lemma_remove_all_step(s: Seq<char>, p: Seq<char>, i: int)
    requires
        p.len() > 0,
        0 <= i < s.len(),
    ensures
        occurs_at(s, p, i) ==> remove_all_spec(s.subrange(i, s.len() as int), p)
            == remove_all_spec(s.subrange(i + p.len(), s.len() as int), p),
        !occurs_at(s, p, i) ==> remove_all_spec(s.subrange(i, s.len() as int), p) == seq![s[i]]
            + remove_all_spec(s.subrange(i + 1, s.len() as int), p),
{
    let t = s.subrange(i, s.len() as int);
    if t.len() >= p.len() {
        assert(t.subrange(0, p.len() as int) =~= s.subrange(i, i + p.len()));
        assert(t.subrange(p.len() as int, t.len() as int) =~= s.subrange(
            i + p.len(),
            s.len() as int,
        ));
    } else {
        assert(!occurs_at(s, p, i));
        assert(remove_all_spec(s.subrange(i + 1, s.len() as int), p) =~= s.subrange(
            i + 1,
            s.len() as int,
        ));
        assert(t =~= seq![s[i]] + s.subrange(i + 1, s.len() as int));
    }
    assert(t.drop_first() =~= s.subrange(i + 1, s.len() as int));
}

/// Removing a non-empty pattern never lengthens a string, and shortens it
/// wherever the pattern occurs.
pub proof fn lemma_remove_all_shrinks(s: Seq<char>, p: Seq<char>)
    requires
        p.len() > 0,
    ensures
        remove_all_spec(s, p).len() <= s.len(),
        contains_spec(s, p) ==> remove_all_spec(s, p).len() < s.len(),
    decreases s.len(),
{
    if s.len() < p.len() {
        assert(!contains_spec(s, p));
    } else if s.subrange(0, p.len() as int) == p {
        lemma_remove_all_shrinks(s.subrange(p.len() as int, s.len() as int), p);
    } else {
        let t = s.drop_first();
        lemma_remove_all_shrinks(t, p);
        if contains_spec(s, p) {
            let i = choose|i: int| occurs_at(s, p, i);
            assert(i != 0);
            assert(t.subrange(i - 1, i - 1 + p.len()) =~= s.subrange(i, i + p.len()));
            assert(occurs_at(t, p, i - 1));
        }
    }
}

/// Removing a pattern that does not occur leaves the string as it is.
pub proof fn lemma_remove_all_absent(s: Seq<char>, p: Seq<char>)
    requires
        !contains_spec(s, p),
    ensures
        remove_all_spec(s, p) == s,
    decreases s.len(),
{
    if p.len() == 0 || s.len() < p.len() {
    } else {
        assert(!occurs_at(s, p, 0));
        let t = s.drop_first();
        assert forall|i: int| !occurs_at(t, p, i) by {
            if occurs_at(t, p, i) {
                assert(t.subrange(i, i + p.len()) =~= s.subrange(i + 1, i + 1 + p.len()));
                assert(occurs_at(s, p, i + 1));
            }
        }
        lemma_remove_all_absent(t, p);
        assert(seq![s[0]] + t =~= s);
    }
}

/// Whether `p` occurs anywhere in `s`.
pub fn contains(s: &str, p: &str) -> (r: bool)
    ensures
        r == contains_spec(s@, p@),
{
    let n = s.unicode_len();
    let mut i: usize = 0;
    while i < n
        invariant
            i <= n,
            n == s@.len(),
            forall|j: int| 0 <= j < i ==> !occurs_at(s@, p@, j),
        decreases n - i,
    {
        if occurs_at_exec(s, p, i) {
            return true;
        }
        i = i + 1;
    }
    occurs_at_exec(s, p, n)
}

/// Removes every occurrence of a non-empty pattern, left to right.
pub fn remove_all(s: &str, p: &str) -> (r: String)
    requires
        p@.len() > 0,
    ensures
        r@ == remove_all_spec(s@, p@),
{
    let n = s.unicode_len();
    let m = p.unicode_len();
    let mut out = String::new();
    let mut i: usize = 0;
    assert(s@.subrange(0, n as int) =~= s@);
    while i < n
        invariant
            i <= n,
            n == s@.len(),
            m == p@.len(),
            m > 0,
            out@ + remove_all_spec(s@.subrange(i as int, n as int), p@) == remove_all_spec(
                s@,
                p@,
            ),
        decreases n - i,
    {
        proof {
            lemma_remove_all_step(s@, p@, i as int);
        }
        if occurs_at_exec(s, p, i) {
            i = i + m;
        } else {
            let ghost before = out@;
            out.append(s.substring_char(i, i + 1));
            assert(s@.subrange(i as int, i + 1) =~= seq![s@[i as int]]);
            assert(out@ + remove_all_spec(s@.subrange(i + 1, n as int), p@) =~= before + (seq![
                s@[i as int],
            ] + remove_all_spec(s@.subrange(i + 1, n as int), p@)));
            i = i + 1;
        }
    }
    assert(remove_all_spec(s@.subrange(n as int, n as int), p@) =~= Seq::<char>::empty());
    assert(out@ =~= out@ + Seq::<char>::empty());
    out
}

/// What `str::to_lowercase` returns for `s`.
pub uninterp spec fn lower_of(s: Seq<char>) -> Seq<char>;

/// Whether `c` is an ASCII capital letter.
pub open spec fn is_ascii_upper(c: char) -> bool {
    'A' <= c && c <= 'Z'
}

/// Whether every character of `s` is ASCII.
pub open spec fn all_ascii(s: Seq<char>) -> bool {
    forall|k: int| 0 <= k < s.len() ==> (#[trigger] s[k] as u32) < 128
}

/// An ASCII capital letter mapped to its small letter; any other character
/// as it is.
pub open spec fn ascii_lower_char(c: char) -> char {
    if is_ascii_upper(c) {
        ((c as u32) + 32) as char
    } else {
        c
    }
}

/// Every character of `s` through `ascii_lower_char`.
pub open spec fn ascii_lower_seq(s: Seq<char>) -> Seq<char> {
    s.map_values(|c: char| ascii_lower_char(c))
}

/// Lowercasing ASCII text twice gives what lowercasing it once gives.
pub proof fn lemma_ascii_lower_idempotent(s: Seq<char>)
    ensures
        ascii_lower_seq(ascii_lower_seq(s)) == ascii_lower_seq(s),
{
    assert(ascii_lower_seq(ascii_lower_seq(s)) =~= ascii_lower_seq(s));
}

/// Relies on `str::to_lowercase`: the result depends on the characters
/// alone, an empty string stays empty, every ASCII capital letter has been
/// mapped to its small letter, so none is left, and ASCII text is lowercased
/// character by character.
#[verifier::external_body]
pub(crate) fn lowercase(s: &str) -> (r: String)
    ensures
        r@ == lower_of(s@),
        s@.len() == 0 ==> r@.len() == 0,
        forall|k: int| 0 <= k < r@.len() ==> !is_ascii_upper(#[trigger] r@[k]),
        all_ascii(s@) ==> r@ == ascii_lower_seq(s@),
{
    s.to_lowercase()
}

/// Decimal digits of `n`, without leading zeros.
pub open spec fn dec_spec(n: nat) -> Seq<char>
    decreases n,
{
    if n < 10 {
        seq![digit_char(n)]
    } else {
        dec_spec(n / 10) + seq![digit_char(n % 10)]
    }
}

/// The digit character for a value below ten.
pub open spec fn digit_char(d: nat) -> char {
    if d == 0 { '0' } else if d == 1 { '1' } else if d == 2 { '2' } else if d == 3 { '3' }
    else if d == 4 { '4' } else if d == 5 { '5' } else if d == 6 { '6' } else if d == 7 { '7' }
    else if d == 8 { '8' } else { '9' }
}

fn digit_str(d: u64) -> (r: &'static str)
    requires
        d < 10,
    ensures
        r@ == seq![digit_char(d as nat)],
{
    proof {
        reveal_strlit("0");
        reveal_strlit("1");
        reveal_strlit("2");
        reveal_strlit("3");
        reveal_strlit("4");
        reveal_strlit("5");
        reveal_strlit("6");
        reveal_strlit("7");
        reveal_strlit("8");
        reveal_strlit("9");
    }
    let r = if d == 0 { "0" } else if d == 1 { "1" } else if d == 2 { "2" } else if d == 3 { "3" }
    else if d == 4 { "4" } else if d == 5 { "5" } else if d == 6 { "6" } else if d == 7 { "7" }
    else if d == 8 { "8" } else { "9" };
    assert(r@ =~= seq![digit_char(d as nat)]);
    r
}

/// Writes `n` in decimal.
pub fn decimal(n: u64) -> (r: String)
    ensures
        r@ == dec_spec(n as nat),
    decreases n,
{
    if n < 10 {
        String::from_str(digit_str(n))
    } else {
        let mut r = decimal(n / 10);
        r.append(digit_str(n % 10));
        r
    }
}

/// `h` hundredths written with two decimals: `1234` is `12.34`.
pub open spec fn fixed2_spec(h: nat) -> Seq<char> {
    dec_spec(h / 100) + seq!['.', digit_char((h % 100) / 10), digit_char(h % 10)]
}

/// Writes `h` hundredths with two decimals.
pub fn fixed2(h: u64) -> (r: String)
    ensures
        r@ == fixed2_spec(h as nat),
{
    let mut r = decimal(h / 100);
    let ghost whole = r@;
    r.append(".");
    r.append(digit_str((h % 100) / 10));
    r.append(digit_str(h % 10));
    proof {
        reveal_strlit(".");
    }
    assert(r@ =~= fixed2_spec(h as nat));
    r
}

} // verus!
