//! The operating system's display name and the icon key derived from it.

use vstd::prelude::*;
use crate::infos::str_eq;
use crate::text::{
    all_ascii, ascii_lower_seq,
    contains, contains_spec, is_ascii_upper, lemma_remove_all_absent, lemma_remove_all_shrinks,
    is_space_spec, lower_of, lowercase, occurs_at, remove_all,
    remove_all_spec, trim, trim_end_spec, trim_spec, trim_start_spec,
};

verus! {

/// Whether `s` still holds one of the words that the icon key drops.
pub open spec fn holds_dropped_word(s: Seq<char>) -> bool {
    contains_spec(s, "linux"@) || contains_spec(s, "os"@)
}

/// `s` with every `linux`, then every `os`, removed, over and over until
/// neither word is left: joining the pieces of one round can form a word anew.
pub open spec fn strip_words_spec(s: Seq<char>) -> Seq<char>
    decreases s.len(),
    via strip_words_decreases
{
    if holds_dropped_word(s) {
        strip_words_spec(remove_all_spec(remove_all_spec(s, "linux"@), "os"@))
    } else {
        s
    }
}

#[via_fn]
proof fn strip_words_decreases(s: Seq<char>) {
    lemma_round_shrinks(s);
}

proof fn lemma_round_shrinks(s: Seq<char>)
    ensures
        holds_dropped_word(s) ==> remove_all_spec(remove_all_spec(s, "linux"@), "os"@).len()
            < s.len(),
{
    reveal_strlit("linux");
    reveal_strlit("os");
    let a = remove_all_spec(s, "linux"@);
    lemma_remove_all_shrinks(s, "linux"@);
    lemma_remove_all_shrinks(a, "os"@);
    if !contains_spec(s, "linux"@) {
        lemma_remove_all_absent(s, "linux"@);
    }
}

/// The icon key for an already lowercased name: the words `linux` and `os`
/// removed until none is left, then surrounding whitespace trimmed.
pub open spec fn asset_key_spec(lowered: Seq<char>) -> Seq<char> {
    trim_spec(strip_words_spec(lowered))
}

/// The display name for a raw OS name that may be missing.
pub open spec fn display_name_spec(raw: Option<Seq<char>>) -> Seq<char> {
    match raw {
        Some(n) => n,
        None => "Linux"@,
    }
}

/// The icon key for a raw OS name that may be missing.
pub open spec fn asset_name_spec(raw: Option<Seq<char>>) -> Seq<char> {
    match raw {
        Some(n) => asset_key_spec(lower_of(n)),
        None => "default"@,
    }
}

/// Whether no character of `s` is an ASCII capital letter.
pub open spec fn no_ascii_upper(s: Seq<char>) -> bool {
    forall|k: int| 0 <= k < s.len() ==> !is_ascii_upper(#[trigger] s[k])
}

/// Derives the icon key from a name that is already lowercased.
pub fn asset_key(lowered: &str) -> (r: String)
    ensures
        r@ == asset_key_spec(lowered@),
{
    let linux = "linux";
    let os = "os";
    proof {
        reveal_strlit("linux");
        reveal_strlit("os");
    }
    let mut cur = String::from_str(lowered);
    while contains(cur.as_str(), linux) || contains(cur.as_str(), os)
        invariant
            strip_words_spec(cur@) == strip_words_spec(lowered@),
            linux@ == "linux"@,
            os@ == "os"@,
            linux@.len() > 0,
            os@.len() > 0,
        decreases cur@.len(),
    {
        proof {
            lemma_round_shrinks(cur@);
        }
        let a = remove_all(cur.as_str(), linux);
        cur = remove_all(a.as_str(), os);
    }
    trim(cur.as_str())
}

/// Splits a raw OS name into the name to display and the icon key. A missing
/// name gives `Linux` and `default`.
pub fn get_os(name: &Option<String>) -> (r: (String, String))
    ensures
        r.0@ == display_name_spec(opt_view(name)),
        r.1@ == asset_name_spec(opt_view(name)),
        name is Some && all_ascii(name->0@) ==> r.1@ == asset_key_spec(
            ascii_lower_seq(name->0@),
        ),
        (r.0@ == "Linux"@ && r.1@ == "default"@) <==> name is None,
{
    match name {
        Some(n) => {
            let lowered = lowercase(n.as_str());
            let key = asset_key(lowered.as_str());
            proof {
                if n@ == "Linux"@ {
                    reveal_strlit("Linux");
                    reveal_strlit("default");
                    assert(all_ascii(n@));
                    assert(lowered@ =~= "linux"@) by {
                        reveal_strlit("linux");
                    }
                    lemma_linux_key();
                    assert(key@.len() == 0);
                    assert(key@ != "default"@);
                }
            }
            (n.clone(), key)
        },
        None => (String::from_str("Linux"), String::from_str("default")),
    }
}

/// The presence application registered for a platform key: one for
/// `darwin`, none (`0`) for `windows`, and the default one for every other.
pub open spec fn client_id_spec(platform: Seq<char>) -> u64 {
    if platform == "darwin"@ {
        899912704188379136
    } else if platform == "windows"@ {
        0
    } else {
        898584015076982865
    }
}

/// Picks the presence application for a platform key.
pub fn client_id(platform: &str) -> (r: u64)
    ensures
        r == client_id_spec(platform@),
{
    if str_eq(platform, "darwin") {
        899912704188379136
    } else if str_eq(platform, "windows") {
        0
    } else {
        898584015076982865
    }
}

/// The view of an optional string.
pub open spec fn opt_view(o: &Option<String>) -> Option<Seq<char>> {
    match o {
        Some(s) => Some(s@),
        None => None,
    }
}

/// A missing name falls back to `Linux` for display and `default` for the
/// icon; a present name is displayed unchanged.
pub proof fn lemma_normalize_fallback(raw: Option<Seq<char>>)
    ensures
        raw is None ==> display_name_spec(raw) == "Linux"@ && asset_name_spec(raw) == "default"@,
        raw is Some ==> display_name_spec(raw) == raw->0,
{
}

/// The name `linux` leaves an empty icon key.
proof fn lemma_linux_key()
    ensures
        asset_key_spec("linux"@).len() == 0,
{
    reveal_strlit("linux");
    reveal_strlit("os");
    let s = "linux"@;
    assert(occurs_at(s, "linux"@, 0)) by {
        assert(s.subrange(0, 5) =~= s);
    }
    assert(s.subrange(0, 5) =~= s);
    let e = s.subrange(5, 5);
    assert(e.len() == 0);
    assert(remove_all_spec(s, "linux"@) == remove_all_spec(e, "linux"@));
    assert(remove_all_spec(e, "linux"@) == e);
    assert(remove_all_spec(e, "os"@) == e);
    assert(!holds_dropped_word(e));
    assert(strip_words_spec(s) == strip_words_spec(e));
    assert(strip_words_spec(e) == e);
    assert(trim_start_spec(e) == e);
    assert(trim_end_spec(e) == e);
}

proof fn lemma_trim_start_suffix(s: Seq<char>)
    ensures
        exists|a: int| 0 <= a <= s.len() && trim_start_spec(s) == #[trigger] s.subrange(a, s.len() as int),
        trim_start_spec(s).len() > 0 ==> !is_space_spec(trim_start_spec(s)[0]),
    decreases s.len(),
{
    if s.len() > 0 && is_space_spec(s[0]) {
        lemma_trim_start_suffix(s.drop_first());
        let a = choose|a: int| 0 <= a <= s.drop_first().len() && trim_start_spec(s.drop_first()) == #[trigger] s.drop_first().subrange(a, s.drop_first().len() as int);
        assert(s.drop_first().subrange(a, s.drop_first().len() as int) =~= s.subrange(a + 1, s.len() as int));
    } else {
        assert(s.subrange(0, s.len() as int) =~= s);
    }
}

proof fn lemma_trim_end_prefix(s: Seq<char>)
    ensures
        exists|b: int| 0 <= b <= s.len() && trim_end_spec(s) == #[trigger] s.subrange(0, b),
        trim_end_spec(s).len() > 0 ==> !is_space_spec(trim_end_spec(s).last()),
        s.len() > 0 && !is_space_spec(s[0]) ==> trim_end_spec(s).len() > 0 && trim_end_spec(s)[0] == s[0],
    decreases s.len(),
{
    if s.len() > 0 && is_space_spec(s.last()) {
        lemma_trim_end_prefix(s.drop_last());
        let b = choose|b: int| 0 <= b <= s.drop_last().len() && trim_end_spec(s.drop_last()) == #[trigger] s.drop_last().subrange(0, b);
        assert(s.drop_last().subrange(0, b) =~= s.subrange(0, b));
    } else {
        assert(s.subrange(0, s.len() as int) =~= s);
    }
}

proof fn lemma_trim_sub(s: Seq<char>)
    ensures
        exists|a: int, b: int| 0 <= a <= b <= s.len() && trim_spec(s) == #[trigger] s.subrange(a, b),
        trim_spec(s).len() > 0 ==> !is_space_spec(trim_spec(s)[0]) && !is_space_spec(trim_spec(s).last()),
{
    lemma_trim_start_suffix(s);
    let t = trim_start_spec(s);
    let a = choose|a: int| 0 <= a <= s.len() && t == #[trigger] s.subrange(a, s.len() as int);
    lemma_trim_end_prefix(t);
    let b = choose|b: int| 0 <= b <= t.len() && trim_end_spec(t) == #[trigger] t.subrange(0, b);
    assert(t.subrange(0, b) =~= s.subrange(a, a + b));
}

proof fn lemma_sub_keeps(s: Seq<char>, a: int, b: int, p: Seq<char>)
    requires
        0 <= a <= b <= s.len(),
    ensures
        no_ascii_upper(s) ==> no_ascii_upper(s.subrange(a, b)),
        !contains_spec(s, p) ==> !contains_spec(s.subrange(a, b), p),
{
    let t = s.subrange(a, b);
    if no_ascii_upper(s) {
        assert forall|k: int| 0 <= k < t.len() implies !is_ascii_upper(#[trigger] t[k]) by {
            assert(t[k] == s[a + k]);
        }
    }
    if contains_spec(t, p) {
        let i = choose|i: int| occurs_at(t, p, i);
        assert(t.subrange(i, i + p.len()) =~= s.subrange(a + i, a + i + p.len()));
        assert(occurs_at(s, p, a + i));
    }
}

proof fn lemma_remove_all_no_upper(s: Seq<char>, p: Seq<char>)
    requires
        no_ascii_upper(s),
    ensures
        no_ascii_upper(remove_all_spec(s, p)),
    decreases s.len(),
{
    if p.len() == 0 || s.len() < p.len() {
    } else if s.subrange(0, p.len() as int) == p {
        lemma_sub_keeps(s, p.len() as int, s.len() as int, p);
        lemma_remove_all_no_upper(s.subrange(p.len() as int, s.len() as int), p);
    } else {
        lemma_sub_keeps(s, 1, s.len() as int, p);
        assert(s.drop_first() =~= s.subrange(1, s.len() as int));
        lemma_remove_all_no_upper(s.drop_first(), p);
        let r = seq![s[0]] + remove_all_spec(s.drop_first(), p);
        assert forall|k: int| 0 <= k < r.len() implies !is_ascii_upper(#[trigger] r[k]) by {
            if k > 0 {
                assert(r[k] == remove_all_spec(s.drop_first(), p)[k - 1]);
            }
        }
    }
}

proof fn lemma_strip_words_clean(s: Seq<char>)
    ensures
        !holds_dropped_word(strip_words_spec(s)),
        no_ascii_upper(s) ==> no_ascii_upper(strip_words_spec(s)),
    decreases s.len(),
{
    if holds_dropped_word(s) {
        let a = remove_all_spec(s, "linux"@);
        lemma_round_shrinks(s);
        if no_ascii_upper(s) {
            lemma_remove_all_no_upper(s, "linux"@);
            lemma_remove_all_no_upper(a, "os"@);
        }
        lemma_strip_words_clean(remove_all_spec(a, "os"@));
    }
}

/// For every name, the icon key holds neither `linux` nor `os` and has no
/// whitespace at either end; where the name is lowercased, as the lowercase
/// step leaves it, the key holds no ASCII capital letter either, so neither
/// word occurs in it in any mix of ASCII case.
pub proof fn lemma_asset_key_shape(lowered: Seq<char>)
    ensures
        !contains_spec(asset_key_spec(lowered), "linux"@),
        !contains_spec(asset_key_spec(lowered), "os"@),
        asset_key_spec(lowered).len() > 0 ==> !is_space_spec(asset_key_spec(lowered)[0])
            && !is_space_spec(asset_key_spec(lowered).last()),
        no_ascii_upper(lowered) ==> no_ascii_upper(asset_key_spec(lowered)),
{
    let r = strip_words_spec(lowered);
    lemma_strip_words_clean(lowered);
    lemma_trim_sub(r);
    let (a, b) = choose|a: int, b: int| 0 <= a <= b <= r.len() && trim_spec(r) == #[trigger] r.subrange(a, b);
    lemma_sub_keeps(r, a, b, "linux"@);
    lemma_sub_keeps(r, a, b, "os"@);
}

} // verus!
