//! The input keys of a domain that a replay would read.
use crate::order::{insert_sorted, is_sorted_set, lemma_lt_irreflexive, string_set, strictly_sorted};
use crate::text::{ends_with, lemma_trim_ws_idempotent, str_ends_with, trim, trim_ws, views};
use vstd::prelude::*;
use vstd::string::*;

verus! {

/// The suffixes a domain filters its keys by: the given ones trimmed, the empty ones dropped.
pub open spec fn suffix_set(values: Seq<Seq<char>>) -> Set<Seq<char>> {
    Set::new(
        |s: Seq<char>|
            s.len() > 0 && exists|i: int| 0 <= i < values.len() && trim_ws(#[trigger] values[i]) == s,
    )
}

/// A key is read when no suffix is given or it ends with one of them.
pub open spec fn key_selected(key: Seq<char>, suffixes: Set<Seq<char>>) -> bool {
    suffixes.is_empty() || exists|s: Seq<char>| suffixes.contains(s) && ends_with(key, s)
}

/// The keys listed under all prefixes, as plain values.
pub open spec fn listing_views(lists: Seq<Vec<String>>) -> Seq<Seq<Seq<char>>> {
    lists.map_values(|v: Vec<String>| views(v@))
}

/// The distinct listed keys that the suffixes select.
pub open spec fn selected_keys(lists: Seq<Seq<Seq<char>>>, suffixes: Set<Seq<char>>) -> Set<
    Seq<char>,
> {
    Set::new(
        |k: Seq<char>|
            key_selected(k, suffixes) && exists|i: int, j: int|
                0 <= i < lists.len() && 0 <= j < lists[i].len() && #[trigger] lists[i][j] == k,
    )
}

/// The suffixes trimmed, without the empty ones, each once, in the order of `String`.
pub fn normalized_suffixes(values: &Vec<String>) -> (r: Vec<String>)
    ensures
        is_sorted_set(r@),
        string_set(r@) == suffix_set(views(values@)),
{
    let ghost vs = views(values@);
    let mut out: Vec<String> = Vec::new();
    let mut i: usize = 0;
    assert(string_set(out@) =~= Set::<Seq<char>>::empty());
    while i < values.len()
        invariant
            vs == views(values@),
            i <= values.len(),
            is_sorted_set(out@),
            string_set(out@) == Set::new(
                |s: Seq<char>|
                    s.len() > 0 && exists|k: int| 0 <= k < i && trim_ws(#[trigger] vs[k]) == s,
            ),
        decreases values.len() - i,
    {
        let t = trim(values[i].as_str());
        let ghost tv = t@;
        assert(tv == trim_ws(vs[i as int]));
        let ghost before = string_set(out@);
        if t.as_str().unicode_len() > 0 {
            insert_sorted(&mut out, t);
        }
        assert(string_set(out@) =~= Set::new(
            |s: Seq<char>|
                s.len() > 0 && exists|k: int| 0 <= k < i + 1 && trim_ws(#[trigger] vs[k]) == s,
        )) by {
            assert forall|s: Seq<char>|
                #![trigger string_set(out@).contains(s)]
                string_set(out@).contains(s) <==> (s.len() > 0 && exists|k: int|
                    0 <= k < i + 1 && trim_ws(#[trigger] vs[k]) == s) by {
                if s.len() > 0 && exists|k: int| 0 <= k < i + 1 && trim_ws(#[trigger] vs[k]) == s {
                    let k = choose|k: int| 0 <= k < i + 1 && trim_ws(#[trigger] vs[k]) == s;
                    if k < i {
                        assert(before.contains(s));
                    }
                }
                if string_set(out@).contains(s) && !before.contains(s) {
                    assert(s == tv);
                    assert(trim_ws(vs[i as int]) == s);
                }
            }
        }
        i = i + 1;
    }
    assert(string_set(out@) =~= suffix_set(vs));
    out
}

proof fn lemma_sorted_no_duplicates(v: Seq<Seq<char>>)
    requires
        strictly_sorted(v),
    ensures
        v.no_duplicates(),
{
    assert forall|i: int, j: int| 0 <= i < v.len() && 0 <= j < v.len() && i != j implies v[i]
        != v[j] by {
        lemma_lt_irreflexive(v[i]);
    }
}

/// Whether the suffixes select a key.
fn key_matches(key: &str, suffixes: &Vec<String>) -> (r: bool)
    ensures
        r == key_selected(key@, string_set(suffixes@)),
{
    if suffixes.len() == 0 {
        assert(string_set(suffixes@) =~= Set::<Seq<char>>::empty());
        return true;
    }
    assert(string_set(suffixes@).contains(views(suffixes@)[0]));
    let mut i: usize = 0;
    while i < suffixes.len()
        invariant
            i <= suffixes.len(),
            forall|k: int| 0 <= k < i ==> !ends_with(key@, #[trigger] views(suffixes@)[k]),
        decreases suffixes.len() - i,
    {
        if str_ends_with(key, suffixes[i].as_str()) {
            assert(string_set(suffixes@).contains(views(suffixes@)[i as int]));
            return true;
        }
        i = i + 1;
    }
    assert forall|s: Seq<char>| !(string_set(suffixes@).contains(s) && ends_with(key@, s)) by {
        if string_set(suffixes@).contains(s) {
            let k = choose|k: int| 0 <= k < views(suffixes@).len() && views(suffixes@)[k] == s;
        }
    }
    false
}

/// How many distinct listed keys the suffixes of a domain select: the estimate of the
/// keys a replay would read, from the keys listed under each input prefix.
pub fn count_matching_keys(listed: &Vec<Vec<String>>, input_suffixes: &Vec<String>) -> (r: usize)
    ensures
        r == selected_keys(listing_views(listed@), suffix_set(views(input_suffixes@))).len(),
{
    let suffixes = normalized_suffixes(input_suffixes);
    let ghost sfx = suffix_set(views(input_suffixes@));
    let ghost lv = listing_views(listed@);
    let mut unique: Vec<String> = Vec::new();
    assert(string_set(unique@) =~= Set::<Seq<char>>::empty());
    let mut i: usize = 0;
    while i < listed.len()
        invariant
            lv == listing_views(listed@),
            string_set(suffixes@) == sfx,
            i <= listed.len(),
            is_sorted_set(unique@),
            string_set(unique@) == Set::new(
                |k: Seq<char>|
                    key_selected(k, sfx) && exists|a: int, b: int|
                        0 <= a < i && 0 <= b < lv[a].len() && #[trigger] lv[a][b] == k,
            ),
        decreases listed.len() - i,
    {
        let keys = &listed[i];
        assert(lv[i as int] == views(keys@));
        let ghost start = string_set(unique@);
        let mut j: usize = 0;
        while j < keys.len()
            invariant
                lv == listing_views(listed@),
                string_set(suffixes@) == sfx,
                i < listed.len(),
                keys == listed@[i as int],
                lv[i as int] == views(keys@),
                j <= keys.len(),
                is_sorted_set(unique@),
                string_set(unique@) == Set::new(
                    |k: Seq<char>|
                        key_selected(k, sfx) && ((exists|a: int, b: int|
                            0 <= a < i && 0 <= b < lv[a].len() && #[trigger] lv[a][b] == k)
                            || exists|b: int| 0 <= b < j && lv[i as int][b] == k),
                ),
            decreases keys.len() - j,
        {
            let key = &keys[j];
            let ghost before = string_set(unique@);
            if key_matches(key.as_str(), &suffixes) {
                insert_sorted(&mut unique, key.clone());
            }
            assert(string_set(unique@) =~= Set::new(
                |k: Seq<char>|
                    key_selected(k, sfx) && ((exists|a: int, b: int|
                        0 <= a < i && 0 <= b < lv[a].len() && #[trigger] lv[a][b] == k) || exists|
                        b: int,
                    | 0 <= b < j + 1 && lv[i as int][b] == k),
            )) by {
                assert(lv[i as int][j as int] == key@);
                assert forall|k: Seq<char>|
                    #![trigger string_set(unique@).contains(k)]
                    string_set(unique@).contains(k) <==> (key_selected(k, sfx) && ((exists|
                        a: int,
                        b: int,
                    | 0 <= a < i && 0 <= b < lv[a].len() && #[trigger] lv[a][b] == k) || exists|
                        b: int,
                    | 0 <= b < j + 1 && lv[i as int][b] == k)) by {
                    if key_selected(k, sfx) && exists|b: int| 0 <= b < j + 1 && lv[i as int][b] == k {
                        let b = choose|b: int| 0 <= b < j + 1 && lv[i as int][b] == k;
                        if b < j {
                            assert(before.contains(k));
                        }
                    }
                }
            }
            j = j + 1;
        }
        assert(string_set(unique@) =~= Set::new(
            |k: Seq<char>|
                key_selected(k, sfx) && exists|a: int, b: int|
                    0 <= a < i + 1 && 0 <= b < lv[a].len() && #[trigger] lv[a][b] == k,
        )) by {
            assert forall|k: Seq<char>|
                #![trigger string_set(unique@).contains(k)]
                string_set(unique@).contains(k) <==> (key_selected(k, sfx) && exists|a: int, b: int|
                    0 <= a < i + 1 && 0 <= b < lv[a].len() && #[trigger] lv[a][b] == k) by {
                if key_selected(k, sfx) && exists|a: int, b: int|
                    0 <= a < i + 1 && 0 <= b < lv[a].len() && #[trigger] lv[a][b] == k {
                    let (a, b) = choose|a: int, b: int|
                        0 <= a < i + 1 && 0 <= b < lv[a].len() && #[trigger] lv[a][b] == k;
                    if a == i {
                        assert(0 <= b < keys.len() && lv[i as int][b] == k);
                    }
                }
            }
        }
        i = i + 1;
    }
    proof {
        assert(string_set(unique@) =~= selected_keys(lv, sfx));
        lemma_sorted_no_duplicates(views(unique@));
        views(unique@).unique_seq_to_set();
    }
    unique.len()
}

/// Every normalized suffix is trimmed and not empty, and normalizing the normalized
/// suffixes again, in any order, gives the same set.
pub proof fn lemma_normalized_suffixes_idempotent(values: Seq<Seq<char>>, normalized: Seq<Seq<char>>)
    requires
        normalized.to_set() == suffix_set(values),
    ensures
        forall|s: Seq<char>| #[trigger]
            suffix_set(values).contains(s) ==> s.len() > 0 && trim_ws(s) == s,
        suffix_set(normalized) == suffix_set(values),
{
    assert forall|s: Seq<char>| #[trigger]
        suffix_set(values).contains(s) implies s.len() > 0 && trim_ws(s) == s by {
        let i = choose|i: int| 0 <= i < values.len() && trim_ws(#[trigger] values[i]) == s;
        lemma_trim_ws_idempotent(values[i]);
    }
    assert forall|s: Seq<char>| suffix_set(normalized).contains(s) <==> suffix_set(values).contains(
        s,
    ) by {
        if suffix_set(normalized).contains(s) {
            let i = choose|i: int| 0 <= i < normalized.len() && trim_ws(#[trigger] normalized[i]) == s;
            assert(normalized.to_set().contains(normalized[i]));
            lemma_trim_ws_idempotent(normalized[i]);
            let j = choose|j: int| 0 <= j < values.len() && trim_ws(#[trigger] values[j]) == normalized[i];
            lemma_trim_ws_idempotent(values[j]);
        }
        if suffix_set(values).contains(s) {
            let j = choose|j: int| 0 <= j < values.len() && trim_ws(#[trigger] values[j]) == s;
            lemma_trim_ws_idempotent(values[j]);
            assert(normalized.to_set().contains(s));
            let i = choose|i: int| 0 <= i < normalized.len() && normalized[i] == s;
            assert(trim_ws(normalized[i]) == s);
        }
    }
    assert(suffix_set(normalized) =~= suffix_set(values));
}

} // verus!
