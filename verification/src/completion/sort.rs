//! Stable ordering of completion entries by their lower-cased filter text.
use vstd::prelude::*;

use crate::completion::item::{CompletionEntry, EntryView};
use crate::text::{all_ascii, ascii_lowercase, chars_lt, chars_of, lemma_lex_asymmetric, lemma_lex_le_transitive, lemma_lex_total, lex_le, lex_lt, lowercase, to_lowercase};

verus! {

/// The key entries are ordered by: the lower-cased filter text (for
/// ASCII text, the text with `A`–`Z` mapped to `a`–`z`).
pub open spec fn sort_key(e: EntryView) -> Seq<char> {
    if all_ascii(e.filter_text) {
        ascii_lowercase(e.filter_text)
    } else {
        lowercase(e.filter_text)
    }
}

/// `p` lists each of `0..n` exactly once.
pub open spec fn is_index_permutation(p: Seq<int>, n: nat) -> bool {
    &&& p.len() == n
    &&& forall|i: int| 0 <= i < n ==> 0 <= #[trigger] p[i] < n
    &&& forall|i: int, j: int| 0 <= i < j < n ==> #[trigger] p[i] != #[trigger] p[j]
}

/// `out` holds the entries of `inp` rearranged by `p` (`out[i]` is
/// `inp[p[i]]`), in non-decreasing key order, with entries of equal key
/// in their input order.
pub open spec fn stably_sorted_by(out: Seq<EntryView>, inp: Seq<EntryView>, p: Seq<int>) -> bool {
    &&& out.len() == inp.len()
    &&& is_index_permutation(p, inp.len())
    &&& forall|i: int| 0 <= i < out.len() ==> #[trigger] out[i] == inp[p[i]]
    &&& forall|i: int, j: int|
        0 <= i < j < out.len() ==> lex_le(sort_key(#[trigger] out[i]), sort_key(#[trigger] out[j]))
    &&& forall|i: int, j: int|
        0 <= i < j < out.len() && sort_key(#[trigger] out[i]) == sort_key(#[trigger] out[j]) ==> p[i] < p[j]
}

/// `out` is a stable sort of `inp` by lower-cased filter text.
pub open spec fn is_stable_sort(out: Seq<EntryView>, inp: Seq<EntryView>) -> bool {
    exists|p: Seq<int>| stably_sorted_by(out, inp, p)
}

/// Every entry of the input appears in a stable sort of it.
pub proof fn lemma_stable_sort_keeps_all(out: Seq<EntryView>, inp: Seq<EntryView>, j: int)
    requires
        is_stable_sort(out, inp),
        0 <= j < inp.len(),
    ensures
        exists|i: int| 0 <= i < out.len() && out[i] == inp[j],
{
    broadcast use vstd::seq_lib::seq_to_set_is_finite;

    let p = choose|p: Seq<int>| stably_sorted_by(out, inp, p);
    let n = inp.len() as int;
    assert(p.no_duplicates()) by {
        assert forall|a: int, b: int| 0 <= a < p.len() && 0 <= b < p.len() && a != b implies p[a] != p[b] by {
            if a < b {
                assert(p[a] != p[b]);
            } else {
                assert(p[b] != p[a]);
            }
        }
    }
    p.unique_seq_to_set();
    vstd::set_lib::lemma_int_range(0, n);
    assert(p.to_set().subset_of(vstd::set_lib::set_int_range(0, n))) by {
        assert forall|x: int| p.to_set().contains(x) implies vstd::set_lib::set_int_range(0, n).contains(x) by {
            let i = choose|i: int| 0 <= i < p.len() && p[i] == x;
            assert(0 <= p[i] < n);
        }
    }
    vstd::set_lib::lemma_subset_equality(p.to_set(), vstd::set_lib::set_int_range(0, n));
    assert(vstd::set_lib::set_int_range(0, n).contains(j));
    assert(p.to_set().contains(j));
    let i = choose|i: int| 0 <= i < p.len() && p[i] == j;
    assert(out[i] == inp[p[i]]);
}

/// The views of a vector of entries.
pub open spec fn views(v: Seq<CompletionEntry>) -> Seq<EntryView> {
    v.map_values(|e: CompletionEntry| e@)
}

/// The views of a vector of keys.
pub open spec fn key_views(keys: Seq<Vec<char>>) -> Seq<Seq<char>> {
    keys.map_values(|k: Vec<char>| k@)
}

/// `out` holds the entries of `inp` rearranged by `p` (`out[i]` is
/// `inp[p[i]]`), where `keys[j]` is the key of `inp[j]`: keys in
/// non-decreasing order, entries of equal key in their input order.
pub open spec fn stably_sorted_by_keys(
    out: Seq<EntryView>,
    inp: Seq<EntryView>,
    keys: Seq<Seq<char>>,
    p: Seq<int>,
) -> bool {
    &&& out.len() == inp.len()
    &&& keys.len() == inp.len()
    &&& is_index_permutation(p, inp.len())
    &&& forall|i: int| 0 <= i < out.len() ==> #[trigger] out[i] == inp[p[i]]
    &&& forall|i: int, j: int|
        0 <= i < j < out.len() ==> lex_le(keys[#[trigger] p[i]], keys[#[trigger] p[j]])
    &&& forall|i: int, j: int|
        0 <= i < j < out.len() && keys[#[trigger] p[i]] == keys[#[trigger] p[j]] ==> p[i] < p[j]
}

/// `out` is a stable sort of `inp` by the given keys.
pub open spec fn is_stable_sort_by_keys(out: Seq<EntryView>, inp: Seq<EntryView>, keys: Seq<Seq<char>>) -> bool {
    exists|p: Seq<int>| stably_sorted_by_keys(out, inp, keys, p)
}

/// Sorts entries stably by the given keys (`keys[j]` belongs to
/// `entries[j]`), comparing keys lexicographically.
pub fn sort_by_keys(keys: Vec<Vec<char>>, entries: Vec<CompletionEntry>) -> (out: Vec<CompletionEntry>)
    requires
        keys@.len() == entries@.len(),
    ensures
        is_stable_sort_by_keys(views(out@), views(entries@), key_views(keys@)),
{
    let ghost inp = views(entries@);
    let ghost kv = key_views(keys@);
    let mut rest = entries;
    let mut rest_keys = keys;
    let mut out: Vec<(Vec<char>, CompletionEntry)> = Vec::new();
    let ghost mut p: Seq<int> = Seq::empty();
    let n = rest.len();
    let mut k: usize = 0;
    while k < n
        invariant
            n == inp.len(),
            n == kv.len(),
            k <= n,
            views(rest@) == inp.skip(k as int),
            key_views(rest_keys@) == kv.skip(k as int),
            rest@.len() == n - k,
            rest_keys@.len() == n - k,
            out@.len() == k,
            p.len() == k,
            forall|i: int| 0 <= i < k ==> 0 <= #[trigger] p[i] < k,
            forall|i: int, j: int| 0 <= i < j < k ==> #[trigger] p[i] != #[trigger] p[j],
            forall|i: int| 0 <= i < k ==> (#[trigger] out@[i]).1@ == inp[p[i]],
            forall|i: int| 0 <= i < k ==> (#[trigger] out@[i]).0@ == kv[p[i]],
            forall|i: int, j: int|
                0 <= i < j < k ==> lex_le((#[trigger] out@[i]).0@, (#[trigger] out@[j]).0@),
            forall|i: int, j: int|
                0 <= i < j < k && (#[trigger] out@[i]).0@ == (#[trigger] out@[j]).0@ ==> p[i] < p[j],
        decreases n - k,
    {
        proof {
            assert(views(rest@)[0] == inp[k as int]);
            assert(key_views(rest_keys@)[0] == kv[k as int]);
        }
        let ghost old_rest = rest@;
        let ghost old_rest_keys = rest_keys@;
        let e = rest.remove(0);
        let key = rest_keys.remove(0);
        proof {
            assert forall|t: int| 0 <= t < rest@.len() implies #[trigger] views(rest@)[t] == inp.skip(k + 1)[t] by {
                assert(rest@[t] == old_rest[t + 1]);
                assert(views(old_rest)[t + 1] == inp.skip(k as int)[t + 1]);
            }
            assert(views(rest@) =~= inp.skip(k + 1));
            assert forall|t: int| 0 <= t < rest_keys@.len() implies #[trigger] key_views(rest_keys@)[t] == kv.skip(k + 1)[t] by {
                assert(rest_keys@[t] == old_rest_keys[t + 1]);
                assert(key_views(old_rest_keys)[t + 1] == kv.skip(k as int)[t + 1]);
            }
            assert(key_views(rest_keys@) =~= kv.skip(k + 1));
        }
        assert(key@ == kv[k as int]);
        let mut j = out.len();
        while j > 0 && chars_lt(&key, &out[j - 1].0)
            invariant
                j <= out@.len(),
                out@.len() == k,
                forall|t: int| j <= t < k ==> lex_lt(key@, (#[trigger] out@[t]).0@),
            decreases j,
        {
            j = j - 1;
        }
        proof {
            if j > 0 {
                lemma_lex_total(key@, out@[j - 1].0@);
                assert(lex_le(out@[j - 1].0@, key@));
                assert forall|t: int| 0 <= t < j implies lex_le((#[trigger] out@[t]).0@, key@) by {
                    if t < j - 1 {
                        lemma_lex_le_transitive(out@[t].0@, out@[j - 1].0@, key@);
                    }
                }
            }
            assert forall|t: int| j <= t < k implies key@ != (#[trigger] out@[t]).0@ by {
                lemma_lex_asymmetric(key@, out@[t].0@);
            }
        }
        let ghost old_out = out@;
        let ghost old_p = p;
        out.insert(j, (key, e));
        proof {
            p = p.insert(j as int, k as int);
            assert forall|i: int, i2: int| 0 <= i < i2 < k + 1 implies lex_le(
                (#[trigger] out@[i]).0@,
                (#[trigger] out@[i2]).0@,
            ) by {
                if i < j && i2 == j {
                } else if i < j && i2 > j {
                    assert(out@[i2] == old_out[i2 - 1]);
                    assert(lex_le(old_out[i].0@, key@));
                    assert(lex_lt(key@, old_out[i2 - 1].0@));
                    lemma_lex_le_transitive(old_out[i].0@, key@, old_out[i2 - 1].0@);
                } else if i == j {
                    assert(out@[i2] == old_out[i2 - 1]);
                } else if i < j {
                    assert(out@[i] == old_out[i]);
                    assert(out@[i2] == old_out[i2]);
                } else {
                    assert(out@[i] == old_out[i - 1]);
                    assert(out@[i2] == old_out[i2 - 1]);
                }
            }
            assert forall|i: int, i2: int|
                0 <= i < i2 < k + 1 && (#[trigger] out@[i]).0@ == (#[trigger] out@[i2]).0@ implies p[i] < p[i2] by {
                if i < j && i2 == j {
                } else if i < j && i2 > j {
                    assert(out@[i2] == old_out[i2 - 1]);
                    assert(lex_le(old_out[i].0@, key@));
                    assert(lex_lt(key@, old_out[i2 - 1].0@));
                    lemma_lex_asymmetric(key@, old_out[i2 - 1].0@);
                    if old_out[i].0@ != key@ {
                        lemma_lex_asymmetric(old_out[i].0@, key@);
                    }
                } else if i == j {
                    assert(out@[i2] == old_out[i2 - 1]);
                } else if i < j {
                    assert(out@[i] == old_out[i]);
                    assert(out@[i2] == old_out[i2]);
                } else {
                    assert(out@[i] == old_out[i - 1]);
                    assert(out@[i2] == old_out[i2 - 1]);
                }
            }
            assert forall|i: int| 0 <= i < k + 1 implies 0 <= #[trigger] p[i] < k + 1 by {
                if i < j {
                    assert(p[i] == old_p[i]);
                } else if i > j {
                    assert(p[i] == old_p[i - 1]);
                }
            }
            assert forall|i: int, i2: int| 0 <= i < i2 < k + 1 implies #[trigger] p[i] != #[trigger] p[i2] by {
                if i < j && i2 > j {
                    assert(p[i] == old_p[i]);
                    assert(p[i2] == old_p[i2 - 1]);
                } else if i > j {
                    assert(p[i] == old_p[i - 1]);
                    assert(p[i2] == old_p[i2 - 1]);
                } else if i2 < j {
                    assert(p[i] == old_p[i]);
                    assert(p[i2] == old_p[i2]);
                } else if i == j {
                    assert(p[i2] == old_p[i2 - 1]);
                } else {
                    assert(p[i] == old_p[i]);
                }
            }
            assert forall|i: int| 0 <= i < k + 1 implies (#[trigger] out@[i]).1@ == inp[p[i]] by {
                if i < j {
                    assert(out@[i] == old_out[i]);
                    assert(p[i] == old_p[i]);
                } else if i > j {
                    assert(out@[i] == old_out[i - 1]);
                    assert(p[i] == old_p[i - 1]);
                }
            }
            assert forall|i: int| 0 <= i < k + 1 implies (#[trigger] out@[i]).0@ == kv[p[i]] by {
                if i < j {
                    assert(out@[i] == old_out[i]);
                    assert(p[i] == old_p[i]);
                } else if i > j {
                    assert(out@[i] == old_out[i - 1]);
                    assert(p[i] == old_p[i - 1]);
                }
            }
        }
        k = k + 1;
    }
    // Drop the keys.
    let mut result: Vec<CompletionEntry> = Vec::new();
    let mut pairs = out;
    let ghost sorted = pairs@;
    let mut i: usize = 0;
    while i < n
        invariant
            n == sorted.len(),
            i <= n,
            pairs@ == sorted.skip(i as int),
            result@.len() == i,
            forall|t: int| 0 <= t < i ==> (#[trigger] result@[t])@ == sorted[t].1@,
        decreases n - i,
    {
        let (_, e) = pairs.remove(0);
        result.push(e);
        proof {
            assert(pairs@ =~= sorted.skip(i + 1));
        }
        i = i + 1;
    }
    proof {
        let outv = views(result@);
        assert forall|i2: int| 0 <= i2 < n implies #[trigger] outv[i2] == inp[p[i2]] by {
            assert(outv[i2] == result@[i2]@);
        }
        assert forall|a: int, b: int| 0 <= a < b < n implies lex_le(kv[#[trigger] p[a]], kv[#[trigger] p[b]]) by {
            assert(sorted[a].0@ == kv[p[a]]);
            assert(sorted[b].0@ == kv[p[b]]);
        }
        assert forall|a: int, b: int| 0 <= a < b < n && kv[#[trigger] p[a]] == kv[#[trigger] p[b]] implies p[a] < p[b] by {
            assert(sorted[a].0@ == kv[p[a]]);
            assert(sorted[b].0@ == kv[p[b]]);
        }
        assert(stably_sorted_by_keys(outv, inp, kv, p));
    }
    result
}

/// Sorts entries stably by their lower-cased filter text (the order of
/// `sort_by` on `filter_text.to_lowercase()`).
pub fn sort_entries(entries: Vec<CompletionEntry>) -> (out: Vec<CompletionEntry>)
    ensures
        is_stable_sort(views(out@), views(entries@)),
{
    let ghost inp = views(entries@);
    let mut keys: Vec<Vec<char>> = Vec::new();
    let n = entries.len();
    for i in 0..n
        invariant
            n == entries@.len(),
            inp == views(entries@),
            keys@.len() == i,
            forall|j: int| 0 <= j < i ==> #[trigger] key_views(keys@)[j] == sort_key(inp[j]),
    {
        let lower = to_lowercase(entries[i].filter_text.as_str());
        let ghost old_keys = keys@;
        keys.push(chars_of(lower.as_str()));
        proof {
            assert(inp[i as int] == entries@[i as int]@);
            assert forall|j: int| 0 <= j < i + 1 implies #[trigger] key_views(keys@)[j] == sort_key(inp[j]) by {
                assert(key_views(keys@)[j] == keys@[j]@);
                if j < i {
                    assert(keys@[j] == old_keys[j]);
                    assert(key_views(old_keys)[j] == old_keys[j]@);
                }
            }
        }
    }
    let out = sort_by_keys(keys, entries);
    proof {
        let kv = key_views(keys@);
        let outv = views(out@);
        let p = choose|p: Seq<int>| stably_sorted_by_keys(outv, inp, kv, p);
        assert forall|i: int| 0 <= i < outv.len() implies kv[p[i]] == sort_key(#[trigger] outv[i]) by {
            assert(outv[i] == inp[p[i]]);
        }
        assert forall|a: int, b: int|
            0 <= a < b < outv.len() implies lex_le(sort_key(#[trigger] outv[a]), sort_key(#[trigger] outv[b])) by {
            assert(kv[p[a]] == sort_key(outv[a]));
            assert(kv[p[b]] == sort_key(outv[b]));
        }
        assert forall|a: int, b: int|
            0 <= a < b < outv.len() && sort_key(#[trigger] outv[a]) == sort_key(#[trigger] outv[b]) implies p[a] < p[b] by {
            assert(kv[p[a]] == sort_key(outv[a]));
            assert(kv[p[b]] == sort_key(outv[b]));
        }
        assert(stably_sorted_by(outv, inp, p));
    }
    out
}

} // verus!
