use vstd::prelude::*;

use crate::text::{trim, trimmed};

verus! {

/// The reply of a one-shot chat command line tool.
#[derive(Clone, Debug)]
pub struct GeminiCliResponse {
    pub content: String,
}

/// The model names in `items[..n]`, trimmed, blank ones dropped and each
/// kept once, where it first occurs.
pub open spec fn unique_models(items: Seq<Seq<char>>, n: int) -> Seq<Seq<char>>
    decreases n,
{
    if n <= 0 || n > items.len() {
        Seq::empty()
    } else {
        let prev = unique_models(items, n - 1);
        let t = trimmed(items[n - 1]);
        if t.len() == 0 || prev.contains(t) {
            prev
        } else {
            prev.push(t)
        }
    }
}

/// Trims the model names, drops the blank ones and keeps the first copy of each.
pub fn collect_unique_models(items: Vec<String>) -> (r: Vec<String>)
    ensures
        r@.map_values(|s: String| s@) == unique_models(items@.map_values(|s: String| s@), items@.len() as int),
{
    let ghost view = items@.map_values(|s: String| s@);
    let mut models: Vec<String> = Vec::new();
    let mut i: usize = 0;
    while i < items.len()
        invariant
            i <= items@.len(),
            view == items@.map_values(|s: String| s@),
            models@.map_values(|s: String| s@) == unique_models(view, i as int),
        decreases items@.len() - i,
    {
        let t = trim(items[i].as_str());
        assert(view[i as int] == items@[i as int]@);
        let ghost seen = models@.map_values(|s: String| s@);
        let mut found = false;
        let mut k: usize = 0;
        while k < models.len()
            invariant
                k <= models@.len(),
                seen == models@.map_values(|s: String| s@),
                found == (exists|j: int| 0 <= j < k && seen[j] == t@),
            decreases models@.len() - k,
        {
            if models[k] == t {
                assert(seen[k as int] == t@);
                found = true;
            }
            k = k + 1;
        }
        assert(found == seen.contains(t@));
        if t.unicode_len() > 0 && !found {
            models.push(t);
            assert(models@.map_values(|s: String| s@) =~= seen.push(trimmed(view[i as int])));
        }
        i = i + 1;
    }
    models
}

} // verus!

verus! {

/// The collected model names are all non-blank and none appears twice.
pub proof fn lemma_unique_models_distinct(items: Seq<Seq<char>>, n: int)
    ensures
        unique_models(items, n).no_duplicates(),
        forall|i: int| 0 <= i < unique_models(items, n).len() ==> #[trigger] unique_models(items, n)[i].len() > 0,
    decreases n,
{
    if n > 0 && n <= items.len() {
        lemma_unique_models_distinct(items, n - 1);
        let prev = unique_models(items, n - 1);
        let t = trimmed(items[n - 1]);
        if !(t.len() == 0 || prev.contains(t)) {
            let cur = prev.push(t);
            assert forall|a: int, b: int| 0 <= a < cur.len() && 0 <= b < cur.len() && a != b implies cur[a] != cur[b] by {
                if a < prev.len() && b < prev.len() {
                } else if a == prev.len() {
                    assert(!prev.contains(t));
                    assert(cur[b] == prev[b]);
                } else {
                    assert(!prev.contains(t));
                    assert(cur[a] == prev[a]);
                }
            }
            assert forall|i: int| 0 <= i < cur.len() implies #[trigger] cur[i].len() > 0 by {
                if i < prev.len() {
                    assert(cur[i] == prev[i]);
                }
            }
        }
    }
}

} // verus!
