//! A sample completer and the entry function that feeds its candidates to the
//! editor through the cache.

use crate::cache::get_compentry;
use crate::cache::set_compentries;
use crate::cache::CacheView;
use crate::cache::CandidateCache;
use vstd::prelude::*;
use vstd::string::StringExecFns;

verus! {

/// The candidates offered for `text`: `text` followed by `s`, then `text`
/// followed by `zz`.
pub open spec fn completions(text: Seq<char>) -> Seq<Seq<char>> {
    seq![text.push('s'), text.push('z').push('z')]
}

/// Offers two ways to go on from `text`.
pub fn complete(text: String) -> (entries: Vec<String>)
    ensures
        entries.deep_view() == completions(text@),
{
    proof {
        reveal_strlit("s");
        reveal_strlit("zz");
    }
    let mut entries: Vec<String> = Vec::new();
    entries.push(text.clone().concat("s"));
    entries.push(text.concat("zz"));
    assert(entries@[0]@ =~= completions(text@)[0]);
    assert(entries@[1]@ =~= completions(text@)[1]);
    assert(entries.deep_view() =~= completions(text@));
    entries
}

/// The cache on which call number `state` of a request for `text` reads: a
/// first call fills it with the completions of `text`, a later one finds it
/// as it is.
pub open spec fn request_cache(cache: CacheView, text: Seq<char>, state: int) -> CacheView {
    if state == 0 {
        cache.populate(completions(text))
    } else {
        cache
    }
}

/// One call of the editor's entry protocol: call 0 of a request computes the
/// candidates for `text` and stores them, and every call hands out the
/// candidate whose index is `state`, or no value once they are used up. A
/// negative `state` is past every candidate.
pub fn rl_compentry_func(cache: &mut CandidateCache, text: &str, state: i32) -> (entry: Option<String>)
    ensures
        entry.deep_view() == request_cache(old(cache)@, text@, state as int).entry(state as int),
        final(cache)@ == request_cache(old(cache)@, text@, state as int).after_read(state as int),
        final(cache)@.wf(),
{
    if state == 0 {
        let entries = complete(text.to_owned());
        set_compentries(cache, entries);
    }
    if state < 0 {
        proof {
            cache.lemma_view_fits();
        }
        get_compentry(cache, usize::MAX)
    } else {
        get_compentry(cache, state as usize)
    }
}

} // verus!
