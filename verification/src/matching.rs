use vstd::prelude::*;
use vstd::string::StringExecFns;

use crate::enumerate::{candidates_of, lemma_distinct_push, pairwise_distinct, Entry};

verus! {

/// The verdict of a compiled pattern on a text: whether the pattern matches
/// somewhere in the text (search-anywhere, not anchored). The compiled
/// pattern and the text determine the verdict, so the verdict only carries
/// this name here, and every contract speaks of the name.
pub uninterp spec fn regex_accepts(re: regex::Regex, text: Seq<char>) -> bool;

/// Relies on regex::Regex::is_match: true if and only if the pattern
/// matches anywhere in `text`; the verdict is a function of the compiled
/// pattern and the text alone.
#[verifier::external_body]
fn is_match(re: &regex::Regex, text: &str) -> (r: bool)
    ensures
        r == regex_accepts(*re, text@),
{
    re.is_match(text)
}

/// The names of a listing that the pattern accepts, in listing order.
pub open spec fn matched(names: Seq<Seq<char>>, re: regex::Regex) -> Seq<Seq<char>>
    decreases names.len(),
{
    if names.len() == 0 {
        Seq::empty()
    } else {
        let rest = matched(names.drop_last(), re);
        if regex_accepts(re, names.last()) {
            rest.push(names.last())
        } else {
            rest
        }
    }
}

/// Keeps exactly the candidate names the pattern accepts, in their order;
/// a listing that holds no name twice is filtered into one that holds no
/// name twice either.
pub fn get_matches(candidates: &Vec<String>, regex: &regex::Regex) -> (r: Vec<String>)
    ensures
        r.deep_view() == matched(candidates.deep_view(), *regex),
        pairwise_distinct(candidates.deep_view()) ==> pairwise_distinct(r.deep_view()),
{
    let mut out: Vec<String> = Vec::new();
    let mut i: usize = 0;
    while i < candidates.len()
        invariant
            i <= candidates@.len(),
            out.deep_view() == matched(candidates.deep_view().subrange(0, i as int), *regex),
        decreases candidates@.len() - i,
    {
        let name = &candidates[i];
        if is_match(regex, name.as_str()) {
            let ghost before = out.deep_view();
            out.push(name.clone());
            proof {
                assert(out.deep_view() =~= before.push(candidates.deep_view()[i as int]));
            }
        }
        proof {
            assert(candidates.deep_view().subrange(0, (i + 1) as int).drop_last()
                =~= candidates.deep_view().subrange(0, i as int));
            assert(candidates.deep_view().subrange(0, (i + 1) as int).last()
                == candidates.deep_view()[i as int]);
        }
        i = i + 1;
    }
    proof {
        assert(candidates.deep_view().subrange(0, candidates@.len() as int)
            =~= candidates.deep_view());
        if pairwise_distinct(candidates.deep_view()) {
            lemma_matched_distinct(candidates.deep_view(), *regex);
        }
    }
    out
}

/// Filtering keeps a listing free of repeats: the accepted names of a
/// pairwise-distinct listing are pairwise distinct.
pub proof fn lemma_matched_distinct(names: Seq<Seq<char>>, re: regex::Regex)
    requires
        pairwise_distinct(names),
    ensures
        pairwise_distinct(matched(names, re)),
    decreases names.len(),
{
    if names.len() > 0 {
        let rest = names.drop_last();
        assert forall|i: int, j: int| 0 <= i < j < rest.len() implies rest[i] != rest[j] by {
            assert(rest[i] == names[i] && rest[j] == names[j]);
        }
        lemma_matched_distinct(rest, re);
        if regex_accepts(re, names.last()) {
            let x = names.last();
            assert(!matched(rest, re).contains(x)) by {
                if matched(rest, re).contains(x) {
                    lemma_matched_exact(rest, re, x);
                    let j = choose|j: int| 0 <= j < rest.len() && rest[j] == x;
                    assert(names[j] == names[names.len() - 1]);
                }
            }
            lemma_distinct_push(matched(rest, re), x);
        }
    }
}

/// A name is among the accepted ones exactly when it is in the listing and
/// the pattern accepts it: filtering neither invents nor loses a name.
pub proof fn lemma_matched_exact(names: Seq<Seq<char>>, re: regex::Regex, x: Seq<char>)
    ensures
        matched(names, re).contains(x) <==> (names.contains(x) && regex_accepts(re, x)),
    decreases names.len(),
{
    if names.len() == 0 {
    } else {
        let rest = names.drop_last();
        lemma_matched_exact(rest, re, x);
        assert(names.contains(x) <==> (rest.contains(x) || names.last() == x)) by {
            if names.contains(x) {
                let j = choose|j: int| 0 <= j < names.len() && names[j] == x;
                if j < rest.len() {
                    assert(rest[j] == x);
                }
            }
            if rest.contains(x) {
                let j = choose|j: int| 0 <= j < rest.len() && rest[j] == x;
                assert(names[j] == x);
            }
            if names.last() == x {
                assert(names[names.len() - 1] == x);
            }
        }
        if regex_accepts(re, names.last()) {
            let m = matched(rest, re);
            assert(matched(names, re) == m.push(names.last()));
            assert(matched(names, re).contains(x) <==> (m.contains(x) || names.last() == x)) by {
                if matched(names, re).contains(x) {
                    let j = choose|j: int|
                        0 <= j < matched(names, re).len() && matched(names, re)[j] == x;
                    if j < m.len() {
                        assert(m[j] == x);
                    }
                }
                if m.contains(x) {
                    let j = choose|j: int| 0 <= j < m.len() && m[j] == x;
                    assert(m.push(names.last())[j] == x);
                }
                if names.last() == x {
                    assert(m.push(names.last())[m.len() as int] == x);
                }
            }
        }
    }
}

/// Matching an enumeration keeps exactly the candidate names of the listing
/// that the pattern accepts, and excludes every other name.
pub proof fn lemma_match_enumeration(entries: Seq<Entry>, re: regex::Regex, x: Seq<char>)
    ensures
        matched(candidates_of(entries), re).contains(x) <==> (candidates_of(entries).contains(x)
            && regex_accepts(re, x)),
{
    lemma_matched_exact(candidates_of(entries), re, x);
}

/// The listing as it is printed: every name on a line of its own.
pub open spec fn listed(names: Seq<Seq<char>>) -> Seq<char>
    decreases names.len(),
{
    if names.len() == 0 {
        Seq::empty()
    } else {
        listed(names.drop_last()) + names.last() + "\n"@
    }
}

/// Renders the matching names for output, one per line.
pub fn list_output(names: &Vec<String>) -> (r: String)
    ensures
        r@ == listed(names.deep_view()),
{
    let mut out = String::new();
    let mut i: usize = 0;
    while i < names.len()
        invariant
            i <= names@.len(),
            out@ == listed(names.deep_view().subrange(0, i as int)),
        decreases names@.len() - i,
    {
        out.append(names[i].as_str());
        out.append("\n");
        proof {
            assert(names.deep_view().subrange(0, (i + 1) as int).drop_last()
                =~= names.deep_view().subrange(0, i as int));
            assert(names.deep_view().subrange(0, (i + 1) as int).last()
                == names.deep_view()[i as int]);
            assert(out@ =~= listed(names.deep_view().subrange(0, i as int))
                + names.deep_view()[i as int] + "\n"@);
        }
        i = i + 1;
    }
    proof {
        assert(names.deep_view().subrange(0, names@.len() as int) =~= names.deep_view());
    }
    out
}

} // verus!
