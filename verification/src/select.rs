use vstd::prelude::*;
use rand::Rng;

use crate::enumerate::{candidates_of, lemma_candidates_distinct, pairwise_distinct, Entry};
use crate::error::Error;
use crate::matching::{lemma_matched_distinct, matched};

verus! {

/// Relies on rand::Rng::random_range over `0..n`: the draw lies in that
/// range, which is nonempty. Nothing more is assumed of a random draw.
#[verifier::external_body]
fn rand_below(n: usize) -> (r: usize)
    requires
        0 < n,
    ensures
        r < n,
{
    rand::rng().random_range(0..n)
}

/// Whether the listing offers an alternative to the previously active name:
/// it holds some name that differs from it. With no previous name, any
/// choice is an alternative.
pub open spec fn can_avoid(names: Seq<Seq<char>>, previous: Option<Seq<char>>) -> bool {
    match previous {
        None => true,
        Some(p) => exists|j: int| 0 <= j < names.len() && names[j] != p,
    }
}

/// A listing that holds no name twice and more than one name always offers
/// an alternative, whatever the previous name is.
pub proof fn lemma_distinct_offers_alternative(
    names: Seq<Seq<char>>,
    previous: Option<Seq<char>>,
)
    requires
        pairwise_distinct(names),
        names.len() > 1,
    ensures
        can_avoid(names, previous),
{
    if let Some(p) = previous {
        if names[0] != p {
            assert(0 <= 0 < names.len() && names[0] != p);
        } else {
            assert(names[1] != names[0]);
            assert(0 <= 1 < names.len() && names[1] != p);
        }
    }
}

/// The anti-repeat law: an enumeration never yields a name twice, and a
/// pattern filter keeps that, so whenever the match set of an enumeration
/// holds more than one name, [`select`]'s pledge applies and the previous
/// name — whichever it is — is never returned.
pub proof fn lemma_anti_repeat(entries: Seq<Entry>, re: regex::Regex, previous: Option<Seq<char>>)
    requires
        matched(candidates_of(entries), re).len() > 1,
    ensures
        can_avoid(matched(candidates_of(entries), re), previous),
{
    lemma_candidates_distinct(entries);
    lemma_matched_distinct(candidates_of(entries), re);
    lemma_distinct_offers_alternative(matched(candidates_of(entries), re), previous);
}

/// Picks one matching name at random, avoiding an immediate repeat.
///
/// An empty listing yields nothing. A single match is returned even when it
/// equals the previous name: with no alternative, the anti-repeat rule is
/// waived. Otherwise the draw is made among the names that differ from the
/// previous one, so the previous name is never repeated while an
/// alternative exists — and a listing that holds no name twice, as every
/// enumeration's does, always offers one.
pub fn select(matches: &Vec<String>, previous: &Option<String>) -> (r: Option<String>)
    ensures
        r is Some <==> matches@.len() > 0,
        matches@.len() == 1 ==> (r matches Some(c) && c@ == matches.deep_view()[0]),
        r matches Some(c) ==> matches.deep_view().contains(c@),
        matches@.len() > 1 && can_avoid(matches.deep_view(), previous.deep_view()) ==> (
        r matches Some(c) && Some(c@) != previous.deep_view()),
        matches@.len() > 1 && pairwise_distinct(matches.deep_view()) ==> (r matches Some(c)
            && Some(c@) != previous.deep_view()),
{
    proof {
        if matches@.len() > 1 && pairwise_distinct(matches.deep_view()) {
            lemma_distinct_offers_alternative(matches.deep_view(), previous.deep_view());
        }
    }
    if matches.len() == 0 {
        return None;
    }
    if matches.len() == 1 {
        let c = matches[0].clone();
        proof {
            assert(matches.deep_view()[0] == c@);
        }
        return Some(c);
    }
    match previous {
        None => {
            let i = rand_below(matches.len());
            let c = matches[i].clone();
            proof {
                assert(matches.deep_view()[i as int] == c@);
            }
            Some(c)
        },
        Some(p) => {
            let mut others: Vec<usize> = Vec::new();
            let mut i: usize = 0;
            while i < matches.len()
                invariant
                    i <= matches@.len(),
                    forall|k: int|
                        0 <= k < others@.len() ==> others@[k] < matches@.len()
                            && matches.deep_view()[others@[k] as int] != p@,
                    forall|j: int|
                        0 <= j < i && matches.deep_view()[j] != p@ ==> others@.contains(j as usize),
                decreases matches@.len() - i,
            {
                let cand = &matches[i];
                if !cand.eq(p) {
                    let ghost before = others@;
                    others.push(i);
                    proof {
                        assert(matches.deep_view()[i as int] == cand@);
                        assert forall|j: int|
                            0 <= j < i + 1 && matches.deep_view()[j] != p@ implies others@.contains(
                            j as usize,
                        ) by {
                            if j < i {
                                assert(before.contains(j as usize));
                                let k = choose|k: int|
                                    0 <= k < before.len() && before[k] == j as usize;
                                assert(others@[k] == j as usize);
                            } else {
                                assert(others@[others@.len() - 1] == j as usize);
                            }
                        }
                    }
                } else {
                    proof {
                        assert(matches.deep_view()[i as int] == cand@);
                    }
                }
                i = i + 1;
            }
            if others.len() == 0 {
                // Every name equals the previous one, so there is nothing to
                // avoid; names are unique in a real listing, so this arises
                // only for a degenerate listing of repeats.
                proof {
                    if can_avoid(matches.deep_view(), previous.deep_view()) {
                        let j = choose|j: int|
                            0 <= j < matches.deep_view().len() && matches.deep_view()[j] != p@;
                        assert(others@.contains(j as usize));
                    }
                }
                let i = rand_below(matches.len());
                let c = matches[i].clone();
                proof {
                    assert(matches.deep_view()[i as int] == c@);
                }
                Some(c)
            } else {
                let k = rand_below(others.len());
                let idx = others[k];
                let c = matches[idx].clone();
                proof {
                    assert(matches.deep_view()[idx as int] == c@);
                }
                Some(c)
            }
        },
    }
}

/// Chooses the configuration to activate, or reports that the pattern
/// matched nothing: the error of an empty listing carries the pattern, and
/// a nonempty listing always yields a choice, made as [`select`] says.
pub fn choose_config(matches: &Vec<String>, previous: &Option<String>, pattern: regex::Regex) -> (r:
    Result<String, Error>)
    ensures
        matches@.len() == 0 <==> (r matches Err(e) && e matches Error::NoMatch { regex }
            && regex == pattern),
        matches@.len() > 0 ==> r is Ok,
        r matches Ok(c) ==> matches.deep_view().contains(c@),
        matches@.len() == 1 ==> (r matches Ok(c) && c@ == matches.deep_view()[0]),
        matches@.len() > 1 && can_avoid(matches.deep_view(), previous.deep_view()) ==> (
        r matches Ok(c) && Some(c@) != previous.deep_view()),
{
    match select(matches, previous) {
        Some(conf) => Ok(conf),
        None => Err(Error::NoMatch { regex: pattern }),
    }
}

} // verus!
