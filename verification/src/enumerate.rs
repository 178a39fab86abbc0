use vstd::prelude::*;
use vstd::string::{StrSliceExecFns, StringExecFns};

verus! {

/// One directory entry as the surrounding code hands it over: the entry's
/// file name decoded to text, and whether the entry is a regular file.
pub struct Entry {
    pub name: String,
    pub is_file: bool,
}

/// The position of the last `'.'` in `name`, or `-1` when it has none.
pub open spec fn last_dot(name: Seq<char>) -> int
    decreases name.len(),
{
    if name.len() == 0 {
        -1
    } else if name.last() == '.' {
        name.len() - 1
    } else {
        last_dot(name.drop_last())
    }
}

/// A file name with its extension stripped: everything before the last
/// `'.'`. A name with no `'.'`, or whose only `'.'` leads (a hidden file),
/// is its own stem.
pub open spec fn stem_of(name: Seq<char>) -> Seq<char> {
    let k = last_dot(name);
    if k <= 0 {
        name
    } else {
        name.subrange(0, k)
    }
}

/// Whether a derived name still ends in the configuration suffix `.conf`.
pub open spec fn has_conf_suffix(name: Seq<char>) -> bool {
    name.len() >= 5 && name.subrange(name.len() - 5, name.len() as int) == ".conf"@
}

/// Whether a directory entry counts as a candidate configuration: it is a
/// regular file, or its derived name still ends in `.conf`.
pub open spec fn is_candidate(name: Seq<char>, is_file: bool) -> bool {
    is_file || has_conf_suffix(stem_of(name))
}

/// Whether a listing holds no name twice.
pub open spec fn pairwise_distinct(names: Seq<Seq<char>>) -> bool {
    forall|i: int, j: int| 0 <= i < j < names.len() ==> names[i] != names[j]
}

/// Appending a name that is not yet listed keeps a listing free of repeats.
pub proof fn lemma_distinct_push(names: Seq<Seq<char>>, x: Seq<char>)
    requires
        pairwise_distinct(names),
        !names.contains(x),
    ensures
        pairwise_distinct(names.push(x)),
{
    let s = names.push(x);
    assert forall|i: int, j: int| 0 <= i < j < s.len() implies s[i] != s[j] by {
        if j < names.len() {
            assert(s[i] == names[i] && s[j] == names[j]);
        } else {
            assert(s[j] == x);
            assert(s[i] == names[i]);
            if names[i] == x {
                assert(names.contains(x));
            }
        }
    }
}

/// The candidate configuration names of a listing, in listing order: the
/// stem of every entry that satisfies [`is_candidate`], each stem listed
/// once — names are unique within a single enumeration, so a stem that was
/// already yielded is not yielded again.
pub open spec fn candidates_of(entries: Seq<Entry>) -> Seq<Seq<char>>
    decreases entries.len(),
{
    if entries.len() == 0 {
        Seq::empty()
    } else {
        let rest = candidates_of(entries.drop_last());
        let e = entries.last();
        if is_candidate(e.name@, e.is_file) && !rest.contains(stem_of(e.name@)) {
            rest.push(stem_of(e.name@))
        } else {
            rest
        }
    }
}

/// The uniqueness invariant of an enumeration: it never yields a name twice.
pub proof fn lemma_candidates_distinct(entries: Seq<Entry>)
    ensures
        pairwise_distinct(candidates_of(entries)),
    decreases entries.len(),
{
    if entries.len() > 0 {
        lemma_candidates_distinct(entries.drop_last());
        let rest = candidates_of(entries.drop_last());
        let e = entries.last();
        if is_candidate(e.name@, e.is_file) && !rest.contains(stem_of(e.name@)) {
            lemma_distinct_push(rest, stem_of(e.name@));
        }
    }
}

/// The position of the last `'.'` in `name`, scanned from the end.
fn find_last_dot(name: &str) -> (r: Option<usize>)
    ensures
        match r {
            Some(k) => last_dot(name@) == k && k < name@.len(),
            None => last_dot(name@) == -1,
        },
{
    let n = name.unicode_len();
    let mut i: usize = n;
    proof {
        assert(name@.subrange(0, n as int) =~= name@);
    }
    while i > 0
        invariant
            i <= n == name@.len(),
            last_dot(name@) == last_dot(name@.subrange(0, i as int)),
        decreases i,
    {
        let c = name.get_char(i - 1);
        if c == '.' {
            proof {
                assert(name@.subrange(0, i as int).last() == '.');
            }
            return Some(i - 1);
        }
        i = i - 1;
        proof {
            assert(name@.subrange(0, (i + 1) as int).drop_last() =~= name@.subrange(0, i as int));
        }
    }
    proof {
        assert(name@.subrange(0, 0) =~= Seq::<char>::empty());
    }
    None
}

/// The entry's base name with its extension stripped, as [`stem_of`] says.
pub fn file_stem(name: &str) -> (r: String)
    ensures
        r@ == stem_of(name@),
{
    match find_last_dot(name) {
        Some(k) => {
            if k == 0 {
                String::from_str(name)
            } else {
                String::from_str(name.substring_char(0, k))
            }
        },
        None => String::from_str(name),
    }
}

/// Whether `name` ends with the five characters `.conf`.
fn ends_with_conf(name: &str) -> (r: bool)
    ensures
        r == has_conf_suffix(name@),
{
    let n = name.unicode_len();
    if n < 5 {
        return false;
    }
    proof {
        reveal_strlit(".conf");
    }
    let r = name.get_char(n - 5) == '.' && name.get_char(n - 4) == 'c' && name.get_char(n - 3)
        == 'o' && name.get_char(n - 2) == 'n' && name.get_char(n - 1) == 'f';
    proof {
        if r {
            assert(name@.subrange(n - 5, n as int) =~= ".conf"@);
        } else {
            assert(name@.subrange(n - 5, n as int) != ".conf"@) by {
                if name@.subrange(n - 5, n as int) == ".conf"@ {
                    assert(name@[n - 5] == ".conf"@[0]);
                    assert(name@[n - 4] == ".conf"@[1]);
                    assert(name@[n - 3] == ".conf"@[2]);
                    assert(name@[n - 2] == ".conf"@[3]);
                    assert(name@[n - 1] == ".conf"@[4]);
                }
            }
        }
    }
    r
}

/// Whether the listing already holds this name.
fn contains_name(names: &Vec<String>, name: &String) -> (r: bool)
    ensures
        r == names.deep_view().contains(name@),
{
    let mut i: usize = 0;
    while i < names.len()
        invariant
            i <= names@.len(),
            forall|j: int| 0 <= j < i ==> names.deep_view()[j] != name@,
        decreases names@.len() - i,
    {
        if names[i].eq(name) {
            proof {
                assert(names.deep_view()[i as int] == name@);
            }
            return true;
        }
        i = i + 1;
    }
    false
}

/// Derives the candidate names of a directory listing, in listing order:
/// each entry's stem, kept exactly when the entry is a regular file or the
/// stem still ends in `.conf`, and kept only once — the yielded names are
/// pairwise distinct within one enumeration.
pub fn collect_candidates(entries: &Vec<Entry>) -> (r: Vec<String>)
    ensures
        r.deep_view() == candidates_of(entries@),
        pairwise_distinct(r.deep_view()),
{
    let mut out: Vec<String> = Vec::new();
    let mut i: usize = 0;
    while i < entries.len()
        invariant
            i <= entries@.len(),
            out.deep_view() == candidates_of(entries@.subrange(0, i as int)),
        decreases entries@.len() - i,
    {
        let e = &entries[i];
        let stem = file_stem(e.name.as_str());
        if (e.is_file || ends_with_conf(stem.as_str())) && !contains_name(&out, &stem) {
            let ghost before = out.deep_view();
            out.push(stem);
            proof {
                assert(out.deep_view() =~= before.push(stem_of(e.name@)));
            }
        }
        proof {
            assert(entries@.subrange(0, (i + 1) as int).drop_last() =~= entries@.subrange(
                0,
                i as int,
            ));
            assert(entries@.subrange(0, (i + 1) as int).last() == entries@[i as int]);
        }
        i = i + 1;
    }
    proof {
        assert(entries@.subrange(0, entries@.len() as int) =~= entries@);
        lemma_candidates_distinct(entries@);
    }
    out
}

} // verus!
