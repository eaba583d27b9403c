use vstd::prelude::*;
use vstd::utf8::encode_utf8;

verus! {

/// Whether `needle` occurs as a contiguous run of bytes in `hay`.
pub open spec fn contains_bytes(hay: Seq<u8>, needle: Seq<u8>) -> bool {
    exists|i: int|
        0 <= i <= hay.len() - needle.len() && #[trigger] hay.subrange(i, i + needle.len())
            == needle
}

/// Whether an advertised name is present and contains the target text,
/// case-sensitively.
pub open spec fn name_matches(name: Option<String>, needle: Seq<char>) -> bool {
    match name {
        Some(n) => contains_bytes(encode_utf8(n@), encode_utf8(needle)),
        None => false,
    }
}

/// The position of the first advertised name that matches.
pub open spec fn first_match(names: Seq<Option<String>>, needle: Seq<char>) -> Option<int>
    decreases names.len(),
{
    if names.len() == 0 {
        None
    } else {
        match first_match(names.drop_last(), needle) {
            Some(i) => Some(i),
            None => if name_matches(names.last(), needle) {
                Some(names.len() - 1)
            } else {
                None
            },
        }
    }
}

fn bytes_at(hay: &[u8], needle: &[u8], at: usize) -> (r: bool)
    requires
        at + needle@.len() <= hay@.len() <= usize::MAX,
    ensures
        r == (hay@.subrange(at as int, at + needle@.len()) == needle@),
{
    let mut j: usize = 0;
    while j < needle.len()
        invariant
            at + needle@.len() <= hay@.len() <= usize::MAX,
            j <= needle@.len(),
            forall|k: int| 0 <= k < j ==> hay@[at + k] == needle@[k],
        decreases needle.len() - j,
    {
        if hay[at + j] != needle[j] {
            assert(hay@.subrange(at as int, at + needle@.len())[j as int] != needle@[j as int]);
            return false;
        }
        j = j + 1;
    }
    assert(hay@.subrange(at as int, at + needle@.len()) == needle@);
    true
}

/// Case-sensitive substring test.
pub fn contains(hay: &str, needle: &str) -> (r: bool)
    ensures
        r == contains_bytes(encode_utf8(hay@), encode_utf8(needle@)),
{
    let h = hay.as_bytes();
    let n = needle.as_bytes();
    if n.len() > h.len() {
        return false;
    }
    let last = h.len() - n.len();
    let mut i: usize = 0;
    loop
        invariant
            h@ == encode_utf8(hay@),
            n@ == encode_utf8(needle@),
            h@.len() <= usize::MAX,
            last == h@.len() - n@.len(),
            i <= last,
            forall|k: int| 0 <= k < i ==> #[trigger] h@.subrange(k, k + n@.len()) != n@,
        decreases last - i,
    {
        if bytes_at(h, n, i) {
            return true;
        }
        if i == last {
            return false;
        }
        i = i + 1;
    }
}

/// The Device Locator: the index of the first peripheral in a scan snapshot
/// whose advertised name contains `needle`. `None` is the ordinary outcome
/// of a snapshot without the target, to be retried.
pub fn find_target(names: &Vec<Option<String>>, needle: &str) -> (r: Option<usize>)
    ensures
        match r {
            Some(i) => first_match(names@, needle@) == Some(i as int),
            None => first_match(names@, needle@) is None,
        },
{
    let mut i: usize = 0;
    while i < names.len()
        invariant
            i <= names@.len(),
            first_match(names@.subrange(0, i as int), needle@) is None,
        decreases names.len() - i,
    {
        assert(names@.subrange(0, i + 1).drop_last() == names@.subrange(0, i as int));
        let hit = match &names[i] {
            Some(n) => contains(n.as_str(), needle),
            None => false,
        };
        if hit {
            proof {
                lemma_first_match_prefix(names@, needle@, i as int + 1);
            }
            return Some(i);
        }
        i = i + 1;
    }
    assert(names@.subrange(0, names@.len() as int) == names@);
    None
}

/// A match found within a prefix is the first match of the whole list.
proof fn lemma_first_match_prefix(names: Seq<Option<String>>, needle: Seq<char>, n: int)
    requires
        0 <= n <= names.len(),
        first_match(names.subrange(0, n), needle) is Some,
    ensures
        first_match(names, needle) == first_match(names.subrange(0, n), needle),
    decreases names.len() - n,
{
    if n < names.len() {
        assert(names.subrange(0, n + 1).drop_last() == names.subrange(0, n));
        lemma_first_match_prefix(names, needle, n + 1);
    } else {
        assert(names.subrange(0, n) == names);
    }
}

/// With no matching name in the snapshot, the locator reports the target
/// as not found, however often it is asked.
pub proof fn law_miss_is_stable(names: Seq<Option<String>>, needle: Seq<char>)
    requires
        forall|i: int| 0 <= i < names.len() ==> !name_matches(#[trigger] names[i], needle),
    ensures
        first_match(names, needle) is None,
    decreases names.len(),
{
    if names.len() > 0 {
        assert forall|i: int| 0 <= i < names.drop_last().len() implies !name_matches(
            #[trigger] names.drop_last()[i],
            needle,
        ) by {
            assert(names.drop_last()[i] == names[i]);
        }
        law_miss_is_stable(names.drop_last(), needle);
        assert(!name_matches(names[names.len() - 1], needle));
    }
}

} // verus!
