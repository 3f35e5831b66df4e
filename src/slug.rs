//! Compound emote slugs: `dir-slug/emote-slug`.
use vstd::prelude::*;

verus! {

/// Whether `s` holds exactly one `/`, at index `i`.
pub open spec fn single_slash_at(s: Seq<char>, i: int) -> bool {
    &&& 0 <= i < s.len()
    &&& s[i] == '/'
    &&& forall|j: int| 0 <= j < s.len() && j != i ==> s[j] != '/'
}

/// The directory and emote segments of a compound slug; `None` unless the
/// slug holds exactly one `/`.
pub open spec fn split_compound(s: Seq<char>) -> Option<(Seq<char>, Seq<char>)> {
    if exists|i: int| single_slash_at(s, i) {
        let i = choose|i: int| single_slash_at(s, i);
        Some((s.subrange(0, i), s.subrange(i + 1, s.len() as int)))
    } else {
        None
    }
}

/// Splits a compound slug into its directory and emote segments.
pub fn split_compound_slug(s: &str) -> (r: Option<(String, String)>)
    ensures
        match split_compound(s@) {
            Some(parts) => r matches Some(got) && got.0@ == parts.0 && got.1@ == parts.1,
            None => r is None,
        },
{
    let n = s.unicode_len();
    let mut i: usize = 0;
    let mut found: Option<usize> = None;
    while i < n
        invariant
            n == s@.len(),
            i <= n,
            match found {
                Some(k) => k < i && s@[k as int] == '/' && forall|j: int|
                    0 <= j < i && j != k ==> s@[j] != '/',
                None => forall|j: int| 0 <= j < i ==> s@[j] != '/',
            },
        decreases n - i,
    {
        if s.get_char(i) == '/' {
            if found.is_some() {
                proof {
                    let k = found.unwrap();
                    assert forall|m: int| !single_slash_at(s@, m) by {
                        if single_slash_at(s@, m) {
                            assert(m == k || m == i);
                        }
                    }
                }
                return None;
            }
            found = Some(i);
        }
        i = i + 1;
    }
    match found {
        Some(k) => {
            proof {
                assert(single_slash_at(s@, k as int));
                let c = choose|i: int| single_slash_at(s@, i);
                assert(c == k);
            }
            let dir = s.substring_char(0, k).to_owned();
            let emote = s.substring_char(k + 1, n).to_owned();
            Some((dir, emote))
        },
        None => {
            proof {
                assert forall|m: int| !single_slash_at(s@, m) by {
                    if single_slash_at(s@, m) {
                        assert(s@[m] == '/');
                    }
                }
            }
            None
        },
    }
}

} // verus!
