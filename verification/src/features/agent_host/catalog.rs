//! Matching sidecar model ids against the public model catalog.
//!
//! The catalog is untrusted input; only its ids take part in the match, and
//! the caller keeps whatever else it read for each entry (context lengths and
//! prices) by the index this module returns. A model id matches an entry by
//! its exact id first, then by the slug after the entry's last `/`, then by
//! containment either way, all without regard to case; the first entry of the
//! first tier that has one wins, and no match is reported as such, never
//! guessed.
use vstd::prelude::*;
use super::{error_for_status, host_error, status_failure};
use crate::provider::contract::{ErrorCode, NormalizedError};
use crate::provider::failure::TransportError;
use crate::text::{chars_after, chars_of, text_eq, trim, trim_seq};

verus! {

/// The neutral error of a failed request for the public catalog.
pub open spec fn fetch_failure(error: TransportError) -> (ErrorCode, Seq<char>) {
    match error {
        TransportError::Status(status) => status_failure(status),
        TransportError::Timeout => (ErrorCode::TimedOut, "The public catalog request timed out."@),
        TransportError::Other => (
            ErrorCode::ProviderUnavailable,
            "The public catalog is unreachable. Check the network and try again."@,
        ),
    }
}

pub fn catalog_fetch_failure(error: TransportError) -> (r: NormalizedError)
    ensures
        (r.code, r.message@) == fetch_failure(error),
{
    match error {
        TransportError::Status(status) => error_for_status(status),
        TransportError::Timeout => host_error(ErrorCode::TimedOut, "The public catalog request timed out."),
        TransportError::Other => host_error(
            ErrorCode::ProviderUnavailable,
            "The public catalog is unreachable. Check the network and try again.",
        ),
    }
}

/// The lowercase form of a text, as `str::to_lowercase` gives it.
pub uninterp spec fn lowercase(s: Seq<char>) -> Seq<char>;

/// `str::to_lowercase`: the text with each character mapped to its Unicode
/// lowercase form. Its result is named by [`lowercase`], a function of the
/// text alone; nothing more is stated of it.
#[verifier::external_body]
fn to_lower(s: &str) -> (r: String)
    ensures
        r@ == lowercase(s@),
{
    s.to_lowercase()
}

/// The part of `s` after its last `/`; all of `s` when it has none.
pub open spec fn last_segment(s: Seq<char>) -> Seq<char>
    decreases s.len(),
{
    if s.len() == 0 {
        s
    } else if s.last() == '/' {
        Seq::empty()
    } else {
        last_segment(s.drop_last()).push(s.last())
    }
}

/// Whether `t` occurs in `s` as a run of consecutive characters.
pub open spec fn contains_text(s: Seq<char>, t: Seq<char>) -> bool {
    exists|i: int| 0 <= i && i + t.len() <= s.len() && #[trigger] s.subrange(i, i + t.len()) == t
}

/// Whether a catalog id is a hit for the wanted (trimmed, lowercase) model id
/// in a tier: 0 for the exact id, 1 for the slug, 2 for containment.
pub open spec fn tier_hit(tier: nat, want: Seq<char>, id: Seq<char>) -> bool {
    if tier == 0 {
        lowercase(id) == want
    } else if tier == 1 {
        lowercase(last_segment(id)) == want
    } else {
        contains_text(lowercase(id), want) || contains_text(want, lowercase(id))
    }
}

/// Entry `i` is the first hit of its tier.
pub open spec fn first_hit(ids: Seq<Seq<char>>, i: int, tier: nat, want: Seq<char>) -> bool {
    &&& 0 <= i < ids.len()
    &&& tier_hit(tier, want, ids[i])
    &&& forall|j: int| 0 <= j < i ==> !tier_hit(tier, want, #[trigger] ids[j])
}

/// No entry is a hit in the tier.
pub open spec fn no_hit(ids: Seq<Seq<char>>, tier: nat, want: Seq<char>) -> bool {
    forall|j: int| 0 <= j < ids.len() ==> !tier_hit(tier, want, #[trigger] ids[j])
}

/// The catalog ids as texts.
pub open spec fn id_texts(ids: Seq<String>) -> Seq<Seq<char>> {
    ids.map_values(|s: String| s@)
}

/// What matching the wanted id against the catalog ids yields: the first hit
/// of the first tier that has one, or nothing; an empty wanted id matches
/// nothing.
pub open spec fn catalog_match(ids: Seq<Seq<char>>, want: Seq<char>, r: Option<usize>) -> bool {
    if want.len() == 0 {
        r is None
    } else {
        match r {
            Some(i) => first_hit(ids, i as int, 0, want) || (no_hit(ids, 0, want) && first_hit(
                ids,
                i as int,
                1,
                want,
            )) || (no_hit(ids, 0, want) && no_hit(ids, 1, want) && first_hit(ids, i as int, 2, want)),
            None => no_hit(ids, 0, want) && no_hit(ids, 1, want) && no_hit(ids, 2, want),
        }
    }
}

proof fn lemma_last_segment(s: Seq<char>, k: int)
    requires
        0 <= k <= s.len(),
        k == 0 || s[k - 1] == '/',
        forall|j: int| k <= j < s.len() ==> s[j] != '/',
    ensures
        last_segment(s) == s.subrange(k, s.len() as int),
    decreases s.len(),
{
    if s.len() == k {
        assert(s.subrange(k, s.len() as int) =~= Seq::<char>::empty());
        if k == 0 {
            assert(s =~= Seq::<char>::empty());
        }
    } else {
        lemma_last_segment(s.drop_last(), k);
        assert(s.subrange(k, s.len() as int) =~= s.drop_last().subrange(k, s.len() - 1).push(
            s.last(),
        ));
    }
}

/// The part of `id` after its last `/`.
fn last_segment_of(id: &str) -> (r: String)
    ensures
        r@ == last_segment(id@),
{
    let v = chars_of(id);
    let mut k: usize = v.len();
    while k > 0 && v[k - 1] != '/'
        invariant
            k <= v.len(),
            v@ == id@,
            forall|j: int| k <= j < v.len() ==> v@[j] != '/',
        decreases k,
    {
        k = k - 1;
    }
    proof {
        lemma_last_segment(v@, k as int);
    }
    chars_after(id, k)
}

/// Whether `needle` occurs in `hay`.
fn occurs(hay: &Vec<char>, needle: &Vec<char>) -> (r: bool)
    ensures
        r == contains_text(hay@, needle@),
{
    let n = needle.len();
    if n > hay.len() {
        return false;
    }
    let last = hay.len() - n;
    let mut i: usize = 0;
    loop
        invariant
            n == needle@.len(),
            last + n == hay@.len(),
            i <= last,
            forall|k: int| 0 <= k < i ==> #[trigger] hay@.subrange(k, k + n) != needle@,
        ensures
            forall|k: int| 0 <= k <= last ==> #[trigger] hay@.subrange(k, k + n) != needle@,
        decreases last - i,
    {
        let mut j: usize = 0;
        let mut same = true;
        while same && j < n
            invariant
                n == needle@.len(),
                i + n <= hay.len(),
                j <= n,
                forall|m: int| 0 <= m < j ==> hay@[i + m] == needle@[m],
                !same ==> j < n && hay@[i + j] != needle@[j as int],
            decreases n - j, (if same { 1int } else { 0int }),
        {
            if hay[i + j] == needle[j] {
                j = j + 1;
            } else {
                same = false;
            }
        }
        if same {
            assert(hay@.subrange(i as int, i + n) =~= needle@);
            return true;
        }
        assert(hay@.subrange(i as int, i + n)[j as int] != needle@[j as int]);
        if i == last {
            break;
        }
        i = i + 1;
    }
    assert forall|k: int| 0 <= k && k + needle@.len() <= hay@.len() implies #[trigger] hay@.subrange(
        k,
        k + needle@.len(),
    ) != needle@ by {
        assert(k <= last);
    }
    false
}

/// Whether one catalog id is a hit in a tier.
fn hits(tier: u8, want: &str, id: &str) -> (r: bool)
    requires
        tier <= 2,
    ensures
        r == tier_hit(tier as nat, want@, id@),
{
    if tier == 0 {
        let lower = to_lower(id);
        text_eq(lower.as_str(), want)
    } else if tier == 1 {
        let slug = last_segment_of(id);
        let lower = to_lower(slug.as_str());
        text_eq(lower.as_str(), want)
    } else {
        let lower = to_lower(id);
        let l = chars_of(lower.as_str());
        let w = chars_of(want);
        occurs(&l, &w) || occurs(&w, &l)
    }
}

/// The first catalog id that is a hit in a tier.
fn first_in_tier(tier: u8, want: &str, catalog_ids: &[String]) -> (r: Option<usize>)
    requires
        tier <= 2,
    ensures
        match r {
            Some(i) => first_hit(id_texts(catalog_ids@), i as int, tier as nat, want@),
            None => no_hit(id_texts(catalog_ids@), tier as nat, want@),
        },
{
    let ghost ids = id_texts(catalog_ids@);
    let mut i: usize = 0;
    while i < catalog_ids.len()
        invariant
            tier <= 2,
            i <= catalog_ids@.len(),
            ids == id_texts(catalog_ids@),
            forall|j: int| 0 <= j < i ==> !tier_hit(tier as nat, want@, #[trigger] ids[j]),
        decreases catalog_ids@.len() - i,
    {
        if hits(tier, want, catalog_ids[i].as_str()) {
            return Some(i);
        }
        i = i + 1;
    }
    None
}

/// The index of the catalog entry that a sidecar model id matches: by exact
/// id, then by slug, then by containment, without regard to case and after
/// trimming the model id; `None` when nothing matches.
pub fn match_entry(model_id: &str, catalog_ids: &[String]) -> (r: Option<usize>)
    ensures
        catalog_match(id_texts(catalog_ids@), lowercase(trim_seq(model_id@)), r),
{
    let trimmed = trim(model_id);
    let want = to_lower(trimmed.as_str());
    if want.as_str().is_empty() {
        return None;
    }
    match first_in_tier(0, want.as_str(), catalog_ids) {
        Some(i) => Some(i),
        None => match first_in_tier(1, want.as_str(), catalog_ids) {
            Some(i) => Some(i),
            None => first_in_tier(2, want.as_str(), catalog_ids),
        },
    }
}

} // verus!
