//! Message-derived XP: the saturating reward curve and the anti-spam metric
//! (number of distinct alphabetic characters in a message).
use vstd::prelude::*;
use vstd::string::StrSliceExecFns;

verus! {

/// Whether a character counts as alphabetic. Relies on `char::is_alphabetic`:
/// the answer depends on the character alone (a fixed character-class table).
pub uninterp spec fn alphabetic(c: char) -> bool;

/// Relies on `char::is_alphabetic`, named by `alphabetic`.
pub assume_specification[ char::is_alphabetic ](c: char) -> (r: bool)
    ensures
        r == alphabetic(c),
;

/// Whether a character counts as alphanumeric. Relies on
/// `char::is_alphanumeric`: the answer depends on the character alone (a
/// fixed character-class table).
pub uninterp spec fn alphanumeric(c: char) -> bool;

/// Relies on `char::is_alphanumeric`, named by `alphanumeric`.
pub assume_specification[ char::is_alphanumeric ](c: char) -> (r: bool)
    ensures
        r == alphanumeric(c),
;

/// The lowercase form of a character sequence, as the standard library's
/// case-folding tables define it: a function of the characters alone.
pub uninterp spec fn lower_of(s: Seq<char>) -> Seq<char>;

/// Relies on `str::to_lowercase`: the result depends on the characters alone,
/// named by `lower_of`.
#[verifier::external_body]
pub(crate) fn lowercase(s: &str) -> (r: String)
    ensures
        r@ == lower_of(s@),
{
    s.to_lowercase()
}

/// The XP reward for a message whose anti-spam metric is `len`:
/// `round((len / 15)^2 * 5)`, saturating at 15.
pub open spec fn xp_curve(len: nat) -> nat {
    let rounded = (10 * len * len + 225) / 450;
    if rounded > 15 {
        15
    } else {
        rounded
    }
}

/// The curve saturates: `xp_curve(0) == 0`, `xp_curve(15) == 5`, and the
/// reward is pinned at 15 from a metric of 26 upward.
pub proof fn lemma_xp_curve_boundary(x: nat)
    ensures
        xp_curve(0) == 0,
        xp_curve(15) == 5,
        x >= 26 ==> xp_curve(x) == 15,
        xp_curve(x) <= 15,
{
    assert(x >= 26 ==> 10 * x * x >= 10 * 26 * 26) by (nonlinear_arith);
}

/// Computes the XP reward for the anti-spam metric `len`.
pub fn calculate_length_to_xp(len: &usize) -> (r: u64)
    ensures
        r == xp_curve(*len as nat),
{
    if *len >= 26 {
        proof {
            lemma_xp_curve_boundary(*len as nat);
        }
        15
    } else {
        let l = *len as u64;
        assert(10 * l * l + 225 <= 6475) by (nonlinear_arith)
            requires
                l < 26,
        ;
        (10 * l * l + 225) / 450
    }
}

/// The set of distinct alphabetic characters occurring in `s`.
pub open spec fn distinct_alpha(s: Seq<char>) -> Set<char> {
    Set::new(|c: char| s.contains(c) && alphabetic(c))
}

fn vec_contains_char(v: &Vec<char>, c: char) -> (r: bool)
    ensures
        r == v@.contains(c),
{
    let mut i: usize = 0;
    while i < v.len()
        invariant
            i <= v@.len(),
            forall|j: int| 0 <= j < i ==> v@[j] != c,
        decreases v@.len() - i,
    {
        if v[i] == c {
            return true;
        }
        i = i + 1;
    }
    false
}

/// The anti-spam metric of a message: how many distinct alphabetic characters
/// it contains. A message of repeated characters scores low however long it is.
pub fn anti_spam_count(s: &str) -> (r: usize)
    ensures
        r == distinct_alpha(s@).len(),
{
    let n = s.unicode_len();
    let mut seen: Vec<char> = Vec::new();
    let mut i: usize = 0;
    while i < n
        invariant
            n == s@.len(),
            i <= n,
            seen@.no_duplicates(),
            forall|c: char| #[trigger]
                seen@.contains(c) <==> (s@.subrange(0, i as int).contains(c) && alphabetic(c)),
        decreases n - i,
    {
        let c = s.get_char(i);
        let ghost prev_seen = seen@;
        let ghost sub_i = s@.subrange(0, i as int);
        let ghost sub_i1 = s@.subrange(0, i + 1);
        if c.is_alphabetic() && !vec_contains_char(&seen, c) {
            seen.push(c);
        }
        proof {
            assert(sub_i1.drop_last() =~= sub_i);
            assert(sub_i1.last() == s@[i as int]);
            assert forall|c0: char| #[trigger] sub_i1.contains(c0) implies (sub_i.contains(c0)
                || c0 == s@[i as int]) by {
                let j = choose|j: int| 0 <= j < sub_i1.len() && sub_i1[j] == c0;
                if j < sub_i.len() {
                    assert(sub_i[j] == c0);
                }
            }
            assert forall|c0: char| sub_i.contains(c0) implies #[trigger] sub_i1.contains(
                c0,
            ) by {
                let j = choose|j: int| 0 <= j < sub_i.len() && sub_i[j] == c0;
                assert(sub_i1[j] == c0);
            }
            assert(sub_i1.contains(s@[i as int])) by {
                assert(sub_i1[i as int] == s@[i as int]);
            }
            if alphabetic(c) && !prev_seen.contains(c) {
                assert(seen@ == prev_seen.push(c));
                assert forall|c0: char| #[trigger] seen@.contains(c0) implies (prev_seen.contains(
                    c0,
                ) || c0 == c) by {
                    vstd::seq_lib::lemma_seq_contains_after_push(prev_seen, c, c0);
                }
                assert forall|c0: char| (prev_seen.contains(c0) || c0 == c) implies #[trigger] seen@.contains(
                    c0,
                ) by {
                    vstd::seq_lib::lemma_seq_contains_after_push(prev_seen, c, c0);
                }
            }
        }
        i = i + 1;
    }
    proof {
        assert(s@.subrange(0, n as int) == s@);
        assert(seen@.to_set() =~= distinct_alpha(s@));
        seen@.unique_seq_to_set();
    }
    seen.len()
}

/// Whether `p` is a prefix of `s`.
pub open spec fn is_prefix(p: Seq<char>, s: Seq<char>) -> bool {
    p.len() <= s.len() && s.subrange(0, p.len() as int) == p
}

/// Decides whether `prefix` starts the string `s`.
pub fn str_starts_with(s: &str, prefix: &str) -> (r: bool)
    ensures
        r == is_prefix(prefix@, s@),
{
    let n = s.unicode_len();
    let m = prefix.unicode_len();
    if m > n {
        proof {
            assert(!is_prefix(prefix@, s@));
        }
        return false;
    }
    let mut i: usize = 0;
    while i < m
        invariant
            n == s@.len(),
            m == prefix@.len(),
            m <= n,
            i <= m,
            forall|j: int| 0 <= j < i ==> s@[j] == prefix@[j],
        decreases m - i,
    {
        if s.get_char(i) != prefix.get_char(i) {
            proof {
                assert(s@.subrange(0, prefix@.len() as int)[i as int] != prefix@[i as int]);
            }
            return false;
        }
        i = i + 1;
    }
    proof {
        assert(s@.subrange(0, prefix@.len() as int) =~= prefix@);
    }
    true
}

} // verus!
