//! The request signer: builds the canonical parameter signature the API's
//! authentication scheme requires. Parameters are sorted, concatenated as
//! key immediately followed by value with no separator, the shared secret is
//! appended, and the result is hashed with the legacy keyed digest the API
//! mandates (an external protocol constraint, not a security choice).

use vstd::prelude::*;
use vstd::relations::{sorted_by, total_ordering};
use vstd::seq_lib::lemma_sorted_unique;
use crate::text::{
    chars_le, hex_of, lemma_chars_le_antisymmetric, lemma_chars_le_connected,
    lemma_chars_le_reflexive, lemma_chars_le_transitive, str_le, to_hex,
};

verus! {

/// The mathematical value of one request parameter: its key and its value.
pub open spec fn param_view(p: (String, String)) -> (Seq<char>, Seq<char>) {
    (p.0@, p.1@)
}

pub open spec fn params_view(ps: Seq<(String, String)>) -> Seq<(Seq<char>, Seq<char>)> {
    ps.map_values(|p: (String, String)| param_view(p))
}

/// Order on parameters: by key, ties broken by value. Breaking ties makes
/// the order total, so a parameter set has exactly one sorted arrangement
/// and the signature below is permutation-invariant.
pub open spec fn pair_le(a: (Seq<char>, Seq<char>), b: (Seq<char>, Seq<char>)) -> bool {
    if a.0 == b.0 {
        chars_le(a.1, b.1)
    } else {
        chars_le(a.0, b.0)
    }
}

pub open spec fn pair_leq() -> spec_fn((Seq<char>, Seq<char>), (Seq<char>, Seq<char>)) -> bool {
    |a: (Seq<char>, Seq<char>), b: (Seq<char>, Seq<char>)| pair_le(a, b)
}

pub proof fn lemma_pair_le_total_ordering()
    ensures
        total_ordering(pair_leq()),
{
    let leq = pair_leq();
    assert forall|a: (Seq<char>, Seq<char>)| #[trigger] leq(a, a) by {
        lemma_chars_le_reflexive(a.1);
    }
    assert forall|a: (Seq<char>, Seq<char>), b: (Seq<char>, Seq<char>)|
        #[trigger] leq(a, b) && #[trigger] leq(b, a) implies a == b by {
        if a.0 == b.0 {
            lemma_chars_le_antisymmetric(a.1, b.1);
        } else {
            lemma_chars_le_antisymmetric(a.0, b.0);
        }
    }
    assert forall|a: (Seq<char>, Seq<char>), b: (Seq<char>, Seq<char>), c: (Seq<char>, Seq<char>)|
        #[trigger] leq(a, b) && #[trigger] leq(b, c) implies leq(a, c) by {
        if a.0 == b.0 && b.0 == c.0 {
            lemma_chars_le_transitive(a.1, b.1, c.1);
        } else if a.0 == b.0 || b.0 == c.0 {
            // the one strict key comparison carries over by congruence
        } else {
            lemma_chars_le_transitive(a.0, b.0, c.0);
            if a.0 == c.0 {
                lemma_chars_le_antisymmetric(a.0, b.0);
            }
        }
    }
    assert forall|a: (Seq<char>, Seq<char>), b: (Seq<char>, Seq<char>)|
        #[trigger] leq(a, b) || #[trigger] leq(b, a) by {
        lemma_chars_le_connected(a.0, b.0);
        lemma_chars_le_connected(a.1, b.1);
    }
}

/// Compares two parameters in the order of `pair_le`.
fn pair_le_exec(a: &(String, String), b: &(String, String)) -> (r: bool)
    ensures
        r == pair_le(param_view(*a), param_view(*b)),
{
    if a.0 == b.0 {
        str_le(a.1.as_str(), b.1.as_str())
    } else {
        str_le(a.0.as_str(), b.0.as_str())
    }
}

/// Inserting anywhere into a sequence adds one occurrence to its multiset.
proof fn lemma_insert_to_multiset<A>(s: Seq<A>, k: int, x: A)
    requires
        0 <= k <= s.len(),
    ensures
        s.insert(k, x).to_multiset() == s.to_multiset().insert(x),
{
    broadcast use vstd::multiset::group_multiset_axioms;
    broadcast use vstd::seq_lib::group_to_multiset_ensures;

    assert(s.insert(k, x) =~= s.take(k).push(x) + s.skip(k));
    assert(s =~= s.take(k) + s.skip(k));
    vstd::seq_lib::lemma_multiset_commutative(s.take(k).push(x), s.skip(k));
    vstd::seq_lib::lemma_multiset_commutative(s.take(k), s.skip(k));
    assert(s.take(k).push(x).to_multiset() =~= s.take(k).to_multiset().insert(x));
    assert(s.insert(k, x).to_multiset() =~= s.to_multiset().insert(x));
}

/// Inserts one parameter into a sorted vector, keeping it sorted.
fn insert_sorted(out: &mut Vec<(String, String)>, p: (String, String))
    requires
        sorted_by(params_view(old(out)@), pair_leq()),
    ensures
        sorted_by(params_view(final(out)@), pair_leq()),
        params_view(final(out)@).to_multiset() == params_view(old(out)@).to_multiset().insert(
            param_view(p),
        ),
{
    let ghost leq = pair_leq();
    let ghost old_views = params_view(old(out)@);
    let mut k: usize = 0;
    while k < out.len() && pair_le_exec(&out[k], &p)
        invariant
            k <= out@.len(),
            *out == *old(out),
            forall|i: int| 0 <= i < k ==> #[trigger] pair_le(params_view(out@)[i], param_view(p)),
        decreases out@.len() - k,
    {
        k = k + 1;
    }
    proof {
        lemma_pair_le_total_ordering();
        if k < out@.len() {
            // the scan stopped on an element not below `p`, so `p` goes first
            assert(!pair_le(old_views[k as int], param_view(p)));
            assert(leq(old_views[k as int], param_view(p)) || leq(
                param_view(p),
                old_views[k as int],
            ));
            assert(leq(param_view(p), old_views[k as int]));
        }
        lemma_insert_to_multiset(old_views, k as int, param_view(p));
        assert(params_view(out@.insert(k as int, p)) =~= old_views.insert(k as int, param_view(p)));
    }
    out.insert(k, p);
    proof {
        let new_views = params_view(out@);
        assert(new_views == old_views.insert(k as int, param_view(p)));
        assert forall|i: int, j: int| 0 <= i < j < new_views.len() implies #[trigger] leq(
            new_views[i],
            new_views[j],
        ) by {
            if i < k && j > k {
                assert(leq(old_views[i], old_views[j - 1]));
            } else if j == k {
                assert(leq(old_views[i], param_view(p)));
            } else if i == k {
                // p is below the stopping element, which is below the rest
                assert(leq(param_view(p), old_views[k as int]));
                if j - 1 > k {
                    assert(leq(old_views[k as int], old_views[j - 1]));
                }
            }
        }
    }
}

/// Sorts a parameter list into the one arrangement `pair_le` allows.
pub fn sort_params(params: &Vec<(String, String)>) -> (r: Vec<(String, String)>)
    ensures
        params_view(r@) == params_view(params@).sort_by(pair_leq()),
{
    broadcast use vstd::seq_lib::group_to_multiset_ensures;

    let ghost orig_views = params_view(params@);
    let mut out: Vec<(String, String)> = Vec::new();
    let mut i: usize = 0;
    proof {
        assert(params_view(out@) =~= Seq::<(Seq<char>, Seq<char>)>::empty());
        assert(orig_views.take(0) =~= Seq::<(Seq<char>, Seq<char>)>::empty());
    }
    while i < params.len()
        invariant
            i <= params@.len(),
            orig_views == params_view(params@),
            sorted_by(params_view(out@), pair_leq()),
            params_view(out@).to_multiset() == orig_views.take(i as int).to_multiset(),
        decreases params@.len() - i,
    {
        let ghost entry_out_views = params_view(out@);
        let p = (params[i].0.clone(), params[i].1.clone());
        proof {
            broadcast use vstd::multiset::group_multiset_axioms;
            broadcast use vstd::seq_lib::group_to_multiset_ensures;

            assert(param_view(p) == orig_views[i as int]);
            assert(orig_views.take(i + 1) =~= orig_views.take(i as int).push(
                orig_views[i as int],
            ));
        }
        insert_sorted(&mut out, p);
        proof {
            broadcast use vstd::multiset::group_multiset_axioms;
            broadcast use vstd::seq_lib::group_to_multiset_ensures;

            assert(params_view(out@).to_multiset() == entry_out_views.to_multiset().insert(
                param_view(p),
            ));
            assert(params_view(out@).to_multiset() =~= orig_views.take(i + 1).to_multiset());
        }
        i = i + 1;
    }
    proof {
        lemma_pair_le_total_ordering();
        orig_views.lemma_sort_by_ensures(pair_leq());
        assert(orig_views.take(i as int) =~= orig_views);
        broadcast use vstd::multiset::group_multiset_axioms;
        assert(params_view(out@).to_multiset() =~= orig_views.sort_by(pair_leq()).to_multiset());
        lemma_sorted_unique(params_view(out@), orig_views.sort_by(pair_leq()), pair_leq());
        assert(params_view(out@) == orig_views.sort_by(pair_leq()));
    }
    out
}

/// Each key immediately followed by its value, no separators, in sequence
/// order.
pub open spec fn concat_pairs(ps: Seq<(Seq<char>, Seq<char>)>) -> Seq<char>
    decreases ps.len(),
{
    if ps.len() == 0 {
        Seq::empty()
    } else {
        concat_pairs(ps.drop_last()) + ps.last().0 + ps.last().1
    }
}

/// What the legacy digest returns for a given text: sixteen bytes, a
/// function of the text alone.
pub uninterp spec fn md5_of(text: Seq<char>) -> Seq<u8>;

/// Relies on `md5::compute`: the digest of the UTF-8 bytes of the input,
/// always sixteen bytes long.
#[verifier::external_body]
fn md5_digest(text: &str) -> (digest: Vec<u8>)
    ensures
        digest@ == md5_of(text@),
        digest@.len() == 16,
{
    md5::compute(text.as_bytes()).0.to_vec()
}

/// The text that gets hashed: sorted parameters concatenated, secret last.
pub open spec fn sig_text(ps: Seq<(Seq<char>, Seq<char>)>, secret: Seq<char>) -> Seq<char> {
    concat_pairs(ps.sort_by(pair_leq())) + secret
}

/// The signature of a parameter set: the lower-case hex digest of its
/// canonical text.
pub open spec fn sig_of(ps: Seq<(Seq<char>, Seq<char>)>, secret: Seq<char>) -> Seq<char> {
    hex_of(md5_of(sig_text(ps, secret)))
}

/// Computes the request signature over a parameter set.
pub fn signature(params: &Vec<(String, String)>, secret: &str) -> (sig: String)
    ensures
        sig@ == sig_of(params_view(params@), secret@),
        sig@.len() == 32,
{
    let ghost orig_views = params_view(params@);
    let sorted = sort_params(params);
    let ghost sorted_views = params_view(sorted@);
    let mut text = String::new();
    let mut i: usize = 0;
    proof {
        assert(sorted_views.take(0) =~= Seq::<(Seq<char>, Seq<char>)>::empty());
    }
    while i < sorted.len()
        invariant
            i <= sorted@.len(),
            sorted_views == params_view(sorted@),
            text@ == concat_pairs(sorted_views.take(i as int)),
        decreases sorted@.len() - i,
    {
        let pair = &sorted[i];
        text.append(pair.0.as_str());
        text.append(pair.1.as_str());
        proof {
            assert(sorted_views.take(i + 1).drop_last() =~= sorted_views.take(i as int));
            assert(sorted_views.take(i + 1).last() == sorted_views[i as int]);
        }
        i = i + 1;
    }
    proof {
        assert(sorted_views.take(i as int) =~= sorted_views);
    }
    text.append(secret);
    let digest = md5_digest(text.as_str());
    proof {
        crate::text::lemma_hex_of_len(digest@);
    }
    to_hex(&digest)
}

/// Signature determinism: signing the same parameter set in any input order
/// yields the same signature. Any two arrangements of one multiset of
/// parameters sign identically.
pub proof fn lemma_signature_permutation_invariant(
    ps1: Seq<(Seq<char>, Seq<char>)>,
    ps2: Seq<(Seq<char>, Seq<char>)>,
    secret: Seq<char>,
)
    requires
        ps1.to_multiset() == ps2.to_multiset(),
    ensures
        sig_of(ps1, secret) == sig_of(ps2, secret),
{
    lemma_pair_le_total_ordering();
    ps1.lemma_sort_by_ensures(pair_leq());
    ps2.lemma_sort_by_ensures(pair_leq());
    lemma_sorted_unique(ps1.sort_by(pair_leq()), ps2.sort_by(pair_leq()), pair_leq());
}

} // verus!
