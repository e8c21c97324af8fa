//! Around the VAT API: the request lines an external HTTP client sends, and
//! the ordering of the obligations it gets back. The transport itself — an
//! asynchronous HTTP client and the JSON bodies of obligations and returns —
//! stays outside this crate and exchanges plain values with it.
use vstd::prelude::*;

use vstd::multiset::Multiset;
use crate::spec_api_base;
use crate::strutil::lex_le;
use crate::strutil::lemma_lex_le_total;
use crate::strutil::lemma_lex_le_trans;
use crate::strutil::str_le;

verus! {

/// One open VAT obligation period, as plain values.
#[derive(Debug, Clone, PartialEq, Eq)]
pub struct Obligation {
    /// The start date of this obligation period (YYYY-MM-DD).
    pub start: String,
    /// The end date of this obligation period (YYYY-MM-DD).
    pub end: String,
    /// The due date for this obligation period (YYYY-MM-DD).
    pub due: String,
    /// Which obligation status this row carries (O = Open, F = Fulfilled).
    pub status: char,
    /// The ID code for the period that this obligation belongs to: four
    /// alphanumeric characters.
    pub period_key: String,
}

/// The URL the open obligations of a registration number are fetched from.
pub open spec fn spec_obligations_url(vrn: Seq<char>) -> Seq<char> {
    spec_api_base() + "/organisations/vat/"@ + vrn + "/obligations"@
}

/// Builds the obligations URL of a registration number.
pub fn obligations_url(vrn: &str) -> (r: String)
    ensures
        r@ == spec_obligations_url(vrn@),
{
    let mut url = crate::api_base_url().to_owned();
    url.append("/organisations/vat/");
    url.append(vrn);
    url.append("/obligations");
    proof {
        assert(url@ =~= spec_obligations_url(vrn@));
    }
    url
}

/// The URL a return of a registration number is submitted to.
pub open spec fn spec_returns_url(vrn: Seq<char>) -> Seq<char> {
    spec_api_base() + "/organisations/vat/"@ + vrn + "/returns"@
}

/// Builds the returns URL of a registration number.
pub fn returns_url(vrn: &str) -> (r: String)
    ensures
        r@ == spec_returns_url(vrn@),
{
    let mut url = crate::api_base_url().to_owned();
    url.append("/organisations/vat/");
    url.append(vrn);
    url.append("/returns");
    proof {
        assert(url@ =~= spec_returns_url(vrn@));
    }
    url
}

/// The query that narrows the obligations fetch to open ones.
pub fn obligations_query() -> (r: (String, String))
    ensures
        r.0@ == "status"@ && r.1@ == "O"@,
{
    (String::from_str("status"), String::from_str("O"))
}

/// The accept header every VAT API request carries.
pub fn accept_header() -> (r: &'static str)
    ensures
        r@ == "application/vnd.hmrc.1.0+json"@,
{
    "application/vnd.hmrc.1.0+json"
}

/// The authorization header value a token yields.
pub fn bearer_header(access_token: &str) -> (r: String)
    ensures
        r@ == "Bearer "@ + access_token@,
{
    let mut h = String::from_str("Bearer ");
    h.append(access_token);
    h
}

/// Whether obligations stand in order of their start dates.
pub open spec fn sorted_by_start(s: Seq<Obligation>) -> bool {
    forall|i: int, j: int| 0 <= i < j < s.len() ==> lex_le(s[i].start@, s[j].start@)
}

proof fn lemma_to_multiset_insert(s: Seq<Obligation>, p: int, x: Obligation)
    requires
        0 <= p <= s.len(),
    ensures
        s.insert(p, x).to_multiset() == s.to_multiset().insert(x),
{
    broadcast use vstd::seq_lib::group_to_multiset_ensures;
    broadcast use vstd::multiset::group_multiset_axioms;

    let left = s.take(p);
    let right = s.skip(p);
    assert(s =~= left + right);
    assert(s.insert(p, x) =~= left + (seq![x] + right));
    vstd::seq_lib::lemma_multiset_commutative(left, right);
    vstd::seq_lib::lemma_multiset_commutative(left, seq![x] + right);
    vstd::seq_lib::lemma_multiset_commutative(seq![x], right);
    assert(seq![x] =~= Seq::<Obligation>::empty().push(x));
    assert(Seq::<Obligation>::empty().to_multiset() =~= Multiset::<Obligation>::empty());
    assert(seq![x].to_multiset() =~= Multiset::<Obligation>::empty().insert(x));
    assert(s.insert(p, x).to_multiset() =~= s.to_multiset().insert(x));
}

/// Sorts obligations by their start date, keeping exactly the same rows.
pub fn sort_obligations(v: &mut Vec<Obligation>)
    ensures
        sorted_by_start(final(v)@),
        final(v)@.to_multiset() == old(v)@.to_multiset(),
{
    broadcast use vstd::seq_lib::group_to_multiset_ensures;

    let mut i: usize = 1;
    while i < v.len()
        invariant
            1 <= i,
            i <= v@.len() || v@.len() == 0,
            v@.to_multiset() == old(v)@.to_multiset(),
            i > v@.len() || sorted_by_start(v@.take(i as int)),
        decreases v@.len() - i,
    {
        let ghost pre = v@;
        let x = v.remove(i);
        proof {
            broadcast use vstd::seq_lib::group_to_multiset_ensures;

            assert(pre.remove(i as int).to_multiset() =~= pre.to_multiset().remove(pre[i as int]));
        }
        let mut p: usize = 0;
        while p < i && str_le(v[p].start.as_str(), x.start.as_str())
            invariant
                0 <= p <= i,
                i < pre.len(),
                v@ == pre.remove(i as int),
                forall|a: int| 0 <= a < p ==> lex_le(v@[a].start@, x.start@),
            decreases i - p,
        {
            p = p + 1;
        }
        proof {
            lemma_to_multiset_insert(v@, p as int, x);
            assert(pre.remove(i as int).insert(p as int, x).to_multiset() =~= pre.to_multiset());
            // the prefix with `x` put back at `p` is sorted
            let before = v@;
            let after = before.insert(p as int, x);
            assert(forall|a: int| 0 <= a < i ==> before[a] == pre[a]);
            assert(sorted_by_start(pre.take(i as int)));
            if p < i {
                assert(!lex_le(before[p as int].start@, x.start@));
                lemma_lex_le_total(before[p as int].start@, x.start@);
                assert(lex_le(x.start@, before[p as int].start@));
            }
            assert forall|a: int, b: int| 0 <= a < b < i + 1 implies lex_le(
                after[a].start@,
                after[b].start@,
            ) by {
                if b < p {
                    assert(after[a] == pre[a] && after[b] == pre[b]);
                } else if b == p {
                    assert(after[b] == x);
                    assert(lex_le(before[a].start@, x.start@));
                } else {
                    // b > p, so the element at b came from position b - 1
                    if a < p {
                        assert(after[a] == pre[a] && after[b] == pre[b - 1]);
                        assert(lex_le(pre[a].start@, pre[b - 1].start@));
                    } else if a == p {
                        assert(after[a] == x && after[b] == pre[b - 1]);
                        if b - 1 > p {
                            lemma_lex_le_trans(
                                x.start@,
                                before[p as int].start@,
                                before[b - 1].start@,
                            );
                        }
                    } else {
                        assert(after[a] == pre[a - 1] && after[b] == pre[b - 1]);
                    }
                }
            }
            assert(sorted_by_start(after.take(i + 1)));
        }
        v.insert(p, x);
        i = i + 1;
    }
    proof {
        if v@.len() > 0 {
            assert(v@.take(v@.len() as int) =~= v@);
        }
    }
}

} // verus!
