//! Parameter normalization: the OAuth protocol parameters and the request
//! parameters are percent-encoded, written as `key=value` pairs, sorted
//! byte-wise by the encoded pair, and joined with `&`. The result is the
//! same whatever order the pairs arrive in.

use vstd::prelude::*;
use vstd::relations::total_ordering;
use vstd::seq_lib::group_to_multiset_ensures;
use vstd::relations::sorted_by;
use vstd::seq_lib::lemma_sorted_unique;

use crate::percent::percent_encode;
use crate::percent::percent_encode_spec;

verus! {

/// One request or protocol parameter, as raw (unencoded) bytes.
pub struct Param {
    pub key: Vec<u8>,
    pub value: Vec<u8>,
}

/// Byte-wise lexicographic order on byte strings: the order in which the
/// encoded `key=value` pairs stand in the normalized string.
pub open spec fn lex_leq(a: Seq<u8>, b: Seq<u8>) -> bool
    decreases a.len(),
{
    if a.len() == 0 {
        true
    } else if b.len() == 0 {
        false
    } else if a[0] < b[0] {
        true
    } else if a[0] > b[0] {
        false
    } else {
        lex_leq(a.drop_first(), b.drop_first())
    }
}

/// The lexicographic order as a function value, for sorting.
pub open spec fn lex_leq_fn() -> spec_fn(Seq<u8>, Seq<u8>) -> bool {
    |a: Seq<u8>, b: Seq<u8>| lex_leq(a, b)
}

pub proof fn lemma_lex_reflexive(a: Seq<u8>)
    ensures
        lex_leq(a, a),
    decreases a.len(),
{
    if a.len() > 0 {
        lemma_lex_reflexive(a.drop_first());
    }
}

pub proof fn lemma_lex_antisymmetric(a: Seq<u8>, b: Seq<u8>)
    requires
        lex_leq(a, b),
        lex_leq(b, a),
    ensures
        a == b,
    decreases a.len(),
{
    if a.len() == 0 {
        assert(b.len() == 0);
        assert(a =~= b);
    } else {
        assert(b.len() > 0);
        assert(a[0] == b[0]);
        lemma_lex_antisymmetric(a.drop_first(), b.drop_first());
        assert forall|i: int| 0 <= i < a.len() implies a[i] == b[i] by {
            if i > 0 {
                assert(a.drop_first()[i - 1] == b.drop_first()[i - 1]);
            }
        }
        assert(a =~= b);
    }
}

pub proof fn lemma_lex_transitive(a: Seq<u8>, b: Seq<u8>, c: Seq<u8>)
    requires
        lex_leq(a, b),
        lex_leq(b, c),
    ensures
        lex_leq(a, c),
    decreases a.len(),
{
    if a.len() == 0 {
    } else {
        assert(b.len() > 0);
        assert(c.len() > 0);
        if a[0] == b[0] && b[0] == c[0] {
            lemma_lex_transitive(a.drop_first(), b.drop_first(), c.drop_first());
        }
    }
}

pub proof fn lemma_lex_connected(a: Seq<u8>, b: Seq<u8>)
    ensures
        lex_leq(a, b) || lex_leq(b, a),
    decreases a.len(),
{
    if a.len() == 0 {
    } else if b.len() == 0 {
    } else if a[0] == b[0] {
        lemma_lex_connected(a.drop_first(), b.drop_first());
    }
}

/// The lexicographic order is a total order, so sorting by it has a single
/// possible result.
pub proof fn lemma_lex_total_ordering()
    ensures
        total_ordering(lex_leq_fn()),
{
    let leq = lex_leq_fn();
    assert forall|x: Seq<u8>| #[trigger] leq(x, x) by {
        lemma_lex_reflexive(x);
    }
    assert forall|x: Seq<u8>, y: Seq<u8>| #[trigger] leq(x, y) && #[trigger] leq(y, x) implies x
        == y by {
        lemma_lex_antisymmetric(x, y);
    }
    assert forall|x: Seq<u8>, y: Seq<u8>, z: Seq<u8>|
        #[trigger] leq(x, y) && #[trigger] leq(y, z) implies leq(x, z) by {
        lemma_lex_transitive(x, y, z);
    }
    assert forall|x: Seq<u8>, y: Seq<u8>| #[trigger] leq(x, y) || #[trigger] leq(y, x) by {
        lemma_lex_connected(x, y);
    }
}

/// The encoded form of one pair: `encode(key)=encode(value)`.
pub open spec fn pair_string_spec(k: Seq<u8>, v: Seq<u8>) -> Seq<u8> {
    percent_encode_spec(k) + seq!['=' as u8] + percent_encode_spec(v)
}

/// `pair_string_spec` as a function value, for mapping over pair lists.
pub open spec fn pair_string_of() -> spec_fn((Seq<u8>, Seq<u8>)) -> Seq<u8> {
    |kv: (Seq<u8>, Seq<u8>)| pair_string_spec(kv.0, kv.1)
}

/// The mathematical content of a parameter list: its keys and values as
/// byte strings.
pub open spec fn params_view(ps: Seq<Param>) -> Seq<(Seq<u8>, Seq<u8>)> {
    ps.map_values(|p: Param| (p.key@, p.value@))
}

/// The encoded `key=value` strings of a pair list, in input order.
pub open spec fn pieces_spec(pairs: Seq<(Seq<u8>, Seq<u8>)>) -> Seq<Seq<u8>> {
    pairs.map_values(pair_string_of())
}

/// Byte strings joined with `&` between neighbours.
pub open spec fn join_amp(ss: Seq<Seq<u8>>) -> Seq<u8>
    decreases ss.len(),
{
    if ss.len() == 0 {
        Seq::empty()
    } else if ss.len() == 1 {
        ss[0]
    } else {
        ss[0] + seq!['&' as u8] + join_amp(ss.drop_first())
    }
}

/// The normalized parameter string: encoded pairs, sorted byte-wise,
/// joined with `&`.
pub open spec fn normalize_spec(pairs: Seq<(Seq<u8>, Seq<u8>)>) -> Seq<u8> {
    join_amp(pieces_spec(pairs).sort_by(lex_leq_fn()))
}

pub proof fn lemma_join_amp_push(ss: Seq<Seq<u8>>, x: Seq<u8>)
    requires
        ss.len() >= 1,
    ensures
        join_amp(ss.push(x)) == join_amp(ss) + seq!['&' as u8] + x,
    decreases ss.len(),
{
    if ss.len() == 1 {
        assert(ss.push(x)[0] == ss[0]);
        assert(ss.push(x).drop_first() =~= seq![x]);
        assert(join_amp(seq![x]) == x);
        assert(join_amp(ss.push(x)) =~= join_amp(ss) + seq!['&' as u8] + x);
    } else {
        assert(ss.push(x)[0] == ss[0]);
        assert(ss.push(x).drop_first() =~= ss.drop_first().push(x));
        lemma_join_amp_push(ss.drop_first(), x);
        assert(join_amp(ss.push(x)) =~= join_amp(ss) + seq!['&' as u8] + x);
    }
}

/// Mapping a function over two lists with the same members (counted with
/// multiplicity) gives image lists with the same members.
pub proof fn lemma_map_values_multiset<A, B>(a: Seq<A>, b: Seq<A>, f: spec_fn(A) -> B)
    requires
        a.to_multiset() == b.to_multiset(),
    ensures
        a.map_values(f).to_multiset() == b.map_values(f).to_multiset(),
    decreases a.len(),
{
    broadcast use group_to_multiset_ensures;

    assert(a.to_multiset().len() == a.len());
    assert(b.to_multiset().len() == b.len());
    if a.len() == 0 {
        assert(a.map_values(f) =~= b.map_values(f));
    } else {
        let x = a[0];
        assert(a.contains(x));
        assert(a.to_multiset().count(x) > 0);
        assert(b.to_multiset().count(x) > 0);
        assert(b.contains(x));
        let i = choose|i: int| 0 <= i < b.len() && b[i] == x;
        let a2 = a.drop_first();
        let b2 = b.remove(i);
        assert(a2 =~= a.remove(0));
        assert(a2.to_multiset() == a.to_multiset().remove(x));
        assert(b2.to_multiset() == b.to_multiset().remove(x));
        lemma_map_values_multiset(a2, b2, f);
        let ma = a2.map_values(f);
        let mb = b2.map_values(f);
        assert(a.map_values(f) =~= ma.insert(0, f(x))) by {
            ma.insert_ensures(0, f(x));
        }
        assert(b.map_values(f) =~= mb.insert(i, f(x))) by {
            mb.insert_ensures(i, f(x));
            b.remove_ensures(i);
            assert forall|k: int| 0 <= k < b.len() implies b.map_values(f)[k] == mb.insert(
                i,
                f(x),
            )[k] by {
                if k < i {
                    assert(mb[k] == f(b2[k]));
                } else if k > i {
                    assert(mb[k - 1] == f(b2[k - 1]));
                }
            }
        }
        vstd::seq_lib::to_multiset_insert(ma, 0, f(x));
        vstd::seq_lib::to_multiset_insert(mb, i, f(x));
    }
}

/// The normalized string does not depend on the order in which the pairs
/// were supplied: two pair lists with the same members normalize alike.
pub proof fn lemma_normalize_permutation(a: Seq<(Seq<u8>, Seq<u8>)>, b: Seq<(Seq<u8>, Seq<u8>)>)
    requires
        a.to_multiset() == b.to_multiset(),
    ensures
        normalize_spec(a) == normalize_spec(b),
{
    lemma_map_values_multiset(a, b, pair_string_of());
    lemma_lex_total_ordering();
    pieces_spec(a).lemma_sort_by_ensures(lex_leq_fn());
    pieces_spec(b).lemma_sort_by_ensures(lex_leq_fn());
    lemma_sorted_unique(
        pieces_spec(a).sort_by(lex_leq_fn()),
        pieces_spec(b).sort_by(lex_leq_fn()),
        lex_leq_fn(),
    );
}

/// The byte strings held by a list of byte vectors.
pub open spec fn views(ss: Seq<Vec<u8>>) -> Seq<Seq<u8>> {
    ss.map_values(|v: Vec<u8>| v@)
}

/// Append the bytes of a slice to a vector.
pub fn append_bytes(dst: &mut Vec<u8>, src: &[u8])
    ensures
        final (dst)@ == old(dst)@ + src@,
{
    proof {
        assert(dst@ + src@.take(0) =~= dst@);
    }
    let mut i: usize = 0;
    while i < src.len()
        invariant
            i <= src.len(),
            dst@ == old(dst)@ + src@.take(i as int),
        decreases src.len() - i,
    {
        let b = src[i];
        dst.push(b);
        proof {
            assert(old(dst)@ + src@.take(i as int) + seq![b] =~= old(dst)@ + src@.take(
                i as int + 1,
            ));
        }
        i = i + 1;
    }
    proof {
        assert(src@.take(src@.len() as int) =~= src@);
    }
}

/// Compare two byte strings in lexicographic order.
pub fn lex_le(a: &[u8], b: &[u8]) -> (r: bool)
    ensures
        r == lex_leq(a@, b@),
{
    let n: usize = if a.len() < b.len() {
        a.len()
    } else {
        b.len()
    };
    proof {
        assert(a@.skip(0) =~= a@);
        assert(b@.skip(0) =~= b@);
    }
    let mut i: usize = 0;
    while i < n
        invariant
            i <= n,
            n <= a.len(),
            n <= b.len(),
            n == a.len() || n == b.len(),
            lex_leq(a@, b@) == lex_leq(a@.skip(i as int), b@.skip(i as int)),
        decreases n - i,
    {
        proof {
            assert(a@.skip(i as int)[0] == a@[i as int]);
            assert(b@.skip(i as int)[0] == b@[i as int]);
        }
        if a[i] < b[i] {
            return true;
        }
        if a[i] > b[i] {
            return false;
        }
        proof {
            assert(a@.skip(i as int).drop_first() =~= a@.skip(i as int + 1));
            assert(b@.skip(i as int).drop_first() =~= b@.skip(i as int + 1));
        }
        i = i + 1;
    }
    proof {
        if n == a.len() {
            assert(a@.skip(n as int).len() == 0);
        } else {
            assert(b@.skip(n as int).len() == 0);
            assert(a@.skip(n as int).len() > 0);
        }
    }
    a.len() <= b.len()
}

/// The encoded `key=value` string of one parameter.
pub fn pair_string(p: &Param) -> (out: Vec<u8>)
    ensures
        out@ == pair_string_spec(p.key@, p.value@),
{
    let mut out = percent_encode(p.key.as_slice());
    out.push('=' as u8);
    let encoded_value = percent_encode(p.value.as_slice());
    append_bytes(&mut out, encoded_value.as_slice());
    proof {
        assert(out@ =~= pair_string_spec(p.key@, p.value@));
    }
    out
}

/// First position whose element is not below `piece`, in a sorted list.
fn find_insert_pos(sorted: &Vec<Vec<u8>>, piece: &[u8]) -> (j: usize)
    ensures
        j <= sorted.len(),
        forall|k: int| 0 <= k < j ==> lex_leq(#[trigger] views(sorted@)[k], piece@),
        j < sorted.len() ==> !lex_leq(views(sorted@)[j as int], piece@),
{
    let mut j: usize = 0;
    while j < sorted.len()
        invariant
            j <= sorted.len(),
            forall|k: int| 0 <= k < j ==> lex_leq(#[trigger] views(sorted@)[k], piece@),
        decreases sorted.len() - j,
    {
        if !lex_le(sorted[j].as_slice(), piece) {
            return j;
        }
        j = j + 1;
    }
    j
}

/// Insert a byte string into a sorted list, keeping it sorted.
fn insert_sorted(sorted: &mut Vec<Vec<u8>>, piece: Vec<u8>)
    requires
        sorted_by(views(old(sorted)@), lex_leq_fn()),
    ensures
        sorted_by(views(final (sorted)@), lex_leq_fn()),
        views(final (sorted)@).to_multiset() == views(old(sorted)@).to_multiset().insert(piece@),
{
    broadcast use group_to_multiset_ensures;

    let ghost old_views = views(sorted@);
    let j = find_insert_pos(sorted, piece.as_slice());
    let ghost p = piece@;
    proof {
        lemma_lex_total_ordering();
        if (j as int) < old_views.len() {
            lemma_lex_connected(old_views[j as int], p);
            assert(!lex_leq(old_views[j as int], p));
            assert(lex_leq(p, old_views[j as int]));
        }
    }
    sorted.insert(j, piece);
    proof {
        let new_views = views(sorted@);
        assert(new_views =~= old_views.insert(j as int, p)) by {
            old_views.insert_ensures(j as int, p);
            assert forall|k: int| 0 <= k < new_views.len() implies new_views[k] == old_views.insert(
                j as int,
                p,
            )[k] by {
                assert(new_views[k] == sorted@[k]@);
            }
        }
        vstd::seq_lib::to_multiset_insert(old_views, j as int, p);
        old_views.insert_ensures(j as int, p);
        assert forall|x: int, y: int| 0 <= x < y < new_views.len() implies lex_leq_fn()(
            new_views[x],
            new_views[y],
        ) by {
            let leq = lex_leq_fn();
            if y < j {
                assert(leq(old_views[x], old_views[y]));
            } else if x > j {
                assert(leq(old_views[x - 1], old_views[y - 1]));
            } else if x == j {
                // new_views[x] == p, y > j: p <= old_views[j] <= old_views[y-1]
                assert(new_views[y] == old_views[y - 1]);
                if y - 1 > j as int {
                    assert(leq(old_views[j as int], old_views[y - 1]));
                    lemma_lex_transitive(p, old_views[j as int], old_views[y - 1]);
                }
            } else if y == j {
                // x < j: old_views[x] <= p
                assert(new_views[x] == old_views[x]);
                assert(lex_leq(old_views[x], p));
            } else {
                // x < j < y: old_views[x] <= p and p <= old_views[y-1]
                assert(new_views[x] == old_views[x]);
                assert(new_views[y] == old_views[y - 1]);
                assert(lex_leq(old_views[x], p));
                if y - 1 == j as int {
                    assert(lex_leq(p, old_views[j as int]));
                    lemma_lex_transitive(old_views[x], p, old_views[y - 1]);
                } else {
                    assert(leq(old_views[j as int], old_views[y - 1]));
                    lemma_lex_transitive(p, old_views[j as int], old_views[y - 1]);
                    lemma_lex_transitive(old_views[x], p, old_views[y - 1]);
                }
            }
        }
    }
}

/// Normalize a parameter list: percent-encode every key and value, form
/// `key=value` pairs, sort them byte-wise, and join them with `&`.
pub fn normalize(params: &Vec<Param>) -> (out: Vec<u8>)
    ensures
        out@ == normalize_spec(params_view(params@)),
{
    broadcast use group_to_multiset_ensures;

    let mut sorted: Vec<Vec<u8>> = Vec::new();
    proof {
        assert(views(sorted@) =~= Seq::<Seq<u8>>::empty());
        assert(pieces_spec(params_view(params@.take(0))) =~= Seq::<Seq<u8>>::empty());
    }
    let mut i: usize = 0;
    while i < params.len()
        invariant
            i <= params.len(),
            sorted_by(views(sorted@), lex_leq_fn()),
            views(sorted@).to_multiset() == pieces_spec(
                params_view(params@.take(i as int)),
            ).to_multiset(),
        decreases params.len() - i,
    {
        let piece = pair_string(&params[i]);
        let ghost kv = (params@[i as int].key@, params@[i as int].value@);
        let ghost prefix = pieces_spec(params_view(params@.take(i as int)));
        proof {
            assert(params_view(params@.take(i as int + 1)) =~= params_view(
                params@.take(i as int),
            ).push(kv));
            assert(pieces_spec(params_view(params@.take(i as int)).push(kv)) =~= prefix.push(
                pair_string_spec(kv.0, kv.1),
            ));
        }
        let ghost before = views(sorted@);
        insert_sorted(&mut sorted, piece);
        proof {
            assert(views(sorted@).to_multiset() == before.to_multiset().insert(piece@));
            vstd::seq_lib::to_multiset_build(prefix, piece@);
            assert(prefix.push(piece@).to_multiset() == prefix.to_multiset().insert(piece@));
            assert(pieces_spec(params_view(params@.take(i as int + 1))) == prefix.push(piece@));
        }
        i = i + 1;
    }
    proof {
        assert(params@.take(params@.len() as int) =~= params@);
        lemma_lex_total_ordering();
        let all = pieces_spec(params_view(params@));
        all.lemma_sort_by_ensures(lex_leq_fn());
        lemma_sorted_unique(views(sorted@), all.sort_by(lex_leq_fn()), lex_leq_fn());
        assert(views(sorted@) == all.sort_by(lex_leq_fn()));
    }
    let mut out: Vec<u8> = Vec::new();
    if sorted.len() == 0 {
        return out;
    }
    append_bytes(&mut out, sorted[0].as_slice());
    proof {
        assert(views(sorted@).take(1) =~= seq![views(sorted@)[0]]);
        assert(out@ =~= views(sorted@)[0]);
        assert(join_amp(views(sorted@).take(1)) == views(sorted@)[0]);
    }
    let mut k: usize = 1;
    while k < sorted.len()
        invariant
            1 <= k <= sorted.len(),
            out@ == join_amp(views(sorted@).take(k as int)),
            views(sorted@) == pieces_spec(params_view(params@)).sort_by(lex_leq_fn()),
        decreases sorted.len() - k,
    {
        out.push('&' as u8);
        append_bytes(&mut out, sorted[k].as_slice());
        proof {
            assert(views(sorted@).take(k as int + 1) =~= views(sorted@).take(k as int).push(
                views(sorted@)[k as int],
            ));
            lemma_join_amp_push(views(sorted@).take(k as int), views(sorted@)[k as int]);
            assert(out@ =~= join_amp(views(sorted@).take(k as int + 1)));
        }
        k = k + 1;
    }
    proof {
        assert(views(sorted@).take(views(sorted@).len() as int) =~= views(sorted@));
    }
    out
}

} // verus!
