//! Laws of coins and of the arithmetic of coin sets, stated over what the
//! values stand for.

use crate::amount::amount_limit;
use crate::coin::{
    coin_split_index, coin_text, is_coin_text_char, is_digit_run, lemma_digit_run, parse_coin,
    CoinModel,
};
use crate::denom::is_valid_denom;
use crate::coins::{
    amount_in, canonical, coin_order, denoms_valid, lemma_amounts_determine,
    lemma_coin_le_total, nonzero_coins, ordered, positive, sanitized,
};
use crate::merge::{combine, is_combination, sums_fit, Combine};
use crate::text::{dec_repr, is_digit, lemma_dec_repr};
use vstd::prelude::*;
use vstd::relations::sorted_by;
use vstd::seq_lib::lemma_sorted_unique;

verus! {

/// Round trip: writing a coin of a valid denomination as its decimal amount
/// followed by the denomination, and reading that text, gives the coin back.
pub proof fn law_text_round_trip(c: CoinModel)
    requires
        is_valid_denom(c.denom),
        c.amount < amount_limit(),
    ensures
        parse_coin(coin_text(c)) == Some(c),
{
    let d = dec_repr(c.amount);
    let s = d + c.denom;
    lemma_dec_repr(c.amount);
    assert(s[d.len() as int] == c.denom[0]);
    assert forall|i: int| 0 <= i < d.len() implies is_digit(#[trigger] s[i]) by {
        assert(s[i] == d[i]);
    }
    assert(is_digit_run(s, d.len() as int));
    lemma_digit_run(s, d.len() as int);
    assert(coin_split_index(s) == d.len());
    assert forall|i: int| d.len() <= i < s.len() implies is_coin_text_char(#[trigger] s[i]) by {
        assert(s[i] == c.denom[i - d.len()]);
    }
    assert(s.subrange(0, d.len() as int) =~= d);
    assert(s.subrange(d.len() as int, s.len() as int) =~= c.denom);
}

/// A way of combining two sets has one result: two sets that both hold, of
/// every denomination, what `op` makes of the amounts of `a` and `b`, are
/// the same set.
pub proof fn law_combination_unique(
    op: Combine,
    a: Seq<CoinModel>,
    b: Seq<CoinModel>,
    x: Seq<CoinModel>,
    y: Seq<CoinModel>,
)
    requires
        is_combination(x, op, a, b),
        is_combination(y, op, a, b),
    ensures
        x == y,
{
    assert forall|d: Seq<char>| amount_in(x, d) == amount_in(y, d) by {
        assert(amount_in(x, d) == combine(op, amount_in(a, d), amount_in(b, d)));
        assert(amount_in(y, d) == combine(op, amount_in(a, d), amount_in(b, d)));
    }
    lemma_amounts_determine(x, y);
}

/// Conservation: the sum of two sets is the sum of their lesser and their
/// greater. Where the amounts of the two sets can be added, so can those of
/// the lesser and the greater.
pub proof fn law_conservation(
    a: Seq<CoinModel>,
    b: Seq<CoinModel>,
    sum: Seq<CoinModel>,
    least: Seq<CoinModel>,
    greatest: Seq<CoinModel>,
    again: Seq<CoinModel>,
)
    requires
        is_combination(sum, Combine::Sum, a, b),
        is_combination(least, Combine::Least, a, b),
        is_combination(greatest, Combine::Greatest, a, b),
        is_combination(again, Combine::Sum, least, greatest),
    ensures
        sum == again,
        sums_fit(a, b) ==> sums_fit(least, greatest),
{
    assert forall|d: Seq<char>| amount_in(sum, d) == amount_in(again, d) by {
        assert(amount_in(sum, d) == combine(Combine::Sum, amount_in(a, d), amount_in(b, d)));
        assert(amount_in(least, d) == combine(Combine::Least, amount_in(a, d), amount_in(b, d)));
        assert(amount_in(greatest, d) == combine(
            Combine::Greatest,
            amount_in(a, d),
            amount_in(b, d),
        ));
        assert(amount_in(again, d) == combine(
            Combine::Sum,
            amount_in(least, d),
            amount_in(greatest, d),
        ));
    }
    lemma_amounts_determine(sum, again);
    if sums_fit(a, b) {
        assert forall|d: Seq<char>| #[trigger]
            amount_in(least, d) + amount_in(greatest, d) < amount_limit() by {
            assert(amount_in(least, d) == combine(Combine::Least, amount_in(a, d), amount_in(b, d)));
            assert(amount_in(greatest, d) == combine(
                Combine::Greatest,
                amount_in(a, d),
                amount_in(b, d),
            ));
            assert(amount_in(a, d) + amount_in(b, d) < amount_limit());
        }
    }
}

/// The sum of three sets does not depend on which two are added first.
pub proof fn law_add_associative(
    a: Seq<CoinModel>,
    b: Seq<CoinModel>,
    c: Seq<CoinModel>,
    ab: Seq<CoinModel>,
    bc: Seq<CoinModel>,
    left: Seq<CoinModel>,
    right: Seq<CoinModel>,
)
    requires
        is_combination(ab, Combine::Sum, a, b),
        is_combination(bc, Combine::Sum, b, c),
        is_combination(left, Combine::Sum, ab, c),
        is_combination(right, Combine::Sum, a, bc),
    ensures
        left == right,
{
    assert forall|d: Seq<char>| amount_in(left, d) == amount_in(right, d) by {
        assert(amount_in(ab, d) == combine(Combine::Sum, amount_in(a, d), amount_in(b, d)));
        assert(amount_in(bc, d) == combine(Combine::Sum, amount_in(b, d), amount_in(c, d)));
        assert(amount_in(left, d) == combine(Combine::Sum, amount_in(ab, d), amount_in(c, d)));
        assert(amount_in(right, d) == combine(Combine::Sum, amount_in(a, d), amount_in(bc, d)));
    }
    lemma_amounts_determine(left, right);
}

/// The greater of two sets holds of every denomination at least what each
/// of the two holds, and the lesser at most what each of them holds.
pub proof fn law_bounds(
    a: Seq<CoinModel>,
    b: Seq<CoinModel>,
    least: Seq<CoinModel>,
    greatest: Seq<CoinModel>,
    d: Seq<char>,
)
    requires
        is_combination(least, Combine::Least, a, b),
        is_combination(greatest, Combine::Greatest, a, b),
    ensures
        amount_in(least, d) <= amount_in(a, d) <= amount_in(greatest, d),
        amount_in(least, d) <= amount_in(b, d) <= amount_in(greatest, d),
{
    assert(amount_in(least, d) == combine(Combine::Least, amount_in(a, d), amount_in(b, d)));
    assert(amount_in(greatest, d) == combine(Combine::Greatest, amount_in(a, d), amount_in(b, d)));
}

/// Commutativity: the sum, the lesser and the greater of two sets do not
/// depend on the order in which the two are given.
pub proof fn law_commutative(
    op: Combine,
    a: Seq<CoinModel>,
    b: Seq<CoinModel>,
    x: Seq<CoinModel>,
    y: Seq<CoinModel>,
)
    requires
        op is Sum || op is Least || op is Greatest,
        is_combination(x, op, a, b),
        is_combination(y, op, b, a),
    ensures
        x == y,
{
    assert forall|d: Seq<char>| amount_in(x, d) == amount_in(y, d) by {
        assert(amount_in(x, d) == combine(op, amount_in(a, d), amount_in(b, d)));
        assert(amount_in(y, d) == combine(op, amount_in(b, d), amount_in(a, d)));
    }
    lemma_amounts_determine(x, y);
}

/// Identity: the sum of a set without zero amounts and the set without
/// coins is the set itself.
pub proof fn law_add_identity(a: Seq<CoinModel>, x: Seq<CoinModel>)
    requires
        ordered(a),
        positive(a),
        is_combination(x, Combine::Sum, a, Seq::<CoinModel>::empty()),
    ensures
        x == a,
{
    assert forall|d: Seq<char>| amount_in(x, d) == amount_in(a, d) by {
        assert(amount_in(x, d) == combine(
            Combine::Sum,
            amount_in(a, d),
            amount_in(Seq::<CoinModel>::empty(), d),
        ));
    }
    lemma_amounts_determine(x, a);
}

/// Taking from a set nothing leaves a set without zero amounts as it is,
/// and taking a set from itself leaves nothing.
pub proof fn law_sub_identity(a: Seq<CoinModel>, x: Seq<CoinModel>, y: Seq<CoinModel>)
    requires
        ordered(a),
        positive(a),
        is_combination(x, Combine::Difference, a, Seq::<CoinModel>::empty()),
        is_combination(y, Combine::Difference, a, a),
    ensures
        x == a,
        y == Seq::<CoinModel>::empty(),
{
    assert forall|d: Seq<char>| amount_in(x, d) == amount_in(a, d) by {
        assert(amount_in(x, d) == combine(
            Combine::Difference,
            amount_in(a, d),
            amount_in(Seq::<CoinModel>::empty(), d),
        ));
    }
    lemma_amounts_determine(x, a);
    assert forall|d: Seq<char>| amount_in(y, d) == amount_in(Seq::<CoinModel>::empty(), d) by {
        assert(amount_in(y, d) == combine(Combine::Difference, amount_in(a, d), amount_in(a, d)));
    }
    lemma_amounts_determine(y, Seq::<CoinModel>::empty());
}

/// A sequence without zero amounts keeps all its coins when those that are
/// worth nothing are taken out.
pub proof fn lemma_nonzero_of_positive(s: Seq<CoinModel>)
    requires
        positive(s),
    ensures
        nonzero_coins(s) == s,
    decreases s.len(),
{
    let pred = |c: CoinModel| c.amount > 0;
    if s.len() == 0 {
        assert(s.filter(pred).len() <= s.len()) by {
            s.lemma_filter_len(pred);
        }
        assert(s.filter(pred) =~= s);
    } else {
        let t = s.drop_last();
        assert forall|i: int| 0 <= i < t.len() implies (#[trigger] t[i]).amount > 0 by {
            assert(t[i] == s[i]);
        }
        lemma_nonzero_of_positive(t);
        assert(s =~= t.push(s.last()));
        assert(s[s.len() - 1].amount > 0);
        vstd::seq::Seq::lemma_filter_push(t, s.last(), pred);
    }
}

/// Building a set from the coins of a canonical set gives that set back:
/// the coins are accepted, and sanitizing them changes nothing.
pub proof fn law_new_idempotent(s: Seq<CoinModel>)
    requires
        canonical(s),
    ensures
        sanitized(s) == s,
        ordered(sanitized(s)),
        denoms_valid(sanitized(s)),
{
    lemma_nonzero_of_positive(s);
    lemma_coin_le_total();
    let leq = coin_order();
    s.lemma_sort_by_ensures(leq);
    assert forall|i: int, j: int| 0 <= i < j < s.len() implies #[trigger] leq(s[i], s[j]) by {
        assert(crate::text::lex_lt(s[i].denom, s[j].denom));
    }
    assert(sorted_by(s, leq));
    lemma_sorted_unique(s.sort_by(leq), s, leq);
}

/// A canonical set is in the order of coins, and no other arrangement of
/// its coins is canonical.
pub proof fn law_canonical_unique(s: Seq<CoinModel>, t: Seq<CoinModel>)
    requires
        canonical(s),
        canonical(t),
        s.to_multiset() == t.to_multiset(),
    ensures
        s == t,
{
    lemma_coin_le_total();
    let leq = coin_order();
    assert forall|i: int, j: int| 0 <= i < j < s.len() implies #[trigger] leq(s[i], s[j]) by {
        assert(crate::text::lex_lt(s[i].denom, s[j].denom));
    }
    assert forall|i: int, j: int| 0 <= i < j < t.len() implies #[trigger] leq(t[i], t[j]) by {
        assert(crate::text::lex_lt(t[i].denom, t[j].denom));
    }
    lemma_sorted_unique(s, t, leq);
}

} // verus!
