//! Bounded batching of rows: the unit of write work against the
//! target store.

use vstd::prelude::*;
use vstd::arithmetic::div_mod::lemma_fundamental_div_mod_converse;

use crate::value::Row;

verus! {

/// A bounded, ordered set of pending row inserts for one table.
#[derive(Debug, Clone, PartialEq, Eq)]
pub struct Batch {
    pub rows: Vec<Row>,
}

/// All rows of a run of batches, in submission order.
pub open spec fn flatten_batches(bs: Seq<Batch>) -> Seq<Row>
    decreases bs.len(),
{
    if bs.len() == 0 {
        Seq::empty()
    } else {
        bs[0].rows@ + flatten_batches(bs.drop_first())
    }
}

/// How many batches `n` rows fill under bound `b`: `n / b`, rounded
/// up.
pub open spec fn batch_count(n: int, b: int) -> int {
    (n + b - 1) / b
}

/// How many rows the final batch of `n > 0` rows holds under bound
/// `b`: the remainder, or a full `b` when `b` divides `n`.
pub open spec fn last_batch_size(n: int, b: int) -> int {
    if n % b == 0 {
        b
    } else {
        n % b
    }
}

pub proof fn lemma_flatten_push(bs: Seq<Batch>, b: Batch)
    ensures
        flatten_batches(bs.push(b)) =~= flatten_batches(bs) + b.rows@,
    decreases bs.len(),
{
    if bs.len() == 0 {
        assert(bs.push(b)[0] == b);
        assert(bs.push(b).drop_first() =~= Seq::<Batch>::empty());
        assert(flatten_batches(bs.push(b)) == b.rows@ + flatten_batches(Seq::<Batch>::empty()));
        assert(flatten_batches(Seq::<Batch>::empty()) == Seq::<Row>::empty());
        assert(flatten_batches(bs) == Seq::<Row>::empty());
    } else {
        assert(bs.push(b)[0] == bs[0]);
        assert(bs.push(b).drop_first() =~= bs.drop_first().push(b));
        lemma_flatten_push(bs.drop_first(), b);
        assert(flatten_batches(bs.push(b)) == bs[0].rows@ + flatten_batches(
            bs.drop_first().push(b),
        ));
        assert(flatten_batches(bs.drop_first().push(b)) == flatten_batches(bs.drop_first())
            + b.rows@);
        assert(flatten_batches(bs) == bs[0].rows@ + flatten_batches(bs.drop_first()));
    }
}

/// From the structural shape of a batch run (all batches full except
/// a final partial one), the exact batch count and final batch size.
proof fn lemma_batch_shape_arith(n: int, b: int, k: int, last: int)
    requires
        b >= 1,
        k >= 1,
        1 <= last <= b,
        n == (k - 1) * b + last,
    ensures
        k == batch_count(n, b),
        last == last_batch_size(n, b),
{
    if last == b {
        assert(n == k * b) by (nonlinear_arith)
            requires
                n == (k - 1) * b + last,
                last == b,
        ;
        lemma_fundamental_div_mod_converse(n, b, k, 0);
        lemma_fundamental_div_mod_converse(n + b - 1, b, k, b - 1);
    } else {
        lemma_fundamental_div_mod_converse(n, b, k - 1, last);
        assert(n + b - 1 == k * b + (last - 1)) by (nonlinear_arith)
            requires
                n == (k - 1) * b + last,
        ;
        lemma_fundamental_div_mod_converse(n + b - 1, b, k, last - 1);
    }
}

/// Splits `rows` into consecutive batches of at most `bound` rows.
///
/// No row is dropped, duplicated, or split across a boundary: the
/// batches concatenate back to exactly the input, in order. Every
/// batch but the last is full, and the run holds exactly
/// `ceil(n / bound)` batches; zero rows make zero batches.
pub fn make_batches(rows: Vec<Row>, bound: usize) -> (bs: Vec<Batch>)
    requires
        bound >= 1,
    ensures
        flatten_batches(bs@) == rows@,
        bs@.len() == batch_count(rows@.len() as int, bound as int),
        rows@.len() == 0 ==> bs@.len() == 0,
        forall|i: int| 0 <= i < bs@.len() ==> 1 <= (#[trigger] bs@[i].rows)@.len() <= bound,
        forall|i: int| 0 <= i < bs@.len() - 1 ==> (#[trigger] bs@[i].rows)@.len() == bound,
        bs@.len() > 0 ==> bs@[bs@.len() - 1].rows@.len() == last_batch_size(
            rows@.len() as int,
            bound as int,
        ),
{
    let ghost orig = rows@;
    let mut rest = rows;
    let mut bs: Vec<Batch> = Vec::new();
    while rest.len() > 0
        invariant
            bound >= 1,
            flatten_batches(bs@) + rest@ == orig,
            forall|i: int| 0 <= i < bs@.len() ==> 1 <= (#[trigger] bs@[i].rows)@.len() <= bound,
            rest@.len() > 0 ==> forall|i: int| 0 <= i < bs@.len() ==> (
            #[trigger] bs@[i].rows)@.len() == bound,
            rest@.len() > 0 ==> orig.len() == bs@.len() * bound + rest@.len(),
            rest@.len() == 0 && bs@.len() == 0 ==> orig.len() == 0,
            rest@.len() == 0 && bs@.len() > 0 ==> {
                &&& forall|i: int| 0 <= i < bs@.len() - 1 ==> (#[trigger] bs@[i].rows)@.len()
                    == bound
                &&& orig.len() == (bs@.len() - 1) * bound + bs@[bs@.len() - 1].rows@.len()
            },
        decreases rest@.len(),
    {
        let take = if bound < rest.len() {
            bound
        } else {
            rest.len()
        };
        let ghost k = bs@.len() as int;
        let tail = rest.split_off(take);
        proof {
            lemma_flatten_push(bs@, Batch { rows: rest });
        }
        bs.push(Batch { rows: rest });
        rest = tail;
        proof {
            assert(flatten_batches(bs@) + rest@ =~= orig);
            assert((k + 1) * bound == k * bound + bound) by (nonlinear_arith);
        }
    }
    proof {
        assert(flatten_batches(bs@) + rest@ =~= flatten_batches(bs@));
        if bs@.len() > 0 {
            lemma_batch_shape_arith(
                orig.len() as int,
                bound as int,
                bs@.len() as int,
                bs@[bs@.len() - 1].rows@.len() as int,
            );
        } else {
            assert(batch_count(0, bound as int) == 0) by {
                lemma_fundamental_div_mod_converse(bound as int - 1, bound as int, 0, bound as int - 1);
            }
        }
    }
    bs
}

} // verus!
