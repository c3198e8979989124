//! Money, and how an amount is laid out in notes.

use vstd::prelude::*;
use vstd::arithmetic::div_mod::lemma_fundamental_div_mod;
use vstd::arithmetic::mul::lemma_mul_is_commutative;

verus! {

/// An amount of money. A balance is never negative.
pub type Money = u32;

/// The sum of all balances.
pub open spec fn total(money: Seq<Money>) -> nat
    decreases money.len(),
{
    if money.len() == 0 {
        0
    } else {
        total(money.drop_last()) + money.last() as nat
    }
}

/// A sum changes by as much as the one balance that changes.
pub proof fn lemma_total_update(money: Seq<Money>, i: int, amount: Money)
    requires
        0 <= i < money.len(),
    ensures
        total(money.update(i, amount)) == total(money) - money[i] + amount,
    decreases money.len(),
{
    let changed = money.update(i, amount);
    if i == money.len() - 1 {
        assert(changed.drop_last() =~= money.drop_last());
    } else {
        lemma_total_update(money.drop_last(), i, amount);
        assert(changed.drop_last() =~= money.drop_last().update(i, amount));
    }
}

/// No balance exceeds the sum, and no two balances together do.
pub proof fn lemma_total_bounds(money: Seq<Money>, i: int, j: int)
    requires
        0 <= i < money.len(),
        0 <= j < money.len(),
    ensures
        money[i] <= total(money),
        i != j ==> money[i] + money[j] <= total(money),
    decreases money.len(),
{
    let last = money.len() - 1;
    if i < last && j < last {
        lemma_total_bounds(money.drop_last(), i, j);
    } else if i < last {
        lemma_total_bounds(money.drop_last(), i, i);
    } else if j < last {
        lemma_total_bounds(money.drop_last(), j, j);
    }
}

/// When one player pays another, the sum of the balances stays.
pub proof fn lemma_total_transfer(money: Seq<Money>, from: int, to: int, amount: Money)
    requires
        0 <= from < money.len(),
        0 <= to < money.len(),
        from != to,
        amount <= money[from],
        total(money) <= Money::MAX,
    ensures
        money[to] + amount <= Money::MAX,
        total(
            money.update(from, (money[from] - amount) as Money).update(
                to,
                (money[to] + amount) as Money,
            ),
        ) == total(money),
{
    lemma_total_bounds(money, from, to);
    let paid = money.update(from, (money[from] - amount) as Money);
    lemma_total_update(money, from, (money[from] - amount) as Money);
    lemma_total_update(paid, to, (money[to] + amount) as Money);
}

/// How many notes of each value make up an amount, largest value first.
pub type MoneySplit = [Money; 6];

/// The values of the notes, largest first.
pub const MONEY_VALUE: MoneySplit = [100, 50, 20, 10, 5, 1];

/// The value of the note at position `i`.
pub open spec fn note_value(i: int) -> nat {
    if i == 0 {
        100
    } else if i == 1 {
        50
    } else if i == 2 {
        20
    } else if i == 3 {
        10
    } else if i == 4 {
        5
    } else {
        1
    }
}

/// What is still to be laid out once the notes before position `i` are taken.
pub open spec fn left_over(input: nat, i: int) -> nat
    decreases i,
{
    if i <= 0 {
        input
    } else {
        left_over(input, i - 1) % note_value(i - 1)
    }
}

/// The number of notes at position `i`: as many as fit into what is left.
pub open spec fn note_count(input: nat, i: int) -> nat {
    left_over(input, i) / note_value(i)
}

/// The worth of the notes at the positions below `i`.
pub open spec fn worth(counts: Seq<Money>, i: int) -> nat
    decreases i,
{
    if i <= 0 {
        0
    } else {
        worth(counts, i - 1) + counts[i - 1] as nat * note_value(i - 1)
    }
}

/// Lays an amount out in notes, always taking the largest note that fits.
pub fn split_money(input: Money) -> (result: MoneySplit)
    ensures
        forall|i: int| 0 <= i < 6 ==> result@[i] == note_count(input as nat, i),
        worth(result@, 6) == input,
{
    let mut rest: Money = input;
    let mut result: MoneySplit = [0, 0, 0, 0, 0, 0];
    let mut i: usize = 0;
    while i < 6
        invariant
            0 <= i <= 6,
            rest == left_over(input as nat, i as int),
            forall|j: int| 0 <= j < i ==> result@[j] == note_count(input as nat, j),
            worth(result@, i as int) + rest == input,
        decreases 6 - i,
    {
        let value: Money = MONEY_VALUE[i];
        let ghost before = result@;
        result[i] = rest / value;
        proof {
            lemma_worth_prefix(before, result@, i as int);
            assert(rest == (rest / value) * value + rest % value) by {
                lemma_fundamental_div_mod(rest as int, value as int);
                lemma_mul_is_commutative(value as int, (rest / value) as int);
            }
        }
        rest = rest % value;
        i = i + 1;
    }
    result
}

/// The worth below a position depends on the counts below it alone.
proof fn lemma_worth_prefix(a: Seq<Money>, b: Seq<Money>, i: int)
    requires
        0 <= i <= a.len(),
        a.len() == b.len(),
        forall|j: int| 0 <= j < i ==> a[j] == b[j],
    ensures
        worth(a, i) == worth(b, i),
    decreases i,
{
    if i > 0 {
        lemma_worth_prefix(a, b, i - 1);
    }
}

} // verus!
