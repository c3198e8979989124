use mart::purse::{split_money, MONEY_VALUE};

#[test]
fn split_money_takes_the_largest_notes_first() {
    assert_eq!(split_money(0), [0, 0, 0, 0, 0, 0]);
    assert_eq!(split_money(1), [0, 0, 0, 0, 0, 1]);
    assert_eq!(split_money(100), [1, 0, 0, 0, 0, 0]);
    assert_eq!(split_money(186), [1, 1, 1, 1, 1, 1]);
    assert_eq!(split_money(514), [5, 0, 0, 1, 0, 4]);
    assert_eq!(split_money(99), [0, 1, 2, 0, 1, 4]);
}

#[test]
fn split_money_is_worth_the_amount() {
    for amount in [0u32, 7, 49, 100, 1234, 4_294_967_295] {
        let notes = split_money(amount);
        let mut worth: u64 = 0;
        for i in 0..6 {
            worth += notes[i] as u64 * MONEY_VALUE[i] as u64;
        }
        assert_eq!(worth, amount as u64);
    }
}
