use mart::card::{AuctionType, Card, CardColor, KINDS};
use mart::placeholder::PlaceHolder;
use mart::game_state::AuctionTarget;

const COLORS: [CardColor; 5] = [
    CardColor::Purple,
    CardColor::Blue,
    CardColor::Red,
    CardColor::Green,
    CardColor::Yellow,
];

#[test]
fn colours_are_ranked_from_purple_to_yellow() {
    assert_eq!(KINDS, 5);
    assert_eq!(CardColor::Purple.index(), 0);
    assert_eq!(CardColor::Blue.index(), 1);
    assert_eq!(CardColor::Red.index(), 2);
    assert_eq!(CardColor::Green.index(), 3);
    assert_eq!(CardColor::Yellow.index(), 4);
}

#[test]
fn a_colour_is_found_again_by_its_rank() {
    for (rank, color) in COLORS.iter().enumerate() {
        assert_eq!(CardColor::from_index(rank), *color);
        assert_eq!(CardColor::from_index(color.index()), *color);
        assert_eq!(CardColor::from_index(rank).index(), rank);
    }
}

#[test]
fn kinds_are_named() {
    assert_eq!(AuctionType::Free.text(), "Free");
    assert_eq!(AuctionType::Circle.text(), "Circle");
    assert_eq!(AuctionType::Fist.text(), "Fist");
    assert_eq!(AuctionType::Marked.text(), "Marked");
    assert_eq!(AuctionType::Double.text(), "Double");
}

#[test]
fn colours_have_their_style_classes() {
    assert_eq!(CardColor::Red.comp_fg(), "c-white");
    assert_eq!(CardColor::Blue.comp_fg(), "c-white");
    assert_eq!(CardColor::Purple.comp_fg(), "c-white");
    assert_eq!(CardColor::Green.comp_fg(), "c-black");
    assert_eq!(CardColor::Yellow.comp_fg(), "c-black");
    assert_eq!(CardColor::Red.comp_bg(), "bg-white");
    assert_eq!(CardColor::Blue.comp_bg(), "bg-white");
    assert_eq!(CardColor::Purple.comp_bg(), "bg-white");
    assert_eq!(CardColor::Green.comp_bg(), "bg-black");
    assert_eq!(CardColor::Yellow.comp_bg(), "bg-black");
    assert_eq!(CardColor::Red.main_fg(), "c-red-700");
    assert_eq!(CardColor::Green.main_fg(), "c-green");
    assert_eq!(CardColor::Blue.main_fg(), "c-blue");
    assert_eq!(CardColor::Purple.main_fg(), "c-purple");
    assert_eq!(CardColor::Yellow.main_fg(), "c-yellow");
    assert_eq!(CardColor::Red.main_bg(), "bg-red-600");
    assert_eq!(CardColor::Green.main_bg(), "bg-green");
    assert_eq!(CardColor::Blue.main_bg(), "bg-blue");
    assert_eq!(CardColor::Purple.main_bg(), "bg-purple");
    assert_eq!(CardColor::Yellow.main_bg(), "bg-yellow");
    assert_eq!(CardColor::Red.main_bd(), "border-red-600");
    assert_eq!(CardColor::Green.main_bd(), "border-green");
    assert_eq!(CardColor::Blue.main_bd(), "border-blue");
    assert_eq!(CardColor::Purple.main_bd(), "border-purple");
    assert_eq!(CardColor::Yellow.main_bd(), "border-yellow");
}

#[test]
fn placeholders_are_the_plainest_values() {
    let card = Card { id: 0, color: CardColor::Red, ty: AuctionType::Free };
    assert_eq!(Card::placeholder(), card);
    assert_eq!(<usize as PlaceHolder>::placeholder(), 0);
    assert_eq!(<u32 as PlaceHolder>::placeholder(), 0);
    assert_eq!(<(usize, Card) as PlaceHolder>::placeholder(), (0, card));
    assert_eq!(<(usize, u32) as PlaceHolder>::placeholder(), (0, 0));
    assert_eq!(AuctionTarget::placeholder(), AuctionTarget::Single((0, card)));
}
