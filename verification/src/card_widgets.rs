//! The widgets of the table screen, as data: a card with a title and a text,
//! and a list that lays its items out side by side or one above another.
use vstd::prelude::*;
use crate::layout::{Constraint, Direction, Rect, fits_on_screen, parts_fit, span, split_area, tiles};
use crate::util::reversed;

verus! {

/// What a card shows, in the abstract.
pub struct CardView {
    pub name: Seq<char>,
    pub description: Seq<char>,
}

/// A card: a bordered box titled with its name, holding its description.
#[derive(Debug)]
pub struct Card {
    name: String,
    description: String,
}

impl View for Card {
    type V = CardView;

    closed spec fn view(&self) -> CardView {
        CardView { name: self.name@, description: self.description@ }
    }
}

impl Default for Card {
    /// A card with no name and no description.
    fn default() -> (c: Self)
        ensures
            c@.name == Seq::<char>::empty(),
            c@.description == Seq::<char>::empty(),
    {
        Card { name: String::new(), description: String::new() }
    }
}

impl Card {
    /// A card with the given name and no description.
    pub fn from_name(s: String) -> (c: Card)
        ensures
            c@.name == s@,
            c@.description == Seq::<char>::empty(),
    {
        Self::new().name(s)
    }

    /// A card with no name and no description.
    pub fn new() -> (c: Card)
        ensures
            c@.name == Seq::<char>::empty(),
            c@.description == Seq::<char>::empty(),
    {
        Self::default()
    }

    /// The card with its name replaced.
    pub fn name(self, name: String) -> (c: Card)
        ensures
            c@.name == name@,
            c@.description == self@.description,
    {
        Card { name, ..self }
    }

    /// The card with its description replaced.
    pub fn description(self, description: String) -> (c: Card)
        ensures
            c@.name == self@.name,
            c@.description == description@,
    {
        Card { description, ..self }
    }

    /// The card's name and description, to draw it with.
    pub fn into_parts(self) -> (parts: (String, String))
        ensures
            parts.0@ == self@.name,
            parts.1@ == self@.description,
    {
        (self.name, self.description)
    }
}

/// A list of items laid out in one direction, each given an equal share of the
/// area.
#[derive(Debug)]
pub struct GeneralList<W> {
    direction: Direction,
    items: Vec<W>,
}

impl<W> View for GeneralList<W> {
    type V = (Direction, Seq<W>);

    closed spec fn view(&self) -> (Direction, Seq<W>) {
        (self.direction, self.items@)
    }
}

/// One equal share for each of `n` parts.
pub open spec fn equal_shares(n: nat) -> Seq<Constraint> {
    Seq::new(n, |i: int| Constraint::Ratio(1, n as u32))
}

/// The constraints that give each of `n` parts an equal share.
pub fn equal_ratios(n: usize) -> (cs: Vec<Constraint>)
    ensures
        cs@ == equal_shares(n as nat),
{
    let mut cs: Vec<Constraint> = Vec::new();
    let d = n as u32;
    let mut i: usize = 0;
    while i < n
        invariant
            i <= n,
            d == n as u32,
            cs@ == Seq::new(i as nat, |k: int| Constraint::Ratio(1, d)),
        decreases n - i,
    {
        cs.push(Constraint::Ratio(1, d));
        i = i + 1;
        assert(cs@ =~= Seq::new(i as nat, |k: int| Constraint::Ratio(1, d)));
    }
    assert(cs@ =~= equal_shares(n as nat));
    cs
}

impl<W> GeneralList<W> {
    /// An empty list laid out in the default direction.
    pub fn new() -> (l: Self)
        ensures
            l@.0 == Direction::Vertical,
            l@.1 == Seq::<W>::empty(),
    {
        GeneralList { direction: Direction::default(), items: Vec::new() }
    }

    /// The list laid out in the given direction.
    pub fn direction(self, direction: Direction) -> (l: Self)
        ensures
            l@.0 == direction,
            l@.1 == self@.1,
    {
        GeneralList { direction, ..self }
    }

    /// The list holding the given items, in their order.
    pub fn items(self, items: Vec<W>) -> (l: Self)
        ensures
            l@.0 == self@.0,
            l@.1 == items@,
    {
        GeneralList { items, ..self }
    }

    /// The items paired with the given parts of the screen, in order: the
    /// first item goes in the first part, and so on.
    pub fn place(self, parts: Vec<Rect>) -> (placed: Vec<(Rect, W)>)
        requires
            parts@.len() == self@.1.len(),
        ensures
            placed@.len() == self@.1.len(),
            forall|i: int|
                0 <= i < placed@.len() ==> #[trigger] placed@[i] == (parts@[i], self@.1[i]),
    {
        let n = self.items.len();
        let ghost items = self.items@;
        let mut rest = self.items;
        let mut placed: Vec<(Rect, W)> = Vec::new();
        while rest.len() > 0
            invariant
                items.len() == n,
                parts@.len() == n,
                rest@ == items.take(rest@.len() as int),
                placed@.len() == n - rest@.len(),
                forall|k: int|
                    0 <= k < placed@.len() ==> #[trigger] placed@[k] == (
                        parts@[n - 1 - k],
                        items[n - 1 - k],
                    ),
            decreases rest@.len(),
        {
            let j = rest.len() - 1;
            let item = rest.pop().unwrap();
            assert(rest@ =~= items.take(rest@.len() as int));
            placed.push((parts[j], item));
        }
        reversed(placed)
    }

    /// Where each item goes when the list is drawn in `area`: the area is
    /// divided in the list's direction, asking one equal share per item, and the
    /// items take the parts in order. The parts cover the area across the
    /// direction and follow one another inside it along the direction.
    pub fn placements(self, area: Rect) -> (placed: Vec<(Rect, W)>)
        ensures
            placed@.len() == self@.1.len(),
            forall|i: int| 0 <= i < placed@.len() ==> #[trigger] placed@[i].1 == self@.1[i],
            parts_fit(self@.0, placed@.map_values(|p: (Rect, W)| p.0), area),
            fits_on_screen(self@.0, area) && self@.1.len() <= u32::MAX ==> tiles(
                self@.0,
                placed@.map_values(|p: (Rect, W)| p.0),
                area,
            ),
            fits_on_screen(self@.0, area) && self@.1.len() <= u32::MAX ==> forall|i: int, j: int|
                0 <= i < placed@.len() && 0 <= j < placed@.len() ==> span(
                    self@.0,
                    (#[trigger] placed@[i]).0,
                ) <= span(self@.0, (#[trigger] placed@[j]).0) + 1,
    {
        let cs = equal_ratios(self.items.len());
        let parts = split_area(self.direction, &cs, area);
        let placed = self.place(parts);
        assert(placed@.map_values(|p: (Rect, W)| p.0) =~= parts@);
        proof {
            if fits_on_screen(self@.0, area) && self@.1.len() <= u32::MAX && self@.1.len() > 0 {
                assert(cs@ == equal_shares(cs@.len()));
                assert forall|i: int, j: int|
                    0 <= i < placed@.len() && 0 <= j < placed@.len() implies span(
                    self@.0,
                    (#[trigger] placed@[i]).0,
                ) <= span(self@.0, (#[trigger] placed@[j]).0) + 1 by {
                    assert(placed@[i].0 == parts@[i]);
                    assert(placed@[j].0 == parts@[j]);
                }
            }
        }
        placed
    }
}

} // verus!
