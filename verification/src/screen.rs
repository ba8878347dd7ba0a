//! The decisions of the terminal screen: which keys end the game, when a frame
//! is drawn, what the table frame shows where, and how far loading has got.
use vstd::prelude::*;
use vstd::string::StringExecFns;
use crate::card_widgets::{Card, CardView, GeneralList};
use crate::layout::{Constraint, Direction, Rect, parts_fit, split_area};

verus! {

/// How long the screen waits for input before it draws again, in milliseconds.
pub const POLL_MILLIS: u64 = 16;

/// Which tab of the screen is shown.
#[derive(Debug, Clone, Copy, PartialEq, Eq, Structural)]
pub enum Selector {
    Tab(usize),
}

impl Selector {
    /// The index of the selected tab.
    pub fn selected_tab(&self) -> (tab: Option<usize>)
        ensures
            match *self {
                Selector::Tab(t) => tab == Some(t),
            },
    {
        match self {
            Selector::Tab(selected) => Some(*selected),
        }
    }
}

/// The state of the game screen: whether it must be drawn again, and the game
/// data, of which there is none yet.
#[derive(Debug)]
pub struct GameState {
    pub changed: bool,
    pub states: (),
}

impl Default for GameState {
    /// A screen that has not changed.
    fn default() -> (s: Self)
        ensures
            !s.changed,
    {
        GameState { changed: false, states: () }
    }
}

/// Starts a frame: the screen is marked changed, and the mark is then taken to
/// decide whether to draw, which leaves it cleared. So every frame is drawn.
pub fn begin_frame(state: &mut GameState) -> (draw: bool)
    ensures
        draw,
        !final(state).changed,
        final(state).states == old(state).states,
{
    state.changed = true;
    let draw = state.changed;
    state.changed = false;
    draw
}

/// A key, as far as the screen tells keys apart.
#[derive(Debug, Clone, Copy, PartialEq, Eq, Structural)]
pub enum KeyCode {
    Char(char),
    Other,
}

/// Whether a key went down, repeated or came up.
#[derive(Debug, Clone, Copy, PartialEq, Eq, Structural)]
pub enum KeyKind {
    Press,
    Repeat,
    Release,
}

/// An input event of the terminal.
#[derive(Debug, Clone, Copy, PartialEq, Eq, Structural)]
pub enum TermEvent {
    Key { code: KeyCode, kind: KeyKind },
    Other,
}

/// What the screen does after an event.
#[derive(Debug, Clone, Copy, PartialEq, Eq, Structural)]
pub enum Step {
    Quit,
    Continue,
}

/// The key that ends the game.
pub open spec fn is_quit(event: TermEvent) -> bool {
    event == TermEvent::Key { code: KeyCode::Char('q'), kind: KeyKind::Press }
}

/// No key but `q` quits, however it is pressed, and `q` quits only when it
/// goes down.
pub proof fn lemma_only_q_quits(c: char, kind: KeyKind)
    ensures
        c != 'q' ==> !is_quit((TermEvent::Key { code: KeyCode::Char(c), kind })),
        kind != KeyKind::Press ==> !is_quit((TermEvent::Key { code: KeyCode::Char(c), kind })),
        !is_quit((TermEvent::Key { code: KeyCode::Other, kind })),
        !is_quit(TermEvent::Other),
        is_quit((TermEvent::Key { code: KeyCode::Char('q'), kind: KeyKind::Press })),
{
}

/// The screen's answer to an input event: pressing `q` quits; every other
/// event, the card keys `z`, `x` and `c` among them, is passed over.
pub fn handle_event(event: &TermEvent) -> (step: Step)
    ensures
        step == Step::Quit <==> *event == (TermEvent::Key {
            code: KeyCode::Char('q'),
            kind: KeyKind::Press,
        }),
        step == if is_quit(*event) {
            Step::Quit
        } else {
            Step::Continue
        },
{
    match event {
        TermEvent::Key { code, kind: KeyKind::Press } => match code {
            KeyCode::Char('q') => Step::Quit,
            KeyCode::Char('z') | KeyCode::Char('x') | KeyCode::Char('c') => Step::Continue,
            _ => Step::Continue,
        },
        _ => Step::Continue,
    }
}

/// How the table frame divides the screen: a situation above, at least three
/// rows high, and the hand below, at most five rows high.
pub open spec fn table_constraints() -> Seq<Constraint> {
    seq![Constraint::Min(3), Constraint::Max(5)]
}

/// The constraints under which the table frame divides the screen.
pub fn table_constraint_list() -> (cs: Vec<Constraint>)
    ensures
        cs@ == table_constraints(),
{
    let mut cs: Vec<Constraint> = Vec::new();
    cs.push(Constraint::Min(3));
    cs.push(Constraint::Max(5));
    assert(cs@ =~= table_constraints());
    cs
}

/// What the table frame shows: the situation card and the hand of cards laid
/// out side by side, each with the part of the screen it goes in.
pub struct TableFrame {
    pub tab: usize,
    pub situation_area: Rect,
    pub situation: Card,
    pub hand_area: Rect,
    pub hand: GeneralList<Card>,
}

/// The names of the cards in the hand that the table frame shows.
pub open spec fn hand_names() -> Seq<Seq<char>> {
    seq!["item 1"@, "item  2"@, "item 3"@]
}

fn card_named(name: &str) -> (c: Card)
    ensures
        c@.name == name@,
        c@.description == Seq::<char>::empty(),
{
    Card::from_name(String::from_str(name))
}

/// The table frame with the situation and the hand in the given parts of the
/// screen, and the given tab selected (the first when none is).
pub fn table_frame(selected: Selector, situation_area: Rect, hand_area: Rect) -> (frame: TableFrame)
    ensures
        frame.tab == match selected {
            Selector::Tab(t) => t,
        },
        frame.situation_area == situation_area,
        frame.hand_area == hand_area,
        frame.situation@.name == "situation"@,
        frame.situation@.description == Seq::<char>::empty(),
        frame.hand@.0 == Direction::Horizontal,
        frame.hand@.1.len() == 3,
        forall|i: int|
            0 <= i < 3 ==> (#[trigger] frame.hand@.1[i])@ == (CardView {
                name: hand_names()[i],
                description: Seq::<char>::empty(),
            }),
{
    let tab = match selected.selected_tab() {
        Some(t) => t,
        None => 0,
    };
    let situation = Card::new().name(String::from_str("situation"));
    let mut cards: Vec<Card> = Vec::new();
    cards.push(card_named("item 1"));
    cards.push(card_named("item  2"));
    cards.push(card_named("item 3"));
    let hand = GeneralList::new().items(cards).direction(Direction::Horizontal);
    TableFrame { tab, situation_area, situation, hand_area, hand }
}

/// The table frame for a screen of the given area, with the given tab selected
/// (the first when none is). The area is divided vertically under
/// `table_constraints`: the situation above, the hand below, each across the
/// whole width, inside the area and in that order.
pub fn plan_frame(selected: Selector, area: Rect) -> (frame: TableFrame)
    ensures
        frame.tab == match selected {
            Selector::Tab(t) => t,
        },
        parts_fit(Direction::Vertical, seq![frame.situation_area, frame.hand_area], area),
        area.y + area.height <= u16::MAX ==> {
            &&& frame.situation_area.y == area.y
            &&& frame.hand_area.y == frame.situation_area.y + frame.situation_area.height
            &&& frame.situation_area.height + frame.hand_area.height == area.height
            &&& frame.hand_area.height == if area.height >= 8 {
                5
            } else if area.height >= 3 {
                area.height - 3
            } else {
                0
            }
        },
        frame.situation@.name == "situation"@,
        frame.situation@.description == Seq::<char>::empty(),
        frame.hand@.0 == Direction::Horizontal,
        frame.hand@.1.len() == 3,
        forall|i: int|
            0 <= i < 3 ==> (#[trigger] frame.hand@.1[i])@ == (CardView {
                name: hand_names()[i],
                description: Seq::<char>::empty(),
            }),
{
    let constraints = table_constraint_list();
    let parts = split_area(Direction::Vertical, &constraints, area);
    assert(parts@ =~= seq![parts@[0], parts@[1]]);
    assert(constraints@[0] == Constraint::Min(3) && constraints@[1] == Constraint::Max(5));
    table_frame(selected, parts[0], parts[1])
}

/// How much of the loading is left to show, in percent: `len` bytes were to be
/// written, `p` of them are reported in the last message. An empty write
/// cannot be shown, nor more reported than was to be written, nor a figure
/// that overflows the count.
pub fn progress_percent(len: u16, p: u16) -> (pct: u16)
    requires
        0 < len,
        p <= len,
        (len - p) * 100 <= u16::MAX,
    ensures
        pct == (len - p) * 100 / (len as int),
        pct <= 100,
{
    let pct = ((len - p) * 100) / len;
    assert(((len - p) * 100) / (len as int) <= 100) by (nonlinear_arith)
        requires
            0 < len,
            p <= len,
    ;
    pct
}

} // verus!
