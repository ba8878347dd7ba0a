use tui_prac::card_widgets::{Card, GeneralList};
use tui_prac::layout::{Constraint, Direction, Rect};
use tui_prac::screen::{
    begin_frame, handle_event, plan_frame, progress_percent, table_constraint_list, table_frame, GameState, KeyCode, KeyKind, Selector,
    Step, TermEvent,
};

fn key(c: char, kind: KeyKind) -> TermEvent {
    TermEvent::Key { code: KeyCode::Char(c), kind }
}

#[test]
fn only_pressing_q_quits() {
    assert_eq!(handle_event(&key('q', KeyKind::Press)), Step::Quit);
    assert_eq!(handle_event(&key('q', KeyKind::Release)), Step::Continue);
    assert_eq!(handle_event(&key('q', KeyKind::Repeat)), Step::Continue);
    for c in ['z', 'x', 'c', 'Q', 'a'] {
        assert_eq!(handle_event(&key(c, KeyKind::Press)), Step::Continue);
    }
    assert_eq!(handle_event(&TermEvent::Key { code: KeyCode::Other, kind: KeyKind::Press }), Step::Continue);
    assert_eq!(handle_event(&TermEvent::Other), Step::Continue);
}

#[test]
fn every_frame_is_drawn() {
    let mut state = GameState::default();
    assert!(!state.changed);
    assert!(begin_frame(&mut state));
    assert!(!state.changed);
    assert!(begin_frame(&mut state));
}

#[test]
fn selected_tab_is_reported() {
    assert_eq!(Selector::Tab(2).selected_tab(), Some(2));
}

#[test]
fn progress_counts_down() {
    assert_eq!(progress_percent(200, 0), 100);
    assert_eq!(progress_percent(200, 50), 75);
    assert_eq!(progress_percent(3, 1), 66);
    assert_eq!(progress_percent(10, 10), 0);
}

#[test]
fn table_frame_layout() {
    let area = Rect { x: 0, y: 0, width: 30, height: 20 };
    let frame = plan_frame(Selector::Tab(1), area);
    assert_eq!(frame.tab, 1);
    assert_eq!(frame.situation_area, Rect { x: 0, y: 0, width: 30, height: 15 });
    assert_eq!(frame.hand_area, Rect { x: 0, y: 15, width: 30, height: 5 });
    let (name, text) = frame.situation.into_parts();
    assert_eq!(name, "situation");
    assert_eq!(text, "");
    let placed = frame.hand.placements(frame.hand_area);
    let names: Vec<String> = placed.into_iter().map(|(_, c)| c.into_parts().0).collect();
    assert_eq!(names, vec!["item 1", "item  2", "item 3"]);
}

#[test]
fn hand_is_laid_out_side_by_side() {
    let list = GeneralList::new()
        .items(vec![Card::from_name("a".to_string()), Card::from_name("b".to_string()), Card::from_name("c".to_string())])
        .direction(Direction::Horizontal);
    let placed = list.placements(Rect { x: 0, y: 0, width: 9, height: 2 });
    let areas: Vec<Rect> = placed.iter().map(|(r, _)| *r).collect();
    assert_eq!(
        areas,
        vec![
            Rect { x: 0, y: 0, width: 3, height: 2 },
            Rect { x: 3, y: 0, width: 3, height: 2 },
            Rect { x: 6, y: 0, width: 3, height: 2 },
        ]
    );
}

#[test]
fn default_list_stacks_vertically() {
    let list: GeneralList<u8> = GeneralList::new().items(vec![1, 2]);
    let placed = list.placements(Rect { x: 1, y: 1, width: 4, height: 6 });
    assert_eq!(placed[0], (Rect { x: 1, y: 1, width: 4, height: 3 }, 1));
    assert_eq!(placed[1], (Rect { x: 1, y: 4, width: 4, height: 3 }, 2));
    let empty: GeneralList<u8> = GeneralList::new();
    assert!(empty.placements(Rect { x: 0, y: 0, width: 4, height: 4 }).is_empty());
}

#[test]
fn card_builders() {
    let (n, d) = Card::new().name("n".to_string()).description("d".to_string()).into_parts();
    assert_eq!((n.as_str(), d.as_str()), ("n", "d"));
    let (n, d) = Card::from_name("x".to_string()).name("y".to_string()).into_parts();
    assert_eq!((n.as_str(), d.as_str()), ("y", ""));
}

#[test]
fn items_take_the_given_parts() {
    let a = Rect { x: 0, y: 0, width: 1, height: 1 };
    let b = Rect { x: 5, y: 2, width: 3, height: 4 };
    let list: GeneralList<char> = GeneralList::new().items(vec!['p', 'q']);
    assert_eq!(list.place(vec![a, b]), vec![(a, 'p'), (b, 'q')]);
}

#[test]
fn table_frame_uses_the_given_parts() {
    let top = Rect { x: 0, y: 0, width: 10, height: 4 };
    let bottom = Rect { x: 0, y: 4, width: 10, height: 2 };
    let frame = table_frame(Selector::Tab(3), top, bottom);
    assert_eq!(frame.tab, 3);
    assert_eq!(frame.situation_area, top);
    assert_eq!(frame.hand_area, bottom);
    assert_eq!(frame.situation.into_parts().0, "situation");
}

#[test]
fn table_frame_constraints() {
    assert_eq!(table_constraint_list(), vec![Constraint::Min(3), Constraint::Max(5)]);
}
