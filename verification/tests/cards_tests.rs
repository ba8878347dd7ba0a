use tui_prac::cards::{lines_of, parse_card_table, parse_cards, split_chars, text_chars};

fn chars(s: &str) -> Vec<char> {
    s.chars().collect()
}

fn strings(v: Vec<Vec<char>>) -> Vec<String> {
    v.into_iter().map(|l| l.into_iter().collect()).collect()
}

const HEADER: &str = "iid,iname,iset,ien,iimage,inotes,other,eid,ename,eitems,eset,een,eimage,enotes";

#[test]
fn lines_agree_with_std() {
    let samples = [
        "", "a", "a\n", "a\nb", "a\r\nb\r\n", "a\r", "a\rb\n", "\n", "\n\n", "a\n\nb", "\r\n",
        "x,y\r\n\r\nz",
    ];
    for s in samples {
        let ours = strings(lines_of(&chars(s)));
        let std: Vec<String> = s.lines().map(|l| l.to_string()).collect();
        assert_eq!(ours, std, "{:?}", s);
    }
}

#[test]
fn split_agrees_with_std() {
    for s in ["", ",", "a", "a,b", ",a,", "a,,b"] {
        let ours = strings(split_chars(&chars(s), ','));
        let std: Vec<String> = s.split(',').map(|p| p.to_string()).collect();
        assert_eq!(ours, std, "{:?}", s);
    }
}

#[test]
fn text_chars_keeps_every_char() {
    assert_eq!(text_chars("añb"), vec!['a', 'ñ', 'b']);
}

#[test]
fn full_row_is_read() {
    let data = format!(
        "{}\n1,Sword,2,sword,img/sword.png,sharp,extra,10,Raid,3,4,raid,,night\n",
        HEADER
    );
    let rows = parse_card_table(&data);
    assert_eq!(rows.len(), 1);
    let r = &rows[0];
    assert_eq!(r.item.attribute.id, 1);
    assert_eq!(r.item.attribute.name, "Sword");
    assert_eq!(r.item.attribute.set, 2);
    assert_eq!(r.item.attribute.en, "sword");
    assert_eq!(r.item.attribute.image.as_deref(), Some("img/sword.png"));
    assert_eq!(r.item.attribute.notes, "sharp");
    assert_eq!(r.other.as_deref(), Some("extra"));
    assert_eq!(r.event.attribute.id, 10);
    assert_eq!(r.event.attribute.name, "Raid");
    assert_eq!(r.event.items, 3);
    assert_eq!(r.event.attribute.set, 4);
    assert_eq!(r.event.attribute.en, "raid");
    assert_eq!(r.event.attribute.image, None);
    assert_eq!(r.event.attribute.notes, "night");
}

#[test]
fn bad_numbers_count_as_zero() {
    let data = format!("{}\nx,A,300,a,,n,,70000,B,-1,+5,b,,m", HEADER);
    let rows = parse_card_table(&data);
    assert_eq!(rows.len(), 1);
    assert_eq!(rows[0].item.attribute.id, 0);
    assert_eq!(rows[0].item.attribute.set, 0);
    assert_eq!(rows[0].item.attribute.image, None);
    assert_eq!(rows[0].other, None);
    assert_eq!(rows[0].event.attribute.id, 0);
    assert_eq!(rows[0].event.items, 0);
    assert_eq!(rows[0].event.attribute.set, 5);
}

#[test]
fn unnamed_columns_are_skipped() {
    // The third column has no name: its field is passed over.
    let header = "iid,iname,,iset,ien,iimage,inotes,other,eid,ename,eitems,eset,een,eimage,enotes";
    let data = format!("{}\r\n7,Bow,ignored,1,bow,,,,8,Hunt,2,1,hunt,,\r\n", header);
    let rows = parse_card_table(&data);
    assert_eq!(rows.len(), 1);
    assert_eq!(rows[0].item.attribute.id, 7);
    assert_eq!(rows[0].item.attribute.set, 1);
    assert_eq!(rows[0].event.attribute.name, "Hunt");
    assert_eq!(rows[0].event.attribute.notes, "");
}

#[test]
fn short_rows_are_dropped() {
    let data = format!("{}\n1,2,3\n\n1,A,1,a,,n,,2,B,1,1,b,,m\n", HEADER);
    let rows = parse_card_table(&data);
    assert_eq!(rows.len(), 1);
    assert_eq!(rows[0].item.attribute.name, "A");
}

#[test]
fn header_only_table_is_empty() {
    assert_eq!(parse_card_table(HEADER).len(), 0);
}

#[test]
fn cards_come_in_row_order() {
    let data = format!(
        "{}\n1,A,1,a,,n,,2,B,1,1,b,,m\n3,C,1,c,,n,,4,D,2,1,d,,m\n",
        HEADER
    );
    let (items, events) = parse_cards(&data);
    assert_eq!(items.len(), 2);
    assert_eq!(events.len(), 2);
    assert_eq!(items[0].attribute.name, "A");
    assert_eq!(items[1].attribute.name, "C");
    assert_eq!(events[0].attribute.name, "B");
    assert_eq!(events[1].attribute.name, "D");
    assert_eq!(events[1].items, 2);
}

#[test]
fn final_line_ending_adds_no_row() {
    let body = format!("{}\n1,A,1,a,,n,,2,B,1,1,b,,m", HEADER);
    let with_end = format!("{}\n", body);
    assert_eq!(parse_card_table(&body).len(), parse_card_table(&with_end).len());
    assert_eq!(lines_of(&chars(&body)), lines_of(&chars(&with_end)));
}
