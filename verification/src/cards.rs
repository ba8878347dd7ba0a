//! The card table: the comma-separated text that describes the item and event
//! cards, read into records.
use vstd::prelude::*;
use crate::text::{parse_or_zero, parse_unsigned_chars};
use crate::util::reversed;

verus! {

/// The text of each piece of a vector of pieces.
pub open spec fn views(v: Seq<Vec<char>>) -> Seq<Seq<char>> {
    v.map_values(|x: Vec<char>| x@)
}

/// The pieces of `s` between the occurrences of `sep`; there is always one more
/// piece than there are separators.
pub open spec fn split_on(s: Seq<char>, sep: char) -> Seq<Seq<char>>
    decreases s.len(),
{
    if s.len() == 0 {
        seq![Seq::<char>::empty()]
    } else {
        let r = split_on(s.drop_last(), sep);
        if s.last() == sep {
            r.push(Seq::<char>::empty())
        } else {
            r.update(r.len() - 1, r.last().push(s.last()))
        }
    }
}

pub proof fn lemma_split_len(s: Seq<char>, sep: char)
    ensures
        split_on(s, sep).len() >= 1,
        s.len() > 0 && s.last() == sep ==> split_on(s, sep).len() >= 2,
    decreases s.len(),
{
    if s.len() > 0 {
        lemma_split_len(s.drop_last(), sep);
    }
}

/// A line without the carriage return that ends it, if one does.
pub open spec fn strip_cr(l: Seq<char>) -> Seq<char> {
    if l.len() > 0 && l.last() == '\r' {
        l.drop_last()
    } else {
        l
    }
}

/// The lines of a text: split at `\n`; a `\r` just before a `\n` belongs to the
/// line ending; a final line ending adds no empty line, and an empty text has
/// no line.
pub open spec fn spec_lines(s: Seq<char>) -> Seq<Seq<char>> {
    if s.len() == 0 {
        Seq::empty()
    } else {
        let p = split_on(s, '\n');
        let n: int = if s.last() == '\n' {
            p.len() - 1
        } else {
            p.len() as int
        };
        Seq::new(
            n as nat,
            |i: int|
                if i < p.len() - 1 {
                    strip_cr(p[i])
                } else {
                    p[i]
                },
        )
    }
}

/// The fields among the first `n` whose column has a non-empty header.
pub open spec fn kept_upto(f: Seq<Seq<char>>, h: Seq<Seq<char>>, n: nat) -> Seq<Seq<char>>
    decreases n,
{
    if n == 0 {
        Seq::empty()
    } else {
        let r = kept_upto(f, h, (n - 1) as nat);
        if h[n - 1].len() > 0 {
            r.push(f[n - 1])
        } else {
            r
        }
    }
}

/// A row's fields paired with the header's columns, as far as both go, keeping
/// those whose column is named.
pub open spec fn kept_fields(f: Seq<Seq<char>>, h: Seq<Seq<char>>) -> Seq<Seq<char>> {
    kept_upto(f, h, if f.len() <= h.len() { f.len() } else { h.len() })
}

/// What a card's attributes are, in the abstract.
pub struct AttributeView {
    pub id: u16,
    pub name: Seq<char>,
    pub set: u8,
    pub en: Seq<char>,
    pub image: Option<Seq<char>>,
    pub notes: Seq<char>,
}

pub struct ItemView {
    pub attribute: AttributeView,
}

pub struct EventView {
    pub attribute: AttributeView,
    pub items: u8,
}

pub struct SchemaView {
    pub item: ItemView,
    pub other: Option<Seq<char>>,
    pub event: EventView,
}

/// The attributes shared by item and event cards.
#[derive(Debug)]
pub struct CardAttribute {
    pub id: u16,
    pub name: String,
    pub set: u8,
    pub en: String,
    pub image: Option<String>,
    pub notes: String,
}

/// An item card.
#[derive(Debug)]
pub struct Item {
    pub attribute: CardAttribute,
}

/// An event card, with the number of items it calls for.
#[derive(Debug)]
pub struct Event {
    pub attribute: CardAttribute,
    pub items: u8,
}

/// One row of the table: an item card, an optional remark, an event card.
#[derive(Debug)]
pub struct Schema {
    pub item: Item,
    pub other: Option<String>,
    pub event: Event,
}

pub open spec fn optional_view(o: Option<String>) -> Option<Seq<char>> {
    match o {
        Some(s) => Some(s@),
        None => None,
    }
}

impl View for CardAttribute {
    type V = AttributeView;

    open spec fn view(&self) -> AttributeView {
        AttributeView {
            id: self.id,
            name: self.name@,
            set: self.set,
            en: self.en@,
            image: optional_view(self.image),
            notes: self.notes@,
        }
    }
}

impl View for Item {
    type V = ItemView;

    open spec fn view(&self) -> ItemView {
        ItemView { attribute: self.attribute@ }
    }
}

impl View for Event {
    type V = EventView;

    open spec fn view(&self) -> EventView {
        EventView { attribute: self.attribute@, items: self.items }
    }
}

impl View for Schema {
    type V = SchemaView;

    open spec fn view(&self) -> SchemaView {
        SchemaView { item: self.item@, other: optional_view(self.other), event: self.event@ }
    }
}

/// An empty field stands for no value.
pub open spec fn optional_text(s: Seq<char>) -> Option<Seq<char>> {
    if s.len() == 0 {
        None
    } else {
        Some(s)
    }
}

/// The attributes that six fields describe; a number that does not read counts
/// as zero.
pub open spec fn attribute_of(
    id: Seq<char>,
    name: Seq<char>,
    set: Seq<char>,
    en: Seq<char>,
    image: Seq<char>,
    notes: Seq<char>,
) -> AttributeView {
    AttributeView {
        id: parse_or_zero(id, 0xffff) as u16,
        name,
        set: parse_or_zero(set, 0xff) as u8,
        en,
        image: optional_text(image),
        notes,
    }
}

/// The row that the fourteen kept fields describe, in the column order
/// item id, name, set, en, image, notes; remark; event id, name, items, set,
/// en, image, notes.
pub open spec fn schema_of(f: Seq<Seq<char>>) -> SchemaView {
    SchemaView {
        item: ItemView { attribute: attribute_of(f[0], f[1], f[2], f[3], f[4], f[5]) },
        other: optional_text(f[6]),
        event: EventView {
            attribute: attribute_of(f[7], f[8], f[10], f[11], f[12], f[13]),
            items: parse_or_zero(f[9], 0xff) as u8,
        },
    }
}

/// The row that a line holds, if it has at least fourteen named fields.
pub open spec fn row_of(header: Seq<Seq<char>>, line: Seq<char>) -> Option<SchemaView> {
    let kept = kept_fields(split_on(line, ','), header);
    if kept.len() >= 14 {
        Some(schema_of(kept))
    } else {
        None
    }
}

/// The rows that the lines hold, in order, skipping lines that hold none.
pub open spec fn rows_of(header: Seq<Seq<char>>, lines: Seq<Seq<char>>) -> Seq<SchemaView>
    decreases lines.len(),
{
    if lines.len() == 0 {
        Seq::empty()
    } else {
        let r = rows_of(header, lines.drop_last());
        match row_of(header, lines.last()) {
            Some(x) => r.push(x),
            None => r,
        }
    }
}

/// The rows of a card table: its first line is the header, whose
/// comma-separated names say which columns count.
pub open spec fn card_table(data: Seq<char>) -> Seq<SchemaView> {
    let ls = spec_lines(data);
    rows_of(split_on(ls[0], ','), ls.drop_first())
}

/// The characters of a text.
pub fn text_chars(s: &str) -> (v: Vec<char>)
    ensures
        v@ == s@,
{
    let mut v: Vec<char> = Vec::new();
    for c in it: s.chars()
        invariant
            v@ == it.seq().take(it.index() as int),
            it.seq() == s@,
    {
        v.push(c);
    }
    v
}

/// A copy of some characters.
fn copy_chars(s: &Vec<char>) -> (r: Vec<char>)
    ensures
        r@ == s@,
{
    let mut r: Vec<char> = Vec::new();
    let mut i: usize = 0;
    while i < s.len()
        invariant
            i <= s.len(),
            r@ == s@.take(i as int),
        decreases s.len() - i,
    {
        r.push(s[i]);
        i = i + 1;
        assert(r@ =~= s@.take(i as int));
    }
    assert(s@.take(i as int) =~= s@);
    r
}

/// The string of some characters.
pub fn string_of(s: &Vec<char>) -> (r: String)
    ensures
        r@ == s@,
{
    let mut r = String::new();
    let mut i: usize = 0;
    while i < s.len()
        invariant
            i <= s.len(),
            r@ == s@.take(i as int),
        decreases s.len() - i,
    {
        r.push(s[i]);
        i = i + 1;
        assert(r@ =~= s@.take(i as int));
    }
    assert(s@.take(i as int) =~= s@);
    r
}

/// Splits `s` at each `sep`.
pub fn split_chars(s: &Vec<char>, sep: char) -> (pieces: Vec<Vec<char>>)
    ensures
        views(pieces@) == split_on(s@, sep),
{
    let mut pieces: Vec<Vec<char>> = Vec::new();
    let mut cur: Vec<char> = Vec::new();
    let mut i: usize = 0;
    assert(s@.take(0) =~= Seq::<char>::empty());
    assert(views(pieces@).push(cur@) =~= split_on(s@.take(0), sep));
    while i < s.len()
        invariant
            i <= s.len(),
            views(pieces@).push(cur@) == split_on(s@.take(i as int), sep),
        decreases s.len() - i,
    {
        let c = s[i];
        let ghost before = views(pieces@).push(cur@);
        assert(s@.take(i + 1).drop_last() =~= s@.take(i as int));
        assert(s@.take(i + 1).last() == c);
        if c == sep {
            pieces.push(cur);
            cur = Vec::new();
            assert(views(pieces@).push(cur@) =~= before.push(Seq::<char>::empty()));
        } else {
            cur.push(c);
            assert(views(pieces@).push(cur@) =~= before.update(
                before.len() - 1,
                before.last().push(c),
            ));
        }
        i = i + 1;
    }
    assert(s@.take(i as int) =~= s@);
    pieces.push(cur);
    pieces
}

fn strip_cr_chars(l: &Vec<char>) -> (r: Vec<char>)
    ensures
        r@ == strip_cr(l@),
{
    let mut r = copy_chars(l);
    let n = r.len();
    if n > 0 && r[n - 1] == '\r' {
        r.pop();
        assert(r@ =~= l@.drop_last());
    }
    r
}

/// The lines of a text, as `spec_lines` defines them.
pub fn lines_of(s: &Vec<char>) -> (lines: Vec<Vec<char>>)
    ensures
        views(lines@) == spec_lines(s@),
{
    let mut out: Vec<Vec<char>> = Vec::new();
    if s.len() == 0 {
        assert(views(out@) =~= spec_lines(s@));
        return out;
    }
    let p = split_chars(s, '\n');
    proof {
        lemma_split_len(s@, '\n');
        assert(views(p@).len() == p@.len());
    }
    let n: usize = if s[s.len() - 1] == '\n' { p.len() - 1 } else { p.len() };
    let ghost want = spec_lines(s@);
    assert(want.len() == n);
    let mut i: usize = 0;
    while i < n
        invariant
            i <= n,
            n <= p@.len(),
            p@.len() >= 1,
            want.len() == n,
            views(p@) == split_on(s@, '\n'),
            want == spec_lines(s@),
            s@.len() > 0,
            views(out@) == want.take(i as int),
        decreases n - i,
    {
        let line = if i < p.len() - 1 { strip_cr_chars(&p[i]) } else { copy_chars(&p[i]) };
        assert(views(p@)[i as int] == p@[i as int]@);
        assert(line@ == want[i as int]);
        let ghost prev = out@;
        out.push(line);
        assert(views(out@) =~= views(prev).push(want[i as int]));
        assert(want.take(i + 1) =~= want.take(i as int).push(want[i as int]));
        i = i + 1;
    }
    assert(want.take(n as int) =~= want);
    out
}

/// The fields of a row whose column has a non-empty header.
pub fn kept_row_fields(fields: &Vec<Vec<char>>, header: &Vec<Vec<char>>) -> (kept: Vec<Vec<char>>)
    ensures
        views(kept@) == kept_fields(views(fields@), views(header@)),
{
    let n: usize = if fields.len() <= header.len() { fields.len() } else { header.len() };
    let ghost f = views(fields@);
    let ghost h = views(header@);
    let mut kept: Vec<Vec<char>> = Vec::new();
    let mut i: usize = 0;
    assert(views(kept@) =~= kept_upto(f, h, 0));
    while i < n
        invariant
            i <= n,
            n <= fields@.len(),
            n <= header@.len(),
            f == views(fields@),
            h == views(header@),
            views(kept@) == kept_upto(f, h, i as nat),
        decreases n - i,
    {
        assert(h[i as int] == header@[i as int]@);
        assert(f[i as int] == fields@[i as int]@);
        if header[i].len() > 0 {
            let c = copy_chars(&fields[i]);
            kept.push(c);
            assert(views(kept@) =~= kept_upto(f, h, i as nat).push(f[i as int]));
        }
        i = i + 1;
    }
    kept
}

fn field_u16(f: &Vec<char>) -> (v: u16)
    ensures
        v == parse_or_zero(f@, 0xffff) as u16,
{
    match parse_unsigned_chars(f.as_slice(), 0xffff) {
        Some(v) => v as u16,
        None => 0,
    }
}

fn field_u8(f: &Vec<char>) -> (v: u8)
    ensures
        v == parse_or_zero(f@, 0xff) as u8,
{
    match parse_unsigned_chars(f.as_slice(), 0xff) {
        Some(v) => v as u8,
        None => 0,
    }
}

fn optional_field(f: &Vec<char>) -> (o: Option<String>)
    ensures
        optional_view(o) == optional_text(f@),
{
    if f.len() == 0 {
        None
    } else {
        Some(string_of(f))
    }
}

fn attribute_from(
    id: &Vec<char>,
    name: &Vec<char>,
    set: &Vec<char>,
    en: &Vec<char>,
    image: &Vec<char>,
    notes: &Vec<char>,
) -> (a: CardAttribute)
    ensures
        a@ == attribute_of(id@, name@, set@, en@, image@, notes@),
{
    CardAttribute {
        id: field_u16(id),
        name: string_of(name),
        set: field_u8(set),
        en: string_of(en),
        image: optional_field(image),
        notes: string_of(notes),
    }
}

/// The row that one line holds under the given header fields, if the line has
/// at least fourteen fields under named columns.
pub fn parse_row(header: &Vec<Vec<char>>, line: &Vec<char>) -> (row: Option<Schema>)
    ensures
        match row_of(views(header@), line@) {
            Some(x) => row is Some && row->0@ == x,
            None => row is None,
        },
        kept_fields(split_on(line@, ','), views(header@)).len() >= 14 ==> row is Some && row->0@
            == schema_of(kept_fields(split_on(line@, ','), views(header@)).take(14)),
        kept_fields(split_on(line@, ','), views(header@)).len() < 14 ==> row is None,
{
    proof {
        lemma_row_present(views(header@), line@);
    }
    let fields = split_chars(line, ',');
    let f = kept_row_fields(&fields, header);
    if f.len() < 14 {
        return None;
    }
    proof {
        assert forall|k: int| 0 <= k < 14 implies views(f@)[k] == f@[k]@ by {}
    }
    let item = Item { attribute: attribute_from(&f[0], &f[1], &f[2], &f[3], &f[4], &f[5]) };
    let other = optional_field(&f[6]);
    let event = Event {
        attribute: attribute_from(&f[7], &f[8], &f[10], &f[11], &f[12], &f[13]),
        items: field_u8(&f[9]),
    };
    Some(Schema { item, other, event })
}

/// A line yields a row exactly when at least fourteen of its fields stand
/// under named columns, and the row is built from the first fourteen of those;
/// any further fields are passed over.
pub proof fn lemma_row_present(header: Seq<Seq<char>>, line: Seq<char>)
    ensures
        kept_fields(split_on(line, ','), header).len() >= 14 ==> row_of(header, line) == Some(
            schema_of(kept_fields(split_on(line, ','), header).take(14)),
        ),
        kept_fields(split_on(line, ','), header).len() < 14 ==> row_of(header, line) is None,
{
    let k = kept_fields(split_on(line, ','), header);
    if k.len() >= 14 {
        let k14 = k.take(14);
        assert forall|i: int| 0 <= i < 14 implies #[trigger] k14[i] == k[i] by {}
        assert(schema_of(k14) == schema_of(k));
    }
}

proof fn lemma_split_append(s: Seq<char>, sep: char, f: Seq<char>)
    requires
        !f.contains(sep),
    ensures
        split_on(s + seq![sep] + f, sep) == split_on(s, sep).push(f),
    decreases f.len(),
{
    let t = s + seq![sep] + f;
    if f.len() == 0 {
        assert(f =~= Seq::<char>::empty());
        assert(t =~= s.push(sep));
        assert(t.drop_last() =~= s);
        assert(split_on(s, sep).push(f) =~= split_on(s, sep).push(Seq::<char>::empty()));
    } else {
        let g = f.drop_last();
        assert(!g.contains(sep)) by {
            if g.contains(sep) {
                let i = choose|i: int| 0 <= i < g.len() && g[i] == sep;
                assert(f[i] == sep);
            }
        }
        lemma_split_append(s, sep, g);
        assert(t.drop_last() =~= s + seq![sep] + g);
        assert(t.last() == f.last());
        assert(f.last() != sep) by {
            assert(f[f.len() - 1] == f.last());
        }
        let r = split_on(s, sep).push(g);
        assert(split_on(t, sep) == r.update(r.len() - 1, r.last().push(f.last())));
        assert(g.push(f.last()) =~= f);
        assert(r.update(r.len() - 1, r.last().push(f.last())) =~= split_on(s, sep).push(f));
    }
}

proof fn lemma_kept_upto_extend(
    f: Seq<Seq<char>>,
    h: Seq<Seq<char>>,
    x: Seq<char>,
    y: Seq<char>,
    n: nat,
)
    requires
        n <= f.len(),
        n <= h.len(),
    ensures
        kept_upto(f.push(x), h.push(y), n) == kept_upto(f, h, n),
    decreases n,
{
    if n > 0 {
        lemma_kept_upto_extend(f, h, x, y, (n - 1) as nat);
        assert(f.push(x)[n - 1] == f[n - 1]);
        assert(h.push(y)[n - 1] == h[n - 1]);
    }
}

/// Adding a column: when the header gains one more column and a line that
/// fills every column gains one more field (holding no comma), the row that
/// the line held stays as it was.
pub proof fn lemma_extra_column(
    header: Seq<Seq<char>>,
    line: Seq<char>,
    name: Seq<char>,
    field: Seq<char>,
)
    requires
        split_on(line, ',').len() == header.len(),
        !field.contains(','),
    ensures
        row_of(header, line) is Some ==> row_of(header.push(name), line + seq![','] + field)
            == row_of(header, line),
{
    let fs = split_on(line, ',');
    let n = fs.len();
    lemma_split_append(line, ',', field);
    let fs2 = split_on(line + seq![','] + field, ',');
    assert(fs2 == fs.push(field));
    let k = kept_fields(fs, header);
    let k2 = kept_fields(fs2, header.push(name));
    assert(k == kept_upto(fs, header, n));
    assert(k2 == kept_upto(fs.push(field), header.push(name), n + 1));
    lemma_kept_upto_extend(fs, header, field, name, n);
    assert(fs.push(field)[n as int] == field);
    assert(header.push(name)[n as int] == name);
    if k.len() >= 14 {
        assert(k2.len() >= k.len());
        assert forall|i: int| 0 <= i < 14 implies #[trigger] k2[i] == k[i] by {}
        assert(schema_of(k2) == schema_of(k));
    }
}

/// The rows of a card table, as `card_table` defines them. An empty text has no
/// header line, which the table needs.
pub fn parse_card_table(data: &str) -> (rows: Vec<Schema>)
    requires
        data@.len() > 0,
    ensures
        rows@.len() == card_table(data@).len(),
        forall|i: int| 0 <= i < rows@.len() ==> #[trigger] rows@[i]@ == card_table(data@)[i],
{
    let chars = text_chars(data);
    let lines = lines_of(&chars);
    let ghost ls = spec_lines(data@);
    proof {
        lemma_split_len(data@, '\n');
        assert(views(lines@).len() == lines@.len());
    }
    assert(ls.len() > 0);
    let header = split_chars(&lines[0], ',');
    assert(views(lines@)[0] == lines@[0]@);
    let ghost h = views(header@);
    let mut rows: Vec<Schema> = Vec::new();
    let mut i: usize = 1;
    assert(ls.drop_first().take(0) =~= Seq::<Seq<char>>::empty());
    while i < lines.len()
        invariant
            1 <= i <= lines@.len(),
            views(lines@) == ls,
            ls == spec_lines(data@),
            h == views(header@),
            h == split_on(ls[0], ','),
            rows@.len() == rows_of(h, ls.drop_first().take(i - 1)).len(),
            forall|k: int|
                0 <= k < rows@.len() ==> #[trigger] rows@[k]@ == rows_of(
                    h,
                    ls.drop_first().take(i - 1),
                )[k],
        decreases lines@.len() - i,
    {
        let ghost before = rows_of(h, ls.drop_first().take(i - 1));
        let ghost now = ls.drop_first().take(i as int);
        assert(now.drop_last() =~= ls.drop_first().take(i - 1));
        assert(now.last() == ls[i as int]);
        assert(ls[i as int] == lines@[i as int]@);
        let r = parse_row(&header, &lines[i]);
        match r {
            Some(x) => {
                rows.push(x);
            },
            None => {},
        }
        i = i + 1;
    }
    assert(ls.drop_first().take(i - 1) =~= ls.drop_first());
    rows
}

/// The header line of a card table, which names its columns.
pub fn header_line(data: &str) -> (header: String)
    requires
        data@.len() > 0,
    ensures
        header@ == spec_lines(data@)[0],
{
    let chars = text_chars(data);
    let lines = lines_of(&chars);
    proof {
        lemma_split_len(data@, '\n');
        assert(views(lines@).len() == lines@.len());
        assert(views(lines@)[0] == lines@[0]@);
    }
    string_of(&lines[0])
}

/// The item cards and the event cards of a card table, each in the order of
/// its rows.
pub fn parse_cards(data: &str) -> (cards: (Vec<Item>, Vec<Event>))
    requires
        data@.len() > 0,
    ensures
        cards.0@.len() == card_table(data@).len(),
        cards.1@.len() == card_table(data@).len(),
        forall|i: int|
            0 <= i < cards.0@.len() ==> #[trigger] cards.0@[i]@ == card_table(data@)[i].item,
        forall|i: int|
            0 <= i < cards.1@.len() ==> #[trigger] cards.1@[i]@ == card_table(data@)[i].event,
{
    let rows = parse_card_table(data);
    let ghost t = card_table(data@);
    let mut items: Vec<Item> = Vec::new();
    let mut events: Vec<Event> = Vec::new();
    let mut rest = rows;
    let ghost all = rest@;
    // Rows are taken from the back, so the two lists are built reversed.
    while rest.len() > 0
        invariant
            all.len() == t.len(),
            forall|k: int| 0 <= k < all.len() ==> #[trigger] all[k]@ == t[k],
            rest@ == all.take(rest@.len() as int),
            items@.len() == all.len() - rest@.len(),
            events@.len() == all.len() - rest@.len(),
            forall|k: int|
                0 <= k < items@.len() ==> #[trigger] items@[k]@ == t[all.len() - 1 - k].item,
            forall|k: int|
                0 <= k < events@.len() ==> #[trigger] events@[k]@ == t[all.len() - 1 - k].event,
        decreases rest@.len(),
    {
        let ghost j = rest@.len() - 1;
        let row = rest.pop().unwrap();
        assert(row@ == t[j]);
        assert(rest@ =~= all.take(rest@.len() as int));
        items.push(row.item);
        events.push(row.event);
    }
    let items = reversed(items);
    let events = reversed(events);
    (items, events)
}

proof fn lemma_split_last(s: Seq<char>, sep: char)
    requires
        s.len() > 0,
        s.last() != sep,
    ensures
        split_on(s, sep).last().len() > 0,
        split_on(s, sep).last().last() == s.last(),
{
    lemma_split_len(s.drop_last(), sep);
}

/// A final line ending adds no line, and so no row, to a card table: text that
/// ends with one reads as the same text without it. (A text ending in `\r`
/// is left out: there the `\r` would join the line ending.)
pub proof fn lemma_final_line_ending(s: Seq<char>)
    requires
        s.len() > 0,
        s.last() != '\n',
        s.last() != '\r',
    ensures
        spec_lines(s.push('\n')) == spec_lines(s),
        card_table(s.push('\n')) == card_table(s),
{
    let t = s.push('\n');
    assert(t.drop_last() =~= s);
    lemma_split_len(s, '\n');
    lemma_split_last(s, '\n');
    assert(spec_lines(t) =~= spec_lines(s));
}

} // verus!
