use cat_registry::args::{BreedFilter, Cmd, CmdAdd, CmdFind, CmdUpdate};
use cat_registry::cmds::Cat;
use cat_registry::render::{titles, Expect, Format, Rendering, Reply, Structured};
use cat_registry::table::{fits_cell, Escape};
use cat_registry::text::decimal_text;
use prettytable::{Cell, Row, Table};

fn tom() -> Cat {
    Cat { id: 7, name: "Tom".to_string(), age: 4, breed: Some("Tabby".to_string()) }
}

fn stray() -> Cat {
    Cat { id: 12, name: "Stray Cat".to_string(), age: 0, breed: None }
}

fn row(cells: &[&str]) -> Vec<String> {
    cells.iter().map(|cell| cell.to_string()).collect()
}

fn table(rows: &[&[&str]]) -> Table {
    let mut table = Table::new();
    table.set_titles(Row::new(vec![
        Cell::new("ID"),
        Cell::new("Name"),
        Cell::new("Age"),
        Cell::new("Breed"),
    ]));
    for cells in rows {
        table.add_row(Row::new(cells.iter().map(|cell| Cell::new(cell)).collect()));
    }
    table
}

fn texts(table: &Table) -> Vec<Vec<String>> {
    table.row_iter().map(|row| row.iter().map(|cell| cell.get_content()).collect()).collect()
}

#[test]
fn decimal_text_of_numbers() {
    assert_eq!(decimal_text(0), "0");
    assert_eq!(decimal_text(7), "7");
    assert_eq!(decimal_text(10), "10");
    assert_eq!(decimal_text(1000), "1000");
    assert_eq!(decimal_text(4294967295), "4294967295");
    assert_eq!(decimal_text(u64::MAX), "18446744073709551615");
    for n in [1u64, 9, 11, 99, 100, 101, 12345, 9876543210] {
        assert_eq!(decimal_text(n), n.to_string());
    }
}

#[test]
fn titles_are_in_row_order() {
    assert_eq!(titles(), row(&["ID", "Name", "Age", "Breed"]));
}

#[test]
fn cells_of_a_cat() {
    assert_eq!(tom().cells(), row(&["7", "Tom", "4", "Tabby"]));
    assert_eq!(stray().cells(), row(&["12", "Stray Cat", "0", "<none>"]));
}

#[test]
fn line_of_a_cat() {
    assert_eq!(tom().line(), "7 Tom 4 Tabby");
    assert_eq!(stray().line(), "12 Stray Cat 0 <none>");
}

#[test]
fn table_of_one_cat() {
    let expected = Rendering::Table(table(&[&["7", "Tom", "4", "Tabby"]]));
    assert_eq!(Reply::One(tom()).display(), expected);
    assert_eq!(Reply::Maybe(Some(tom())).display(), expected);
    assert_eq!(Reply::Many(vec![tom()]).display(), expected);
}

#[test]
fn table_of_one_cat_as_text() {
    let Rendering::Table(shown) = Reply::One(tom()).display() else {
        panic!("no table");
    };
    let lines: Vec<String> = shown.to_string().lines().map(|line| line.to_string()).collect();
    assert_eq!(
        lines,
        vec![
            "+----+------+-----+-------+",
            "| ID | Name | Age | Breed |",
            "+====+======+=====+=======+",
            "| 7  | Tom  | 4   | Tabby |",
            "+----+------+-----+-------+",
        ]
    );
}

#[test]
fn table_of_cats_keeps_their_order() {
    let shown = Reply::Many(vec![stray(), tom(), stray()]).display();
    let expected = table(&[
        &["12", "Stray Cat", "0", "<none>"],
        &["7", "Tom", "4", "Tabby"],
        &["12", "Stray Cat", "0", "<none>"],
    ]);
    assert_eq!(shown, Rendering::Table(expected));
    let Rendering::Table(shown) = shown else {
        panic!("no table");
    };
    assert_eq!(shown.len(), 3);
    assert_eq!(
        texts(&shown),
        vec![
            row(&["12", "Stray Cat", "0", "<none>"]),
            row(&["7", "Tom", "4", "Tabby"]),
            row(&["12", "Stray Cat", "0", "<none>"]),
        ]
    );
}

#[test]
fn table_has_a_row_of_four_cells_for_each_cat() {
    let cats: Vec<Cat> = (0..20u64)
        .map(|id| Cat { id, name: format!("cat {id}"), age: id as u32 * 2, breed: None })
        .collect();
    let Rendering::Table(shown) = Reply::Many(cats.clone()).display() else {
        panic!("no table");
    };
    let expected: Vec<Vec<String>> = cats.iter().map(|cat| cat.cells()).collect();
    assert_eq!(texts(&shown), expected);
}

#[test]
fn missing_cat_and_empty_list_show_the_message() {
    let message = Rendering::Message("No such cat exists".to_string());
    assert_eq!(Reply::Maybe(None).display(), message);
    assert_eq!(Reply::Many(vec![]).display(), message);
}

#[test]
fn plain_lines() {
    assert_eq!(Reply::One(tom()).plain(), vec!["7 Tom 4 Tabby"]);
    assert_eq!(Reply::Maybe(Some(stray())).plain(), vec!["12 Stray Cat 0 <none>"]);
    assert_eq!(Reply::Maybe(None).plain(), vec!["No such cat exists"]);
    assert_eq!(Reply::Many(vec![tom(), stray()]).plain(), vec!["7 Tom 4 Tabby", "12 Stray Cat 0 <none>"]);
    assert_eq!(Reply::Many(vec![]).plain(), Vec::<String>::new());
}

#[test]
fn structured_data() {
    let cats = vec![tom(), stray()];
    assert_eq!(Reply::One(tom()).structured(), Structured::One(&tom()));
    assert_eq!(Reply::Maybe(Some(tom())).structured(), Structured::One(&tom()));
    assert_eq!(Reply::Maybe(None).structured(), Structured::Empty);
    assert_eq!(Reply::Many(cats.clone()).structured(), Structured::Many(&cats));
    assert_eq!(Reply::Many(vec![]).structured(), Structured::Many(&vec![]));
}

#[test]
fn format_prefers_json_then_terminal() {
    assert_eq!(Format::select(true, true), Format::Json);
    assert_eq!(Format::select(true, false), Format::Json);
    assert_eq!(Format::select(false, true), Format::Table);
    assert_eq!(Format::select(false, false), Format::Plain);
}

#[test]
fn commands_expect_one_maybe_or_many() {
    let add = Cmd::Add { cmd: CmdAdd { name: "n".to_string(), age: 1, breed: None } };
    let find = Cmd::Find {
        cmd: CmdFind { name: None, age: None, breed: BreedFilter::NoFilter, fuzzy: false },
    };
    let update = Cmd::Update { cmd: CmdUpdate { id: 1, name: None, age: None, breed: None } };
    assert_eq!(add.expects(), Expect::One);
    assert_eq!(find.expects(), Expect::Many);
    assert_eq!(Cmd::Get { id: vec![] }.expects(), Expect::Many);
    assert_eq!(update.expects(), Expect::Maybe);
    assert_eq!(Cmd::Delete { id: 1 }.expects(), Expect::Maybe);
}

#[test]
fn reply_takes_the_first_row_where_one_cat_is_asked_for() {
    assert_eq!(Reply::new(Expect::One, vec![tom(), stray()]), Some(Reply::One(tom())));
    assert_eq!(Reply::new(Expect::One, vec![]), None);
    assert_eq!(Reply::new(Expect::Maybe, vec![stray(), tom()]), Some(Reply::Maybe(Some(stray()))));
    assert_eq!(Reply::new(Expect::Maybe, vec![]), Some(Reply::Maybe(None)));
    assert_eq!(
        Reply::new(Expect::Many, vec![tom(), stray()]),
        Some(Reply::Many(vec![tom(), stray()]))
    );
    assert_eq!(Reply::new(Expect::Many, vec![]), Some(Reply::Many(vec![])));
}

fn lines(texts: &[&str]) -> Rendering {
    Rendering::Lines(texts.iter().map(|text| text.to_string()).collect())
}

#[test]
fn cat_with_an_escape_character_is_shown_as_plain_lines() {
    let name = "\u{1b}[\u{644}\u{627}\u{644}\u{627}";
    let odd = Cat { id: 3, name: name.to_string(), age: 2, breed: None };
    assert!(!odd.tabular());
    let line = format!("3 {name} 2 <none>");
    assert_eq!(Reply::One(odd.clone()).display(), lines(&[&line]));
    assert_eq!(Reply::Maybe(Some(odd.clone())).display(), lines(&[&line]));
    assert_eq!(
        Reply::Many(vec![tom(), odd.clone(), stray()]).display(),
        lines(&["7 Tom 4 Tabby", &line, "12 Stray Cat 0 <none>"])
    );
    assert_eq!(Reply::Many(vec![odd.clone()]).plain(), vec![line]);
}

#[test]
fn line_with_more_hidden_characters_than_width_is_not_tabular() {
    let breed = "x\n\u{1b}[\u{644}\u{627}\u{644}\u{627}\r\ny";
    let odd = Cat { id: 1, name: "Tom".to_string(), age: 2, breed: Some(breed.to_string()) };
    assert!(!odd.tabular());
    let Rendering::Lines(shown) = Reply::One(odd).display() else {
        panic!("no lines");
    };
    assert_eq!(shown, vec![format!("1 Tom 2 {breed}")]);
}

#[test]
fn escape_character_alone_is_tabular() {
    let odd = Cat { id: 1, name: "\u{1b}".to_string(), age: 2, breed: Some("a\u{1b}b".to_string()) };
    assert!(odd.tabular());
    let expected = table(&[&["1", "\u{1b}", "2", "a\u{1b}b"]]);
    assert_eq!(Reply::One(odd).display(), Rendering::Table(expected));
}

#[test]
fn colour_sequence_is_tabular() {
    let name = "\u{1b}[31mTom\u{1b}[0m";
    let red = Cat { id: 4, name: name.to_string(), age: 2, breed: Some("\u{1b}[1m".to_string()) };
    assert!(red.tabular());
    let expected = table(&[&["7", "Tom", "4", "Tabby"], &["4", name, "2", "\u{1b}[1m"]]);
    assert_eq!(Reply::Many(vec![tom(), red.clone()]).display(), Rendering::Table(expected));
    let Rendering::Table(shown) = Reply::Maybe(Some(red)).display() else {
        panic!("no table");
    };
    assert_eq!(texts(&shown), vec![row(&["4", name, "2", "\u{1b}[1m"])]);
    assert!(shown.to_string().contains("| 4  | \u{1b}[31mTom\u{1b}[0m | 2   | \u{1b}[1m"));
}

#[test]
fn cats_without_an_escape_character_are_tabular() {
    assert!(tom().tabular());
    assert!(stray().tabular());
    let wide = Cat {
        id: 1,
        name: "\u{644}\u{627} [m \u{7} line\nbreak".to_string(),
        age: 2,
        breed: Some("\u{9b}[31m".to_string()),
    };
    assert!(wide.tabular());
    let Rendering::Table(shown) = Reply::Many(vec![wide, tom()]).display() else {
        panic!("no table");
    };
    assert_eq!(shown.len(), 2);
}

#[test]
fn cell_holds_the_lines_of_a_text() {
    let cat = Cat {
        id: 1,
        name: "two\r\nlines\n".to_string(),
        age: 2,
        breed: Some("one\rline".to_string()),
    };
    let Rendering::Table(shown) = Reply::One(cat).display() else {
        panic!("no table");
    };
    assert_eq!(texts(&shown), vec![row(&["1", "two\nlines", "2", "one\rline"])]);
}

#[test]
fn every_tabular_text_goes_into_a_table() {
    let alphabet = ['\u{1b}', '[', 'm', '\u{644}', '\u{627}', '\n'];
    let mut tables = 0;
    let mut others = 0;
    for code in 0..46656u32 {
        let mut rest = code;
        let mut name = String::new();
        for _ in 0..6 {
            name.push(alphabet[(rest % 6) as usize]);
            rest /= 6;
        }
        let cat = Cat { id: 1, name: name.clone(), age: 1, breed: None };
        let fits = cat.tabular();
        match Reply::One(cat).display() {
            Rendering::Table(shown) => {
                assert!(fits);
                assert_eq!(shown.len(), 1);
                tables += 1;
            }
            Rendering::Lines(shown) => {
                assert!(!fits);
                assert_eq!(shown, vec![format!("1 {name} 1 <none>")]);
                others += 1;
            }
            Rendering::Message(_) => panic!("a message for a cat"),
        }
    }
    assert_eq!(tables + others, 46656);
    assert!(tables > others);
    assert!(others > 0);
}

#[test]
fn reading_follows_the_control_sequences() {
    assert_eq!(Escape::Normal.step('a'), (Escape::Normal, false));
    assert_eq!(Escape::Normal.step('['), (Escape::Normal, false));
    assert_eq!(Escape::Normal.step('\u{1b}'), (Escape::EscapeChar, false));
    assert_eq!(Escape::EscapeChar.step('['), (Escape::OpenBracket, true));
    assert_eq!(Escape::EscapeChar.step('a'), (Escape::Normal, false));
    assert_eq!(Escape::EscapeChar.step('\u{1b}'), (Escape::Normal, false));
    assert_eq!(Escape::OpenBracket.step('3'), (Escape::OpenBracket, true));
    assert_eq!(Escape::OpenBracket.step('\u{1b}'), (Escape::OpenBracket, true));
    assert_eq!(Escape::OpenBracket.step('m'), (Escape::Normal, true));
}

#[test]
fn texts_that_fit_a_cell() {
    for text in ["", "Tom", "\u{1b}", "\u{1b}[31mred\u{1b}[0m", "\u{1b}[\u{644}\u{627}", "a\nb\r\n"] {
        assert!(fits_cell(text), "{text:?}");
    }
    for text in ["\u{1b}[\u{644}\u{627}\u{644}\u{627}", "ok\n\u{1b}[\u{644}\u{627}\u{644}\u{627}\nok"] {
        assert!(!fits_cell(text), "{text:?}");
    }
}
