use vstd::prelude::*;
use vstd::string::*;
use crate::mediascroller::{SelectedItem, display_line, display_line_defined, display_table_line};
use crate::table::{TableEntry, blank, capitalized, is_blank};

verus! {

/// Which section the info panel shows; `1` cycles Off -> Description -> Rules.
#[derive(Clone, Copy, PartialEq, Eq, Structural, Debug)]
pub enum InfoMode {
    Off,
    Description,
    Rules,
}

impl Default for InfoMode {
    fn default() -> (r: Self)
        ensures
            r == InfoMode::Off,
    {
        InfoMode::Off
    }
}

/// The section shown after the next press of `1`.
pub open spec fn next_mode(mode: InfoMode) -> InfoMode {
    match mode {
        InfoMode::Off => InfoMode::Description,
        InfoMode::Description => InfoMode::Rules,
        InfoMode::Rules => InfoMode::Off,
    }
}

/// `1` cycles the info panel: Off -> Description -> Rules -> Off.
pub fn cycle_info_mode(digit1_just_pressed: bool, mode: &mut InfoMode)
    ensures
        *final(mode) == if digit1_just_pressed { next_mode(*old(mode)) } else { *old(mode) },
        !digit1_just_pressed ==> *final(mode) == *old(mode),
        digit1_just_pressed && *old(mode) == InfoMode::Off ==> *final(mode) == InfoMode::Description,
        digit1_just_pressed && *old(mode) == InfoMode::Description ==> *final(mode) == InfoMode::Rules,
        digit1_just_pressed && *old(mode) == InfoMode::Rules ==> *final(mode) == InfoMode::Off,
{
    if digit1_just_pressed {
        *mode = match *mode {
            InfoMode::Off => InfoMode::Description,
            InfoMode::Description => InfoMode::Rules,
            InfoMode::Rules => InfoMode::Off,
        };
    }
}

/// Three presses of `1` bring the panel back to the section it showed.
pub proof fn lemma_three_presses_cycle(mode: InfoMode)
    ensures
        next_mode(next_mode(next_mode(mode))) == mode,
        next_mode(mode) != mode,
        next_mode(InfoMode::Off) == InfoMode::Description,
        next_mode(InfoMode::Description) == InfoMode::Rules,
{
}

/// What the info panel is to show: whether it is visible, and the title and
/// body to write into it, if any.
pub struct InfoPanelUpdate {
    pub visible: bool,
    pub texts: Option<(String, String)>,
}

/// An optional text, or a placeholder where it is absent or blank.
pub open spec fn text_or(text: Option<String>, placeholder: Seq<char>) -> Seq<char> {
    match text {
        Some(t) if !is_blank(t@) => t@,
        _ => placeholder,
    }
}

/// The title and body of the info panel for the table shown.
pub open spec fn panel_texts(mode: InfoMode, table: TableEntry) -> (Seq<char>, Seq<char>) {
    match mode {
        InfoMode::Rules => (
            display_line(table) + " - Rules"@,
            text_or(table.table_rules, "[no rules]"@),
        ),
        _ => (display_line(table), text_or(table.table_description, "[no description]"@)),
    }
}

/// In both sections the title is the table's display name (its name when
/// present and not blank, else its file stem, first letter upper-cased),
/// with " - Rules" after it in the rules section; the body is the section's
/// text when present and not blank, and the placeholder "[no description]"
/// or "[no rules]" otherwise.
pub proof fn lemma_panel_sections(table: TableEntry)
    ensures
        panel_texts(InfoMode::Description, table).0 == match table.table_name {
                Some(name) => if !is_blank(name@) {
                    capitalized(name@)
                } else {
                    capitalized(table.file_stem->0@)
                },
                None => capitalized(table.file_stem->0@),
            },
        panel_texts(InfoMode::Rules, table).0 == panel_texts(InfoMode::Description, table).0
            + " - Rules"@,
        panel_texts(InfoMode::Description, table).1 == match table.table_description {
            Some(d) => if !is_blank(d@) {
                d@
            } else {
                "[no description]"@
            },
            None => "[no description]"@,
        },
        panel_texts(InfoMode::Rules, table).1 == match table.table_rules {
            Some(rules) => if !is_blank(rules@) {
                rules@
            } else {
                "[no rules]"@
            },
            None => "[no rules]"@,
        },
{
}

/// The inputs on which the panel can be filled: while it shows a section
/// and tables are present, the selected index falls on a table whose
/// display name can be written.
pub open spec fn panel_defined(mode: InfoMode, tables: Seq<TableEntry>, selected: Option<usize>) -> bool {
    mode != InfoMode::Off && tables.len() > 0 ==> {
        &&& selected.unwrap_or(0) < tables.len()
        &&& display_line_defined(tables[selected.unwrap_or(0) as int])
    }
}

/// A text, or a placeholder where it is absent or blank.
fn text_or_placeholder(text: &Option<String>, placeholder: &str) -> (r: String)
    ensures
        r@ == text_or(*text, placeholder@),
{
    match text {
        Some(t) => {
            if !blank(t.as_str()) {
                t.clone()
            } else {
                String::from_str(placeholder)
            }
        },
        None => String::from_str(placeholder),
    }
}

/// The panel's visibility and contents for the current section and
/// selection: hidden with nothing to write when off, visible with nothing
/// to write when there are no tables, and otherwise visible with the
/// selected table's title and body for the section.
pub fn info_panel_update(mode: InfoMode, tables: &Vec<TableEntry>, selected: &SelectedItem) -> (r:
    InfoPanelUpdate)
    requires
        panel_defined(mode, tables@, selected.index),
    ensures
        r.visible == (mode != InfoMode::Off),
        mode == InfoMode::Off || tables@.len() == 0 ==> r.texts is None,
        mode != InfoMode::Off && tables@.len() > 0 ==> (r.texts matches Some(texts) && texts.0@
            == panel_texts(mode, tables@[selected.index.unwrap_or(0) as int]).0 && texts.1@
            == panel_texts(mode, tables@[selected.index.unwrap_or(0) as int]).1),
        mode == InfoMode::Rules && tables@.len() > 0 ==> (r.texts matches Some(texts) && ({
            let table = tables@[selected.index.unwrap_or(0) as int];
            &&& texts.0@ == match table.table_name {
                    Some(name) => if !is_blank(name@) {
                        capitalized(name@)
                    } else {
                        capitalized(table.file_stem->0@)
                    },
                    None => capitalized(table.file_stem->0@),
                } + " - Rules"@
            &&& texts.1@ == match table.table_rules {
                Some(rules) => if !is_blank(rules@) {
                    rules@
                } else {
                    "[no rules]"@
                },
                None => "[no rules]"@,
            }
        })),
        mode == InfoMode::Description && tables@.len() > 0 ==> (r.texts matches Some(texts) && ({
            let table = tables@[selected.index.unwrap_or(0) as int];
            &&& texts.0@ == match table.table_name {
                    Some(name) => if !is_blank(name@) {
                        capitalized(name@)
                    } else {
                        capitalized(table.file_stem->0@)
                    },
                    None => capitalized(table.file_stem->0@),
                }
            &&& texts.1@ == match table.table_description {
                Some(d) => if !is_blank(d@) {
                    d@
                } else {
                    "[no description]"@
                },
                None => "[no description]"@,
            }
        })),
{
    proof {
        if tables@.len() > 0 {
            lemma_panel_sections(tables@[selected.index.unwrap_or(0) as int]);
        }
    }
    let visible = mode != InfoMode::Off;
    if mode == InfoMode::Off || tables.len() == 0 {
        return InfoPanelUpdate { visible, texts: None };
    }
    let selected_index = match selected.index {
        Some(i) => i,
        None => 0,
    };
    let table = &tables[selected_index];
    let name = display_table_line(table);
    let texts = match mode {
        InfoMode::Rules => {
            let title = name.concat(" - Rules");
            (title, text_or_placeholder(&table.table_rules, "[no rules]"))
        },
        _ => (name, text_or_placeholder(&table.table_description, "[no description]")),
    };
    InfoPanelUpdate { visible, texts: Some(texts) }
}

} // verus!
