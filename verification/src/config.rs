//! The user-facing configuration the renderer consumes: the ordered
//! display items, the color table, and the display settings.

use vstd::prelude::*;

verus! {

/// One line of the report, as the user configured it.
#[derive(Debug, Clone)]
pub struct ConfigEntry {
    pub key: String,
    pub entry_type: String,
    pub value: String,
    pub color: Option<String>,
    pub value_color: Option<String>,
}

/// The display settings.
#[derive(Debug, Clone)]
pub struct DisplayConfig {
    pub items: Vec<ConfigEntry>,
    pub separator: Option<String>,
    pub ascii_path: Option<String>,
    pub ascii_color: String,
    pub use_default_ascii: Option<bool>,
    pub show_all_gpus: Option<bool>,
    pub display_mode: Option<String>,
    pub image_path: Option<String>,
    pub image_width: Option<u32>,
    pub image_height: Option<u32>,
    pub image_padding_columns: Option<usize>,
    pub image_rows: Option<usize>,
    pub image_offset_columns: Option<i32>,
    pub image_offset_rows: Option<i32>,
}

/// The whole configuration: display settings and the ordered color
/// table, consulted by name with the first match winning.
#[derive(Debug, Clone)]
pub struct Config {
    pub display: DisplayConfig,
    pub colors: Vec<(String, String)>,
}

/// The value the color table holds for `key`: the first pair with that
/// name.
pub open spec fn spec_color_lookup(table: Seq<(Seq<char>, Seq<char>)>, key: Seq<char>)
    -> Option<Seq<char>>
    decreases table.len(),
{
    if table.len() == 0 {
        None
    } else if table[0].0 == key {
        Some(table[0].1)
    } else {
        spec_color_lookup(table.subrange(1, table.len() as int), key)
    }
}

/// The view of a color table: each pair's name and value.
pub open spec fn spec_color_table(table: Seq<(String, String)>) -> Seq<(Seq<char>, Seq<char>)> {
    Seq::new(table.len(), |i: int| (table[i].0@, table[i].1@))
}

proof fn lemma_color_lookup_skip(table: Seq<(Seq<char>, Seq<char>)>, key: Seq<char>, i: int)
    requires
        0 <= i <= table.len(),
        forall|j: int| 0 <= j < i ==> table[j].0 != key,
    ensures
        spec_color_lookup(table, key) == spec_color_lookup(
            table.subrange(i, table.len() as int), key),
    decreases i,
{
    if i == 0 {
        assert(table.subrange(0, table.len() as int) =~= table);
    } else {
        assert(table.subrange(1, table.len() as int).subrange(i - 1, table.len() - 1)
            =~= table.subrange(i, table.len() as int));
        lemma_color_lookup_skip(table.subrange(1, table.len() as int), key, i - 1);
    }
}

/// Look a color key up in the table.
pub fn color_lookup<'a>(table: &'a Vec<(String, String)>, key: &str) -> (r: Option<
    &'a String,
>)
    ensures
        match r {
            Some(v) => spec_color_lookup(spec_color_table(table@), key@) == Some(v@),
            None => spec_color_lookup(spec_color_table(table@), key@) is None,
        },
{
    let ghost tv = spec_color_table(table@);
    let n = table.len();
    let mut i: usize = 0;
    while i < n
        invariant
            n == table@.len(),
            i <= n,
            tv == spec_color_table(table@),
            forall|j: int| 0 <= j < i ==> tv[j].0 != key@,
        decreases n - i,
    {
        if crate::strutil::str_eq(table[i].0.as_str(), key) {
            proof {
                lemma_color_lookup_skip(tv, key@, i as int);
            }
            return Some(&table[i].1);
        }
        i = i + 1;
    }
    proof {
        lemma_color_lookup_skip(tv, key@, n as int);
    }
    None
}

} // verus!
