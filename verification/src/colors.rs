use vstd::prelude::*;

verus! {

/// What the color document parses to: the entries of a flat JSON object of
/// string -> string, or nothing when the text is not such an object.
pub uninterp spec fn parsed_colors(text: Seq<char>) -> Option<Seq<(Seq<char>, Seq<char>)>>;

/// The views of a vector of owned string pairs.
pub open spec fn string_pairs_view(v: Seq<(String, String)>) -> Seq<(Seq<char>, Seq<char>)> {
    v.map_values(|p: (String, String)| (p.0@, p.1@))
}

/// Relies on `serde_json::from_str::<BTreeMap<String, String>>`: it succeeds
/// exactly when the text is a flat JSON object whose values are all strings,
/// and then yields the object's entries with unique keys in ascending key
/// order; the outcome is a function of the text alone.
#[verifier::external_body]
fn parse_color_entries(text: &str) -> (r: Option<Vec<(String, String)>>)
    ensures
        match r {
            Some(v) => parsed_colors(text@) == Some(string_pairs_view(v@)),
            None => parsed_colors(text@) is None,
        },
{
    match serde_json::from_str::<std::collections::BTreeMap<String, String>>(text) {
        Ok(m) => Some(m.into_iter().collect()),
        Err(_) => None,
    }
}

/// The first color recorded for `name`, or the empty string when `name` is
/// absent.
pub open spec fn color_of(entries: Seq<(Seq<char>, Seq<char>)>, name: Seq<char>) -> Seq<char>
    decreases entries.len(),
{
    if entries.len() == 0 {
        Seq::empty()
    } else if entries[0].0 == name {
        entries[0].1
    } else {
        color_of(entries.drop_first(), name)
    }
}

proof fn lemma_color_of_skip(entries: Seq<(Seq<char>, Seq<char>)>, name: Seq<char>, i: int)
    requires
        0 <= i <= entries.len(),
        forall|j: int| 0 <= j < i ==> entries[j].0 != name,
    ensures
        color_of(entries, name) == color_of(entries.skip(i), name),
    decreases i,
{
    if i > 0 {
        assert(entries[0].0 != name);
        let rest = entries.drop_first();
        assert(forall|j: int| 0 <= j < i - 1 ==> rest[j] == entries[j + 1]);
        lemma_color_of_skip(rest, name, i - 1);
        assert(rest.skip(i - 1) =~= entries.skip(i));
    } else {
        assert(entries.skip(0) =~= entries);
    }
}

/// A name recorded nowhere in the table yields the empty color — a missing
/// color degrades the display and is never an error.
pub proof fn lemma_absent_color_empty(entries: Seq<(Seq<char>, Seq<char>)>, name: Seq<char>)
    requires
        forall|j: int| 0 <= j < entries.len() ==> entries[j].0 != name,
    ensures
        color_of(entries, name) == Seq::<char>::empty(),
{
    lemma_color_of_skip(entries, name, entries.len() as int);
    assert(entries.skip(entries.len() as int) =~= Seq::<(Seq<char>, Seq<char>)>::empty());
}

/// A read-only language -> display-color table. A missing or corrupt source
/// document degrades to the empty table, whose every lookup yields the empty
/// color; it never raises an error.
pub struct ColorTable {
    entries: Vec<(String, String)>,
}

impl View for ColorTable {
    type V = Seq<(Seq<char>, Seq<char>)>;

    closed spec fn view(&self) -> Seq<(Seq<char>, Seq<char>)> {
        string_pairs_view(self.entries@)
    }
}

impl ColorTable {
    /// The table with no entries: every lookup yields the empty color.
    pub fn empty() -> (r: ColorTable)
        ensures
            r@ == Seq::<(Seq<char>, Seq<char>)>::empty(),
    {
        let r = ColorTable { entries: Vec::new() };
        proof {
            assert(r@ =~= Seq::<(Seq<char>, Seq<char>)>::empty());
        }
        r
    }

    /// Builds the table from the text of the color resource. Text that is not
    /// a flat JSON object of string -> string yields the empty table.
    pub fn from_json(text: &str) -> (r: ColorTable)
        ensures
            match parsed_colors(text@) {
                Some(es) => r@ == es,
                None => r@ == Seq::<(Seq<char>, Seq<char>)>::empty(),
            },
    {
        match parse_color_entries(text) {
            Some(entries) => ColorTable { entries },
            None => ColorTable::empty(),
        }
    }
}

/// Looks `language` up in the table: the recorded color, or the empty string
/// when the language is absent. The result is a function of the table and the
/// name alone, so for a fixed table repeated lookups agree.
pub fn get_language_color(table: &ColorTable, language: &str) -> (r: String)
    ensures
        r@ == color_of(table@, language@),
{
    let name: String = language.to_owned();
    let n = table.entries.len();
    let mut i: usize = 0;
    while i < n
        invariant
            n == table.entries@.len(),
            i <= n,
            name@ == language@,
            table@ == string_pairs_view(table.entries@),
            forall|j: int| 0 <= j < i ==> table@[j].0 != language@,
        decreases n - i,
    {
        if table.entries[i].0 == name {
            proof {
                lemma_color_of_skip(table@, language@, i as int);
                assert(table@.skip(i as int)[0] == table@[i as int]);
            }
            return table.entries[i].1.clone();
        }
        i += 1;
    }
    proof {
        lemma_absent_color_empty(table@, language@);
    }
    String::new()
}

} // verus!
