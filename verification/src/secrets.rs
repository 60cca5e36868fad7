//! The secrets file: a table of names and keys in TOML.
use crate::text::same;
use std::collections::BTreeMap;
use vstd::prelude::*;

verus! {

/// The table of strings that a TOML document spells.
pub uninterp spec fn toml_table(text: Seq<char>) -> Option<Map<Seq<char>, Seq<char>>>;

/// The TOML document for a table of strings, or why there is none.
pub uninterp spec fn toml_document(table: Map<Seq<char>, Seq<char>>) -> Result<Seq<char>, Seq<char>>;

/// Keys by name. Where a name stands twice the later entry counts.
#[derive(Debug, PartialEq, Eq)]
pub struct Secrets {
    pub entries: Vec<(String, String)>,
}

pub open spec fn table_of(entries: Seq<(String, String)>) -> Map<Seq<char>, Seq<char>>
    decreases entries.len(),
{
    if entries.len() == 0 {
        Map::empty()
    } else {
        table_of(entries.drop_last()).insert(entries.last().0@, entries.last().1@)
    }
}

impl View for Secrets {
    type V = Map<Seq<char>, Seq<char>>;

    open spec fn view(&self) -> Map<Seq<char>, Seq<char>> {
        table_of(self.entries@)
    }
}

/// The key with the name `name`, or no text at all.
pub open spec fn secret_in(table: Map<Seq<char>, Seq<char>>, name: Seq<char>) -> Seq<char> {
    if table.contains_key(name) {
        table[name]
    } else {
        Seq::empty()
    }
}

/// `toml::from_str` into a map of strings: the table that `text` spells, or nothing where it is
/// no TOML or holds something other than strings. The contract says that the outcome is a function
/// of the text.
#[verifier::external_body]
fn read_table(text: &str) -> (r: Option<Secrets>)
    ensures
        match r {
            Some(s) => toml_table(text@) == Some(s@),
            None => toml_table(text@) is None,
        },
{
    let table = toml::from_str::<BTreeMap<String, String>>(text).ok()?;
    Some(Secrets { entries: table.into_iter().collect() })
}

/// `toml::to_string_pretty` of a map of strings: a document for the table, or the text of the
/// error. The contract says that the outcome is a function of the table, and that reading such a
/// document gives the table back.
#[verifier::external_body]
fn write_table(secrets: &Secrets) -> (r: Result<String, String>)
    ensures
        match r {
            Ok(s) => toml_document(secrets@) == Ok::<Seq<char>, Seq<char>>(s@) && toml_table(s@)
                == Some(secrets@),
            Err(e) => toml_document(secrets@) == Err::<Seq<char>, Seq<char>>(e@),
        },
{
    let table: BTreeMap<String, String> = secrets.entries.iter().cloned().collect();
    toml::to_string_pretty(&table).map_err(|e| e.to_string())
}

proof fn lemma_replace(entries: Seq<(String, String)>, i: int, name: String, value: String)
    requires
        0 <= i < entries.len(),
        entries[i].0@ == name@,
        forall|k: int| i < k < entries.len() ==> (#[trigger] entries[k]).0@ != name@,
    ensures
        table_of(entries.update(i, (name, value))) == table_of(entries).insert(name@, value@),
    decreases entries.len(),
{
    let updated = entries.update(i, (name, value));
    if i == entries.len() - 1 {
        assert(updated.drop_last() =~= entries.drop_last());
        assert(table_of(updated) =~= table_of(entries).insert(name@, value@));
    } else {
        lemma_replace(entries.drop_last(), i, name, value);
        assert(updated.drop_last() =~= entries.drop_last().update(i, (name, value)));
        assert(updated.last() == entries.last());
        assert(table_of(updated) =~= table_of(entries).insert(name@, value@));
    }
}

impl Secrets {
    pub fn new() -> (r: Self)
        ensures
            r@ == Map::<Seq<char>, Seq<char>>::empty(),
    {
        Secrets { entries: Vec::new() }
    }

    /// The place of the entry that counts for `name`.
    fn position(&self, name: &str) -> (r: Option<usize>)
        ensures
            match r {
                Some(i) => {
                    &&& i < self.entries@.len()
                    &&& self.entries@[i as int].0@ == name@
                    &&& forall|k: int|
                        i < k < self.entries@.len() ==> (#[trigger] self.entries@[k]).0@ != name@
                    &&& self@.contains_key(name@)
                    &&& self@[name@] == self.entries@[i as int].1@
                },
                None => !self@.contains_key(name@),
            },
    {
        let mut i: usize = self.entries.len();
        assert(self.entries@.take(i as int) =~= self.entries@);
        while i > 0
            invariant
                i <= self.entries.len(),
                forall|k: int|
                    i <= k < self.entries@.len() ==> (#[trigger] self.entries@[k]).0@ != name@,
                self@.contains_key(name@) == table_of(self.entries@.take(i as int)).contains_key(
                    name@,
                ),
                self@.contains_key(name@) ==> self@[name@] == table_of(
                    self.entries@.take(i as int),
                )[name@],
            decreases i,
        {
            assert(self.entries@.take(i as int).drop_last() =~= self.entries@.take(i - 1));
            assert(self.entries@.take(i as int).last() == self.entries@[i - 1]);
            i -= 1;
            if same(self.entries[i].0.as_str(), name) {
                return Some(i);
            }
        }
        None
    }

    /// The key with the name `name`, or no text at all.
    pub fn get(&self, name: &str) -> (r: String)
        ensures
            r@ == secret_in(self@, name@),
    {
        match self.position(name) {
            Some(i) => self.entries[i].1.clone(),
            None => String::new(),
        }
    }

    pub fn insert(&mut self, name: String, value: String)
        ensures
            final(self)@ == old(self)@.insert(name@, value@),
    {
        match self.position(name.as_str()) {
            Some(i) => {
                proof {
                    lemma_replace(self.entries@, i as int, name, value);
                }
                self.entries.set(i, (name, value));
            },
            None => {
                let ghost was = self.entries@;
                self.entries.push((name, value));
                assert(self.entries@.drop_last() =~= was);
            },
        }
    }
}

/// The table of a secrets file, empty where the file can't be read.
pub open spec fn secrets_of(text: Option<Seq<char>>) -> Map<Seq<char>, Seq<char>> {
    match text {
        Some(t) => match toml_table(t) {
            Some(m) => m,
            None => Map::empty(),
        },
        None => Map::empty(),
    }
}

/// The secrets in a file with this text, or none where the file could not be read.
pub fn load_secrets(text: Option<String>) -> (r: Secrets)
    ensures
        r@ == secrets_of(crate::text::opt_view(text)),
{
    match text {
        Some(t) => match read_table(t.as_str()) {
            Some(s) => s,
            None => Secrets::new(),
        },
        None => Secrets::new(),
    }
}

/// The text of a secrets file with the key `name` set to `value` and all else as in `text`. What
/// it spells is read back as that table.
pub fn with_secret(text: Option<String>, name: &str, value: &str) -> (r: Result<String, String>)
    ensures
        ({
            let table = secrets_of(crate::text::opt_view(text)).insert(name@, value@);
            match r {
                Ok(s) => toml_document(table) == Ok::<Seq<char>, Seq<char>>(s@) && secrets_of(
                    Some(s@),
                ) == table,
                Err(e) => toml_document(table) == Err::<Seq<char>, Seq<char>>(e@),
            }
        }),
{
    let mut secrets = load_secrets(text);
    secrets.insert(name.to_owned(), value.to_owned());
    write_table(&secrets)
}

/// A key is found under its name, as it was put there last; other names are not touched, and a name
/// that was never put there has an empty key.
pub proof fn law_a_key_is_found_under_its_name(
    table: Map<Seq<char>, Seq<char>>,
    name: Seq<char>,
    value: Seq<char>,
    other: Seq<char>,
)
    ensures
        secret_in(table.insert(name, value), name) == value,
        other != name ==> secret_in(table.insert(name, value), other) == secret_in(table, other),
        secret_in(Map::empty(), name).len() == 0,
{
}

/// Of two entries with one name the later one counts.
pub proof fn law_the_later_entry_counts(
    entries: Seq<(String, String)>,
    name: String,
    value: String,
    other: Seq<char>,
)
    ensures
        secret_in(table_of(entries.push((name, value))), name@) == value@,
        other != name@ ==> secret_in(table_of(entries.push((name, value))), other) == secret_in(
            table_of(entries),
            other,
        ),
{
    assert(entries.push((name, value)).drop_last() =~= entries);
}

/// The secrets are what the file holds; a file that can't be read, or holds no table of strings,
/// holds none.
pub proof fn law_the_secrets_are_those_of_the_file(text: Seq<char>, name: Seq<char>)
    ensures
        toml_table(text) matches Some(m) ==> secrets_of(Some(text)) == m,
        toml_table(text) is None ==> secret_in(secrets_of(Some(text)), name).len() == 0,
        secret_in(secrets_of(None), name).len() == 0,
{
}

} // verus!
