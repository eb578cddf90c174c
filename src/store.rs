//! Where the alias table is kept and how it is written: a JSON document
//! `{"aliases": {<name>: <command>, ...}}` at `<home>/.config/ga/aliases.json`.
use vstd::prelude::*;
use std::collections::BTreeMap;
use crate::alias::{pairs_view, Aliases, PairView, Reply};
use crate::text::same_text;

verus! {

#[verifier::external_type_specification]
#[verifier::external_body]
pub struct ExJsonError(serde_json::Error);

/// A document's top-level members in order, each with the string pairs of
/// the object it holds.
pub type DocView = Seq<(Seq<char>, Seq<PairView>)>;

/// What `serde_json::from_str` makes of a text read as an object of objects
/// of strings: its members, or `None` where the text is no such document.
pub uninterp spec fn json_doc_of(text: Seq<char>) -> Option<
    Seq<(Seq<char>, Seq<(Seq<char>, Seq<char>)>)>,
>;

/// The text that `serde_json::to_string_pretty` writes for an object of
/// objects of strings with these members.
pub uninterp spec fn pretty_json_of(doc: Seq<(Seq<char>, Seq<(Seq<char>, Seq<char>)>)>) -> Seq<
    char,
>;

/// A document's members as character sequences.
pub open spec fn doc_view(d: Seq<(String, Vec<(String, String)>)>) -> DocView {
    d.map_values(|m: (String, Vec<(String, String)>)| (m.0@, pairs_view(m.1@)))
}

/// Relies on `serde_json::from_str`, decoding into ordered maps of strings:
/// the outcome depends on the text alone.
#[verifier::external_body]
fn decode_document(text: &str) -> (r: Result<Vec<(String, Vec<(String, String)>)>, serde_json::Error>)
    ensures
        match r {
            Ok(d) => json_doc_of(text@) == Some(doc_view(d@)),
            Err(_) => json_doc_of(text@) is None,
        },
{
    serde_json::from_str::<BTreeMap<String, BTreeMap<String, String>>>(text).map(
        |doc| doc.into_iter().map(|(k, v)| (k, v.into_iter().collect())).collect(),
    )
}

/// Relies on `serde_json::to_string_pretty`: the members are handed over as
/// ordered maps of strings, which it writes as JSON objects; the text depends
/// on the members alone. It fails only where a `Serialize` impl fails or a
/// map key is not a string, neither of which holds of maps of strings.
#[verifier::external_body]
fn encode_document(doc: &Vec<(String, Vec<(String, String)>)>) -> (r: Result<String, serde_json::Error>)
    ensures
        r is Ok,
        r matches Ok(t) ==> t@ == pretty_json_of(doc_view(doc@)),
{
    let maps: BTreeMap<&String, BTreeMap<&String, &String>> = doc.iter().map(
        |(k, v)| (k, v.iter().map(|(a, b)| (a, b)).collect()),
    ).collect();
    serde_json::to_string_pretty(&maps)
}

/// Why the table could not be located or read.
#[derive(Debug, Clone, Copy, PartialEq, Eq, Structural)]
pub enum StoreError {
    /// The home directory is unknown.
    Config,
    /// The stored text is not a valid alias document.
    Parse,
}

/// The directory that holds the alias file, and the file itself.
pub struct ConfigLocation {
    pub dir: String,
    pub file: String,
}

/// `base` joined with the relative path `part`, with a `/` between them
/// unless `base` is empty or already ends in one.
pub open spec fn join_path(base: Seq<char>, part: Seq<char>) -> Seq<char> {
    if base.len() == 0 || base.last() == '/' {
        base + part
    } else {
        base + seq!['/'] + part
    }
}

/// The configuration directory below a home directory: `<home>/.config/ga`.
pub open spec fn config_dir_of(home: Seq<char>) -> Seq<char> {
    join_path(join_path(home, seq!['.', 'c', 'o', 'n', 'f', 'i', 'g']), seq!['g', 'a'])
}

/// The alias file below a home directory: `<home>/.config/ga/aliases.json`.
pub open spec fn config_file_of(home: Seq<char>) -> Seq<char> {
    join_path(
        config_dir_of(home),
        seq!['a', 'l', 'i', 'a', 's', 'e', 's', '.', 'j', 's', 'o', 'n'],
    )
}

/// The name of the document's one member.
pub open spec fn aliases_key() -> Seq<char> {
    seq!['a', 'l', 'i', 'a', 's', 'e', 's']
}

fn join(base: &String, part: &str) -> (r: String)
    ensures
        r@ == join_path(base@, part@),
{
    let n = base.as_str().unicode_len();
    let mut r = base.clone();
    if n != 0 && base.as_str().get_char(n - 1) != '/' {
        r.append("/");
        proof {
            reveal_strlit("/");
        }
        assert("/"@ =~= seq!['/']);
    }
    r.append(part);
    r
}

/// Locates the alias file from the home directory, `None` where it is unknown.
pub fn config_location(home: Option<String>) -> (r: Result<ConfigLocation, StoreError>)
    ensures
        match home {
            None => r == Err::<ConfigLocation, StoreError>(StoreError::Config),
            Some(h) => r matches Ok(loc) && loc.dir@ == config_dir_of(h@) && loc.file@
                == config_file_of(h@),
        },
{
    match home {
        None => Err(StoreError::Config),
        Some(h) => {
            proof {
                reveal_strlit(".config");
                reveal_strlit("ga");
                reveal_strlit("aliases.json");
            }
            assert(".config"@ =~= seq!['.', 'c', 'o', 'n', 'f', 'i', 'g']);
            assert("ga"@ =~= seq!['g', 'a']);
            assert("aliases.json"@ =~= seq!['a', 'l', 'i', 'a', 's', 'e', 's', '.', 'j', 's', 'o', 'n']);
            let dir = join(&join(&h, ".config"), "ga");
            let file = join(&dir, "aliases.json");
            Ok(ConfigLocation { dir, file })
        },
    }
}

/// The pairs of the first member named `key`, if there is one.
pub open spec fn section_of(d: DocView, key: Seq<char>) -> Option<Seq<PairView>>
    decreases d.len(),
{
    if d.len() == 0 {
        None
    } else if d[0].0 == key {
        Some(d[0].1)
    } else {
        section_of(d.drop_first(), key)
    }
}

/// The table built by storing the pairs in order, a later pair replacing an
/// earlier one of the same name.
pub open spec fn fold_pairs(s: Seq<PairView>) -> Map<Seq<char>, Seq<char>>
    decreases s.len(),
{
    if s.len() == 0 {
        Map::empty()
    } else {
        fold_pairs(s.drop_last()).insert(s.last().0, s.last().1)
    }
}

/// The table a decoded document stands for, `None` where it has no
/// `aliases` member.
pub open spec fn table_of_doc(d: DocView) -> Option<Map<Seq<char>, Seq<char>>> {
    match section_of(d, aliases_key()) {
        Some(s) => Some(fold_pairs(s)),
        None => None,
    }
}

/// The document that is written for a table with these entries.
pub open spec fn document_of(entries: Seq<PairView>) -> DocView {
    seq![(aliases_key(), entries)]
}

/// The position of the first `aliases` member of a decoded document.
fn aliases_member(doc: &Vec<(String, Vec<(String, String)>)>) -> (r: Option<usize>)
    ensures
        match r {
            Some(i) => i < doc@.len() && section_of(doc_view(doc@), aliases_key()) == Some(
                pairs_view(doc@[i as int].1@),
            ),
            None => section_of(doc_view(doc@), aliases_key()) is None,
        },
{
    let ghost dv = doc_view(doc@);
    proof {
        reveal_strlit("aliases");
    }
    assert("aliases"@ =~= aliases_key());
    assert(dv.subrange(0, dv.len() as int) =~= dv);
    let mut i: usize = 0;
    while i < doc.len()
        invariant
            dv == doc_view(doc@),
            "aliases"@ == aliases_key(),
            i <= doc@.len(),
            section_of(dv, aliases_key()) == section_of(
                dv.subrange(i as int, dv.len() as int),
                aliases_key(),
            ),
        decreases doc@.len() - i,
    {
        let ghost rest = dv.subrange(i as int, dv.len() as int);
        assert(rest.drop_first() =~= dv.subrange(i + 1, dv.len() as int));
        assert(rest[0] == dv[i as int]);
        if same_text(doc[i].0.as_str(), "aliases") {
            return Some(i);
        }
        i = i + 1;
    }
    assert(dv.subrange(i as int, dv.len() as int) =~= Seq::<(Seq<char>, Seq<PairView>)>::empty());
    None
}

/// Reads the alias table from the text of the alias file.
pub fn decode_aliases(text: &str) -> (r: Result<Aliases, StoreError>)
    ensures
        match json_doc_of(text@) {
            None => r == Err::<Aliases, StoreError>(StoreError::Parse),
            Some(d) => match table_of_doc(d) {
                None => r == Err::<Aliases, StoreError>(StoreError::Parse),
                Some(m) => r matches Ok(a) && a.wf() && a@ == m,
            },
        },
{
    let doc = match decode_document(text) {
        Ok(d) => d,
        Err(_) => return Err(StoreError::Parse),
    };
    let i = match aliases_member(&doc) {
        Some(i) => i,
        None => return Err(StoreError::Parse),
    };
    let pairs = &doc[i].1;
    let ghost ps = pairs_view(pairs@);
    let mut a = Aliases::new();
    let mut j: usize = 0;
    while j < pairs.len()
        invariant
            ps == pairs_view(pairs@),
            j <= pairs@.len(),
            a.wf(),
            a@ == fold_pairs(ps.take(j as int)),
        decreases pairs@.len() - j,
    {
        let k = pairs[j].0.clone();
        let v = pairs[j].1.clone();
        a.upsert(k, v, Reply::Yes);
        assert(ps.take(j + 1).drop_last() =~= ps.take(j as int));
        j = j + 1;
    }
    assert(ps.take(j as int) =~= ps);
    Ok(a)
}

/// Loads the alias table: `None` stands for a missing file, which gives an
/// empty table; otherwise the file's text is decoded.
pub fn load_aliases(existing: Option<&str>) -> (r: Result<Aliases, StoreError>)
    ensures
        match existing {
            None => r matches Ok(a) && a.wf() && a@ == Map::<Seq<char>, Seq<char>>::empty(),
            Some(text) => match json_doc_of(text@) {
                None => r == Err::<Aliases, StoreError>(StoreError::Parse),
                Some(d) => match table_of_doc(d) {
                    None => r == Err::<Aliases, StoreError>(StoreError::Parse),
                    Some(m) => r matches Ok(a) && a.wf() && a@ == m,
                },
            },
        },
{
    match existing {
        None => Ok(Aliases::new()),
        Some(text) => decode_aliases(text),
    }
}

/// The text to write to the alias file for a table: the pretty-printed
/// document with its one `aliases` member.
pub fn save_aliases(aliases: &Aliases) -> (r: String)
    requires
        aliases.wf(),
    ensures
        r@ == pretty_json_of(document_of(aliases.pairs())),
{
    proof {
        reveal_strlit("aliases");
    }
    assert("aliases"@ =~= aliases_key());
    let doc = vec![("aliases".to_owned(), aliases.to_pairs())];
    assert(doc_view(doc@) =~= document_of(aliases.pairs()));
    match encode_document(&doc) {
        Ok(t) => t,
        // cannot happen: encoding maps of strings does not fail
        Err(_) => String::new(),
    }
}

/// With distinct names, storing the pairs one after another gives the table
/// they stand for.
pub proof fn lemma_fold_distinct(s: Seq<PairView>)
    requires
        crate::alias::keys_distinct(s),
    ensures
        fold_pairs(s) == crate::alias::table_of(s),
    decreases s.len(),
{
    if s.len() == 0 {
        assert(crate::alias::table_of(s) =~= Map::<Seq<char>, Seq<char>>::empty());
    } else {
        crate::alias::lemma_table_drop_last(s);
        lemma_fold_distinct(s.drop_last());
    }
}

/// The document written for a table stands, read back member by member, for
/// that same table: its `aliases` member holds the entries, and storing them
/// in order rebuilds the table.
pub proof fn lemma_document_round_trip(a: Aliases)
    requires
        a.wf(),
    ensures
        table_of_doc(document_of(a.pairs())) == Some(a@),
{
    lemma_fold_distinct(a.pairs());
}

} // verus!
