//! Import haikus from a JSON array of raw haiku text: each array element is
//! a single string with three newline-separated lines.
//!
//! Entries that do not parse as a valid 5-7-5 `Haiku` are skipped rather
//! than treated as an error, since real-world haiku collections mix in
//! looser or mis-punctuated verse.

use vstd::prelude::*;

use crate::haiku::{haiku_from_text, parse_countable, text_countable, Haiku};

verus! {

/// Declares `serde_json::Error`, which an import error carries unopened.
#[verifier::external_type_specification]
#[verifier::external_body]
pub struct ExJsonError(serde_json::Error);

/// The strings of a JSON document that is an array of strings, as
/// `serde_json::from_str::<Vec<String>>` decodes them; `None` when the
/// document is not such an array.
pub uninterp spec fn json_string_array(text: Seq<char>) -> Option<Seq<Seq<char>>>;

/// The views of some strings.
pub open spec fn string_views(v: Seq<String>) -> Seq<Seq<char>> {
    v.map_values(|s: String| s@)
}

/// Calls `serde_json::from_str::<Vec<String>>`: it succeeds exactly when
/// the text is a JSON array of strings, and then gives those strings; the
/// decoding itself is named, not restated.
#[verifier::external_body]
fn decode_string_array(text: &str) -> (r: Result<Vec<String>, serde_json::Error>)
    ensures
        r is Ok <==> json_string_array(text@) is Some,
        r matches Ok(v) ==> string_views(v@) == json_string_array(text@).unwrap(),
{
    serde_json::from_str::<Vec<String>>(text)
}

/// Why an import file could not be read at all.
#[derive(Debug)]
pub enum ImportError {
    /// The file is not a JSON array of strings.
    Json(serde_json::Error),
}

/// The outcome of an import: the haikus found, and the raw entries that
/// were not haikus.
#[derive(Debug, PartialEq, Eq)]
pub struct ImportReport {
    pub imported: Vec<Haiku>,
    pub skipped: Vec<String>,
}

impl Default for ImportReport {
    fn default() -> (r: ImportReport)
        ensures
            r.imported@.len() == 0,
            r.skipped@.len() == 0,
    {
        ImportReport { imported: Vec::new(), skipped: Vec::new() }
    }
}

/// The haiku an entry holds, if any. An entry with three non-blank lines
/// one of which counts more syllables than a `u32` holds is counted as
/// holding none (counting it would overflow).
pub open spec fn entry_haiku(e: Seq<char>) -> Option<Seq<Seq<char>>> {
    if parse_countable(e) {
        match haiku_from_text(e) {
            Ok(h) => Some(h),
            Err(_) => None,
        }
    } else {
        None
    }
}

/// The haikus held by the entries, in order.
pub open spec fn imported_of(es: Seq<Seq<char>>) -> Seq<Seq<Seq<char>>>
    decreases es.len(),
{
    if es.len() == 0 {
        seq![]
    } else {
        match entry_haiku(es.last()) {
            Some(h) => imported_of(es.drop_last()).push(h),
            None => imported_of(es.drop_last()),
        }
    }
}

/// The entries that hold no haiku, in order.
pub open spec fn skipped_of(es: Seq<Seq<char>>) -> Seq<Seq<char>>
    decreases es.len(),
{
    if es.len() == 0 {
        seq![]
    } else {
        match entry_haiku(es.last()) {
            Some(_) => skipped_of(es.drop_last()),
            None => skipped_of(es.drop_last()).push(es.last()),
        }
    }
}

impl ImportReport {
    /// This report is the classification of the entries `es`.
    pub open spec fn classifies(&self, es: Seq<Seq<char>>) -> bool {
        &&& self.imported@.len() == imported_of(es).len()
        &&& forall|i: int|
            0 <= i < self.imported@.len() ==> (#[trigger] self.imported@[i])@ == imported_of(es)[i]
        &&& string_views(self.skipped@) == skipped_of(es)
    }
}

/// Sorts raw entries into the haikus they hold and the entries skipped,
/// keeping the order of each.
pub fn classify_entries(entries: &Vec<String>) -> (report: ImportReport)
    ensures
        report.classifies(string_views(entries@)),
{
    let ghost es = string_views(entries@);
    let mut report = ImportReport { imported: Vec::new(), skipped: Vec::new() };
    let n = entries.len();
    assert(string_views(report.skipped@) =~= skipped_of(es.take(0)));
    for i in 0..n
        invariant
            n == entries@.len(),
            es == string_views(entries@),
            report.classifies(es.take(i as int)),
    {
        let ghost t = es.take(i + 1);
        assert(t.drop_last() =~= es.take(i as int));
        assert(t.last() == entries@[i as int]@);
        let entry = &entries[i];
        let text = entry.as_str();
        let fits = text_countable(text);
        let ghost old_skipped = report.skipped@;
        if fits {
            match Haiku::parse(text) {
                Ok(h) => {
                    report.imported.push(h);
                },
                Err(_) => {
                    report.skipped.push(entry.clone());
                    assert(string_views(report.skipped@) =~= string_views(old_skipped).push(
                        entry@,
                    ));
                },
            }
        } else {
            report.skipped.push(entry.clone());
            assert(string_views(report.skipped@) =~= string_views(old_skipped).push(entry@));
        }
    }
    assert(es.take(n as int) =~= es);
    report
}

/// Parses an import file: a JSON array of strings, each three
/// newline-separated lines. A file that is not such an array is an
/// `ImportError::Json`; otherwise every entry is either imported as a
/// haiku or skipped.
pub fn parse(json: &str) -> (r: Result<ImportReport, ImportError>)
    ensures
        r is Ok <==> json_string_array(json@) is Some,
        r matches Ok(report) ==> report.classifies(json_string_array(json@).unwrap()),
{
    match decode_string_array(json) {
        Ok(entries) => Ok(classify_entries(&entries)),
        Err(e) => Err(ImportError::Json(e)),
    }
}

/// An entry is imported exactly when it parses as a haiku, and then as
/// that haiku: appending an entry that parses to `h` appends `h` to the
/// imported haikus and leaves the skipped entries alone; appending one that
/// fails to parse appends it to the skipped entries and leaves the imported
/// haikus alone. (Entries whose lines count more syllables than a `u32`
/// holds are skipped, as counting them would overflow.)
pub proof fn lemma_entry_imported_iff_it_parses(es: Seq<Seq<char>>, e: Seq<char>)
    requires
        parse_countable(e),
    ensures
        haiku_from_text(e) matches Ok(h) ==> imported_of(es.push(e)) == imported_of(es).push(h)
            && skipped_of(es.push(e)) == skipped_of(es),
        haiku_from_text(e) is Err ==> imported_of(es.push(e)) == imported_of(es) && skipped_of(
            es.push(e),
        ) == skipped_of(es).push(e),
{
    assert(es.push(e).drop_last() =~= es);
}

/// A trailing newline never changes how an entry is classified: the entry
/// with a newline appended holds the same haiku, or none, as without it.
pub proof fn lemma_trailing_newline_imports_alike(e: Seq<char>)
    ensures
        entry_haiku(e.push('\n')) == entry_haiku(e),
{
    crate::haiku::lemma_trailing_newline_parses_alike(e);
}

/// Every entry is accounted for exactly once: imported or skipped.
pub proof fn lemma_every_entry_accounted(es: Seq<Seq<char>>)
    ensures
        imported_of(es).len() + skipped_of(es).len() == es.len(),
    decreases es.len(),
{
    if es.len() > 0 {
        lemma_every_entry_accounted(es.drop_last());
    }
}

/// Each skipped entry is one of the entries and holds no haiku.
pub proof fn lemma_skipped_hold_no_haiku(es: Seq<Seq<char>>)
    ensures
        forall|i: int|
            0 <= i < skipped_of(es).len() ==> es.contains(#[trigger] skipped_of(es)[i])
                && entry_haiku(skipped_of(es)[i]) is None,
    decreases es.len(),
{
    if es.len() > 0 {
        lemma_skipped_hold_no_haiku(es.drop_last());
        let s = skipped_of(es);
        let p = skipped_of(es.drop_last());
        assert forall|i: int| 0 <= i < s.len() implies es.contains(#[trigger] s[i]) && entry_haiku(
            s[i],
        ) is None by {
            if i < p.len() {
                assert(s[i] == p[i]);
                let j = choose|j: int| 0 <= j < es.drop_last().len() && es.drop_last()[j] == p[i];
                assert(es[j] == p[i]);
            } else {
                assert(s[i] == es.last());
                assert(es[es.len() - 1] == es.last());
            }
        }
    }
}

} // verus!
