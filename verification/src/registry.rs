//! The external law-identifier registry: a legacy-encoded delimited text
//! file mapping each law number to a canonical law id and name. Decoding
//! and row tokenization are the work of outside crates behind trusted
//! wrappers whose contracts speak of named results of the input bytes;
//! which columns count and how rows form the mapping is verified, and the
//! loader's result is pinned to the bytes through those names.

use crate::LawDataError;
use crate::law::{LawData, LawId};
use crate::strutil::str_eq;
use crate::xml::{
    all_starts_ok, bad_era_of, doc_events, doc_reads_clean, extract_final, extract_law_fields,
    extract_ok, first_bad_at, tokenize, xml_doc_end, xml_doc_tokens, EndModel,
};
use vstd::prelude::*;

verus! {

/// The mapping the registry file defines, kept in row order. A later row
/// with the same law number shadows an earlier one, as in a load into a
/// map the last row would have the final word.
pub struct Registry {
    /// The rows: law number paired with the canonical id and name.
    pub entries: Vec<(String, LawId)>,
}

/// The registry entry for a law number: the value of the last row carrying
/// that number.
pub open spec fn reg_lookup(s: Seq<(String, LawId)>, key: Seq<char>) -> Option<LawId>
    decreases s.len(),
{
    if s.len() == 0 {
        None
    } else if s.last().0@ == key {
        Some(s.last().1)
    } else {
        reg_lookup(s.drop_last(), key)
    }
}

impl Registry {
    /// An empty registry.
    pub fn new() -> (r: Registry)
        ensures
            r.entries@.len() == 0,
    {
        Registry { entries: Vec::new() }
    }

    /// Adds one row; it shadows earlier rows with the same law number.
    pub fn insert(&mut self, num: String, law: LawId)
        ensures
            final(self).entries@ == old(self).entries@.push((num, law)),
    {
        self.entries.push((num, law));
    }

    /// Looks a law number up.
    #[verifier::loop_isolation(false)]
    pub fn get(&self, num: &str) -> (r: Option<&LawId>)
        ensures
            match r {
                Some(l) => reg_lookup(self.entries@, num@) == Some(*l),
                None => reg_lookup(self.entries@, num@) is None,
            },
    {
        proof {
            assert(self.entries@.take(self.entries@.len() as int) =~= self.entries@);
        }
        let mut i: usize = self.entries.len();
        while i > 0
            invariant
                0 <= i <= self.entries@.len(),
                reg_lookup(self.entries@, num@) == reg_lookup(
                    self.entries@.take(i as int),
                    num@,
                ),
            decreases i,
        {
            proof {
                assert(self.entries@.take(i as int).last() == self.entries@[i - 1]);
                assert(self.entries@.take(i as int).drop_last() =~= self.entries@.take(i - 1));
            }
            if str_eq(self.entries[i - 1].0.as_str(), num) {
                return Some(&self.entries[i - 1].1);
            }
            i -= 1;
        }
        None
    }
}

/// Every row has the column the law id is read from (and so also the law
/// number and name columns before it).
pub open spec fn rows_wide(rows: Seq<Seq<Seq<char>>>) -> bool {
    forall|i: int| 0 <= i < rows.len() ==> (#[trigger] rows[i]).len() > 11
}

/// How registry rows become entries: one entry per data row, the law
/// number from the second column, the name from the third, the id from the
/// twelfth.
pub open spec fn registry_entries_match(
    entries: Seq<(String, LawId)>,
    rows: Seq<Seq<Seq<char>>>,
) -> bool {
    &&& entries.len() == rows.len()
    &&& forall|i: int|
        0 <= i < rows.len() ==> {
            &&& (#[trigger] entries[i]).0@ == rows[i][1]
            &&& entries[i].1.name@ == rows[i][2]
            &&& entries[i].1.id@ == rows[i][11]
        }
}

#[verifier::external_type_specification]
#[verifier::external_body]
#[verifier::reject_recursive_types(R)]
pub struct ExCsvReader<R>(csv::Reader<R>);

/// The data rows that reading this text as CSV yields, in order, each a
/// list of fields, up to the first unreadable row: a function of the text
/// alone.
pub uninterp spec fn csv_rows_of(text: Seq<char>) -> Seq<Seq<Seq<char>>>;

/// Whether reading this text as CSV ends cleanly rather than at an
/// unreadable row: a function of the text alone.
pub uninterp spec fn csv_ok(text: Seq<char>) -> bool;

/// The data rows a CSV reader has not yet handed out, up to the first
/// unreadable row.
pub uninterp spec fn csv_reader_rows(r: csv::Reader<&[u8]>) -> Seq<Seq<Seq<char>>>;

/// Whether the rows a CSV reader is walking end cleanly.
pub uninterp spec fn csv_reader_clean(r: csv::Reader<&[u8]>) -> bool;

/// One row-reading step.
enum CsvStep {
    /// The next data row's fields, in order.
    Record(Vec<String>),
    /// The next row could not be read as a CSV record.
    Bad,
    /// No rows remain.
    Done,
}

/// Relies on csv::Reader::from_reader: a CSV reader over the text, which
/// treats the first row as a header and hands back the data rows after it;
/// those rows are the text's.
#[verifier::external_body]
fn csv_reader_from<'a>(text: &'a str) -> (r: csv::Reader<&'a [u8]>)
    ensures
        csv_reader_rows(r) == csv_rows_of(text@),
        csv_reader_clean(r) == csv_ok(text@),
{
    csv::Reader::from_reader(text.as_bytes())
}

/// Relies on csv::Reader::read_record and csv::StringRecord::iter: the
/// next data row, each field handed out as an owned string in order, or
/// the end of the rows — clean, or at a row that cannot be read. The
/// reader reads on past an unreadable row, so after `Bad` nothing is said
/// of the reader's state; the library stops at the first `Bad`.
#[verifier::external_body]
fn csv_next_record(r: &mut csv::Reader<&[u8]>) -> (s: CsvStep)
    ensures
        match s {
            CsvStep::Record(rec) => csv_reader_rows(*old(r)).len() > 0 && rec.deep_view()
                == csv_reader_rows(*old(r))[0] && csv_reader_rows(*final(r)) == csv_reader_rows(
                *old(r),
            ).drop_first() && csv_reader_clean(*final(r)) == csv_reader_clean(*old(r)),
            CsvStep::Done => csv_reader_rows(*old(r)).len() == 0 && csv_reader_clean(*old(r))
                && csv_reader_rows(*final(r)).len() == 0 && csv_reader_clean(*final(r)),
            CsvStep::Bad => csv_reader_rows(*old(r)).len() == 0 && !csv_reader_clean(*old(r)),
        },
{
    let mut rec = csv::StringRecord::new();
    match r.read_record(&mut rec) {
        Ok(true) => CsvStep::Record(rec.iter().map(|f| f.to_owned()).collect()),
        Ok(false) => CsvStep::Done,
        Err(_) => CsvStep::Bad,
    }
}

/// What decoding the registry file's legacy double-byte encoding yields:
/// a function of the bytes alone.
pub uninterp spec fn sjis_decode_of(bytes: Seq<u8>) -> Seq<char>;

/// Relies on the decode method of encoding_rs::SHIFT_JIS: the decoded text
/// depends on the bytes alone; undecodable sequences become replacement
/// characters, and empty input decodes to the empty string.
#[verifier::external_body]
fn decode_sjis(bytes: &[u8]) -> (r: String)
    ensures
        r@ == sjis_decode_of(bytes@),
        bytes@.len() == 0 ==> r@.len() == 0,
{
    let (res, _, _) = encoding_rs::SHIFT_JIS.decode(bytes);
    res.into_owned()
}

/// Loads the identifier registry from the raw bytes of the registry file:
/// the bytes are decoded from the legacy encoding, read as CSV rows, and
/// each data row becomes one entry as [`registry_entries_match`] says, a
/// later row shadowing an earlier one with the same law number under
/// [`reg_lookup`]. Succeeds exactly when every row reads and carries the
/// id column; `RegistryColumnMissing` exactly when some row lacks it;
/// `CsvError` exactly when the rows end at one that cannot be read.
#[verifier::loop_isolation(false)]
pub fn make_law_id_data(csv_bytes: &[u8]) -> (r: Result<Registry, LawDataError>)
    ensures
        ({
            let rows = csv_rows_of(sjis_decode_of(csv_bytes@));
            match r {
                Ok(reg) => csv_ok(sjis_decode_of(csv_bytes@)) && rows_wide(rows)
                    && registry_entries_match(reg.entries@, rows),
                Err(LawDataError::RegistryColumnMissing) => !rows_wide(rows),
                Err(LawDataError::CsvError) => rows_wide(rows) && !csv_ok(
                    sjis_decode_of(csv_bytes@),
                ),
                Err(_) => false,
            }
        }),
{
    let text = decode_sjis(csv_bytes);
    let ghost rows = csv_rows_of(text@);
    let mut reader = csv_reader_from(text.as_str());
    let mut reg = Registry::new();
    let ghost mut n: int = 0;
    proof {
        assert(rows.skip(0) =~= rows);
    }
    loop
        invariant
            0 <= n <= rows.len(),
            csv_reader_rows(reader) == rows.skip(n),
            csv_reader_clean(reader) == csv_ok(text@),
            rows_wide(rows.take(n)),
            registry_entries_match(reg.entries@, rows.take(n)),
        decreases rows.len() - n,
    {
        let ghost pending = csv_reader_rows(reader);
        let step = csv_next_record(&mut reader);
        proof {
            if pending.len() > 0 {
                assert(pending[0] == rows[n]);
                assert(pending.drop_first() =~= rows.skip(n + 1));
                assert(rows.take(n + 1) =~= rows.take(n).push(rows[n]));
            } else {
                assert(rows.take(n) =~= rows);
            }
        }
        match step {
            CsvStep::Done => {
                return Ok(reg);
            },
            CsvStep::Bad => {
                return Err(LawDataError::CsvError);
            },
            CsvStep::Record(rec) => {
                if rec.len() <= 11 {
                    proof {
                        assert(rows[n].len() <= 11);
                        assert(!rows_wide(rows));
                    }
                    return Err(LawDataError::RegistryColumnMissing);
                }
                let num = rec[1].clone();
                let name = rec[2].clone();
                let id = rec[11].clone();
                proof {
                    assert(rec.deep_view()[1] == rec@[1]@);
                    assert(rec.deep_view()[2] == rec@[2]@);
                    assert(rec.deep_view()[11] == rec@[11]@);
                }
                reg.insert(num, LawId { id, name });
                proof {
                    n = n + 1;
                }
            },
        }
    }
}

/// Reads one law document and resolves it against the registry: the
/// document's token stream is folded as the extractor says; exactly when
/// the document tokenizes, the fold forms a date, and the registry knows
/// the captured law number, the record carries the extracted date, the
/// given file path, the captured number, and the registry's name and id
/// for it, with no version list. `Ok(None)` exactly when the document
/// tokenizes but yields no date, or yields one and the registry does not
/// know the law number — the latter is the dropped record the caller logs.
pub fn make_law_data(xml_buf: &[u8], file: &str, law_id_map: &Registry) -> (r: Result<
    Option<LawData>,
    LawDataError,
>)
    ensures
        ({
            let toks = doc_events(xml_buf@);
            match r {
                Ok(Some(d)) => doc_reads_clean(xml_buf@) && extract_ok(toks) && {
                    let st = extract_final(toks);
                    &&& st.date == Some(d.date)
                    &&& d.file@ == file@
                    &&& d.num@ == st.law_num
                    &&& match reg_lookup(law_id_map.entries@, st.law_num) {
                        Some(entry) => d.name@ == entry.name@ && d.id@ == entry.id@,
                        None => false,
                    }
                    &&& d.patch@ == Seq::<crate::law::LawPatchInfo>::empty()
                },
                Ok(None) => doc_reads_clean(xml_buf@) && extract_ok(toks) && (extract_final(
                    toks,
                ).date is None || reg_lookup(law_id_map.entries@, extract_final(toks).law_num)
                    is None),
                Err(LawDataError::UnrecognizedEra { name }) => doc_reads_clean(xml_buf@)
                    && exists|i: int|
                    #[trigger] first_bad_at(toks, i) && bad_era_of(toks[i], name@),
                Err(LawDataError::XmlParseError) => xml_doc_end(xml_buf@) == EndModel::Syntax
                    || !all_starts_ok(xml_doc_tokens(xml_buf@)),
                Err(LawDataError::EncodingError) => xml_doc_end(xml_buf@) == EndModel::Encoding
                    && all_starts_ok(xml_doc_tokens(xml_buf@)),
                Err(_) => false,
            }
        }),
{
    let events = match tokenize(xml_buf) {
        Ok(evs) => evs,
        Err(e) => {
            return Err(e);
        },
    };
    let fields = match extract_law_fields(&events) {
        Ok(f) => f,
        Err(e) => {
            return Err(e);
        },
    };
    match fields {
        None => Ok(None),
        Some(f) => match law_id_map.get(f.num.as_str()) {
            None => Ok(None),
            Some(entry) => {
                let d = LawData {
                    date: f.date,
                    file: file.to_owned(),
                    name: entry.name.clone(),
                    num: f.num,
                    id: entry.id.clone(),
                    patch: Vec::new(),
                };
                Ok(Some(d))
            },
        },
    }
}

} // verus!
