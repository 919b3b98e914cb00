//! Streaming extraction of the promulgation date, law number and law title
//! from one law XML document. The tokenizer of an outside crate turns the
//! byte stream into start/end/text tokens behind trusted wrappers whose
//! contracts speak of a named token stream of the document's bytes; every
//! decision on those tokens — attribute lookup, era resolution, the capture
//! modes for `LawNum`, `LawTitle` and nested `Ruby` annotations — is
//! verified against the token-stream model below, and the results of the
//! public functions are pinned to the bytes through that name.
//!
//! The tokenizer hands character and entity references (`&amp;` and the
//! like) out as separate tokens that the extraction ignores, so text a
//! reference interrupts arrives as several segments and the capture keeps
//! only the last one; a tokenizer that handed such text over as one
//! escaped segment would capture it whole.

use crate::LawDataError;
use crate::date::Date;
use crate::era::{Era, era_from_name, era_from_name_spec, era_offset, era_offset_exec, era_to_ad};
use crate::law::{LawData, LawPatchInfo};
use crate::strutil::{parse_u64, parse_u64_spec, str_eq, ws_trim, ws_trimmed};
use vstd::prelude::*;
use vstd::string::{StrSliceExecFns, StringExecFns};

verus! {

/// One attribute of a start tag, decoded.
pub struct XmlAttr {
    /// Attribute name.
    pub key: String,
    /// Attribute value, as written (no entity expansion).
    pub value: String,
}

/// One token of an XML document, reduced to what the extractor reads.
/// Tokens the extraction never looks at (comments, declarations,
/// self-closing tags and the like) do not appear.
pub enum XmlEvent {
    /// A start tag with its attributes.
    Start {
        /// Tag name.
        name: String,
        /// The attributes, in document order.
        attrs: Vec<XmlAttr>,
    },
    /// An end tag.
    End {
        /// Tag name.
        name: String,
    },
    /// Character data between tags, as written.
    Text {
        /// The text.
        text: String,
    },
}

/// The mathematical shape of one attribute: its name and value as
/// character sequences.
pub struct AttrModel {
    /// Attribute name.
    pub key: Seq<char>,
    /// Attribute value.
    pub value: Seq<char>,
}

/// The mathematical shape of one token of the document's stream.
pub enum EventModel {
    /// A start tag. `fields` is `None` when the tag's attributes cannot be
    /// read, which ends the document's processing as a parse failure.
    Start {
        /// Tag name and attributes, or `None` for unreadable attributes.
        fields: Option<(Seq<char>, Seq<AttrModel>)>,
    },
    /// An end tag.
    End {
        /// Tag name.
        name: Seq<char>,
    },
    /// Character data between tags.
    Text {
        /// The text.
        text: Seq<char>,
    },
    /// A token the extraction ignores.
    Skip,
}

/// How a document's token stream terminates.
pub enum EndModel {
    /// The stream ends at the end of the document.
    Clean,
    /// The stream ends at a syntax error.
    Syntax,
    /// The stream ends at bytes that cannot be decoded.
    Encoding,
}

/// The shape of one decoded attribute.
pub open spec fn attr_model(a: XmlAttr) -> AttrModel {
    AttrModel { key: a.key@, value: a.value@ }
}

/// The shapes of a decoded attribute list, in order.
pub open spec fn attrs_model(s: Seq<XmlAttr>) -> Seq<AttrModel> {
    s.map_values(|a: XmlAttr| attr_model(a))
}

/// The shape of one decoded token.
pub open spec fn event_model(ev: XmlEvent) -> EventModel {
    match ev {
        XmlEvent::Start { name, attrs } => EventModel::Start {
            fields: Some((name@, attrs_model(attrs@))),
        },
        XmlEvent::End { name } => EventModel::End { name: name@ },
        XmlEvent::Text { text } => EventModel::Text { text: text@ },
    }
}

/// The shapes of a decoded token list, in order.
pub open spec fn events_model(s: Seq<XmlEvent>) -> Seq<EventModel> {
    s.map_values(|e: XmlEvent| event_model(e))
}

/// The tokens of a stream that the extraction reads: everything but the
/// ignored ones.
pub open spec fn kept_tokens(s: Seq<EventModel>) -> Seq<EventModel>
    decreases s.len(),
{
    if s.len() == 0 {
        s
    } else if s[0] is Skip {
        kept_tokens(s.drop_first())
    } else {
        seq![s[0]] + kept_tokens(s.drop_first())
    }
}

/// Appending a token keeps it exactly when it is not ignored.
proof fn lemma_kept_push(s: Seq<EventModel>, x: EventModel)
    ensures
        kept_tokens(s.push(x)) == if x is Skip {
            kept_tokens(s)
        } else {
            kept_tokens(s).push(x)
        },
    decreases s.len(),
{
    if s.len() == 0 {
        assert(s.push(x).drop_first() =~= s);
        if !(x is Skip) {
            assert(seq![x] + kept_tokens(s) =~= kept_tokens(s).push(x));
        }
    } else {
        assert(s.push(x).drop_first() =~= s.drop_first().push(x));
        lemma_kept_push(s.drop_first(), x);
        if !(s[0] is Skip) {
            if x is Skip {
            } else {
                assert(seq![s[0]] + kept_tokens(s.drop_first()).push(x) =~= (seq![s[0]]
                    + kept_tokens(s.drop_first())).push(x));
            }
        }
    }
}

/// Every start tag of the stream has readable attributes.
pub open spec fn all_starts_ok(s: Seq<EventModel>) -> bool {
    forall|i: int|
        0 <= i < s.len() ==> match #[trigger] s[i] {
            EventModel::Start { fields } => fields is Some,
            _ => true,
        }
}

/// The document's whole token stream tokenizes: it ends at the end of the
/// document and every start tag's attributes can be read.
pub open spec fn doc_reads_clean(xml: Seq<u8>) -> bool {
    xml_doc_end(xml) == EndModel::Clean && all_starts_ok(xml_doc_tokens(xml))
}

/// The tokens of the document that the extraction reads.
pub open spec fn doc_events(xml: Seq<u8>) -> Seq<EventModel> {
    kept_tokens(xml_doc_tokens(xml))
}

/// The value of the first attribute at or after position `i` whose name is
/// `key`.
pub open spec fn attr_lookup_from(attrs: Seq<AttrModel>, key: Seq<char>, i: int) -> Option<
    Seq<char>,
>
    decreases attrs.len() - i when 0 <= i <= attrs.len()
{
    if i >= attrs.len() {
        None
    } else if attrs[i].key == key {
        Some(attrs[i].value)
    } else {
        attr_lookup_from(attrs, key, i + 1)
    }
}

/// The value of the first attribute named `key`.
pub open spec fn attr_lookup(attrs: Seq<AttrModel>, key: Seq<char>) -> Option<Seq<char>> {
    attr_lookup_from(attrs, key, 0)
}

/// The value of the first attribute at or after position `i` whose name is
/// `k1` or `k2`: the first matching name in document order wins.
pub open spec fn attr_lookup2_from(
    attrs: Seq<AttrModel>,
    k1: Seq<char>,
    k2: Seq<char>,
    i: int,
) -> Option<Seq<char>>
    decreases attrs.len() - i when 0 <= i <= attrs.len()
{
    if i >= attrs.len() {
        None
    } else if attrs[i].key == k1 || attrs[i].key == k2 {
        Some(attrs[i].value)
    } else {
        attr_lookup2_from(attrs, k1, k2, i + 1)
    }
}

/// The value of the first attribute named `k1` or `k2`.
pub open spec fn attr_lookup2(attrs: Seq<AttrModel>, k1: Seq<char>, k2: Seq<char>) -> Option<
    Seq<char>,
> {
    attr_lookup2_from(attrs, k1, k2, 0)
}

/// Finds the first attribute named `key`.
#[verifier::loop_isolation(false)]
fn find_attr<'a>(attrs: &'a Vec<XmlAttr>, key: &str) -> (r: Option<&'a String>)
    ensures
        match r {
            Some(v) => attr_lookup(attrs_model(attrs@), key@) == Some(v@),
            None => attr_lookup(attrs_model(attrs@), key@) is None,
        },
{
    let mut i: usize = 0;
    while i < attrs.len()
        invariant
            0 <= i <= attrs@.len(),
            attr_lookup(attrs_model(attrs@), key@) == attr_lookup_from(
                attrs_model(attrs@),
                key@,
                i as int,
            ),
        decreases attrs@.len() - i,
    {
        if str_eq(attrs[i].key.as_str(), key) {
            return Some(&attrs[i].value);
        }
        i += 1;
    }
    None
}

/// Finds the first attribute named `k1` or `k2`, whichever comes first in
/// document order.
#[verifier::loop_isolation(false)]
fn find_attr2<'a>(attrs: &'a Vec<XmlAttr>, k1: &str, k2: &str) -> (r: Option<&'a String>)
    ensures
        match r {
            Some(v) => attr_lookup2(attrs_model(attrs@), k1@, k2@) == Some(v@),
            None => attr_lookup2(attrs_model(attrs@), k1@, k2@) is None,
        },
{
    let mut i: usize = 0;
    while i < attrs.len()
        invariant
            0 <= i <= attrs@.len(),
            attr_lookup2(attrs_model(attrs@), k1@, k2@) == attr_lookup2_from(
                attrs_model(attrs@),
                k1@,
                k2@,
                i as int,
            ),
        decreases attrs@.len() - i,
    {
        if str_eq(attrs[i].key.as_str(), k1) || str_eq(attrs[i].key.as_str(), k2) {
            return Some(&attrs[i].value);
        }
        i += 1;
    }
    None
}

/// The date a `Law` start tag carries: `Era` must name a recognized era and
/// `Year` must parse; `Month`/`PromulgateMonth` and `Day`/`PromulgateDay`
/// are optional and independently absent when missing or unparsable. `None`
/// when the date cannot be formed (including the unrepresentable case of an
/// era year so large that the Gregorian year overflows).
pub open spec fn law_date_spec(attrs: Seq<AttrModel>) -> Option<Date> {
    match attr_lookup(attrs, "Era"@) {
        None => None,
        Some(es) => match era_from_name_spec(es) {
            None => None,
            Some(era) => match attr_year(attrs) {
                None => None,
                Some(y) => if era_offset(era) + y <= u64::MAX {
                    Some(
                        Date {
                            ad_year: (era_offset(era) + y) as u64,
                            era,
                            year: y,
                            month: attr_month(attrs),
                            day: attr_day(attrs),
                        },
                    )
                } else {
                    None
                },
            },
        },
    }
}

/// The parsed `Year` attribute of a `Law` start tag.
pub open spec fn attr_year(attrs: Seq<AttrModel>) -> Option<u64> {
    match attr_lookup(attrs, "Year"@) {
        Some(s) => parse_u64_spec(s),
        None => None,
    }
}

/// The parsed month of a `Law` start tag, under either attribute name.
pub open spec fn attr_month(attrs: Seq<AttrModel>) -> Option<u64> {
    match attr_lookup2(attrs, "Month"@, "PromulgateMonth"@) {
        Some(s) => parse_u64_spec(s),
        None => None,
    }
}

/// The parsed day of a `Law` start tag, under either attribute name.
pub open spec fn attr_day(attrs: Seq<AttrModel>) -> Option<u64> {
    match attr_lookup2(attrs, "Day"@, "PromulgateDay"@) {
        Some(s) => parse_u64_spec(s),
        None => None,
    }
}

/// A `Law` start tag whose `Era` attribute is present but names no
/// recognized era: a fatal condition for the file.
pub open spec fn law_start_bad(ev: EventModel) -> bool {
    match ev {
        EventModel::Start { fields } => match fields {
            Some(f) => f.0 == "Law"@ && match attr_lookup(f.1, "Era"@) {
                Some(s) => era_from_name_spec(s) is None,
                None => false,
            },
            None => false,
        },
        _ => false,
    }
}

/// No token of the stream is fatal.
pub open spec fn extract_ok(evs: Seq<EventModel>) -> bool {
    forall|i: int| 0 <= i < evs.len() ==> !law_start_bad(#[trigger] evs[i])
}

/// Position `i` holds the first fatal token.
pub open spec fn first_bad_at(evs: Seq<EventModel>, i: int) -> bool {
    &&& 0 <= i < evs.len()
    &&& law_start_bad(evs[i])
    &&& forall|j: int| 0 <= j < i ==> !law_start_bad(#[trigger] evs[j])
}

/// The era value of a fatal token.
pub open spec fn bad_era_of(ev: EventModel, name: Seq<char>) -> bool {
    match ev {
        EventModel::Start { fields } => match fields {
            Some(f) => attr_lookup(f.1, "Era"@) == Some(name),
            None => false,
        },
        _ => false,
    }
}

/// The extractor's state: the captured law number and title, the date, and
/// the capture-mode flags for `LawNum`, `LawTitle` and `Ruby`.
pub struct ExtractState {
    /// Last captured law number.
    pub law_num: Seq<char>,
    /// Last captured law title.
    pub law_title: Seq<char>,
    /// The date of the last `Law` start tag, where one could be formed.
    pub date: Option<Date>,
    /// Inside a `LawNum` element.
    pub in_num: bool,
    /// Inside a `LawTitle` element.
    pub in_title: bool,
    /// Inside a `Ruby` annotation.
    pub in_ruby: bool,
}

/// The state before any token: nothing captured, no mode active.
pub open spec fn extract_init() -> ExtractState {
    ExtractState {
        law_num: Seq::empty(),
        law_title: Seq::empty(),
        date: None,
        in_num: false,
        in_title: false,
        in_ruby: false,
    }
}

/// One token's effect on the state. A `Law` start tag replaces the date; a
/// `LawNum`, `LawTitle` or `Ruby` start or end tag toggles its mode; a text
/// token, trimmed of surrounding whitespace, replaces the captured law
/// number while inside `LawNum`, or the captured title while inside
/// `LawTitle`, in both cases only outside `Ruby` and only when something
/// remains after trimming. The replacement means that of several text
/// segments the last one wins.
pub open spec fn extract_step(st: ExtractState, ev: EventModel) -> ExtractState {
    match ev {
        EventModel::Start { fields } => match fields {
            Some(f) => {
                if f.0 == "Law"@ {
                    ExtractState { date: law_date_spec(f.1), ..st }
                } else if f.0 == "LawNum"@ {
                    ExtractState { in_num: true, ..st }
                } else if f.0 == "LawTitle"@ {
                    ExtractState { in_title: true, ..st }
                } else if f.0 == "Ruby"@ {
                    ExtractState { in_ruby: true, ..st }
                } else {
                    st
                }
            },
            None => st,
        },
        EventModel::End { name } => {
            if name == "LawNum"@ {
                ExtractState { in_num: false, ..st }
            } else if name == "LawTitle"@ {
                ExtractState { in_title: false, ..st }
            } else if name == "Ruby"@ {
                ExtractState { in_ruby: false, ..st }
            } else {
                st
            }
        },
        EventModel::Text { text } => {
            let t = ws_trimmed(text);
            if t.len() == 0 {
                st
            } else if st.in_num && !st.in_ruby {
                ExtractState { law_num: t, ..st }
            } else if st.in_title && !st.in_ruby {
                ExtractState { law_title: t, ..st }
            } else {
                st
            }
        },
        EventModel::Skip => st,
    }
}

/// The state after the first `n` tokens.
pub open spec fn extract_fold(evs: Seq<EventModel>, n: int) -> ExtractState
    decreases n when 0 <= n <= evs.len()
{
    if n <= 0 {
        extract_init()
    } else {
        extract_step(extract_fold(evs, n - 1), evs[n - 1])
    }
}

/// The state after the whole stream.
pub open spec fn extract_final(evs: Seq<EventModel>) -> ExtractState {
    extract_fold(evs, evs.len() as int)
}

/// What the extractor hands on for one document: the promulgation date, the
/// law number and the law title.
pub struct LawFields {
    /// Promulgation date.
    pub date: Date,
    /// Law number.
    pub num: String,
    /// Law title, `Ruby` annotation text excluded.
    pub name: String,
}

/// Runs the extraction over a token list: the fold of [`extract_step`]
/// over the tokens in order. `Ok(None)` exactly when the list ends without
/// a `Law` tag from which a date could be formed; `UnrecognizedEra`,
/// carrying the offending value, at the first `Law` tag whose `Era`
/// attribute names no recognized era.
#[verifier::loop_isolation(false)]
pub fn extract_law_fields(events: &Vec<XmlEvent>) -> (r: Result<Option<LawFields>, LawDataError>)
    ensures
        match r {
            Ok(Some(f)) => {
                &&& extract_ok(events_model(events@))
                &&& extract_final(events_model(events@)).date == Some(f.date)
                &&& f.num@ == extract_final(events_model(events@)).law_num
                &&& f.name@ == extract_final(events_model(events@)).law_title
            },
            Ok(None) => extract_ok(events_model(events@)) && extract_final(
                events_model(events@),
            ).date is None,
            Err(LawDataError::UnrecognizedEra { name }) => exists|i: int|
                {
                    &&& #[trigger] first_bad_at(events_model(events@), i)
                    &&& bad_era_of(events_model(events@)[i], name@)
                },
            Err(_) => false,
        },
{
    let ghost em = events_model(events@);
    let mut law_num = String::new();
    let mut law_title = String::new();
    let mut date: Option<Date> = None;
    let mut in_num: bool = false;
    let mut in_title: bool = false;
    let mut in_ruby: bool = false;
    let mut i: usize = 0;
    while i < events.len()
        invariant
            0 <= i <= events@.len(),
            forall|j: int| 0 <= j < i ==> !law_start_bad(#[trigger] em[j]),
            law_num@ == extract_fold(em, i as int).law_num,
            law_title@ == extract_fold(em, i as int).law_title,
            date == extract_fold(em, i as int).date,
            in_num == extract_fold(em, i as int).in_num,
            in_title == extract_fold(em, i as int).in_title,
            in_ruby == extract_fold(em, i as int).in_ruby,
        decreases events@.len() - i,
    {
        let ghost st = extract_fold(em, i as int);
        proof {
            assert(em[i as int] == event_model(events@[i as int]));
        }
        match &events[i] {
            XmlEvent::Start { name, attrs } => {
                if str_eq(name.as_str(), "Law") {
                    match find_attr(attrs, "Era") {
                        None => {
                            date = None;
                        },
                        Some(es) => match era_from_name(es.as_str()) {
                            None => {
                                proof {
                                    assert(law_start_bad(em[i as int]));
                                    assert(first_bad_at(em, i as int));
                                }
                                return Err(LawDataError::UnrecognizedEra { name: es.clone() });
                            },
                            Some(era) => {
                                let year = match find_attr(attrs, "Year") {
                                    Some(ys) => parse_u64(ys.as_str()),
                                    None => None,
                                };
                                match year {
                                    None => {
                                        date = None;
                                    },
                                    Some(y) => {
                                        let off = era_offset_exec(era);
                                        if y <= u64::MAX - off {
                                            let month = match find_attr2(
                                                attrs,
                                                "Month",
                                                "PromulgateMonth",
                                            ) {
                                                Some(s) => parse_u64(s.as_str()),
                                                None => None,
                                            };
                                            let day = match find_attr2(
                                                attrs,
                                                "Day",
                                                "PromulgateDay",
                                            ) {
                                                Some(s) => parse_u64(s.as_str()),
                                                None => None,
                                            };
                                            date = Some(
                                                Date {
                                                    ad_year: era_to_ad(era, y),
                                                    era,
                                                    year: y,
                                                    month,
                                                    day,
                                                },
                                            );
                                        } else {
                                            date = None;
                                        }
                                    },
                                }
                            },
                        },
                    }
                } else if str_eq(name.as_str(), "LawNum") {
                    in_num = true;
                } else if str_eq(name.as_str(), "LawTitle") {
                    in_title = true;
                } else if str_eq(name.as_str(), "Ruby") {
                    in_ruby = true;
                }
            },
            XmlEvent::End { name } => {
                if str_eq(name.as_str(), "LawNum") {
                    in_num = false;
                } else if str_eq(name.as_str(), "LawTitle") {
                    in_title = false;
                } else if str_eq(name.as_str(), "Ruby") {
                    in_ruby = false;
                }
            },
            XmlEvent::Text { text } => {
                let t = ws_trim(text.as_str());
                if t.as_str().unicode_len() > 0 {
                    if in_num && !in_ruby {
                        law_num = t;
                    } else if in_title && !in_ruby {
                        law_title = t;
                    }
                }
            },
        }
        proof {
            assert(extract_fold(em, i as int + 1) == extract_step(st, em[i as int]));
        }
        i += 1;
    }
    match date {
        Some(d) => Ok(Some(LawFields { date: d, num: law_num, name: law_title })),
        None => Ok(None),
    }
}

#[verifier::external_type_specification]
#[verifier::external_body]
#[verifier::reject_recursive_types(R)]
pub struct ExXmlReader<R>(quick_xml::reader::Reader<R>);

#[verifier::external_type_specification]
#[verifier::external_body]
pub struct ExBytesStart<'a>(quick_xml::events::BytesStart<'a>);

/// The token stream that tokenizing these document bytes yields, up to the
/// first failure: a function of the bytes alone.
pub uninterp spec fn xml_doc_tokens(xml: Seq<u8>) -> Seq<EventModel>;

/// How the token stream of these document bytes terminates: a function of
/// the bytes alone.
pub uninterp spec fn xml_doc_end(xml: Seq<u8>) -> EndModel;

/// The tokens a reader has not yet handed out, up to the stream's
/// terminator.
pub uninterp spec fn reader_tokens(r: quick_xml::reader::Reader<&[u8]>) -> Seq<EventModel>;

/// How the stream a reader is walking terminates.
pub uninterp spec fn reader_end(r: quick_xml::reader::Reader<&[u8]>) -> EndModel;

/// The name and attribute list of a start tag, or `None` when its
/// attributes cannot be read: a function of the tag alone.
pub uninterp spec fn start_fields_of(t: quick_xml::events::BytesStart) -> Option<
    (Seq<char>, Seq<AttrModel>),
>;

/// One tokenizer step, reduced to what the tokenizing loop distinguishes:
/// the start-tag payload is carried through for field reading.
enum RawEvent<'a> {
    /// A start tag, name and attributes still unread.
    Start(quick_xml::events::BytesStart<'a>),
    /// An end tag, by name.
    End(String),
    /// Character data, as written.
    Text(String),
    /// A token the extraction ignores (comment, declaration, self-closing
    /// tag, character reference, and the like).
    Skipped,
    /// End of the document.
    Eof,
    /// The document has a syntax error here.
    Malformed,
    /// The document has undecodable bytes here.
    Undecodable,
}

/// Relies on quick_xml::reader::Reader::from_reader: makes a streaming
/// tokenizer over the byte slice, whose stream is the byte slice's.
#[verifier::external_body]
fn xml_reader_from<'a>(xml: &'a [u8]) -> (r: quick_xml::reader::Reader<&'a [u8]>)
    ensures
        reader_tokens(r) == xml_doc_tokens(xml@),
        reader_end(r) == xml_doc_end(xml@),
{
    quick_xml::reader::Reader::from_reader(xml)
}

/// Relies on quick_xml::reader::Reader::read_event: hands back the next
/// token of the stream (names and text decoded), or the stream's
/// terminator — the end of the document, a syntax error, or undecodable
/// bytes, telling the error kinds of the outside crate apart. The reader
/// reads on past an error, so after `Malformed` or `Undecodable` nothing
/// is said of the reader's state; the library stops at the first one.
#[verifier::external_body]
fn xml_read_event<'a>(r: &mut quick_xml::reader::Reader<&'a [u8]>) -> (ev: RawEvent<'a>)
    ensures
        match ev {
            RawEvent::Start(t) => reader_tokens(*old(r)).len() > 0 && reader_tokens(*old(r))[0]
                == (EventModel::Start { fields: start_fields_of(t) }) && reader_tokens(*final(r))
                == reader_tokens(*old(r)).drop_first() && reader_end(*final(r)) == reader_end(
                *old(r),
            ),
            RawEvent::End(name) => reader_tokens(*old(r)).len() > 0 && reader_tokens(*old(r))[0]
                == (EventModel::End { name: name@ }) && reader_tokens(*final(r)) == reader_tokens(
                *old(r),
            ).drop_first() && reader_end(*final(r)) == reader_end(*old(r)),
            RawEvent::Text(text) => reader_tokens(*old(r)).len() > 0 && reader_tokens(*old(r))[0]
                == (EventModel::Text { text: text@ }) && reader_tokens(*final(r)) == reader_tokens(
                *old(r),
            ).drop_first() && reader_end(*final(r)) == reader_end(*old(r)),
            RawEvent::Skipped => reader_tokens(*old(r)).len() > 0 && reader_tokens(*old(r))[0]
                == EventModel::Skip && reader_tokens(*final(r)) == reader_tokens(
                *old(r),
            ).drop_first() && reader_end(*final(r)) == reader_end(*old(r)),
            RawEvent::Eof => reader_tokens(*old(r)).len() == 0 && reader_end(*old(r))
                == EndModel::Clean && reader_tokens(*final(r)).len() == 0 && reader_end(*final(r))
                == EndModel::Clean,
            RawEvent::Malformed => reader_tokens(*old(r)).len() == 0 && reader_end(*old(r))
                == EndModel::Syntax,
            RawEvent::Undecodable => reader_tokens(*old(r)).len() == 0 && reader_end(*old(r))
                == EndModel::Encoding,
        },
{
    match r.read_event() {
        Ok(quick_xml::events::Event::Start(t)) => RawEvent::Start(t),
        Ok(quick_xml::events::Event::End(t)) => RawEvent::End(t.name().0.to_owned()),
        Ok(quick_xml::events::Event::Text(t)) => RawEvent::Text(t.into_inner().into_owned()),
        Ok(quick_xml::events::Event::Eof) => RawEvent::Eof,
        Ok(_) => RawEvent::Skipped,
        Err(quick_xml::errors::Error::Encoding(_)) => RawEvent::Undecodable,
        Err(_) => RawEvent::Malformed,
    }
}

/// Relies on quick_xml::events::BytesStart::name and ::attributes with its
/// Iterator impl: the tag's name and its attributes in document order, each
/// handed out as owned strings, or `None` when an attribute cannot be read.
#[verifier::external_body]
fn xml_start_fields(t: &quick_xml::events::BytesStart<'_>) -> (r: Option<(String, Vec<XmlAttr>)>)
    ensures
        match r {
            Some(p) => start_fields_of(*t) == Some((p.0@, attrs_model(p.1@))),
            None => start_fields_of(*t) is None,
        },
{
    let attrs: Result<Vec<XmlAttr>, quick_xml::events::attributes::AttrError> = t.attributes().map(
        |a|
            a.map(
                |x|
                    XmlAttr {
                        key: x.key.0.to_owned(),
                        value: x.value.into_owned(),
                    },
            ),
    ).collect();
    match attrs {
        Ok(attrs) => Some((t.name().0.to_owned(), attrs)),
        Err(_) => None,
    }
}

/// Tokenizes one document into the events the extraction reads, dropping
/// the tokens it ignores: `Ok` holds exactly the kept tokens of the
/// document's stream. `XmlParseError` exactly when the stream ends at a
/// syntax error or holds a start tag with unreadable attributes;
/// `EncodingError` exactly when it ends at undecodable bytes.
#[verifier::loop_isolation(false)]
pub(crate) fn tokenize(xml: &[u8]) -> (r: Result<Vec<XmlEvent>, LawDataError>)
    ensures
        match r {
            Ok(evs) => doc_reads_clean(xml@) && events_model(evs@) == doc_events(xml@),
            Err(LawDataError::XmlParseError) => xml_doc_end(xml@) == EndModel::Syntax
                || !all_starts_ok(xml_doc_tokens(xml@)),
            Err(LawDataError::EncodingError) => xml_doc_end(xml@) == EndModel::Encoding
                && all_starts_ok(xml_doc_tokens(xml@)),
            Err(_) => false,
        },
{
    let ghost all = xml_doc_tokens(xml@);
    let mut reader = xml_reader_from(xml);
    let mut events: Vec<XmlEvent> = Vec::new();
    let ghost mut n: int = 0;
    proof {
        assert(all.skip(0) =~= all);
    }
    loop
        invariant
            0 <= n <= all.len(),
            reader_tokens(reader) == all.skip(n),
            reader_end(reader) == xml_doc_end(xml@),
            all_starts_ok(all.take(n)),
            events_model(events@) == kept_tokens(all.take(n)),
        decreases all.len() - n,
    {
        let ghost pending = reader_tokens(reader);
        let step = xml_read_event(&mut reader);
        proof {
            if pending.len() > 0 {
                assert(pending[0] == all[n]);
                assert(pending.drop_first() =~= all.skip(n + 1));
                assert(all.take(n + 1) =~= all.take(n).push(all[n]));
                lemma_kept_push(all.take(n), all[n]);
            } else {
                assert(all.take(n) =~= all);
            }
        }
        match step {
            RawEvent::Eof => {
                return Ok(events);
            },
            RawEvent::Malformed => {
                return Err(LawDataError::XmlParseError);
            },
            RawEvent::Undecodable => {
                return Err(LawDataError::EncodingError);
            },
            RawEvent::Skipped => {
                proof {
                    n = n + 1;
                }
            },
            RawEvent::Start(t) => {
                match xml_start_fields(&t) {
                    None => {
                        proof {
                            assert(all[n] matches EventModel::Start { fields } && fields is None);
                            assert(!all_starts_ok(all));
                        }
                        return Err(LawDataError::XmlParseError);
                    },
                    Some((name, attrs)) => {
                        let ev = XmlEvent::Start { name, attrs };
                        proof {
                            assert(event_model(ev) == all[n]);
                            assert(events_model(events@.push(ev)) =~= events_model(events@).push(
                                event_model(ev),
                            ));
                        }
                        events.push(ev);
                        proof {
                            n = n + 1;
                        }
                    },
                }
            },
            RawEvent::End(name) => {
                let ev = XmlEvent::End { name };
                proof {
                    assert(event_model(ev) == all[n]);
                    assert(events_model(events@.push(ev)) =~= events_model(events@).push(
                        event_model(ev),
                    ));
                }
                events.push(ev);
                proof {
                    n = n + 1;
                }
            },
            RawEvent::Text(text) => {
                let ev = XmlEvent::Text { text };
                proof {
                    assert(event_model(ev) == all[n]);
                    assert(events_model(events@.push(ev)) =~= events_model(events@).push(
                        event_model(ev),
                    ));
                }
                events.push(ev);
                proof {
                    n = n + 1;
                }
            },
        }
    }
}

/// How an assembled record relates to the extraction state of its
/// document's token stream and to the version metadata it was built with.
pub open spec fn assembled_from(
    d: LawData,
    st: ExtractState,
    info: LawPatchInfo,
    patches: Seq<LawPatchInfo>,
) -> bool {
    &&& st.date == Some(d.date)
    &&& d.file@ == info.dir_name@ + "/"@ + info.file_name@
    &&& d.name@ == st.law_title
    &&& d.num@ == st.law_num
    &&& d.id@ == info.id@
    &&& d.patch@ == patches
}

/// Clones a version list.
fn clone_patches(v: &Vec<LawPatchInfo>) -> (r: Vec<LawPatchInfo>)
    ensures
        r@ == v@,
{
    let mut r: Vec<LawPatchInfo> = Vec::new();
    let mut i: usize = 0;
    while i < v.len()
        invariant
            0 <= i <= v@.len(),
            r@ =~= v@.subrange(0, i as int),
        decreases v@.len() - i,
    {
        r.push(v[i].clone());
        i += 1;
    }
    proof {
        assert(v@.subrange(0, v@.len() as int) =~= v@);
    }
    r
}

/// Reads one law document and assembles its record: the document's token
/// stream is folded by [`extract_step`]. Exactly when the document
/// tokenizes and the fold forms a date, the record carries that date with
/// the captured name and number, the file path `dir/file` from the version
/// entry, the entry's law id, and the given version list; `Ok(None)`
/// exactly when the document tokenizes but yields no date;
/// `UnrecognizedEra` at the first `Law` tag with an unrecognized `Era`
/// value; `XmlParseError` and `EncodingError` exactly when the document
/// cannot be tokenized or decoded. Each failure is scoped to this one
/// document.
pub fn make_law_data(
    xml_buf: &[u8],
    info: &LawPatchInfo,
    version_info: &Vec<LawPatchInfo>,
) -> (r: Result<Option<LawData>, LawDataError>)
    ensures
        ({
            let toks = doc_events(xml_buf@);
            match r {
                Ok(Some(d)) => doc_reads_clean(xml_buf@) && extract_ok(toks) && assembled_from(
                    d,
                    extract_final(toks),
                    *info,
                    version_info@,
                ),
                Ok(None) => doc_reads_clean(xml_buf@) && extract_ok(toks) && extract_final(
                    toks,
                ).date is None,
                Err(LawDataError::UnrecognizedEra { name }) => doc_reads_clean(xml_buf@)
                    && exists|i: int|
                    #[trigger] first_bad_at(toks, i) && bad_era_of(toks[i], name@),
                Err(LawDataError::XmlParseError) => xml_doc_end(xml_buf@) == EndModel::Syntax
                    || !all_starts_ok(xml_doc_tokens(xml_buf@)),
                Err(LawDataError::EncodingError) => xml_doc_end(xml_buf@) == EndModel::Encoding
                    && all_starts_ok(xml_doc_tokens(xml_buf@)),
                Err(_) => false,
            }
        }),
{
    let events = match tokenize(xml_buf) {
        Ok(evs) => evs,
        Err(e) => {
            return Err(e);
        },
    };
    let fields = match extract_law_fields(&events) {
        Ok(f) => f,
        Err(e) => {
            return Err(e);
        },
    };
    match fields {
        None => Ok(None),
        Some(f) => {
            let mut file = info.dir_name.clone();
            file.append("/");
            file.append(info.file_name.as_str());
            let d = LawData {
                date: f.date,
                file,
                name: f.name,
                num: f.num,
                id: info.id.clone(),
                patch: clone_patches(version_info),
            };
            Ok(Some(d))
        },
    }
}

} // verus!
