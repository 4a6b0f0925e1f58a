//! Serialization of the results store.  The JSON form is an array of one
//! object per stored record, with the record kind emitted under `type` and
//! the address under `ip`; the CSV form is a header row covering the union
//! of the variants' fields and one row per stored record with empty cells
//! for absent fields.  Both forms are specified to the character.

use vstd::prelude::*;

use crate::OutputFormat;
use crate::data::RecordView;
use crate::data::ResolveResponse;
use crate::data::ResultsCache;
use crate::strutil::bool_chars;
use crate::strutil::dec_chars;
use crate::strutil::push_bool;
use crate::strutil::push_char;
use crate::strutil::push_u32;

verus! {

/// The text of an optional field: its value when present, empty otherwise.
pub open spec fn opt_text(v: Option<Seq<char>>) -> Seq<char> {
    match v {
        Some(s) => s,
        None => Seq::<char>::empty(),
    }
}

// ---------------------------------------------------------------------------
// JSON.
// ---------------------------------------------------------------------------

/// The character for one hexadecimal digit.
pub open spec fn hex_char(d: nat) -> char {
    if d == 0 {
        '0'
    } else if d == 1 {
        '1'
    } else if d == 2 {
        '2'
    } else if d == 3 {
        '3'
    } else if d == 4 {
        '4'
    } else if d == 5 {
        '5'
    } else if d == 6 {
        '6'
    } else if d == 7 {
        '7'
    } else if d == 8 {
        '8'
    } else if d == 9 {
        '9'
    } else if d == 10 {
        'a'
    } else if d == 11 {
        'b'
    } else if d == 12 {
        'c'
    } else if d == 13 {
        'd'
    } else if d == 14 {
        'e'
    } else {
        'f'
    }
}

/// The JSON escape of one character: quotes and backslashes are escaped,
/// control characters become `\u00..`, everything else stands as itself.
pub open spec fn json_escape_char(c: char) -> Seq<char> {
    if c == '"' {
        seq!['\\', '"']
    } else if c == '\\' {
        seq!['\\', '\\']
    } else if (c as u32) < 32 {
        seq!['\\', 'u', '0', '0', hex_char((c as u32) as nat / 16), hex_char((c as u32) as nat % 16)]
    } else {
        seq![c]
    }
}

/// The JSON escape of a whole string body.
pub open spec fn json_escape(s: Seq<char>) -> Seq<char>
    decreases s.len(),
{
    if s.len() == 0 {
        Seq::<char>::empty()
    } else {
        json_escape(s.drop_last()) + json_escape_char(s.last())
    }
}

/// A JSON string: the escaped body between double quotes.
pub open spec fn json_string(s: Seq<char>) -> Seq<char> {
    seq!['"'] + json_escape(s) + seq!['"']
}

/// The JSON object for one stored record.  The record kind is emitted under
/// `type`; the address of an address record under `ip`, empty when absent.
pub open spec fn json_record(r: RecordView) -> Seq<char> {
    match r {
        RecordView::Address { name, value, kind, ttl, is_wildcard } => "{\"name\":"@
            + json_string(name) + ",\"ip\":"@ + json_string(opt_text(value)) + ",\"type\":"@
            + json_string(kind) + ",\"ttl\":"@ + dec_chars(ttl as nat) + ",\"is_wildcard\":"@
            + bool_chars(is_wildcard) + "}"@,
        RecordView::Alias { query, name, kind, ttl, is_wildcard } => "{\"query\":"@
            + json_string(query) + ",\"name\":"@ + json_string(name) + ",\"type\":"@
            + json_string(kind) + ",\"ttl\":"@ + dec_chars(ttl as nat) + ",\"is_wildcard\":"@
            + bool_chars(is_wildcard) + "}"@,
        RecordView::Other { name, kind, ttl, is_wildcard } => "{\"name\":"@ + json_string(name)
            + ",\"type\":"@ + json_string(kind) + ",\"ttl\":"@ + dec_chars(ttl as nat)
            + ",\"is_wildcard\":"@ + bool_chars(is_wildcard) + "}"@,
        RecordView::Error { query, response_code } => "{\"query\":"@ + json_string(query)
            + ",\"response_code\":"@ + json_string(response_code) + "}"@,
    }
}

/// The stored records as JSON objects joined by commas.
pub open spec fn json_records(s: Seq<RecordView>) -> Seq<char>
    decreases s.len(),
{
    if s.len() == 0 {
        Seq::<char>::empty()
    } else if s.len() == 1 {
        json_record(s[0])
    } else {
        json_records(s.drop_last()) + ","@ + json_record(s.last())
    }
}

/// The whole JSON document: the records as an array.
pub open spec fn json_chars(s: Seq<RecordView>) -> Seq<char> {
    "["@ + json_records(s) + "]"@
}

// ---------------------------------------------------------------------------
// CSV.
// ---------------------------------------------------------------------------

/// Whether a character forces the CSV cell around it to be quoted.
pub open spec fn csv_special(c: char) -> bool {
    c == ',' || c == '"' || c == '\n' || c == '\r'
}

/// Whether a CSV cell must be quoted.
pub open spec fn csv_needs_quote(s: Seq<char>) -> bool
    decreases s.len(),
{
    if s.len() == 0 {
        false
    } else {
        csv_needs_quote(s.drop_last()) || csv_special(s.last())
    }
}

/// The body of a quoted CSV cell: every double quote is doubled.
pub open spec fn csv_doubled(s: Seq<char>) -> Seq<char>
    decreases s.len(),
{
    if s.len() == 0 {
        Seq::<char>::empty()
    } else {
        csv_doubled(s.drop_last()) + (if s.last() == '"' {
            seq!['"', '"']
        } else {
            seq![s.last()]
        })
    }
}

/// One CSV cell: quoted with doubled quotes when it holds a separator,
/// quote or line break, written as it stands otherwise.
pub open spec fn csv_field(s: Seq<char>) -> Seq<char> {
    if csv_needs_quote(s) {
        seq!['"'] + csv_doubled(s) + seq!['"']
    } else {
        s
    }
}

/// The CSV header row: the union of the fields of all record variants.
pub open spec fn csv_header() -> Seq<char> {
    "query,name,ip,type,ttl,is_wildcard,response_code\n"@
}

/// The CSV row for one stored record; fields the variant does not carry are
/// empty cells.
pub open spec fn csv_row(r: RecordView) -> Seq<char> {
    match r {
        RecordView::Address { name, value, kind, ttl, is_wildcard } => ","@ + csv_field(name)
            + ","@ + csv_field(opt_text(value)) + ","@ + csv_field(kind) + ","@ + dec_chars(
            ttl as nat,
        ) + ","@ + bool_chars(is_wildcard) + ","@ + "\n"@,
        RecordView::Alias { query, name, kind, ttl, is_wildcard } => csv_field(query) + ","@
            + csv_field(name) + ",,"@ + csv_field(kind) + ","@ + dec_chars(ttl as nat) + ","@
            + bool_chars(is_wildcard) + ","@ + "\n"@,
        RecordView::Other { name, kind, ttl, is_wildcard } => ","@ + csv_field(name) + ",,"@
            + csv_field(kind) + ","@ + dec_chars(ttl as nat) + ","@ + bool_chars(is_wildcard)
            + ","@ + "\n"@,
        RecordView::Error { query, response_code } => csv_field(query) + ",,,,,,"@ + csv_field(
            response_code,
        ) + "\n"@,
    }
}

/// The CSV rows of all stored records, in storage order.
pub open spec fn csv_rows(s: Seq<RecordView>) -> Seq<char>
    decreases s.len(),
{
    if s.len() == 0 {
        Seq::<char>::empty()
    } else {
        csv_rows(s.drop_last()) + csv_row(s.last())
    }
}

/// The whole CSV document: the header row followed by one row per record.
pub open spec fn csv_chars(s: Seq<RecordView>) -> Seq<char> {
    csv_header() + csv_rows(s)
}

/// The serialized output for a store's contents under a chosen format.
pub open spec fn output_chars(s: Seq<RecordView>, format: OutputFormat) -> Seq<char> {
    match format {
        OutputFormat::Json => json_chars(s),
        OutputFormat::Csv => csv_chars(s),
    }
}

// ---------------------------------------------------------------------------
// Executable serializers.
// ---------------------------------------------------------------------------

/// Appends the JSON escape of `s` to `out`.
#[verifier::loop_isolation(false)]
fn push_json_escaped(out: &mut String, s: &str)
    ensures
        final(out)@ == old(out)@ + json_escape(s@),
{
    let len = s.unicode_len();
    let mut i: usize = 0;
    while i < len
        invariant
            i <= len,
            out@ == old(out)@ + json_escape(s@.take(i as int)),
        decreases len - i,
    {
        let c = s.get_char(i);
        proof {
            assert(s@.take(i + 1 as int).drop_last() =~= s@.take(i as int));
            assert(s@.take(i + 1 as int).last() == c);
        }
        if c == '"' {
            out.append("\\\"");
            proof {
                reveal_strlit("\\\"");
                assert(out@ =~= old(out)@ + json_escape(s@.take(i + 1 as int)));
            }
        } else if c == '\\' {
            out.append("\\\\");
            proof {
                reveal_strlit("\\\\");
                assert(out@ =~= old(out)@ + json_escape(s@.take(i + 1 as int)));
            }
        } else if (c as u32) < 32 {
            out.append("\\u00");
            push_char(out, hex_char_exec((c as u32) / 16));
            push_char(out, hex_char_exec((c as u32) % 16));
            proof {
                reveal_strlit("\\u00");
                assert(out@ =~= old(out)@ + json_escape(s@.take(i + 1 as int)));
            }
        } else {
            push_char(out, c);
            proof {
                assert(out@ =~= old(out)@ + json_escape(s@.take(i + 1 as int)));
            }
        }
        i = i + 1;
    }
    proof {
        assert(s@.take(len as int) =~= s@);
    }
}

fn hex_char_exec(d: u32) -> (c: char)
    requires
        d < 16,
    ensures
        c == hex_char(d as nat),
{
    if d == 0 {
        '0'
    } else if d == 1 {
        '1'
    } else if d == 2 {
        '2'
    } else if d == 3 {
        '3'
    } else if d == 4 {
        '4'
    } else if d == 5 {
        '5'
    } else if d == 6 {
        '6'
    } else if d == 7 {
        '7'
    } else if d == 8 {
        '8'
    } else if d == 9 {
        '9'
    } else if d == 10 {
        'a'
    } else if d == 11 {
        'b'
    } else if d == 12 {
        'c'
    } else if d == 13 {
        'd'
    } else if d == 14 {
        'e'
    } else {
        'f'
    }
}

/// Appends `s` as a JSON string, quoted and escaped, to `out`.
fn push_json_string(out: &mut String, s: &str)
    ensures
        final(out)@ == old(out)@ + json_string(s@),
{
    push_char(out, '"');
    push_json_escaped(out, s);
    push_char(out, '"');
    proof {
        assert(out@ =~= old(out)@ + json_string(s@));
    }
}

/// Appends the JSON object for one record to `out`.
#[verifier::rlimit(100)]
#[verifier::spinoff_prover]
fn push_json_record(out: &mut String, r: &ResolveResponse)
    ensures
        final(out)@ == old(out)@ + json_record(r@),
{
    match r {
        ResolveResponse::Address { name, value, kind, ttl, is_wildcard } => {
            out.append("{\"name\":");
            push_json_string(out, name.as_str());
            out.append(",\"ip\":");
            match value {
                Some(v) => push_json_string(out, v.as_str()),
                None => {
                    push_char(out, '"');
                    push_char(out, '"');
                },
            }
            out.append(",\"type\":");
            push_json_string(out, kind.as_str());
            out.append(",\"ttl\":");
            push_u32(out, *ttl);
            out.append(",\"is_wildcard\":");
            push_bool(out, *is_wildcard);
            out.append("}");
            proof {
                assert(out@ =~= old(out)@ + json_record(r@));
            }
        },
        ResolveResponse::Alias { query, name, kind, ttl, is_wildcard } => {
            out.append("{\"query\":");
            push_json_string(out, query.as_str());
            out.append(",\"name\":");
            push_json_string(out, name.as_str());
            out.append(",\"type\":");
            push_json_string(out, kind.as_str());
            out.append(",\"ttl\":");
            push_u32(out, *ttl);
            out.append(",\"is_wildcard\":");
            push_bool(out, *is_wildcard);
            out.append("}");
            proof {
                assert(out@ =~= old(out)@ + json_record(r@));
            }
        },
        ResolveResponse::Other { name, kind, ttl, is_wildcard } => {
            out.append("{\"name\":");
            push_json_string(out, name.as_str());
            out.append(",\"type\":");
            push_json_string(out, kind.as_str());
            out.append(",\"ttl\":");
            push_u32(out, *ttl);
            out.append(",\"is_wildcard\":");
            push_bool(out, *is_wildcard);
            out.append("}");
            proof {
                assert(out@ =~= old(out)@ + json_record(r@));
            }
        },
        ResolveResponse::Error { query, response_code } => {
            out.append("{\"query\":");
            push_json_string(out, query.as_str());
            out.append(",\"response_code\":");
            push_json_string(out, response_code.as_str());
            out.append("}");
            proof {
                assert(out@ =~= old(out)@ + json_record(r@));
            }
        },
    }
}

/// Appends one CSV cell, quoting it when needed, to `out`.
#[verifier::loop_isolation(false)]
fn push_csv_field(out: &mut String, s: &str)
    ensures
        final(out)@ == old(out)@ + csv_field(s@),
{
    let len = s.unicode_len();
    let mut special = false;
    let mut i: usize = 0;
    while i < len
        invariant
            i <= len,
            special == csv_needs_quote(s@.take(i as int)),
        decreases len - i,
    {
        let c = s.get_char(i);
        proof {
            assert(s@.take(i + 1 as int).drop_last() =~= s@.take(i as int));
            assert(s@.take(i + 1 as int).last() == c);
        }
        if c == ',' || c == '"' || c == '\n' || c == '\r' {
            special = true;
        }
        i = i + 1;
    }
    proof {
        assert(s@.take(len as int) =~= s@);
    }
    if !special {
        out.append(s);
    } else {
        push_char(out, '"');
        let mut j: usize = 0;
        while j < len
            invariant
                j <= len,
                out@ == old(out)@ + seq!['"'] + csv_doubled(s@.take(j as int)),
            decreases len - j,
        {
            let c = s.get_char(j);
            proof {
                assert(s@.take(j + 1 as int).drop_last() =~= s@.take(j as int));
                assert(s@.take(j + 1 as int).last() == c);
            }
            if c == '"' {
                push_char(out, '"');
                push_char(out, '"');
            } else {
                push_char(out, c);
            }
            proof {
                assert(out@ =~= old(out)@ + seq!['"'] + csv_doubled(s@.take(j + 1 as int)));
            }
            j = j + 1;
        }
        push_char(out, '"');
        proof {
            assert(s@.take(len as int) =~= s@);
            assert(out@ =~= old(out)@ + csv_field(s@));
        }
    }
}

/// Appends the CSV row for one record to `out`.
#[verifier::rlimit(100)]
#[verifier::spinoff_prover]
fn push_csv_row(out: &mut String, r: &ResolveResponse)
    ensures
        final(out)@ == old(out)@ + csv_row(r@),
{
    match r {
        ResolveResponse::Address { name, value, kind, ttl, is_wildcard } => {
            out.append(",");
            push_csv_field(out, name.as_str());
            out.append(",");
            match value {
                Some(v) => push_csv_field(out, v.as_str()),
                None => {
                    proof {
                        assert(csv_field(Seq::<char>::empty()) =~= Seq::<char>::empty());
                    }
                },
            }
            out.append(",");
            push_csv_field(out, kind.as_str());
            out.append(",");
            push_u32(out, *ttl);
            out.append(",");
            push_bool(out, *is_wildcard);
            out.append(",");
            out.append("\n");
            proof {
                assert(out@ =~= old(out)@ + csv_row(r@));
            }
        },
        ResolveResponse::Alias { query, name, kind, ttl, is_wildcard } => {
            push_csv_field(out, query.as_str());
            out.append(",");
            push_csv_field(out, name.as_str());
            out.append(",,");
            push_csv_field(out, kind.as_str());
            out.append(",");
            push_u32(out, *ttl);
            out.append(",");
            push_bool(out, *is_wildcard);
            out.append(",");
            out.append("\n");
            proof {
                assert(out@ =~= old(out)@ + csv_row(r@));
            }
        },
        ResolveResponse::Other { name, kind, ttl, is_wildcard } => {
            out.append(",");
            push_csv_field(out, name.as_str());
            out.append(",,");
            push_csv_field(out, kind.as_str());
            out.append(",");
            push_u32(out, *ttl);
            out.append(",");
            push_bool(out, *is_wildcard);
            out.append(",");
            out.append("\n");
            proof {
                assert(out@ =~= old(out)@ + csv_row(r@));
            }
        },
        ResolveResponse::Error { query, response_code } => {
            push_csv_field(out, query.as_str());
            out.append(",,,,,,");
            push_csv_field(out, response_code.as_str());
            out.append("\n");
            proof {
                assert(out@ =~= old(out)@ + csv_row(r@));
            }
        },
    }
}

impl ResultsCache {
    /// Serializes the stored records as a JSON array.
    #[verifier::loop_isolation(false)]
    pub fn json(&self) -> (r: String)
        ensures
            r@ == json_chars(self@),
    {
        proof {
            self.lemma_view();
        }
        let mut out = String::new();
        out.append("[");
        let mut i: usize = 0;
        while i < self.records.len()
            invariant
                i <= self.records.len(),
                out@ == "["@ + json_records(self@.take(i as int)),
            decreases self.records.len() - i,
        {
            if i > 0 {
                out.append(",");
            }
            push_json_record(&mut out, &self.records[i]);
            proof {
                assert(self@.take(i + 1 as int).drop_last() =~= self@.take(i as int));
                assert(self@.take(i + 1 as int).last() == self@[i as int]);
                assert(out@ =~= "["@ + json_records(self@.take(i + 1 as int)));
            }
            i = i + 1;
        }
        out.append("]");
        proof {
            assert(self@.take(self@.len() as int) =~= self@);
            assert(out@ =~= json_chars(self@));
        }
        out
    }

    /// Serializes the stored records as CSV: a header row and one row per
    /// record.
    #[verifier::loop_isolation(false)]
    pub fn csv(&self) -> (r: String)
        ensures
            r@ == csv_chars(self@),
    {
        proof {
            self.lemma_view();
        }
        let mut out = String::new();
        out.append("query,name,ip,type,ttl,is_wildcard,response_code\n");
        let mut i: usize = 0;
        while i < self.records.len()
            invariant
                i <= self.records.len(),
                out@ == csv_header() + csv_rows(self@.take(i as int)),
            decreases self.records.len() - i,
        {
            push_csv_row(&mut out, &self.records[i]);
            proof {
                assert(self@.take(i + 1 as int).drop_last() =~= self@.take(i as int));
                assert(self@.take(i + 1 as int).last() == self@[i as int]);
                assert(out@ =~= csv_header() + csv_rows(self@.take(i + 1 as int)));
            }
            i = i + 1;
        }
        proof {
            assert(self@.take(self@.len() as int) =~= self@);
        }
        out
    }

    /// Serializes the stored records in the chosen format.
    pub fn results(&self, format: &OutputFormat) -> (r: String)
        ensures
            r@ == output_chars(self@, *format),
    {
        match format {
            OutputFormat::Csv => self.csv(),
            OutputFormat::Json => self.json(),
        }
    }
}

// ---------------------------------------------------------------------------
// Stated properties of the serializers.
// ---------------------------------------------------------------------------

/// Serialization is a function of the store's contents alone: serializing
/// the same store twice yields identical output.
pub proof fn lemma_serialization_idempotent(
    s: Seq<RecordView>,
    format: OutputFormat,
    b1: Seq<char>,
    b2: Seq<char>,
)
    requires
        b1 == output_chars(s, format),
        b2 == output_chars(s, format),
    ensures
        b1 == b2,
{
}

/// An empty store serializes to a well-formed empty document: `[]` under
/// JSON and the bare header row under CSV.
pub proof fn lemma_empty_store_output()
    ensures
        json_chars(Seq::<RecordView>::empty()) == "[]"@,
        csv_chars(Seq::<RecordView>::empty()) == csv_header(),
{
    reveal_strlit("[");
    reveal_strlit("]");
    reveal_strlit("[]");
    assert(json_chars(Seq::<RecordView>::empty()) =~= "[]"@);
    assert(csv_chars(Seq::<RecordView>::empty()) =~= csv_header());
}

} // verus!
