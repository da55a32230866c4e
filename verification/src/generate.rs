//! Output formats for option documentation.

pub mod html;
pub mod markdown;
pub mod template;

use vstd::prelude::*;

use crate::error::NixDocError;
use crate::generate::markdown::{decimal, decimal_exec};
use crate::text::{chars_of, has_char, push_all, push_str, string_of};
use crate::types::join_with;
use crate::{options_view, Declaration, DeclarationView, OptionDoc, OptionDocView};

verus! {

/// The text that a `csv::Writer` with its default settings (comma
/// delimiter, fields quoted only where needed, `\n` after each record)
/// writes for one record made of `fields`.
pub uninterp spec fn csv_record(fields: Seq<Seq<char>>) -> Seq<char>;

/// A field the CSV writer leaves unquoted: non-empty, with no comma, quote,
/// carriage return or line feed.
pub open spec fn plain_csv_field(f: Seq<char>) -> bool {
    f.len() > 0 && !has_char(f, ',') && !has_char(f, '"') && !has_char(f, '\r') && !has_char(f, '\n')
}

/// The text of a record of plain fields: the fields joined with commas,
/// then a line feed.
pub open spec fn plain_record_text(fields: Seq<Seq<char>>) -> Seq<char> {
    join_with(fields, seq![',']) + seq!['\n']
}

/// Writes one record with `csv::Writer::write_record` into memory and
/// takes the bytes back with `into_inner`.
///
/// Claimed: it succeeds (writing into a `Vec` cannot fail, a fresh writer
/// has no earlier record whose length could differ, and the bytes are the
/// fields' UTF-8 with ASCII delimiters, quotes and terminator); the text is
/// `csv_record` of the fields, so it depends on the fields alone; and a
/// record of plain fields is written as they are, joined with commas and
/// ended by a line feed (the default `QuoteStyle::Necessary` quotes only
/// fields holding a delimiter, quote or line break).
#[verifier::external_body]
fn csv_line(fields: &Vec<String>) -> (r: Result<String, String>)
    ensures
        r is Ok,
        r matches Ok(t) ==> t@ == csv_record(fields@.map_values(|f: String| f@)),
        r matches Ok(t) ==> ((fields@.len() > 0 && forall|i: int|
            0 <= i < fields@.len() ==> plain_csv_field(#[trigger] fields@[i]@)) ==> t@ == plain_record_text(
            fields@.map_values(|f: String| f@),
        )),
{
    let mut w = csv::Writer::from_writer(Vec::new());
    if let Err(e) = w.write_record(fields.iter()) {
        return Err(e.to_string());
    }
    match w.into_inner() {
        Ok(bytes) => String::from_utf8(bytes).map_err(|e| e.to_string()),
        Err(e) => Err(e.to_string()),
    }
}

/// The column names of the CSV output.
pub open spec fn csv_header() -> Seq<Seq<char>> {
    seq!["Option"@, "Type"@, "Default"@, "Example"@, "Description"@, "Declarations"@]
}

/// One declaration as `file:line`.
pub open spec fn declaration_cell(d: DeclarationView) -> Seq<char> {
    d.file_path + ":"@ + decimal(d.line_number as nat)
}

/// All declarations of an option, as `file:line` joined with `; `.
pub open spec fn declarations_cell(ds: Seq<DeclarationView>) -> Seq<char> {
    join_with(ds.map_values(|d: DeclarationView| declaration_cell(d)), "; "@)
}

/// An optional value, or the empty field.
pub open spec fn or_empty(o: Option<Seq<char>>) -> Seq<char> {
    match o {
        Some(s) => s,
        None => seq![],
    }
}

/// The fields of one option's row.
pub open spec fn csv_row(o: OptionDocView) -> Seq<Seq<char>> {
    seq![
        o.name,
        o.nix_type,
        or_empty(o.default_value),
        or_empty(o.example),
        or_empty(o.description),
        declarations_cell(o.declarations),
    ]
}

/// The rows of all options, in order.
pub open spec fn csv_rows(opts: Seq<OptionDocView>) -> Seq<char>
    decreases opts.len(),
{
    if opts.len() == 0 {
        seq![]
    } else {
        csv_rows(opts.drop_last()) + csv_record(csv_row(opts.last()))
    }
}

/// The whole CSV document: the header row (its names joined with commas),
/// then one row per option.
pub open spec fn csv_document(opts: Seq<OptionDocView>) -> Seq<char> {
    plain_record_text(csv_header()) + csv_rows(opts)
}

fn declarations_cell_exec(ds: &Vec<Declaration>) -> (r: String)
    ensures
        r@ == declarations_cell(ds@.map_values(|d: Declaration| d@)),
{
    let ghost views = ds@.map_values(|d: Declaration| d@);
    let mut out: Vec<char> = Vec::new();
    for k in 0..ds.len()
        invariant
            views == ds@.map_values(|d: Declaration| d@),
            out@ == join_with(views.take(k as int).map_values(|d: DeclarationView| declaration_cell(d)), "; "@),
    {
        let ghost before = views.take(k as int).map_values(|d: DeclarationView| declaration_cell(d));
        let ghost after = views.take(k + 1).map_values(|d: DeclarationView| declaration_cell(d));
        assert(after.drop_last() =~= before);
        assert(after.last() == declaration_cell(ds[k as int]@));
        if k > 0 {
            push_str(&mut out, "; ");
        }
        push_str(&mut out, ds[k].file_path.as_str());
        push_str(&mut out, ":");
        let n = decimal_exec(ds[k].line_number);
        push_all(&mut out, n.as_slice());
        proof {
            if k == 0 {
                assert(after.len() == 1);
            }
        }
        assert(out@ =~= join_with(after, "; "@));
    }
    assert(views.take(ds.len() as int) =~= views);
    string_of(out.as_slice())
}

fn or_empty_exec(o: &Option<String>) -> (r: String)
    ensures
        r@ == or_empty(crate::opt_view(*o)),
{
    match o {
        Some(s) => s.clone(),
        None => String::new(),
    }
}

fn csv_row_fields(o: &OptionDoc) -> (r: Vec<String>)
    ensures
        r@.map_values(|f: String| f@) == csv_row(o@),
{
    let mut fields: Vec<String> = Vec::new();
    fields.push(o.name.clone());
    fields.push(o.nix_type.clone());
    fields.push(or_empty_exec(&o.default_value));
    fields.push(or_empty_exec(&o.example));
    fields.push(or_empty_exec(&o.description));
    fields.push(declarations_cell_exec(&o.declarations));
    assert(fields@.map_values(|f: String| f@) =~= csv_row(o@));
    fields
}

fn csv_header_fields() -> (r: Vec<String>)
    ensures
        r@.map_values(|f: String| f@) == csv_header(),
        r@.len() > 0,
        forall|i: int| 0 <= i < r@.len() ==> plain_csv_field(#[trigger] r@[i]@),
{
    let mut fields: Vec<String> = Vec::new();
    fields.push(string_of(chars_of("Option").as_slice()));
    fields.push(string_of(chars_of("Type").as_slice()));
    fields.push(string_of(chars_of("Default").as_slice()));
    fields.push(string_of(chars_of("Example").as_slice()));
    fields.push(string_of(chars_of("Description").as_slice()));
    fields.push(string_of(chars_of("Declarations").as_slice()));
    proof {
        reveal_strlit("Option");
        reveal_strlit("Type");
        reveal_strlit("Default");
        reveal_strlit("Example");
        reveal_strlit("Description");
        reveal_strlit("Declarations");
    }
    assert(fields@.map_values(|f: String| f@) =~= csv_header());
    assert forall|i: int| 0 <= i < fields@.len() implies plain_csv_field(#[trigger] fields@[i]@) by {
        let f = fields@[i]@;
        assert(f == csv_header()[i]);
        assert forall|j: int| 0 <= j < f.len() implies f[j] != ',' && f[j] != '"' && f[j] != '\r' && f[j]
            != '\n' by {}
    }
    fields
}

/// The options as CSV: a header row, then one row per option in the order
/// given, each with the option's name, type, default, example, description
/// and declarations.
pub fn generate_csv(options: &[OptionDoc]) -> (r: Result<String, NixDocError>)
    ensures
        r is Ok,
        r matches Ok(t) ==> t@ == csv_document(options_view(options@)),
{
    let ghost views = options_view(options@);
    let header = csv_header_fields();
    let mut out: Vec<char> = match csv_line(&header) {
        Ok(t) => chars_of(t.as_str()),
        Err(m) => return Err(NixDocError::csv_error(m.as_str())),
    };
    for i in 0..options.len()
        invariant
            views == options_view(options@),
            out@ == plain_record_text(csv_header()) + csv_rows(views.take(i as int)),
    {
        assert(views.take(i + 1).drop_last() =~= views.take(i as int));
        let fields = csv_row_fields(&options[i]);
        match csv_line(&fields) {
            Ok(t) => push_str(&mut out, t.as_str()),
            Err(m) => return Err(NixDocError::csv_error(m.as_str())),
        }
        assert(out@ =~= plain_record_text(csv_header()) + csv_rows(views.take(i + 1)));
    }
    assert(views.take(options.len() as int) =~= views);
    Ok(string_of(out.as_slice()))
}

} // verus!
