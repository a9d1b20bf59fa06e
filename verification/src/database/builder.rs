//! The statement builder of the `sql_builder` crate, as the statements of
//! this library use it: what a builder has collected, what each call adds
//! to it, and the text that it renders.
//!
//! Nothing in this file is proved. Each function states what the source of
//! `sql_builder` shows of the call that it makes.

use sql_builder::SqlBuilder;
use vstd::prelude::*;

use crate::database::text::joined;
use crate::database::text::signed_decimal;
use crate::database::text::texts;

verus! {

/// A statement under construction.
#[verifier::external_type_specification]
#[verifier::external_body]
pub struct ExSqlBuilder(sql_builder::SqlBuilder);

/// The four kinds of statement that a builder is started for.
pub enum Verb {
    Select,
    Insert,
    Update,
    Delete,
}

/// What a builder has collected.
///
/// `bare` says that the builder was started for one of the four verbs and
/// holds nothing but the parts listed here: no join, `DISTINCT`,
/// `RETURNING`, `GROUP BY`, `HAVING`, `UNION`, `ORDER BY`, `LIMIT` or
/// `OFFSET`, and no sub-select in place of its value rows.
pub struct Draft {
    pub verb: Verb,
    pub table: Seq<char>,
    pub fields: Seq<Seq<char>>,
    pub sets: Seq<Seq<char>>,
    pub rows: Seq<Seq<char>>,
    pub wheres: Seq<Seq<char>>,
    pub bare: bool,
}

impl Draft {
    /// The draft of a builder that was just started.
    pub open spec fn start(verb: Verb, table: Seq<char>) -> Draft {
        Draft {
            verb,
            table,
            fields: Seq::empty(),
            sets: Seq::empty(),
            rows: Seq::empty(),
            wheres: Seq::empty(),
            bare: true,
        }
    }

    /// This draft with one more field.
    pub open spec fn with_field(self, field: Seq<char>) -> Draft {
        Draft { fields: self.fields.push(field), ..self }
    }

    /// This draft with one more assignment, `field = value`.
    pub open spec fn with_set(self, field: Seq<char>, value: Seq<char>) -> Draft {
        Draft { sets: self.sets.push(field + " = "@ + value), ..self }
    }

    /// This draft with one more row of values, written `(v1, v2, ...)`.
    pub open spec fn with_row(self, values: Seq<Seq<char>>) -> Draft {
        Draft { rows: self.rows.push(in_brackets(joined(values, ", "@))), ..self }
    }

    /// This draft with one more condition, `field op value`, where `op` is
    /// written with a space on either side.
    pub open spec fn with_where(self, field: Seq<char>, op: Seq<char>, value: Seq<char>) -> Draft {
        Draft { wheres: self.wheres.push(field + op + value), ..self }
    }
}

/// `s` in round brackets.
pub open spec fn in_brackets(s: Seq<char>) -> Seq<char> {
    "("@ + s + ")"@
}

/// Each text of `parts` in round brackets.
pub open spec fn bracketed(parts: Seq<Seq<char>>) -> Seq<Seq<char>> {
    parts.map_values(|w: Seq<char>| in_brackets(w))
}

/// The `WHERE` part that a builder renders: nothing without a condition, a
/// single condition as it is, several in brackets with `AND` between them.
pub open spec fn where_text(wheres: Seq<Seq<char>>) -> Seq<char> {
    if wheres.len() == 0 {
        Seq::empty()
    } else if wheres.len() == 1 {
        " WHERE "@ + wheres[0]
    } else {
        " WHERE "@ + joined(bracketed(wheres), " AND "@)
    }
}

/// The query that a bare builder renders, whatever it was started for: the
/// fields, or `*` where there is none, the table and the conditions.
pub open spec fn query_text(d: Draft) -> Seq<char> {
    "SELECT "@ + (if d.fields.len() == 0 {
        "*"@
    } else {
        joined(d.fields, ", "@)
    }) + " FROM "@ + d.table + where_text(d.wheres)
}

/// The statement that a bare builder renders, or `None` where the builder
/// refuses: without a table name, an insertion without a row of values, an
/// update without an assignment.
pub open spec fn render(d: Draft) -> Option<Seq<char>> {
    if d.table.len() == 0 {
        None
    } else {
        match d.verb {
            Verb::Select => Some(query_text(d) + ";"@),
            Verb::Insert => if d.rows.len() == 0 {
                None
            } else {
                Some(
                    "INSERT INTO "@ + d.table + " ("@ + joined(d.fields, ", "@) + ") VALUES "@
                        + joined(d.rows, ", "@) + ";"@,
                )
            },
            Verb::Update => if d.sets.len() == 0 {
                None
            } else {
                Some(
                    "UPDATE "@ + d.table + " SET "@ + joined(d.sets, ", "@) + where_text(d.wheres)
                        + ";"@,
                )
            },
            Verb::Delete => Some("DELETE FROM "@ + d.table + where_text(d.wheres) + ";"@),
        }
    }
}

/// The statement that a bare builder renders, where it renders one.
pub open spec fn rendered(d: Draft) -> Seq<char> {
    match render(d) {
        Some(text) => text,
        None => Seq::empty(),
    }
}

/// `s` with each single quote in it written twice.
pub open spec fn escaped(s: Seq<char>) -> Seq<char>
    decreases s.len(),
{
    if s.len() == 0 {
        Seq::empty()
    } else if s[0] == '\'' {
        seq!['\'', '\''] + escaped(s.skip(1))
    } else {
        seq![s[0]] + escaped(s.skip(1))
    }
}

/// `s` as a string literal of SQL: escaped, between single quotes.
pub open spec fn quoted(s: Seq<char>) -> Seq<char> {
    seq!['\''] + escaped(s) + seq!['\'']
}

/// `template` with its first question mark replaced by `value`, and as
/// it is where it has none.
pub open spec fn bound(template: Seq<char>, value: Seq<char>) -> Seq<char>
    decreases template.len(),
{
    if template.len() == 0 {
        Seq::empty()
    } else if template[0] == '?' {
        value + template.skip(1)
    } else {
        seq![template[0]] + bound(template.skip(1), value)
    }
}

/// What the builder `b` has collected so far.
pub uninterp spec fn draft_of(b: SqlBuilder) -> Draft;

/// `SqlBuilder::select_from`: starts a `SELECT` on `table`, with every other
/// part of the builder empty.
#[verifier::external_body]
pub(crate) fn select_from(table: &str) -> (b: SqlBuilder)
    ensures
        draft_of(b) == Draft::start(Verb::Select, table@),
{
    SqlBuilder::select_from(table)
}

/// `SqlBuilder::insert_into`: starts an `INSERT` into `table`, with every
/// other part of the builder empty.
#[verifier::external_body]
pub(crate) fn insert_into(table: &str) -> (b: SqlBuilder)
    ensures
        draft_of(b) == Draft::start(Verb::Insert, table@),
{
    SqlBuilder::insert_into(table)
}

/// `SqlBuilder::update_table`: starts an `UPDATE` of `table`, with every
/// other part of the builder empty.
#[verifier::external_body]
pub(crate) fn update_table(table: &str) -> (b: SqlBuilder)
    ensures
        draft_of(b) == Draft::start(Verb::Update, table@),
{
    SqlBuilder::update_table(table)
}

/// `SqlBuilder::delete_from`: starts a `DELETE` on `table`, with every other
/// part of the builder empty.
#[verifier::external_body]
pub(crate) fn delete_from(table: &str) -> (b: SqlBuilder)
    ensures
        draft_of(b) == Draft::start(Verb::Delete, table@),
{
    SqlBuilder::delete_from(table)
}

/// `SqlBuilder::field`: appends `name` to the fields and touches nothing
/// else.
#[verifier::external_body]
pub(crate) fn add_field(b: &mut SqlBuilder, name: &str)
    ensures
        draft_of(*final(b)) == draft_of(*old(b)).with_field(name@),
{
    b.field(name);
}

/// `SqlBuilder::values`: appends one row, the values joined by `", "` inside
/// round brackets, and touches nothing else.
#[verifier::external_body]
pub(crate) fn add_values(b: &mut SqlBuilder, row: &Vec<String>)
    requires
        draft_of(*old(b)).bare,
    ensures
        draft_of(*final(b)) == draft_of(*old(b)).with_row(texts(row@)),
{
    b.values(row);
}

/// `SqlBuilder::set`: appends the assignment `name = value` and touches
/// nothing else. The value is taken as it is, unquoted.
#[verifier::external_body]
pub(crate) fn add_set(b: &mut SqlBuilder, name: &str, value: &str)
    ensures
        draft_of(*final(b)) == draft_of(*old(b)).with_set(name@, value@),
{
    b.set(name, value);
}

/// `SqlBuilder::and_where_eq`: appends the condition `name = value` and
/// touches nothing else. The value is taken as it is, unquoted.
#[verifier::external_body]
pub(crate) fn and_where_eq(b: &mut SqlBuilder, name: &str, value: &str)
    ensures
        draft_of(*final(b)) == draft_of(*old(b)).with_where(name@, " = "@, value@),
{
    b.and_where_eq(name, value);
}

/// `SqlBuilder::and_where_ge`: appends the condition `name >= value` and
/// touches nothing else.
#[verifier::external_body]
pub(crate) fn and_where_ge(b: &mut SqlBuilder, name: &str, value: &str)
    ensures
        draft_of(*final(b)) == draft_of(*old(b)).with_where(name@, " >= "@, value@),
{
    b.and_where_ge(name, value);
}

/// `SqlBuilder::and_where_le`: appends the condition `name <= value` and
/// touches nothing else.
#[verifier::external_body]
pub(crate) fn and_where_le(b: &mut SqlBuilder, name: &str, value: &str)
    ensures
        draft_of(*final(b)) == draft_of(*old(b)).with_where(name@, " <= "@, value@),
{
    b.and_where_le(name, value);
}

/// `SqlBuilder::sql`: the finished statement of a bare builder, ending in a
/// semicolon, or `None` where the builder reports an error.
#[verifier::external_body]
pub(crate) fn sql(b: &SqlBuilder) -> (r: Option<String>)
    requires
        draft_of(*b).bare,
    ensures
        r is Some <==> render(draft_of(*b)) is Some,
        r matches Some(s) ==> render(draft_of(*b)) == Some(s@),
{
    b.sql().ok()
}

/// `SqlBuilder::subquery`: the query of a bare builder in round brackets,
/// without a semicolon. For a bare builder it reports no error.
#[verifier::external_body]
pub(crate) fn subquery(b: &SqlBuilder) -> (r: Option<String>)
    requires
        draft_of(*b).bare,
    ensures
        r is Some,
        r matches Some(s) ==> s@ == in_brackets(query_text(draft_of(*b))),
{
    b.subquery().ok()
}

/// `sql_builder::quote`: `s` between single quotes, each single quote inside
/// it doubled.
#[verifier::external_body]
pub(crate) fn quote(s: &str) -> (r: String)
    ensures
        r@ == quoted(s@),
{
    sql_builder::quote(s)
}

/// `Bind::bind`, for a text and a whole number: the text with its first
/// question mark replaced by the number, written in base ten with its
/// sign.
#[verifier::external_body]
pub(crate) fn bind_number(template: &str, value: i64) -> (r: String)
    ensures
        r@ == bound(template@, signed_decimal(value as int)),
{
    sql_builder::bind::Bind::bind(&template, &value)
}

} // verus!
