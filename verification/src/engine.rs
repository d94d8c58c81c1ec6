//! The values of the search engine that the index server makes and reads:
//! the schema, the documents, and the query parser.

use vstd::prelude::*;

verus! {

/// The engine's schema while it is being put together.
#[verifier::external_type_specification]
#[verifier::external_body]
pub struct ExSchemaBuilder(tantivy::schema::SchemaBuilder);

/// The engine's schema: the fields that a document may have.
#[verifier::external_type_specification]
#[verifier::external_body]
pub struct ExSchema(tantivy::schema::Schema);

/// A document as the engine takes and gives it.
#[verifier::external_type_specification]
#[verifier::external_body]
pub struct ExDocument(tantivy::TantivyDocument);

/// An index of the engine.
#[verifier::external_type_specification]
#[verifier::external_body]
pub struct ExIndex(tantivy::Index);

/// The engine's parser of queries.
#[verifier::external_type_specification]
#[verifier::external_body]
pub struct ExQueryParser(tantivy::query::QueryParser);

/// The fields that were added to the builder, in order: each with its
/// name, whether it is indexed, and whether it is stored. A field's place
/// in this list is its id.
pub uninterp spec fn builder_fields(builder: tantivy::schema::SchemaBuilder) -> Seq<
    (Seq<char>, bool, bool),
>;

/// The schema's fields: each with its name, whether it is indexed, and
/// whether it is stored. A field's place in this list is its id.
pub uninterp spec fn schema_fields(schema: tantivy::schema::Schema) -> Seq<
    (Seq<char>, bool, bool),
>;

/// The values of the document, in the order in which they were added: each
/// with the id of its field and, where it is a text, the text.
pub uninterp spec fn document_values(document: tantivy::TantivyDocument) -> Seq<
    (u32, Option<Seq<char>>),
>;

/// The ids of the fields that the parser searches where a query names no
/// field.
pub uninterp spec fn parser_default_fields(parser: tantivy::query::QueryParser) -> Seq<u32>;

/// The names of the listed fields, in order.
pub open spec fn names_of(fields: Seq<(Seq<char>, bool, bool)>) -> Seq<Seq<char>> {
    Seq::new(fields.len(), |i: int| fields[i].0)
}

/// Whether the engine takes the name for a field: it is not empty and does
/// not begin with a hyphen.
pub open spec fn is_field_name(name: Seq<char>) -> bool {
    name.len() > 0 && name[0] != '-'
}

/// The first value of the field in the list, where it is a text.
pub open spec fn first_text_of(values: Seq<(u32, Option<Seq<char>>)>, field: u32) -> Option<
    Seq<char>,
>
    decreases values.len(),
{
    if values.len() == 0 {
        None
    } else if values[0].0 == field {
        values[0].1
    } else {
        first_text_of(values.drop_first(), field)
    }
}

/// `Schema::builder` of tantivy: a builder without fields.
#[verifier::external_body]
pub(crate) fn new_builder() -> (builder: tantivy::schema::SchemaBuilder)
    ensures
        builder_fields(builder) == Seq::<(Seq<char>, bool, bool)>::empty(),
{
    tantivy::schema::Schema::builder()
}

/// `SchemaBuilder::add_text_field` of tantivy, with the options `TEXT |
/// STORED`: the field is added after the others, tokenized and indexed, and
/// its text is stored; the id that comes back is the field's place. The
/// engine panics on a name that it does not take and on one that the
/// builder has already.
#[verifier::external_body]
pub(crate) fn add_stored_text_field(
    builder: &mut tantivy::schema::SchemaBuilder,
    name: &str,
) -> (id: u32)
    requires
        is_field_name(name@),
        !names_of(builder_fields(*old(builder))).contains(name@),
        builder_fields(*old(builder)).len() < u32::MAX,
    ensures
        builder_fields(*final(builder)) == builder_fields(*old(builder)).push((name@, true, true)),
        id == builder_fields(*old(builder)).len(),
{
    builder.add_text_field(name, tantivy::schema::TEXT | tantivy::schema::STORED).field_id()
}

/// `SchemaBuilder::build` of tantivy: the schema has the builder's fields.
#[verifier::external_body]
pub(crate) fn build_schema(builder: tantivy::schema::SchemaBuilder) -> (schema: tantivy::schema::Schema)
    ensures
        schema_fields(schema) == builder_fields(builder),
{
    builder.build()
}

/// `Schema::get_field` of tantivy: the id of the field with the name, and
/// nothing where the schema has no such field.
#[verifier::external_body]
pub(crate) fn field_id(schema: &tantivy::schema::Schema, name: &str) -> (id: Option<u32>)
    ensures
        match id {
            Some(place) => place < schema_fields(*schema).len() && schema_fields(
                *schema,
            )[place as int].0 == name@,
            None => !names_of(schema_fields(*schema)).contains(name@),
        },
{
    match schema.get_field(name) {
        Ok(field) => Some(field.field_id()),
        Err(_) => None,
    }
}

/// `TantivyDocument::new` of tantivy: a document without values.
#[verifier::external_body]
pub(crate) fn new_document() -> (document: tantivy::TantivyDocument)
    ensures
        document_values(document) == Seq::<(u32, Option<Seq<char>>)>::empty(),
{
    tantivy::TantivyDocument::new()
}

/// `TantivyDocument::add_text` of tantivy: the text is added after the
/// document's other values, as a value of the field.
#[verifier::external_body]
pub(crate) fn add_text(document: &mut tantivy::TantivyDocument, field: u32, text: &str)
    ensures
        document_values(*final(document)) == document_values(*old(document)).push(
            (field, Some(text@)),
        ),
{
    document.add_text(tantivy::schema::Field::from_field_id(field), text)
}

/// `TantivyDocument::get_first` of tantivy: the first value of the field,
/// handed out where it is a text.
#[verifier::external_body]
pub(crate) fn first_text(document: &tantivy::TantivyDocument, field: u32) -> (text: Option<String>)
    ensures
        match text {
            Some(found) => first_text_of(document_values(*document), field) == Some(found@),
            None => first_text_of(document_values(*document), field) is None,
        },
{
    match document.get_first(tantivy::schema::Field::from_field_id(field)) {
        Some(tantivy::schema::OwnedValue::Str(text)) => Some(text.clone()),
        _ => None,
    }
}

/// `QueryParser::for_index` of tantivy: a parser for the index's schema and
/// tokenizers that searches the given fields where a query names none.
#[verifier::external_body]
pub(crate) fn parser_for_index(index: &tantivy::Index, fields: Vec<u32>) -> (parser:
    tantivy::query::QueryParser)
    ensures
        parser_default_fields(parser) == fields@,
{
    let fields = fields.into_iter().map(tantivy::schema::Field::from_field_id).collect();
    tantivy::query::QueryParser::for_index(index, fields)
}

} // verus!
