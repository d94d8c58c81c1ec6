//! The index server's part in a rebuild and in a search: which records go
//! into the index, in which steps the index is rewritten, and what a caller
//! gets back.

use crate::collector::{CollectError, CollectResult, Collector, FlatData, FlatDataView};
use crate::config::Config;
use crate::engine::{
    add_stored_text_field, add_text, build_schema, document_values, field_id,
    first_text, first_text_of, is_field_name, names_of, new_builder, new_document,
    parser_default_fields, parser_for_index, schema_fields,
};
use crate::git_collector::{self, GitCollector, RepositoryHead};
use crate::text::str_eq;
use crate::trello_client::BoardReading;
use crate::trello_collector::{self, TrelloCollector};
use vstd::prelude::*;
use vstd::string::*;

verus! {

/// The field of a document that holds its title.
pub const TITLE_FIELD: &'static str = "title";

/// The field of a document that holds its text.
pub const BODY_FIELD: &'static str = "body";

/// The field of a document that holds the link to its source.
pub const REF_LINK_FIELD: &'static str = "ref_link";

/// The memory that a write session may use, in bytes.
pub const WRITER_MEMORY: usize = 50_000_000;

/// How many matches a search gives at most.
pub const TOP_DOCS_LIMIT: usize = 10;

/// The answer to a rebuild request that brought the wrong secret.
pub const SECRET_INCORRECT: &'static str = "Provided secret is incorrect";

/// The answer to a rebuild request that was carried out.
pub const RECREATE_SUCCEEDED: &'static str = "Index db recreated successfully";

/// The answer to a rebuild request that failed.
pub const RECREATE_FAILED: &'static str = "An error occurred while recreating index db";

/// One match of a search.
#[derive(Debug)]
pub struct SearchResult {
    pub title: String,
    pub description: String,
    pub ref_link: String,
}

/// What a [`SearchResult`] holds, as a mathematical value.
pub struct SearchResultView {
    pub title: Seq<char>,
    pub description: Seq<char>,
    pub ref_link: Seq<char>,
}

impl DeepView for SearchResult {
    type V = SearchResultView;

    open spec fn deep_view(&self) -> SearchResultView {
        SearchResultView {
            title: self.title@,
            description: self.description@,
            ref_link: self.ref_link@,
        }
    }
}

/// What the search engine answered to a query.
#[derive(Debug)]
pub enum EngineAnswer {
    /// The engine could not parse the query.
    QueryRejected,
    /// The stored fields of the matches, the best match first.
    Matches(Vec<FlatData>),
}

/// Why a search gave no results.
#[derive(Debug, PartialEq, Eq, Structural)]
pub enum SearchError {
    /// The query is empty or malformed.
    Query,
}

/// The answer to a request to rebuild the index.
#[derive(Debug)]
pub struct ResultMessage {
    pub is_ok: bool,
    pub message: String,
}

/// How a request to rebuild the index ended.
#[derive(Debug, Clone, Copy, PartialEq, Eq, Structural)]
pub enum Outcome {
    /// The request brought the wrong secret: nothing was done.
    Refused,
    /// The index holds the newly collected records.
    Rebuilt,
    /// The rebuild failed: readers see what they saw before.
    Failed,
}

/// How the index is obtained at start.
#[derive(Debug, Clone, Copy, PartialEq, Eq, Structural)]
pub enum SetupAction {
    /// The index that lies at the configured path is used as it is.
    UseExisting,
    /// A new index with the schema is created at the configured path.
    CreateNew,
}

/// The ids that the fields of a document have in a schema.
#[derive(Debug, Clone, Copy, PartialEq, Eq, Structural)]
pub struct DocumentFields {
    pub title: u32,
    pub body: u32,
    pub ref_link: u32,
}

/// The fields of the index's documents, in the schema's order: the title,
/// the body and the link, each indexed and stored.
pub open spec fn document_schema() -> Seq<(Seq<char>, bool, bool)> {
    seq![(TITLE_FIELD@, true, true), (BODY_FIELD@, true, true), (REF_LINK_FIELD@, true, true)]
}

/// The values of the document that is made of a record: its title, its
/// body and its link, each as the text of its field.
pub open spec fn record_values(fields: DocumentFields, record: FlatDataView) -> Seq<
    (u32, Option<Seq<char>>),
> {
    seq![
        (fields.title, Some(record.title)),
        (fields.body, Some(record.body)),
        (fields.ref_link, Some(record.ref_link)),
    ]
}

/// Whether the ids are those of the three fields in the schema.
pub open spec fn are_fields_of(fields: DocumentFields, schema: tantivy::schema::Schema) -> bool {
    &&& fields.title < schema_fields(schema).len()
    &&& fields.body < schema_fields(schema).len()
    &&& fields.ref_link < schema_fields(schema).len()
    &&& schema_fields(schema)[fields.title as int].0 == TITLE_FIELD@
    &&& schema_fields(schema)[fields.body as int].0 == BODY_FIELD@
    &&& schema_fields(schema)[fields.ref_link as int].0 == REF_LINK_FIELD@
}

/// Whether the schema has the three fields.
pub open spec fn has_fields(schema: tantivy::schema::Schema) -> bool {
    &&& names_of(schema_fields(schema)).contains(TITLE_FIELD@)
    &&& names_of(schema_fields(schema)).contains(BODY_FIELD@)
    &&& names_of(schema_fields(schema)).contains(REF_LINK_FIELD@)
}

/// The record that the stored fields of a document give: the first text of
/// each of the three fields. There is none where one of the three lacks.
pub open spec fn stored_fields(fields: DocumentFields, values: Seq<(u32, Option<Seq<char>>)>) -> Option<
    FlatDataView,
> {
    match (
        first_text_of(values, fields.title),
        first_text_of(values, fields.body),
        first_text_of(values, fields.ref_link),
    ) {
        (Some(title), Some(body), Some(ref_link)) => Some(FlatDataView { title, body, ref_link }),
        _ => None,
    }
}

/// The match that is made of a document's stored fields.
pub open spec fn result_of(document: FlatDataView) -> SearchResultView {
    SearchResultView {
        title: document.title,
        description: document.body,
        ref_link: document.ref_link,
    }
}

/// The results for the matches: one for each of the first matches up to
/// the limit, in the engine's order.
pub open spec fn top_results(matches: Seq<FlatDataView>) -> Seq<SearchResultView> {
    Seq::new(
        if matches.len() <= TOP_DOCS_LIMIT {
            matches.len()
        } else {
            TOP_DOCS_LIMIT as nat
        },
        |i: int| result_of(matches[i]),
    )
}

/// The records of the first `count` configured repositories: those of each
/// repository that was read, in the configured order. A repository without
/// a reading counts as one that could not be read.
pub open spec fn repository_records(readings: Seq<Option<RepositoryHead>>, count: nat) -> Seq<
    FlatDataView,
>
    decreases count,
{
    if count == 0 {
        Seq::empty()
    } else {
        repository_records(readings, (count - 1) as nat) + (if count - 1 < readings.len() {
            git_collector::records_of_reading(readings[count - 1])
        } else {
            Seq::empty()
        })
    }
}

/// The records of a rebuild: those of the repositories, then those of the
/// Trello cards. A source that could not be read brings none.
pub open spec fn gathered(
    config: Config,
    repositories: Seq<Option<RepositoryHead>>,
    trello: Option<Vec<BoardReading>>,
) -> Seq<FlatDataView> {
    repository_records(repositories, config.git_repos@.len()) + trello_collector::records_of_reading(
        trello,
    )
}

/// The three field names are names that the engine takes, and differ from
/// each other.
pub proof fn lemma_field_names()
    ensures
        is_field_name(TITLE_FIELD@),
        is_field_name(BODY_FIELD@),
        is_field_name(REF_LINK_FIELD@),
        TITLE_FIELD@.len() == 5,
        BODY_FIELD@.len() == 4,
        REF_LINK_FIELD@.len() == 8,
{
    reveal_strlit("title");
    reveal_strlit("body");
    reveal_strlit("ref_link");
}

/// The schema of the index: the text fields for the title, the body and
/// the link, in this order, each tokenized, indexed and stored.
pub fn create_tantivy_schema() -> (schema: tantivy::schema::Schema)
    ensures
        schema_fields(schema) == document_schema(),
{
    proof {
        lemma_field_names();
    }
    let mut schema_builder = new_builder();
    add_stored_text_field(&mut schema_builder, TITLE_FIELD);
    add_stored_text_field(&mut schema_builder, BODY_FIELD);
    add_stored_text_field(&mut schema_builder, REF_LINK_FIELD);
    build_schema(schema_builder)
}

/// The ids that the three fields have in the schema, or nothing where the
/// schema lacks one of them.
pub fn document_fields(schema: &tantivy::schema::Schema) -> (fields: Option<DocumentFields>)
    ensures
        match fields {
            Some(found) => has_fields(*schema) && are_fields_of(found, *schema),
            None => !has_fields(*schema),
        },
{
    let title = match field_id(schema, TITLE_FIELD) {
        Some(id) => id,
        None => {
            return None;
        },
    };
    let body = match field_id(schema, BODY_FIELD) {
        Some(id) => id,
        None => {
            return None;
        },
    };
    let ref_link = match field_id(schema, REF_LINK_FIELD) {
        Some(id) => id,
        None => {
            return None;
        },
    };
    proof {
        let names = names_of(schema_fields(*schema));
        assert(names[title as int] == TITLE_FIELD@);
        assert(names[body as int] == BODY_FIELD@);
        assert(names[ref_link as int] == REF_LINK_FIELD@);
    }
    Some(DocumentFields { title, body, ref_link })
}

/// The parser for the queries of a search: it searches the title, the body
/// and the link where a query names no field. There is none where the
/// schema lacks one of the three.
pub fn create_query_parser(schema: &tantivy::schema::Schema, index: &tantivy::Index) -> (parser:
    Option<tantivy::query::QueryParser>)
    ensures
        match parser {
            Some(made) => has_fields(*schema) && exists|fields: DocumentFields|
                #[trigger] are_fields_of(fields, *schema) && parser_default_fields(made) == seq![
                    fields.title,
                    fields.body,
                    fields.ref_link,
                ],
            None => !has_fields(*schema),
        },
{
    let fields = match document_fields(schema) {
        Some(fields) => fields,
        None => {
            return None;
        },
    };
    let mut default_fields: Vec<u32> = Vec::new();
    default_fields.push(fields.title);
    default_fields.push(fields.body);
    default_fields.push(fields.ref_link);
    Some(parser_for_index(index, default_fields))
}

/// The document that the index takes for a record: the title, the body and
/// the link, each word for word as the text of its field.
pub fn index_document(fields: &DocumentFields, record: &FlatData) -> (document:
    tantivy::TantivyDocument)
    ensures
        document_values(document) == record_values(*fields, record.deep_view()),
{
    let mut doc = new_document();
    add_text(&mut doc, fields.title, record.title.as_str());
    add_text(&mut doc, fields.body, record.body.as_str());
    add_text(&mut doc, fields.ref_link, record.ref_link.as_str());
    doc
}

/// The record that a document of the index gives back: the stored text of
/// its title, its body and its link. There is none where one of the three
/// lacks.
pub fn stored_record(fields: &DocumentFields, document: &tantivy::TantivyDocument) -> (record:
    Option<FlatData>)
    ensures
        match record {
            Some(found) => stored_fields(*fields, document_values(*document)) == Some(
                found.deep_view(),
            ),
            None => stored_fields(*fields, document_values(*document)) is None,
        },
{
    let title = first_text(document, fields.title);
    let body = first_text(document, fields.body);
    let ref_link = first_text(document, fields.ref_link);
    match (title, body, ref_link) {
        (Some(title), Some(body), Some(ref_link)) => Some(FlatData { title, body, ref_link }),
        _ => None,
    }
}

/// A document that was made of a record gives the record back, whatever
/// ids the three fields have, as long as the ids differ.
pub proof fn law_document_gives_record_back(fields: DocumentFields, record: FlatDataView)
    requires
        fields.title != fields.body,
        fields.title != fields.ref_link,
        fields.body != fields.ref_link,
    ensures
        stored_fields(fields, record_values(fields, record)) == Some(record),
{
    let values = record_values(fields, record);
    let rest = values.drop_first();
    let last = rest.drop_first();
    assert(first_text_of(values, fields.body) == first_text_of(rest, fields.body));
    assert(first_text_of(rest, fields.ref_link) == first_text_of(last, fields.ref_link));
}

/// How the index is obtained at start: the one that lies at the configured
/// path where it could be opened, and a new one otherwise.
pub fn setup_index(opened: bool) -> (action: SetupAction)
    ensures
        action == (if opened {
            SetupAction::UseExisting
        } else {
            SetupAction::CreateNew
        }),
{
    if opened {
        SetupAction::UseExisting
    } else {
        SetupAction::CreateNew
    }
}

/// What a source brings to a rebuild: the records of its bucket, whether
/// the data is new or an update, and nothing where the source failed or has
/// not changed.
pub open spec fn contribution<C: Collector>(
    collector: &C,
    outcome: Result<CollectResult, CollectError>,
) -> Seq<FlatDataView> {
    match outcome {
        Ok(result) => match result.bucket() {
            Some(bucket) => collector.flat_data(&bucket),
            None => Seq::empty(),
        },
        Err(_) => Seq::empty(),
    }
}

/// Appends to `records` what a collector made of its source: the records
/// of the bucket where the source gave one, and nothing where the source
/// failed or has not changed.
pub fn absorb<C: Collector>(
    records: &mut Vec<FlatData>,
    collector: &C,
    outcome: &Result<CollectResult, CollectError>,
)
    ensures
        final(records).deep_view() == old(records).deep_view() + contribution(collector, *outcome),
{
    match outcome {
        Ok(CollectResult::New(bucket)) => {
            let mut new = collector.convert_to_flat_data(bucket);
            records.append(&mut new);
        },
        Ok(CollectResult::Incremental(bucket)) => {
            let mut new = collector.convert_to_flat_data(bucket);
            records.append(&mut new);
        },
        _ => {},
    }
}

/// The records of a rebuild: every configured repository is collected and
/// flattened in the configured order, then the Trello cards. A source that
/// could not be read is left out, and the others still count.
pub fn fill_data(
    config: &Config,
    repositories: &Vec<Option<RepositoryHead>>,
    trello: &Option<Vec<BoardReading>>,
) -> (records: Vec<FlatData>)
    ensures
        records.deep_view() == gathered(*config, repositories@, *trello),
{
    let mut new_index_records: Vec<FlatData> = Vec::new();
    let unread: Option<RepositoryHead> = None;
    let mut i: usize = 0;
    while i < config.git_repos.len()
        invariant
            i <= config.git_repos.len(),
            unread is None,
            new_index_records.deep_view() == repository_records(repositories@, i as nat),
        decreases config.git_repos.len() - i,
    {
        let collector = GitCollector::new(config.git_repos[i].as_str());
        let reading = if i < repositories.len() {
            &repositories[i]
        } else {
            &unread
        };
        let outcome = collector.collect(reading);
        let ghost before = new_index_records.deep_view();
        absorb(&mut new_index_records, &collector, &outcome);
        assert(new_index_records.deep_view() =~= before + git_collector::records_of_reading(
            *reading,
        ));
        i += 1;
    }
    let trello_collector = TrelloCollector::new(
        config.trello.token.as_str(),
        config.trello.key.as_str(),
    );
    let outcome = trello_collector.collect(trello);
    let ghost before = new_index_records.deep_view();
    absorb(&mut new_index_records, &trello_collector, &outcome);
    assert(new_index_records.deep_view() =~= before + trello_collector::records_of_reading(
        *trello,
    ));
    new_index_records
}

/// What a search gives for a query and the engine's answer to it: an error
/// where the query is empty or the engine could not parse it, and the
/// results for the matches otherwise.
pub open spec fn search_outcome(query: Seq<char>, answer: EngineAnswer) -> Result<
    Seq<SearchResultView>,
    SearchError,
> {
    match answer {
        EngineAnswer::QueryRejected => Err(SearchError::Query),
        EngineAnswer::Matches(matches) => if query.len() == 0 {
            Err(SearchError::Query)
        } else {
            Ok(top_results(matches.deep_view()))
        },
    }
}

/// The results of a search: the stored fields of the best matches up to
/// the limit, the best first. A query that is empty or that the engine
/// could not parse is an error, not an empty list.
pub fn search_top_docs(query: &str, answer: &EngineAnswer) -> (results: Result<
    Vec<SearchResult>,
    SearchError,
>)
    ensures
        match search_outcome(query@, *answer) {
            Ok(expected) => results matches Ok(found) && found.deep_view() == expected,
            Err(error) => results matches Err(found) && found == error,
        },
{
    let matches = match answer {
        EngineAnswer::QueryRejected => {
            return Err(SearchError::Query);
        },
        EngineAnswer::Matches(matches) => matches,
    };
    if query.unicode_len() == 0 {
        return Err(SearchError::Query);
    }
    let mut result: Vec<SearchResult> = Vec::new();
    let mut i: usize = 0;
    while i < matches.len() && i < TOP_DOCS_LIMIT
        invariant
            i <= matches.len(),
            i <= TOP_DOCS_LIMIT,
            result.len() == i,
            forall|j: int|
                0 <= j < i ==> (#[trigger] result@[j]).deep_view() == result_of(
                    matches@[j].deep_view(),
                ),
        decreases matches.len() - i,
    {
        let document = &matches[i];
        result.push(
            SearchResult {
                ref_link: document.ref_link.clone(),
                title: document.title.clone(),
                description: document.body.clone(),
            },
        );
        i += 1;
    }
    Ok(result)
}

/// The answer to a request to rebuild the index, by how it ended.
pub open spec fn answer_message(outcome: Outcome) -> Seq<char> {
    match outcome {
        Outcome::Refused => SECRET_INCORRECT@,
        Outcome::Rebuilt => RECREATE_SUCCEEDED@,
        Outcome::Failed => RECREATE_FAILED@,
    }
}

/// The answer to a request to rebuild the index: whether the index was
/// rebuilt, and the message that says how the request ended.
pub fn recreate_answer(outcome: Outcome) -> (answer: ResultMessage)
    ensures
        answer.is_ok == (outcome == Outcome::Rebuilt),
        answer.message@ == answer_message(outcome),
{
    match outcome {
        Outcome::Refused => ResultMessage { is_ok: false, message: SECRET_INCORRECT.to_owned() },
        Outcome::Rebuilt => ResultMessage { is_ok: true, message: RECREATE_SUCCEEDED.to_owned() },
        Outcome::Failed => ResultMessage { is_ok: false, message: RECREATE_FAILED.to_owned() },
    }
}

/// One thing that is to be done during a rebuild.
#[derive(Debug, Clone, Copy, PartialEq, Eq, Structural)]
pub enum IndexCommand {
    /// Read every source and gather the records.
    Collect,
    /// Open the write session.
    OpenWriter,
    /// Delete every document, within the session.
    DeleteAllDocuments,
    /// Add the record at this place of the list, within the session.
    AddDocument(usize),
    /// Make the session's documents the ones that readers see.
    Commit,
    /// Close the write session; what it did not commit is dropped.
    ReleaseWriter,
    /// Nothing more: the rebuild has ended.
    Finish(Outcome),
}

/// What came of the last thing that was to be done.
#[derive(Debug, Clone, Copy, PartialEq, Eq, Structural)]
pub enum StepAnswer {
    /// Nothing was to be done yet.
    Started,
    /// The sources were read, and this many records were gathered.
    Collected(usize),
    /// The engine did what was asked, or failed to.
    Done(bool),
}

/// How far a rebuild has come: the last thing that was asked.
#[derive(Debug, Clone, Copy, PartialEq, Eq, Structural)]
pub enum RebuildPhase {
    /// The request is not to be carried out.
    Refused,
    NotStarted,
    CollectAsked,
    WriterAsked,
    ClearAsked,
    /// This many records have been asked to be added.
    AddAsked(usize),
    CommitAsked,
    /// The session's end has been asked, after a rebuild that went well or
    /// did not.
    ReleaseAsked(bool),
    Ended(Outcome),
}

/// The steps of one rebuild of the index.
#[derive(Debug)]
pub struct Rebuild {
    phase: RebuildPhase,
    count: usize,
}

/// The index as the engine keeps it: the documents that readers see, and
/// the documents of the write session where one is open.
pub struct IndexModel {
    pub committed: Seq<FlatDataView>,
    pub session: Option<Seq<FlatDataView>>,
}

/// Whether the answer says that the engine did what was asked.
pub open spec fn went_well(answer: StepAnswer) -> bool {
    answer == StepAnswer::Done(true)
}

/// What is to be done next, the phase that the rebuild is in then, and the
/// number of records that it has then. A request that was refused ends at
/// once. Whatever fails before the commit ends the rebuild without a
/// commit, and the write session is closed before the rebuild ends.
pub open spec fn next_step(phase: RebuildPhase, count: usize, answer: StepAnswer) -> (
    RebuildPhase,
    usize,
    IndexCommand,
) {
    match phase {
        RebuildPhase::Refused => (
            RebuildPhase::Ended(Outcome::Refused),
            count,
            IndexCommand::Finish(Outcome::Refused),
        ),
        RebuildPhase::NotStarted => (RebuildPhase::CollectAsked, count, IndexCommand::Collect),
        RebuildPhase::CollectAsked => match answer {
            StepAnswer::Collected(gathered) => (
                RebuildPhase::WriterAsked,
                gathered,
                IndexCommand::OpenWriter,
            ),
            _ => (RebuildPhase::Ended(Outcome::Failed), count, IndexCommand::Finish(Outcome::Failed)),
        },
        RebuildPhase::WriterAsked => if went_well(answer) {
            (RebuildPhase::ClearAsked, count, IndexCommand::DeleteAllDocuments)
        } else {
            (RebuildPhase::Ended(Outcome::Failed), count, IndexCommand::Finish(Outcome::Failed))
        },
        RebuildPhase::ClearAsked => if !went_well(answer) {
            (RebuildPhase::ReleaseAsked(false), count, IndexCommand::ReleaseWriter)
        } else if count == 0 {
            (RebuildPhase::CommitAsked, count, IndexCommand::Commit)
        } else {
            (RebuildPhase::AddAsked(1), count, IndexCommand::AddDocument(0))
        },
        RebuildPhase::AddAsked(asked) => if !went_well(answer) {
            (RebuildPhase::ReleaseAsked(false), count, IndexCommand::ReleaseWriter)
        } else if asked < count {
            (
                RebuildPhase::AddAsked((asked + 1) as usize),
                count,
                IndexCommand::AddDocument(asked),
            )
        } else {
            (RebuildPhase::CommitAsked, count, IndexCommand::Commit)
        },
        RebuildPhase::CommitAsked => (
            RebuildPhase::ReleaseAsked(went_well(answer)),
            count,
            IndexCommand::ReleaseWriter,
        ),
        RebuildPhase::ReleaseAsked(rebuilt) => {
            let outcome = if rebuilt {
                Outcome::Rebuilt
            } else {
                Outcome::Failed
            };
            (RebuildPhase::Ended(outcome), count, IndexCommand::Finish(outcome))
        },
        RebuildPhase::Ended(outcome) => (
            RebuildPhase::Ended(outcome),
            count,
            IndexCommand::Finish(outcome),
        ),
    }
}

/// Whether this can come of the command: a write session is only opened
/// where none is open, and the records that were gathered are counted
/// rightly.
pub open spec fn can_answer(
    index: IndexModel,
    command: IndexCommand,
    answer: StepAnswer,
    records: Seq<FlatDataView>,
) -> bool {
    &&& command == IndexCommand::OpenWriter && went_well(answer) ==> index.session is None
    &&& command == IndexCommand::Collect ==> (answer matches StepAnswer::Collected(gathered)
        ==> gathered == records.len())
}

/// The index after a command was answered. Only what the engine did well
/// has changed anything, and what needs a session changes nothing without
/// one. Gathering the records does not touch the index.
pub open spec fn answered(
    index: IndexModel,
    command: IndexCommand,
    answer: StepAnswer,
    records: Seq<FlatDataView>,
) -> IndexModel {
    match command {
        IndexCommand::Collect => index,
        IndexCommand::OpenWriter => if went_well(answer) {
            IndexModel { session: Some(index.committed), ..index }
        } else {
            index
        },
        IndexCommand::DeleteAllDocuments => if went_well(answer) && index.session is Some {
            IndexModel { session: Some(Seq::empty()), ..index }
        } else {
            index
        },
        IndexCommand::AddDocument(place) => if went_well(answer) && index.session is Some && place
            < records.len() {
            IndexModel { session: Some(index.session->0.push(records[place as int])), ..index }
        } else {
            index
        },
        IndexCommand::Commit => if went_well(answer) && index.session is Some {
            IndexModel { committed: index.session->0, ..index }
        } else {
            index
        },
        IndexCommand::ReleaseWriter => IndexModel { session: None, ..index },
        IndexCommand::Finish(_) => index,
    }
}

/// Whether these answers can come, one after another, to a rebuild that is
/// in the given phase.
pub open spec fn can_run(
    phase: RebuildPhase,
    count: usize,
    last: StepAnswer,
    index: IndexModel,
    records: Seq<FlatDataView>,
    answers: Seq<StepAnswer>,
) -> bool
    decreases answers.len(),
{
    if answers.len() == 0 {
        true
    } else {
        let (next, gathered, command) = next_step(phase, count, last);
        can_answer(index, command, answers[0], records) && can_run(
            next,
            gathered,
            answers[0],
            answered(index, command, answers[0], records),
            records,
            answers.drop_first(),
        )
    }
}

/// Where a rebuild stands: its phase, the number of its records, what came
/// of its last step, and the index.
pub struct RebuildState {
    pub phase: RebuildPhase,
    pub count: usize,
    pub last: StepAnswer,
    pub index: IndexModel,
}

/// Where a rebuild that is in the given phase stands after these answers
/// have come, one after another.
pub open spec fn run(
    phase: RebuildPhase,
    count: usize,
    last: StepAnswer,
    index: IndexModel,
    records: Seq<FlatDataView>,
    answers: Seq<StepAnswer>,
) -> RebuildState
    decreases answers.len(),
{
    if answers.len() == 0 {
        RebuildState { phase, count, last, index }
    } else {
        let (next, gathered, command) = next_step(phase, count, last);
        run(
            next,
            gathered,
            answers[0],
            answered(index, command, answers[0], records),
            records,
            answers.drop_first(),
        )
    }
}

/// What holds of the index while a rebuild that began on `initial` is in
/// the given phase, the last command answered with `last`.
pub open spec fn on_course(
    phase: RebuildPhase,
    count: usize,
    last: StepAnswer,
    index: IndexModel,
    initial: IndexModel,
    records: Seq<FlatDataView>,
) -> bool {
    match phase {
        RebuildPhase::Refused => index == initial,
        RebuildPhase::NotStarted => index == initial,
        RebuildPhase::CollectAsked => index == initial && (last matches StepAnswer::Collected(
            gathered,
        ) ==> gathered == records.len()),
        RebuildPhase::WriterAsked => count == records.len() && index.committed
            == initial.committed && (if went_well(last) {
            index.session == Some(initial.committed)
        } else {
            index.session == initial.session
        }),
        RebuildPhase::ClearAsked => count == records.len() && index.committed == initial.committed
            && index.session is Some && (went_well(last) ==> index.session == Some(
            Seq::<FlatDataView>::empty(),
        )),
        RebuildPhase::AddAsked(asked) => count == records.len() && index.committed
            == initial.committed && index.session is Some && 1 <= asked <= records.len() && (
        went_well(last) ==> index.session == Some(records.take(asked as int))),
        RebuildPhase::CommitAsked => index.session is Some && index.committed == (if went_well(
            last,
        ) {
            records
        } else {
            initial.committed
        }),
        RebuildPhase::ReleaseAsked(rebuilt) => index.session is None && index.committed == (
        if rebuilt {
            records
        } else {
            initial.committed
        }),
        RebuildPhase::Ended(outcome) => match outcome {
            Outcome::Refused => index == initial,
            Outcome::Rebuilt => index.session is None && index.committed == records,
            Outcome::Failed => index.committed == initial.committed && (initial.session is None
                ==> index.session is None),
        },
    }
}

/// One step keeps the rebuild on course.
pub proof fn lemma_step_on_course(
    phase: RebuildPhase,
    count: usize,
    last: StepAnswer,
    index: IndexModel,
    initial: IndexModel,
    records: Seq<FlatDataView>,
    answer: StepAnswer,
)
    requires
        on_course(phase, count, last, index, initial, records),
        can_answer(index, next_step(phase, count, last).2, answer, records),
    ensures
        on_course(
            next_step(phase, count, last).0,
            next_step(phase, count, last).1,
            answer,
            answered(index, next_step(phase, count, last).2, answer, records),
            initial,
            records,
        ),
{
    let (next, gathered, command) = next_step(phase, count, last);
    let after = answered(index, command, answer, records);
    match phase {
        RebuildPhase::ClearAsked => {
            if went_well(last) && count > 0 && went_well(answer) {
                assert(after.session->0 =~= records.take(1));
            }
            if went_well(last) && count == 0 && went_well(answer) {
                assert(after.committed =~= records);
            }
        },
        RebuildPhase::AddAsked(asked) => {
            if went_well(last) && asked < count && went_well(answer) {
                assert(after.session->0 =~= records.take(asked + 1));
            }
            if went_well(last) && asked >= count && went_well(answer) {
                assert(records.take(asked as int) =~= records);
            }
        },
        _ => {},
    }
}

/// Whatever comes of its steps, a rebuild stays on course.
pub proof fn lemma_run_on_course(
    phase: RebuildPhase,
    count: usize,
    last: StepAnswer,
    index: IndexModel,
    initial: IndexModel,
    records: Seq<FlatDataView>,
    answers: Seq<StepAnswer>,
)
    requires
        on_course(phase, count, last, index, initial, records),
        can_run(phase, count, last, index, records, answers),
    ensures
        on_course(
            run(phase, count, last, index, records, answers).phase,
            run(phase, count, last, index, records, answers).count,
            run(phase, count, last, index, records, answers).last,
            run(phase, count, last, index, records, answers).index,
            initial,
            records,
        ),
    decreases answers.len(),
{
    if answers.len() > 0 {
        let (next, gathered, command) = next_step(phase, count, last);
        let after = answered(index, command, answers[0], records);
        lemma_step_on_course(phase, count, last, index, initial, records, answers[0]);
        lemma_run_on_course(next, gathered, answers[0], after, initial, records, answers.drop_first());
    }
}

/// A rebuild that has ended with success has left exactly the gathered
/// records in the index, each once and in order, for every reader to see,
/// and no write session open. One that has failed has left the documents
/// that readers see as they were, and has left no session open where none
/// was open at its start.
pub proof fn law_rebuild_is_all_or_nothing(
    initial: IndexModel,
    records: Seq<FlatDataView>,
    answers: Seq<StepAnswer>,
)
    requires
        can_run(RebuildPhase::NotStarted, 0, StepAnswer::Started, initial, records, answers),
    ensures
        ({
            let end = run(
                RebuildPhase::NotStarted,
                0,
                StepAnswer::Started,
                initial,
                records,
                answers,
            );
            let index = end.index;
            match end.phase {
                RebuildPhase::Ended(Outcome::Rebuilt) => index == (IndexModel {
                    committed: records,
                    session: None,
                }),
                RebuildPhase::Ended(Outcome::Failed) => index.committed == initial.committed && (
                initial.session is None ==> index.session is None),
                RebuildPhase::Ended(Outcome::Refused) => false,
                _ => true,
            }
        }),
{
    lemma_run_on_course(
        RebuildPhase::NotStarted,
        0,
        StepAnswer::Started,
        initial,
        initial,
        records,
        answers,
    );
    lemma_never_refused(
        RebuildPhase::NotStarted,
        0,
        StepAnswer::Started,
        initial,
        records,
        answers,
    );
}

/// A rebuild that was not refused at its start does not end as refused.
pub proof fn lemma_never_refused(
    phase: RebuildPhase,
    count: usize,
    last: StepAnswer,
    index: IndexModel,
    records: Seq<FlatDataView>,
    answers: Seq<StepAnswer>,
)
    requires
        phase != RebuildPhase::Refused,
        phase != RebuildPhase::Ended(Outcome::Refused),
    ensures
        run(phase, count, last, index, records, answers).phase != RebuildPhase::Refused,
        run(phase, count, last, index, records, answers).phase != RebuildPhase::Ended(
            Outcome::Refused,
        ),
    decreases answers.len(),
{
    if answers.len() > 0 {
        let (next, gathered, command) = next_step(phase, count, last);
        lemma_never_refused(
            next,
            gathered,
            answers[0],
            answered(index, command, answers[0], records),
            records,
            answers.drop_first(),
        );
    }
}

/// A request that was refused never touches the index: nothing is asked of
/// the engine, whatever answers come, and the index stays as it is.
pub proof fn law_refused_request_leaves_index(
    index: IndexModel,
    count: usize,
    last: StepAnswer,
    records: Seq<FlatDataView>,
    answers: Seq<StepAnswer>,
)
    ensures
        run(RebuildPhase::Refused, count, last, index, records, answers).index == index,
        answers.len() > 0 ==> run(
            RebuildPhase::Refused,
            count,
            last,
            index,
            records,
            answers,
        ).phase == RebuildPhase::Ended(Outcome::Refused),
        next_step(RebuildPhase::Refused, count, last).2 == IndexCommand::Finish(Outcome::Refused),
{
    if answers.len() > 0 {
        lemma_ended_stays(Outcome::Refused, count, answers[0], index, records, answers.drop_first());
    }
}

/// A rebuild that finds a write session open does not touch the index: the
/// engine refuses a second session, and the rebuild ends at once.
pub proof fn law_open_session_stops_rebuild(
    initial: IndexModel,
    records: Seq<FlatDataView>,
    answers: Seq<StepAnswer>,
)
    requires
        initial.session is Some,
        answers.len() >= 3,
        answers[0] is Collected,
        can_run(RebuildPhase::NotStarted, 0, StepAnswer::Started, initial, records, answers),
    ensures
        run(
            RebuildPhase::NotStarted,
            0,
            StepAnswer::Started,
            initial,
            records,
            answers,
        ).phase == RebuildPhase::Ended(Outcome::Failed),
        run(RebuildPhase::NotStarted, 0, StepAnswer::Started, initial, records, answers).index
            == initial,
{
    let collected = answers[0];
    let rest = answers.drop_first();
    let opened = rest[0];
    let gathered = collected->Collected_0;
    assert(can_run(RebuildPhase::CollectAsked, 0, collected, initial, records, rest));
    let later = rest.drop_first();
    lemma_ended_stays(Outcome::Failed, gathered, later[0], initial, records, later.drop_first());
    assert(run(RebuildPhase::CollectAsked, 0, collected, initial, records, rest) == run(
        RebuildPhase::WriterAsked,
        gathered,
        opened,
        initial,
        records,
        later,
    ));
}

/// Once a rebuild has ended, nothing more happens.
pub proof fn lemma_ended_stays(
    outcome: Outcome,
    count: usize,
    last: StepAnswer,
    index: IndexModel,
    records: Seq<FlatDataView>,
    answers: Seq<StepAnswer>,
)
    ensures
        run(RebuildPhase::Ended(outcome), count, last, index, records, answers).phase
            == RebuildPhase::Ended(outcome),
        run(RebuildPhase::Ended(outcome), count, last, index, records, answers).index == index,
    decreases answers.len(),
{
    if answers.len() > 0 {
        lemma_ended_stays(outcome, count, answers[0], index, records, answers.drop_first());
    }
}

/// The rebuild for a request that brings `secret`: it is carried out where
/// the secret is the configured one, and refused otherwise.
pub fn recreate(secret: &str, config: &Config) -> (rebuild: Rebuild)
    ensures
        rebuild.count() == 0,
        rebuild.phase() == (if secret@ == config.api.internal_commands_secret@ {
            RebuildPhase::NotStarted
        } else {
            RebuildPhase::Refused
        }),
{
    if !str_eq(secret, config.api.internal_commands_secret.as_str()) {
        return Rebuild { phase: RebuildPhase::Refused, count: 0 };
    }
    Rebuild::new()
}

impl Rebuild {
    /// A rebuild that is to be carried out, not yet begun.
    pub fn new() -> (rebuild: Rebuild)
        ensures
            rebuild.phase() == RebuildPhase::NotStarted,
            rebuild.count() == 0,
    {
        Rebuild { phase: RebuildPhase::NotStarted, count: 0 }
    }

    /// How far the rebuild has come.
    pub closed spec fn phase(&self) -> RebuildPhase {
        self.phase
    }

    /// The number of records that were gathered; 0 before that.
    pub closed spec fn count(&self) -> usize {
        self.count
    }

    #[verifier::type_invariant]
    spec fn in_range(&self) -> bool {
        self.phase matches RebuildPhase::AddAsked(asked) ==> 1 <= asked <= self.count
    }

    /// What is to be done next, given what came of the last thing. A record
    /// that is to be added is one of those that were gathered.
    pub fn next(&mut self, answer: StepAnswer) -> (command: IndexCommand)
        ensures
            (final(self).phase(), final(self).count(), command) == next_step(
                old(self).phase(),
                old(self).count(),
                answer,
            ),
            command matches IndexCommand::AddDocument(place) ==> place < final(self).count(),
    {
        let well = match answer {
            StepAnswer::Done(well) => well,
            _ => false,
        };
        let count = self.count;
        let (phase, count, command) = match self.phase {
            RebuildPhase::Refused => (
                RebuildPhase::Ended(Outcome::Refused),
                count,
                IndexCommand::Finish(Outcome::Refused),
            ),
            RebuildPhase::NotStarted => (RebuildPhase::CollectAsked, count, IndexCommand::Collect),
            RebuildPhase::CollectAsked => match answer {
                StepAnswer::Collected(gathered) => (
                    RebuildPhase::WriterAsked,
                    gathered,
                    IndexCommand::OpenWriter,
                ),
                _ => (
                    RebuildPhase::Ended(Outcome::Failed),
                    count,
                    IndexCommand::Finish(Outcome::Failed),
                ),
            },
            RebuildPhase::WriterAsked => if well {
                (RebuildPhase::ClearAsked, count, IndexCommand::DeleteAllDocuments)
            } else {
                (RebuildPhase::Ended(Outcome::Failed), count, IndexCommand::Finish(Outcome::Failed))
            },
            RebuildPhase::ClearAsked => if !well {
                (RebuildPhase::ReleaseAsked(false), count, IndexCommand::ReleaseWriter)
            } else if count == 0 {
                (RebuildPhase::CommitAsked, count, IndexCommand::Commit)
            } else {
                (RebuildPhase::AddAsked(1), count, IndexCommand::AddDocument(0))
            },
            RebuildPhase::AddAsked(asked) => if !well {
                (RebuildPhase::ReleaseAsked(false), count, IndexCommand::ReleaseWriter)
            } else if asked < count {
                (RebuildPhase::AddAsked(asked + 1), count, IndexCommand::AddDocument(asked))
            } else {
                (RebuildPhase::CommitAsked, count, IndexCommand::Commit)
            },
            RebuildPhase::CommitAsked => (
                RebuildPhase::ReleaseAsked(well),
                count,
                IndexCommand::ReleaseWriter,
            ),
            RebuildPhase::ReleaseAsked(rebuilt) => {
                let outcome = if rebuilt {
                    Outcome::Rebuilt
                } else {
                    Outcome::Failed
                };
                (RebuildPhase::Ended(outcome), count, IndexCommand::Finish(outcome))
            },
            RebuildPhase::Ended(outcome) => (
                RebuildPhase::Ended(outcome),
                count,
                IndexCommand::Finish(outcome),
            ),
        };
        *self = Rebuild { phase, count };
        command
    }
}

} // verus!
