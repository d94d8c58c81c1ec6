use rustledge::collector::{CollectError, CollectResult, Collector, FlatData};
use rustledge::config::{ApiConfig, Config, IndexServerConfig, TrelloConfig};
use rustledge::git_collector::{
    create_bucket_from_head, FileContents, GitCollector, RepositoryHead, WalkedFile,
};
use rustledge::index_server::{
    absorb, fill_data, recreate, recreate_answer, search_top_docs, setup_index, EngineAnswer,
    IndexCommand, Outcome, Rebuild, SearchError, SetupAction, StepAnswer, BODY_FIELD,
    RECREATE_FAILED, RECREATE_SUCCEEDED, REF_LINK_FIELD, SECRET_INCORRECT, TITLE_FIELD,
    TOP_DOCS_LIMIT, WRITER_MEMORY,
};
use rustledge::jira_client::JiraClient;
use rustledge::jira_collector::JiraCollector;
use rustledge::trello_client::{Board, BoardReading, Card, CardBadges, CardReading};

fn config(repos: Vec<&str>) -> Config {
    Config {
        git_repos: repos.into_iter().map(String::from).collect(),
        index_server: IndexServerConfig { db_path: "./db".to_string() },
        api: ApiConfig { port: 8000, internal_commands_secret: "secret".to_string() },
        trello: TrelloConfig { key: "k".to_string(), token: "t".to_string() },
    }
}

fn repository(root: &str, files: Vec<(&str, &str)>) -> RepositoryHead {
    RepositoryHead {
        remotes: vec![],
        commit_id: "id".to_string(),
        message: Some("message".to_string()),
        summary: Some("message".to_string()),
        root: root.to_string(),
        walked: files
            .into_iter()
            .map(|(path, content)| WalkedFile {
                path: format!("{}/{}", root, path),
                is_file: true,
                size: content.len() as u64,
                contents: FileContents::Bytes(content.as_bytes().to_vec()),
            })
            .collect(),
    }
}

fn one_card() -> Vec<BoardReading> {
    vec![BoardReading {
        board: Board { id: "b".to_string(), name: "board".to_string() },
        cards: vec![CardReading {
            card: Card {
                id: "c".to_string(),
                name: "Card".to_string(),
                description: "about".to_string(),
                short_url: "https://trello.com/c/1".to_string(),
                badges: CardBadges { comments: 0 },
            },
            actions: vec![],
        }],
    }]
}

fn document(number: usize) -> FlatData {
    FlatData {
        title: format!("title {}", number),
        body: format!("body {}", number),
        ref_link: format!("link {}", number),
    }
}

fn follow(mut rebuild: Rebuild, answers: &[StepAnswer]) -> Vec<IndexCommand> {
    let mut commands = vec![];
    let mut last = StepAnswer::Started;
    for answer in answers {
        commands.push(rebuild.next(last));
        last = *answer;
    }
    commands
}

fn run_rebuild(count: usize, answers: &[bool]) -> Vec<IndexCommand> {
    let mut all = vec![StepAnswer::Collected(count)];
    all.extend(answers.iter().map(|ok| StepAnswer::Done(*ok)));
    follow(Rebuild::new(), &all)
}

#[test]
fn the_names_and_limits_are_the_documented_ones() {
    assert_eq!(TITLE_FIELD, "title");
    assert_eq!(BODY_FIELD, "body");
    assert_eq!(REF_LINK_FIELD, "ref_link");
    assert_eq!(WRITER_MEMORY, 50_000_000);
    assert_eq!(TOP_DOCS_LIMIT, 10);
}

#[test]
fn an_index_that_could_be_opened_is_used() {
    assert_eq!(setup_index(true), SetupAction::UseExisting);
    assert_eq!(setup_index(false), SetupAction::CreateNew);
}

#[test]
fn the_records_of_all_sources_are_gathered_in_order() {
    let config = config(vec!["/one", "/two"]);
    let repositories = vec![
        Some(repository("/one", vec![("a.txt", "A"), ("b.txt", "B")])),
        Some(repository("/two", vec![("c.txt", "C")])),
    ];
    let records = fill_data(&config, &repositories, &Some(one_card()));
    assert_eq!(records.len(), 4);
    assert_eq!(records[0].title, "a.txt");
    assert_eq!(records[0].body, "A");
    assert_eq!(records[0].ref_link, "/-/blob/master/a.txt");
    assert_eq!(records[1].title, "b.txt");
    assert_eq!(records[2].title, "c.txt");
    assert_eq!(records[3].title, "Card");
    assert_eq!(records[3].body, "about\nComments:\n\n");
    assert_eq!(records[3].ref_link, "https://trello.com/c/1");
}

#[test]
fn a_source_that_failed_is_left_out_and_the_others_count() {
    let config = config(vec!["/one", "/two", "/three"]);
    let repositories =
        vec![None, Some(repository("/two", vec![("c.txt", "C")])), None];
    let records = fill_data(&config, &repositories, &None);
    assert_eq!(records.len(), 1);
    assert_eq!(records[0].title, "c.txt");
    let records = fill_data(&config, &vec![None, None, None], &Some(one_card()));
    assert_eq!(records.len(), 1);
    assert_eq!(records[0].title, "Card");
    assert_eq!(fill_data(&config, &vec![None, None, None], &None).len(), 0);
}

#[test]
fn a_repository_without_a_reading_counts_as_failed() {
    let config = config(vec!["/one", "/two"]);
    let repositories = vec![Some(repository("/one", vec![("a.txt", "A")]))];
    let records = fill_data(&config, &repositories, &None);
    assert_eq!(records.len(), 1);
    assert_eq!(records[0].title, "a.txt");
    let more = vec![
        Some(repository("/one", vec![("a.txt", "A")])),
        Some(repository("/two", vec![("b.txt", "B")])),
        Some(repository("/three", vec![("c.txt", "C")])),
    ];
    let records = fill_data(&config, &more, &None);
    assert_eq!(records.len(), 2);
    assert_eq!(records[1].title, "b.txt");
}

#[test]
fn absorb_appends_the_records_of_new_and_incremental_data() {
    let collector = GitCollector::new("/one");
    let head = repository("/one", vec![("a.txt", "A")]);
    let mut records = vec![document(0)];
    absorb(&mut records, &collector, &Ok(CollectResult::New(create_bucket_from_head(&head))));
    assert_eq!(records.len(), 2);
    assert_eq!(records[0].title, "title 0");
    assert_eq!(records[1].title, "a.txt");
    absorb(
        &mut records,
        &collector,
        &Ok(CollectResult::Incremental(create_bucket_from_head(&head))),
    );
    assert_eq!(records.len(), 3);
    assert_eq!(records[2].title, "a.txt");
}

#[test]
fn absorb_appends_nothing_for_a_failure_or_no_change() {
    let collector = GitCollector::new("/one");
    let mut records = vec![document(0)];
    absorb(&mut records, &collector, &Ok(CollectResult::Nop));
    assert_eq!(records.len(), 1);
    absorb(&mut records, &collector, &Err(CollectError::General));
    assert_eq!(records.len(), 1);
    assert_eq!(records[0].title, "title 0");
}

#[test]
fn the_jira_collector_always_fails() {
    let collector = JiraCollector::new("https://jira.host", "user", "password");
    assert!(collector.collect(&vec![]).is_err());
    assert_eq!(collector.jira_client().service_host(), "https://jira.host");
    assert_eq!(collector.jira_client().service_username(), "user");
    assert_eq!(collector.jira_client().service_password(), "password");
    let client = JiraClient::new("h", "u", "p");
    assert_eq!(client.get_all_issues_with_comments().len(), 0);
    let bucket = create_bucket_from_head(&repository("/one", vec![("a.txt", "A")]));
    assert_eq!(collector.convert_to_flat_data(&bucket).len(), 0);
}

#[test]
fn a_search_gives_the_stored_fields_in_the_order_of_the_matches() {
    let answer = EngineAnswer::Matches(vec![document(3), document(1), document(2)]);
    let results = search_top_docs("query", &answer).unwrap();
    assert_eq!(results.len(), 3);
    assert_eq!(results[0].title, "title 3");
    assert_eq!(results[0].description, "body 3");
    assert_eq!(results[0].ref_link, "link 3");
    assert_eq!(results[1].title, "title 1");
    assert_eq!(results[2].description, "body 2");
}

#[test]
fn a_search_gives_at_most_ten_results() {
    let answer = EngineAnswer::Matches((0..25).map(document).collect());
    let results = search_top_docs("query", &answer).unwrap();
    assert_eq!(results.len(), 10);
    assert_eq!(results[0].title, "title 0");
    assert_eq!(results[9].title, "title 9");
    let answer = EngineAnswer::Matches((0..10).map(document).collect());
    assert_eq!(search_top_docs("query", &answer).unwrap().len(), 10);
    let answer = EngineAnswer::Matches(vec![]);
    assert_eq!(search_top_docs("query", &answer).unwrap().len(), 0);
}

#[test]
fn a_query_that_could_not_be_parsed_is_an_error() {
    assert_eq!(search_top_docs("title:[", &EngineAnswer::QueryRejected).unwrap_err(), SearchError::Query);
}

#[test]
fn an_empty_query_is_an_error() {
    let answer = EngineAnswer::Matches(vec![document(1)]);
    assert_eq!(search_top_docs("", &answer).unwrap_err(), SearchError::Query);
    assert_eq!(search_top_docs("", &EngineAnswer::Matches(vec![])).unwrap_err(), SearchError::Query);
    assert_eq!(search_top_docs("", &EngineAnswer::QueryRejected).unwrap_err(), SearchError::Query);
    assert_eq!(search_top_docs(" ", &answer).unwrap().len(), 1);
}

#[test]
fn a_wrong_secret_is_refused() {
    let config = config(vec![]);
    for secret in ["wrong", "", "secret ", "Secret"] {
        let commands = follow(
            recreate(secret, &config),
            &[StepAnswer::Started, StepAnswer::Collected(3), StepAnswer::Done(true)],
        );
        assert_eq!(
            commands,
            vec![
                IndexCommand::Finish(Outcome::Refused),
                IndexCommand::Finish(Outcome::Refused),
                IndexCommand::Finish(Outcome::Refused),
            ]
        );
    }
    let answer = recreate_answer(Outcome::Refused);
    assert!(!answer.is_ok);
    assert_eq!(answer.message, "Provided secret is incorrect");
}

#[test]
fn the_right_secret_starts_a_rebuild() {
    let config = config(vec![]);
    let commands = follow(
        recreate("secret", &config),
        &[StepAnswer::Collected(0), StepAnswer::Done(true)],
    );
    assert_eq!(commands, vec![IndexCommand::Collect, IndexCommand::OpenWriter]);
}

#[test]
fn the_answer_says_how_the_rebuild_went() {
    let done = recreate_answer(Outcome::Rebuilt);
    assert!(done.is_ok);
    assert_eq!(done.message, "Index db recreated successfully");
    let failed = recreate_answer(Outcome::Failed);
    assert!(!failed.is_ok);
    assert_eq!(failed.message, "An error occurred while recreating index db");
    assert_eq!(SECRET_INCORRECT, "Provided secret is incorrect");
    assert_eq!(RECREATE_SUCCEEDED, "Index db recreated successfully");
    assert_eq!(RECREATE_FAILED, "An error occurred while recreating index db");
}

#[test]
fn a_rebuild_collects_wipes_adds_and_commits_in_one_session() {
    let commands = run_rebuild(2, &[true; 8]);
    assert_eq!(
        commands,
        vec![
            IndexCommand::Collect,
            IndexCommand::OpenWriter,
            IndexCommand::DeleteAllDocuments,
            IndexCommand::AddDocument(0),
            IndexCommand::AddDocument(1),
            IndexCommand::Commit,
            IndexCommand::ReleaseWriter,
            IndexCommand::Finish(Outcome::Rebuilt),
            IndexCommand::Finish(Outcome::Rebuilt),
        ]
    );
}

#[test]
fn a_rebuild_without_records_commits_the_empty_index() {
    let commands = run_rebuild(0, &[true; 5]);
    assert_eq!(
        commands,
        vec![
            IndexCommand::Collect,
            IndexCommand::OpenWriter,
            IndexCommand::DeleteAllDocuments,
            IndexCommand::Commit,
            IndexCommand::ReleaseWriter,
            IndexCommand::Finish(Outcome::Rebuilt),
        ]
    );
}

#[test]
fn a_failed_wipe_ends_the_rebuild_without_a_commit() {
    let commands = run_rebuild(2, &[true, false, true, true]);
    assert_eq!(
        commands,
        vec![
            IndexCommand::Collect,
            IndexCommand::OpenWriter,
            IndexCommand::DeleteAllDocuments,
            IndexCommand::ReleaseWriter,
            IndexCommand::Finish(Outcome::Failed),
        ]
    );
}

#[test]
fn a_session_that_could_not_be_opened_ends_the_rebuild() {
    let commands = run_rebuild(2, &[false, true, true]);
    assert_eq!(
        commands,
        vec![
            IndexCommand::Collect,
            IndexCommand::OpenWriter,
            IndexCommand::Finish(Outcome::Failed),
            IndexCommand::Finish(Outcome::Failed),
        ]
    );
}

#[test]
fn a_failed_addition_ends_the_rebuild_without_a_commit() {
    let commands = run_rebuild(3, &[true, true, true, false, true, true]);
    assert_eq!(
        commands,
        vec![
            IndexCommand::Collect,
            IndexCommand::OpenWriter,
            IndexCommand::DeleteAllDocuments,
            IndexCommand::AddDocument(0),
            IndexCommand::AddDocument(1),
            IndexCommand::ReleaseWriter,
            IndexCommand::Finish(Outcome::Failed),
        ]
    );
}

#[test]
fn a_failed_commit_is_reported_after_the_session_was_closed() {
    let commands = run_rebuild(1, &[true, true, true, false, true, true]);
    assert_eq!(
        commands,
        vec![
            IndexCommand::Collect,
            IndexCommand::OpenWriter,
            IndexCommand::DeleteAllDocuments,
            IndexCommand::AddDocument(0),
            IndexCommand::Commit,
            IndexCommand::ReleaseWriter,
            IndexCommand::Finish(Outcome::Failed),
        ]
    );
}

#[test]
fn a_rebuild_that_gets_no_count_of_records_fails() {
    let commands = follow(
        Rebuild::new(),
        &[StepAnswer::Done(true), StepAnswer::Done(true), StepAnswer::Done(true)],
    );
    assert_eq!(
        commands,
        vec![
            IndexCommand::Collect,
            IndexCommand::Finish(Outcome::Failed),
            IndexCommand::Finish(Outcome::Failed),
        ]
    );
}

#[test]
fn get_all_issues_with_comments_works_with_no_errors() {
    let client = JiraClient::new("https://jira.host", "user", "password");
    let result = client.get_all_issues_with_comments();
    println!("{:?}", result);
}
