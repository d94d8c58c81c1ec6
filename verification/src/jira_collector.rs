//! The collector for Jira issues: a placeholder that never has anything.

use crate::bucket::Bucket;
use crate::collector::{CollectError, CollectResult, Collector, FlatData, FlatDataView};
use crate::jira_client::{IssueWithComments, JiraClient};
use vstd::prelude::*;

verus! {

/// Collects the issues of a Jira service. Nothing is collected yet.
#[derive(Debug)]
pub struct JiraCollector {
    jira_client: JiraClient,
}

impl JiraCollector {
    /// A collector for the service at `host` with the given credentials.
    pub fn new(host: &str, username: &str, password: &str) -> (collector: JiraCollector)
        ensures
            collector.client().host() == host@,
            collector.client().username() == username@,
            collector.client().password() == password@,
    {
        let jira_client = JiraClient::new(host, username, password);
        JiraCollector { jira_client }
    }

    /// The client that the collector asks the service with.
    pub closed spec fn client(&self) -> JiraClient {
        self.jira_client
    }

    /// The client that the collector asks the service with.
    pub fn jira_client(&self) -> (client: &JiraClient)
        ensures
            *client == self.client(),
    {
        &self.jira_client
    }
}

impl Collector for JiraCollector {
    /// The issues as they were fetched.
    type Source = Vec<IssueWithComments>;

    /// No bucket has records: collecting never gives a bucket.
    open spec fn flat_data(&self, bucket: &Bucket) -> Seq<FlatDataView> {
        Seq::empty()
    }

    /// No records, whatever the bucket holds.
    fn convert_to_flat_data(&self, bucket: &Bucket) -> (records: Vec<FlatData>) {
        Vec::new()
    }

    /// Always fails: the source is left out of every cycle.
    fn collect(&self, source: &Vec<IssueWithComments>) -> (outcome: Result<
        CollectResult,
        CollectError,
    >)
        ensures
            outcome is Err,
    {
        Err(CollectError::General)
    }
}

} // verus!
