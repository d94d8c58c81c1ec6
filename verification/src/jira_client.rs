//! The credentials for the Jira service.

use vstd::prelude::*;

verus! {

/// The credentials for the Jira service and its address.
#[derive(Debug)]
pub struct JiraClient {
    username: String,
    password: String,
    host: String,
}

/// An issue with its comments.
#[derive(Debug)]
pub struct IssueWithComments {
    pub title: String,
    pub description: String,
    pub comments: String,
}

impl JiraClient {
    /// A client for the service at `host` with the given credentials.
    pub fn new(host: &str, username: &str, password: &str) -> (client: JiraClient)
        ensures
            client.host() == host@,
            client.username() == username@,
            client.password() == password@,
    {
        JiraClient {
            host: host.to_owned(),
            username: username.to_owned(),
            password: password.to_owned(),
        }
    }

    pub closed spec fn host(&self) -> Seq<char> {
        self.host@
    }

    pub closed spec fn username(&self) -> Seq<char> {
        self.username@
    }

    pub closed spec fn password(&self) -> Seq<char> {
        self.password@
    }

    /// The service's address.
    pub fn service_host(&self) -> (host: &str)
        ensures
            host@ == self.host(),
    {
        self.host.as_str()
    }

    /// The name to sign in with.
    pub fn service_username(&self) -> (username: &str)
        ensures
            username@ == self.username(),
    {
        self.username.as_str()
    }

    /// The password to sign in with.
    pub fn service_password(&self) -> (password: &str)
        ensures
            password@ == self.password(),
    {
        self.password.as_str()
    }

    /// The issues with their comments. Nothing is made of what the service
    /// answers yet: there is never an issue.
    pub fn get_all_issues_with_comments(&self) -> (issues: Vec<IssueWithComments>)
        ensures
            issues@.len() == 0,
    {
        Vec::new()
    }
}

} // verus!
