//! The collector for a checked-out git repository: the head commit and the
//! text of the files in the working tree.

use crate::bucket::{
    distinct_listing, lemma_listing_with_keys, lemma_listing_with_values, lemma_map_of_values,
    listed_at, listing_with, lookup, map_of, Bucket, Value, ValueView,
};
use crate::collector::{CollectError, CollectResult, Collector, FlatData, FlatDataView};
use crate::docx_reader::{body_text, read_all_docx_text, Document};
use crate::pdf_reader::read_all_pdf_text;
use crate::text::{
    after_last, followed_by, occurs_at, replace, replaced, starts_with, str_eq, text_after_last,
};
use vstd::prelude::*;
use vstd::std_specs::cmp::PartialEqSpec;
use vstd::string::*;
use vstd::utf8::*;

verus! {

pub const COMMIT_NAME: &'static str = "COMMIT-NAME";

pub const IS_HEAD: &'static str = "IS-HEAD";

pub const COMMIT_MESSAGE: &'static str = "COMMIT-MESSAGE";

pub const COMMIT_DESCRIPTION: &'static str = "COMMIT-DESCRIPTION";

pub const FILES: &'static str = "FILES";

pub const REMOTE_URL: &'static str = "REMOTE-URL";

/// What stands between the remote's address and a file's path in a link.
pub const BLOB_PATH: &'static str = "/-/blob/master/";

/// Text files of more than this many bytes stay out of the index.
pub const MAX_TEXT_FILE_SIZE: u64 = 5_000_000;

/// A remote that the repository is configured with.
#[derive(Debug)]
pub struct Remote {
    pub name: String,
    pub url: String,
}

/// What was read of a file in the working tree.
#[derive(Debug)]
pub enum FileContents {
    /// Nothing: the file was not read, or could not be.
    Unread,
    /// The bytes of the file.
    Bytes(Vec<u8>),
    /// The file parsed as an office document.
    Document(Document),
}

/// An entry found while walking the working tree.
#[derive(Debug)]
pub struct WalkedFile {
    /// The path as it was walked, starting with the working tree's root.
    pub path: String,
    /// Whether the entry is a regular file.
    pub is_file: bool,
    /// The file's size in bytes.
    pub size: u64,
    pub contents: FileContents,
}

/// What was read of a repository after its head was checked out.
#[derive(Debug)]
pub struct RepositoryHead {
    /// The configured remotes, in the repository's order.
    pub remotes: Vec<Remote>,
    /// The id of the head commit.
    pub commit_id: String,
    /// The head commit's message, where it is text.
    pub message: Option<String>,
    /// The first line of the message, where it is text.
    pub summary: Option<String>,
    /// The root of the working tree.
    pub root: String,
    /// Every entry of the working tree, in the order it was walked.
    pub walked: Vec<WalkedFile>,
}

/// How a file's text is obtained.
#[derive(Debug, Clone, Copy, PartialEq, Eq, Structural)]
pub enum FileKind {
    /// An office document, read through the document reader.
    Document,
    /// A PDF document.
    Pdf,
    /// Anything else: read as UTF-8 text.
    Text,
}

/// What is to be read of an entry of the working tree.
#[derive(Debug, Clone, Copy, PartialEq, Eq, Structural)]
pub enum ReadPlan {
    /// Nothing: the entry brings nothing to the index, whatever it holds.
    Nothing,
    /// The entry parsed as an office document.
    Document,
    /// The bytes of the entry.
    Bytes,
}

/// The address of the first remote, or nothing where there is no remote or
/// the first has no name.
pub open spec fn primary_remote_url(remotes: Seq<Remote>) -> Seq<char> {
    if remotes.len() == 0 || remotes[0].name@.len() == 0 {
        Seq::empty()
    } else {
        remotes[0].url@
    }
}

/// The text, or nothing where there is none.
pub open spec fn text_or_empty(text: Option<String>) -> Seq<char> {
    match text {
        Some(text) => text@,
        None => Seq::empty(),
    }
}

/// The root with forward slashes and a slash at its end: what every walked
/// path begins with.
pub open spec fn root_prefix(root: Seq<char>) -> Seq<char> {
    slashed(root) + "/"@
}

/// The path with forward slashes.
pub open spec fn slashed(path: Seq<char>) -> Seq<char> {
    replaced(path, "\\"@, "/"@)
}

/// The path relative to the root: the path with forward slashes, without
/// the root in front where it begins with the root.
pub open spec fn relative_path(prefix: Seq<char>, path: Seq<char>) -> Seq<char> {
    if occurs_at(slashed(path), prefix, 0) {
        slashed(path).subrange(prefix.len() as int, slashed(path).len() as int)
    } else {
        slashed(path)
    }
}

/// Whether a relative path lies in the metadata directory of the version
/// control: it is ".git" itself or begins with ".git/".
pub open spec fn is_metadata(relative: Seq<char>) -> bool {
    relative == ".git"@ || occurs_at(relative, ".git/"@, 0)
}

/// Whether an entry may be indexed: a regular file outside the metadata
/// directory.
pub open spec fn is_candidate(relative: Seq<char>, is_file: bool) -> bool {
    is_file && !is_metadata(relative)
}

/// The kind that the path's extension says.
pub open spec fn kind_of(relative: Seq<char>) -> FileKind {
    let extension = after_last(relative, '.');
    if extension == "docx"@ || extension == "doc"@ {
        FileKind::Document
    } else if extension == "pdf"@ {
        FileKind::Pdf
    } else {
        FileKind::Text
    }
}

/// The text that a file of the given kind brings to the index, if any.
pub open spec fn indexed_text(kind: FileKind, size: u64, contents: FileContents) -> Option<
    Seq<char>,
> {
    match kind {
        FileKind::Document => match contents {
            FileContents::Document(document) => Some(body_text(document.body@)),
            _ => None,
        },
        FileKind::Pdf => None,
        FileKind::Text => match contents {
            FileContents::Bytes(bytes) => if size <= MAX_TEXT_FILE_SIZE && valid_utf8(bytes@) {
                Some(decode_utf8(bytes@))
            } else {
                None
            },
            _ => None,
        },
    }
}

/// What is to be read of an entry: nothing where it may not be indexed, is
/// a PDF document, or is a text file of more than the size limit.
pub open spec fn planned(prefix: Seq<char>, path: Seq<char>, is_file: bool, size: u64) -> ReadPlan {
    if !is_candidate(relative_path(prefix, path), is_file) {
        ReadPlan::Nothing
    } else {
        match kind_of(relative_path(prefix, path)) {
            FileKind::Document => ReadPlan::Document,
            FileKind::Pdf => ReadPlan::Nothing,
            FileKind::Text => if size > MAX_TEXT_FILE_SIZE {
                ReadPlan::Nothing
            } else {
                ReadPlan::Bytes
            },
        }
    }
}

/// The entry that a walked file gives: its relative path and its text.
pub open spec fn file_entry(prefix: Seq<char>, file: WalkedFile) -> Option<
    (Seq<char>, Seq<char>),
> {
    let relative = relative_path(prefix, file.path@);
    if is_candidate(relative, file.is_file) {
        match indexed_text(kind_of(relative), file.size, file.contents) {
            Some(text) => Some((relative, text)),
            None => None,
        }
    } else {
        None
    }
}

/// The entries of the sub-bucket of files after the walk: each file that
/// gives an entry is stored under its relative path.
pub open spec fn files_listing(prefix: Seq<char>, walked: Seq<WalkedFile>) -> Seq<
    (Seq<char>, ValueView),
>
    decreases walked.len(),
{
    if walked.len() == 0 {
        Seq::empty()
    } else {
        let before = files_listing(prefix, walked.drop_last());
        match file_entry(prefix, walked.last()) {
            Some((relative, text)) => listing_with(before, relative, ValueView::String(text)),
            None => before,
        }
    }
}

/// The entries of the bucket for a head.
pub open spec fn head_listing(head: RepositoryHead) -> Seq<(Seq<char>, ValueView)> {
    seq![
        (COMMIT_NAME@, ValueView::String(head.commit_id@)),
        (COMMIT_MESSAGE@, ValueView::String(text_or_empty(head.message))),
        (COMMIT_DESCRIPTION@, ValueView::String(text_or_empty(head.summary))),
        (IS_HEAD@, ValueView::Bool(true)),
        (REMOTE_URL@, ValueView::String(primary_remote_url(head.remotes@))),
        (
            FILES@,
            ValueView::Bucket(map_of(files_listing(root_prefix(head.root@), head.walked@))),
        ),
    ]
}

/// The record of one file.
pub open spec fn file_record(remote_url: Seq<char>, path: Seq<char>, text: Seq<char>) -> FlatDataView {
    FlatDataView { title: path, body: text, ref_link: remote_url + BLOB_PATH@ + path }
}

/// The records of the listed files, in order: one for each entry that
/// holds text.
pub open spec fn file_records(remote_url: Seq<char>, files: Seq<(Seq<char>, ValueView)>) -> Seq<
    FlatDataView,
>
    decreases files.len(),
{
    if files.len() == 0 {
        Seq::empty()
    } else {
        let before = file_records(remote_url, files.drop_last());
        match files.last().1 {
            ValueView::String(text) => before.push(file_record(remote_url, files.last().0, text)),
            _ => before,
        }
    }
}

/// The records that a head's bucket flattens into: those of its files,
/// where it holds the remote's address as text and the files as a bucket,
/// and none otherwise.
pub open spec fn head_records(bucket: &Bucket) -> Seq<FlatDataView> {
    match (bucket.stored(REMOTE_URL@), bucket.stored(FILES@)) {
        (Some(Value::String(url)), Some(Value::Bucket(files))) => file_records(
            url@,
            files.listing(),
        ),
        _ => Seq::empty(),
    }
}

/// The six keys of a head's bucket differ from each other: no two have the
/// same length.
pub proof fn lemma_keys_differ()
    ensures
        COMMIT_NAME@.len() == 11,
        COMMIT_MESSAGE@.len() == 14,
        COMMIT_DESCRIPTION@.len() == 18,
        IS_HEAD@.len() == 7,
        REMOTE_URL@.len() == 10,
        FILES@.len() == 5,
{
    reveal_strlit("COMMIT-NAME");
    reveal_strlit("COMMIT-MESSAGE");
    reveal_strlit("COMMIT-DESCRIPTION");
    reveal_strlit("IS-HEAD");
    reveal_strlit("REMOTE-URL");
    reveal_strlit("FILES");
}

/// Whether `bucket` is what collecting gives for `head`.
pub open spec fn collected_from(bucket: &Bucket, head: RepositoryHead) -> bool {
    &&& bucket.consistent()
    &&& bucket.listing() == head_listing(head)
    &&& bucket@ == map_of(head_listing(head))
    &&& bucket.stored(FILES@) matches Some(Value::Bucket(files))
    &&& files.consistent()
    &&& files.listing() == files_listing(root_prefix(head.root@), head.walked@)
}

/// The records of a head: those of its indexed files, linked to its first
/// remote.
pub open spec fn records_of_head(head: RepositoryHead) -> Seq<FlatDataView> {
    file_records(
        primary_remote_url(head.remotes@),
        files_listing(root_prefix(head.root@), head.walked@),
    )
}

/// The records of a reading: none where the repository could not be read.
pub open spec fn records_of_reading(reading: Option<RepositoryHead>) -> Seq<FlatDataView> {
    match reading {
        Some(head) => records_of_head(head),
        None => Seq::empty(),
    }
}

/// Flattening the bucket that was collected from a head gives the records
/// of the head.
pub proof fn law_collected_flattens_to_records(bucket: &Bucket, head: RepositoryHead)
    requires
        collected_from(bucket, head),
    ensures
        head_records(bucket) == records_of_head(head),
{
}

/// The address of the first remote, or nothing where there is none.
pub fn remote_url_of(remotes: &Vec<Remote>) -> (url: String)
    ensures
        url@ == primary_remote_url(remotes@),
{
    if remotes.len() == 0 || remotes[0].name.as_str().unicode_len() == 0 {
        String::new()
    } else {
        remotes[0].url.clone()
    }
}

/// The root as every walked path begins with it.
pub fn root_prefix_of(root: &str) -> (prefix: String)
    ensures
        prefix@ == root_prefix(root@),
{
    let mut prefix = replace(root, "\\", "/");
    prefix.append("/");
    prefix
}

/// The path of a walked file relative to the root, with forward slashes.
pub fn relative_path_of(prefix: &str, path: &str) -> (relative: String)
    ensures
        relative@ == relative_path(prefix@, path@),
{
    let with_slashes = replace(path, "\\", "/");
    if starts_with(with_slashes.as_str(), prefix) {
        let from = prefix.unicode_len();
        let to = with_slashes.as_str().unicode_len();
        with_slashes.as_str().substring_char(from, to).to_owned()
    } else {
        with_slashes
    }
}

/// Whether an entry of the walk may be indexed, given its relative path
/// and whether it is a regular file.
pub fn may_index(relative: &str, is_file: bool) -> (candidate: bool)
    ensures
        candidate == is_candidate(relative@, is_file),
{
    is_file && !(str_eq(relative, ".git") || starts_with(relative, ".git/"))
}

/// How the text of the file at a relative path is obtained.
pub fn file_kind(relative: &str) -> (kind: FileKind)
    ensures
        kind == kind_of(relative@),
{
    let extension = text_after_last(relative, '.');
    if str_eq(extension.as_str(), "docx") || str_eq(extension.as_str(), "doc") {
        FileKind::Document
    } else if str_eq(extension.as_str(), "pdf") {
        FileKind::Pdf
    } else {
        FileKind::Text
    }
}

/// What is to be read of an entry of the walk, given the root as every
/// walked path begins with it, the entry's path, whether it is a regular
/// file, and its size in bytes.
pub fn read_plan(prefix: &str, path: &str, is_file: bool, size: u64) -> (plan: ReadPlan)
    ensures
        plan == planned(prefix@, path@, is_file, size),
{
    let relative = relative_path_of(prefix, path);
    if !may_index(relative.as_str(), is_file) {
        return ReadPlan::Nothing;
    }
    match file_kind(relative.as_str()) {
        FileKind::Document => ReadPlan::Document,
        FileKind::Pdf => ReadPlan::Nothing,
        FileKind::Text => if size > MAX_TEXT_FILE_SIZE {
            ReadPlan::Nothing
        } else {
            ReadPlan::Bytes
        },
    }
}

/// The bytes as text. `core::str::from_utf8` accepts exactly the byte
/// strings that are well-formed UTF-8, and the text it gives is the one
/// that those bytes encode.
#[verifier::external_body]
fn text_of_bytes(bytes: &Vec<u8>) -> (text: Option<String>)
    ensures
        text is Some <==> valid_utf8(bytes@),
        text matches Some(decoded) ==> decoded@ == decode_utf8(bytes@),
{
    match core::str::from_utf8(bytes.as_slice()) {
        Ok(text) => Some(text.to_owned()),
        Err(_) => None,
    }
}

/// The text that a file brings to the index, if any: an office document
/// gives its plain text, a PDF document none, and any other file its
/// contents where they are UTF-8 text of no more than the size limit.
pub fn text_to_index(kind: FileKind, path: &str, size: u64, contents: &FileContents) -> (text:
    Option<String>)
    ensures
        match indexed_text(kind, size, *contents) {
            Some(expected) => text matches Some(found) && found@ == expected,
            None => text is None,
        },
{
    match kind {
        FileKind::Document => match contents {
            FileContents::Document(document) => read_all_docx_text(Some(document)),
            _ => None,
        },
        FileKind::Pdf => read_all_pdf_text(path),
        FileKind::Text => match contents {
            FileContents::Bytes(bytes) => if size > MAX_TEXT_FILE_SIZE {
                None
            } else {
                text_of_bytes(bytes)
            },
            _ => None,
        },
    }
}

/// The bucket of the indexed files of a walk.
pub fn collect_files(root: &str, walked: &Vec<WalkedFile>) -> (files: Bucket)
    ensures
        files.consistent(),
        files.listing() == files_listing(root_prefix(root@), walked@),
{
    let prefix = root_prefix_of(root);
    let mut files = Bucket::new();
    let mut i: usize = 0;
    while i < walked.len()
        invariant
            i <= walked.len(),
            prefix@ == root_prefix(root@),
            files.consistent(),
            files.listing() == files_listing(prefix@, walked@.take(i as int)),
        decreases walked.len() - i,
    {
        proof {
            let upto = walked@.take(i + 1);
            assert(upto.drop_last() =~= walked@.take(i as int));
        }
        let file = &walked[i];
        let relative = relative_path_of(prefix.as_str(), file.path.as_str());
        if may_index(relative.as_str(), file.is_file) {
            let kind = file_kind(relative.as_str());
            match text_to_index(kind, file.path.as_str(), file.size, &file.contents) {
                Some(text) => {
                    files.set(relative.as_str(), Value::String(text));
                },
                None => {},
            }
        }
        i += 1;
    }
    assert(walked@.take(walked.len() as int) =~= walked@);
    files
}

/// The bucket for the head of a repository: the commit's id, message and
/// first line, the head flag, the address of the first remote, and the
/// bucket of the indexed files.
pub fn create_bucket_from_head(head: &RepositoryHead) -> (bucket: Bucket)
    ensures
        collected_from(&bucket, *head),
{
    let remote_url = remote_url_of(&head.remotes);
    let commit_message = match &head.message {
        Some(text) => text.clone(),
        None => String::new(),
    };
    let commit_description = match &head.summary {
        Some(text) => text.clone(),
        None => String::new(),
    };
    proof {
        lemma_keys_differ();
    }
    let ghost expected = head_listing(*head);
    let mut bucket = Bucket::new();
    bucket.set(COMMIT_NAME, Value::String(head.commit_id.clone()));
    bucket.set(COMMIT_MESSAGE, Value::String(commit_message));
    bucket.set(COMMIT_DESCRIPTION, Value::String(commit_description));
    bucket.set(IS_HEAD, Value::Bool(true));
    bucket.set(REMOTE_URL, Value::String(remote_url));
    let files = collect_files(head.root.as_str(), &head.walked);
    bucket.set(FILES, Value::Bucket(files));
    proof {
        assert(bucket.listing() =~= expected);
    }
    bucket
}

/// Collects the head of the repository at a path.
#[derive(Debug)]
pub struct GitCollector<'a> {
    path: &'a str,
}

impl<'a> GitCollector<'a> {
    /// A collector for the repository at `path`.
    pub fn new(path: &'a str) -> (collector: GitCollector<'a>)
        ensures
            collector.path()@ == path@,
    {
        GitCollector { path }
    }

    /// Where the repository lies.
    pub closed spec fn path(&self) -> &'a str {
        self.path
    }

    /// Where the repository lies.
    pub fn repository_path(&self) -> (path: &'a str)
        ensures
            path@ == self.path()@,
    {
        self.path
    }
}

impl<'a> Collector for GitCollector<'a> {
    /// The head as it was read, or `None` where the repository could not be
    /// opened or its head not checked out.
    type Source = Option<RepositoryHead>;

    open spec fn flat_data(&self, bucket: &Bucket) -> Seq<FlatDataView> {
        head_records(bucket)
    }

    /// One record for each file that holds text, in the bucket's order: the
    /// title is the file's relative path, the body its text, and the link
    /// the remote's address, the blob path and the relative path.
    fn convert_to_flat_data(&self, bucket: &Bucket) -> (records: Vec<FlatData>) {
        let mut records: Vec<FlatData> = Vec::new();
        let remote_url = match bucket.get(REMOTE_URL) {
            Some(Value::String(url)) => url,
            _ => {
                return records;
            },
        };
        let files = match bucket.get(FILES) {
            Some(Value::Bucket(files)) => files,
            _ => {
                return records;
            },
        };
        let count = files.len();
        let mut i: usize = 0;
        while i < count
            invariant
                i <= count,
                count == files.entries().len(),
                records.deep_view() == file_records(remote_url@, files.listing().take(i as int)),
            decreases count - i,
        {
            proof {
                let upto = files.listing().take(i + 1);
                assert(upto.drop_last() =~= files.listing().take(i as int));
            }
            let path = files.key_at(i);
            match files.value_at(i) {
                Value::String(text) => {
                    let mut ref_link = followed_by(remote_url.as_str(), BLOB_PATH);
                    ref_link.append(path);
                    let ghost before = records.deep_view();
                    let record = FlatData { title: path.to_owned(), body: text.clone(), ref_link };
                    records.push(record);
                    assert(records.deep_view() =~= before.push(
                        file_record(remote_url@, path@, text@),
                    ));
                },
                _ => {},
            }
            i += 1;
        }
        assert(files.listing().take(count as int) =~= files.listing());
        records
    }

    /// The bucket of the head that was read, as new data; a repository that
    /// could not be read gives `CollectError::General`.
    fn collect(&self, source: &Option<RepositoryHead>) -> (outcome: Result<
        CollectResult,
        CollectError,
    >)
        ensures
            match source {
                Some(head) => outcome matches Ok(CollectResult::New(bucket)) && collected_from(
                    &bucket,
                    *head,
                ),
                None => outcome is Err,
            },
    {
        match source {
            Some(head) => Ok(CollectResult::New(create_bucket_from_head(head))),
            None => Err(CollectError::General),
        }
    }
}

/// Whether the walked file gives an entry under `path`.
pub open spec fn accepted_as(prefix: Seq<char>, file: WalkedFile, path: Seq<char>) -> bool {
    file_entry(prefix, file) matches Some(entry) && entry.0 == path
}

/// A path is listed among the files exactly if some walked file gave an
/// entry under it.
pub proof fn law_listed_iff_accepted(prefix: Seq<char>, walked: Seq<WalkedFile>, path: Seq<char>)
    ensures
        listed_at(files_listing(prefix, walked), path) is Some <==> exists|j: int|
            0 <= j < walked.len() && accepted_as(prefix, #[trigger] walked[j], path),
    decreases walked.len(),
{
    if walked.len() > 0 {
        let shorter = walked.drop_last();
        let before = files_listing(prefix, shorter);
        law_listed_iff_accepted(prefix, shorter, path);
        match file_entry(prefix, walked.last()) {
            Some((relative, text)) => {
                lemma_listing_with_keys(before, relative, ValueView::String(text), path);
            },
            None => {},
        }
        if exists|j: int| 0 <= j < walked.len() && accepted_as(prefix, #[trigger] walked[j], path) {
            let j = choose|j: int|
                0 <= j < walked.len() && accepted_as(prefix, #[trigger] walked[j], path);
            if j < walked.len() - 1 {
                assert(accepted_as(prefix, shorter[j], path));
            }
        }
    } else {
    }
}

/// An entry of which nothing is to be read gives no entry of the bucket,
/// whatever was read of it; and one of which something is to be read gives
/// none unless that was read.
pub proof fn law_plan_says_what_counts(prefix: Seq<char>, file: WalkedFile)
    ensures
        match planned(prefix, file.path@, file.is_file, file.size) {
            ReadPlan::Nothing => file_entry(prefix, file) is None,
            ReadPlan::Document => file_entry(prefix, file) is Some ==> file.contents is Document,
            ReadPlan::Bytes => file_entry(prefix, file) is Some ==> file.contents is Bytes,
        },
{
}

/// A text file of more than the size limit gives no entry, whatever was
/// read of it.
pub proof fn law_oversized_text_is_left_out(prefix: Seq<char>, file: WalkedFile)
    requires
        kind_of(relative_path(prefix, file.path@)) == FileKind::Text,
        file.size > MAX_TEXT_FILE_SIZE,
    ensures
        file_entry(prefix, file) is None,
{
}

/// A text file within the size limit whose bytes are well-formed UTF-8
/// gives an entry under its relative path, and the entry's text encodes to
/// exactly the bytes that were read.
pub proof fn law_text_is_kept_byte_for_byte(prefix: Seq<char>, file: WalkedFile, bytes: Vec<u8>)
    requires
        is_candidate(relative_path(prefix, file.path@), file.is_file),
        kind_of(relative_path(prefix, file.path@)) == FileKind::Text,
        file.size <= MAX_TEXT_FILE_SIZE,
        file.contents == FileContents::Bytes(bytes),
        valid_utf8(bytes@),
    ensures
        file_entry(prefix, file) matches Some(entry) && entry.0 == relative_path(
            prefix,
            file.path@,
        ) && encode_utf8(entry.1) == bytes@,
{
    decode_utf8_encode_utf8(bytes@);
}

/// No path is listed twice among the files.
pub proof fn law_files_are_listed_once(prefix: Seq<char>, walked: Seq<WalkedFile>)
    ensures
        distinct_listing(files_listing(prefix, walked)),
    decreases walked.len(),
{
    if walked.len() > 0 {
        let before = files_listing(prefix, walked.drop_last());
        law_files_are_listed_once(prefix, walked.drop_last());
        match file_entry(prefix, walked.last()) {
            Some((relative, text)) => {
                lemma_listing_with_values(before, relative, ValueView::String(text), relative);
            },
            None => {},
        }
    }
}

/// The sub-bucket of files holds a path exactly if some walked file gave
/// an entry under it.
pub proof fn law_held_iff_accepted(prefix: Seq<char>, walked: Seq<WalkedFile>, path: Seq<char>)
    ensures
        lookup(map_of(files_listing(prefix, walked)), path) is Some <==> exists|j: int|
            0 <= j < walked.len() && accepted_as(prefix, #[trigger] walked[j], path),
{
    law_files_are_listed_once(prefix, walked);
    law_listed_iff_accepted(prefix, walked, path);
    lemma_map_of_values(files_listing(prefix, walked), path);
}

/// Of the walked files that give an entry under one path, the last gives
/// the text that the sub-bucket of files holds under the path.
pub proof fn law_last_accepted_file_counts(prefix: Seq<char>, walked: Seq<WalkedFile>, j: int)
    requires
        0 <= j < walked.len(),
        file_entry(prefix, walked[j]) is Some,
        forall|i: int|
            j < i < walked.len() ==> !accepted_as(
                prefix,
                #[trigger] walked[i],
                (file_entry(prefix, walked[j])->0).0,
            ),
    ensures
        lookup(map_of(files_listing(prefix, walked)), (file_entry(prefix, walked[j])->0).0) == Some(
            ValueView::String((file_entry(prefix, walked[j])->0).1),
        ),
    decreases walked.len(),
{
    let path = (file_entry(prefix, walked[j])->0).0;
    let text = (file_entry(prefix, walked[j])->0).1;
    let shorter = walked.drop_last();
    let before = files_listing(prefix, shorter);
    let last = walked.len() - 1;
    law_files_are_listed_once(prefix, shorter);
    law_files_are_listed_once(prefix, walked);
    lemma_map_of_values(files_listing(prefix, walked), path);
    if j == last {
        lemma_listing_with_values(before, path, ValueView::String(text), path);
    } else {
        assert(shorter[j] == walked[j]);
        assert forall|i: int| j < i < shorter.len() implies !accepted_as(
            prefix,
            #[trigger] shorter[i],
            path,
        ) by {
            assert(shorter[i] == walked[i]);
        }
        law_last_accepted_file_counts(prefix, shorter, j);
        lemma_map_of_values(before, path);
        assert(!accepted_as(prefix, walked[last], path));
        match file_entry(prefix, walked.last()) {
            Some((relative, other_text)) => {
                lemma_listing_with_values(before, relative, ValueView::String(other_text), path);
            },
            None => {},
        }
    }
}

/// A text file of more than the size limit is absent from the sub-bucket
/// of files, where no other walked file has its relative path.
pub proof fn law_oversized_file_is_absent(prefix: Seq<char>, walked: Seq<WalkedFile>, j: int)
    requires
        0 <= j < walked.len(),
        kind_of(relative_path(prefix, walked[j].path@)) == FileKind::Text,
        walked[j].size > MAX_TEXT_FILE_SIZE,
        forall|i: int|
            0 <= i < walked.len() && i != j ==> relative_path(prefix, (#[trigger] walked[i]).path@)
                != relative_path(prefix, walked[j].path@),
    ensures
        lookup(map_of(files_listing(prefix, walked)), relative_path(prefix, walked[j].path@))
            is None,
{
    law_held_iff_accepted(prefix, walked, relative_path(prefix, walked[j].path@));
}

/// A regular file outside the metadata directory that is read as text, is
/// within the size limit and holds well-formed UTF-8 is present in the
/// sub-bucket of files under its relative path, where no other walked file
/// has that path; and its text there encodes to exactly its bytes.
pub proof fn law_text_file_is_present(
    prefix: Seq<char>,
    walked: Seq<WalkedFile>,
    j: int,
    bytes: Vec<u8>,
)
    requires
        0 <= j < walked.len(),
        is_candidate(relative_path(prefix, walked[j].path@), walked[j].is_file),
        kind_of(relative_path(prefix, walked[j].path@)) == FileKind::Text,
        walked[j].size <= MAX_TEXT_FILE_SIZE,
        walked[j].contents == FileContents::Bytes(bytes),
        valid_utf8(bytes@),
        forall|i: int|
            0 <= i < walked.len() && i != j ==> relative_path(prefix, (#[trigger] walked[i]).path@)
                != relative_path(prefix, walked[j].path@),
    ensures
        lookup(map_of(files_listing(prefix, walked)), relative_path(prefix, walked[j].path@))
            == Some(ValueView::String(decode_utf8(bytes@))),
        encode_utf8(decode_utf8(bytes@)) == bytes@,
{
    decode_utf8_encode_utf8(bytes@);
    law_last_accepted_file_counts(prefix, walked, j);
}

/// Whether the entry's value is text.
pub open spec fn holds_text(entry: (Seq<char>, ValueView)) -> bool {
    entry.1 is String
}

/// Every listed file holds text.
pub proof fn law_listed_files_hold_text(prefix: Seq<char>, walked: Seq<WalkedFile>)
    ensures
        forall|i: int|
            0 <= i < files_listing(prefix, walked).len() ==> holds_text(
                #[trigger] files_listing(prefix, walked)[i],
            ),
    decreases walked.len(),
{
    if walked.len() > 0 {
        law_listed_files_hold_text(prefix, walked.drop_last());
        assert(files_listing(prefix, walked.drop_last()).len() <= files_listing(
            prefix,
            walked,
        ).len());
    }
}

/// Where every listed file holds text, flattening gives one record for
/// each, in order: the file's path as title, its text as body, and as link
/// the remote's address, the blob path and the file's path.
pub proof fn law_one_record_per_file(remote_url: Seq<char>, files: Seq<(Seq<char>, ValueView)>)
    requires
        forall|i: int| 0 <= i < files.len() ==> holds_text(#[trigger] files[i]),
    ensures
        file_records(remote_url, files).len() == files.len(),
        forall|i: int|
            0 <= i < files.len() ==> (#[trigger] file_records(remote_url, files)[i]).title
                == files[i].0,
        forall|i: int|
            0 <= i < files.len() ==> (#[trigger] file_records(remote_url, files)[i]).body
                == files[i].1->String_0,
        forall|i: int|
            0 <= i < files.len() ==> (#[trigger] file_records(remote_url, files)[i]).ref_link
                == remote_url + BLOB_PATH@ + files[i].0,
    decreases files.len(),
{
    if files.len() > 0 {
        let shorter = files.drop_last();
        law_one_record_per_file(remote_url, shorter);
    }
}

/// Without a remote, a file's link is the blob path and the file's path.
pub proof fn law_link_without_remote(path: Seq<char>, text: Seq<char>)
    ensures
        file_record(Seq::empty(), path, text).ref_link == BLOB_PATH@ + path,
{
}

/// Collecting is a function of what was read: two buckets collected from
/// the same head are equal, and so are their sub-buckets of files.
pub proof fn law_same_head_same_bucket(head: RepositoryHead, first: &Bucket, second: &Bucket)
    requires
        collected_from(first, head),
        collected_from(second, head),
    ensures
        PartialEqSpec::eq_spec(first, second),
        first.listing() == second.listing(),
        head_records(first) == head_records(second),
{
}

} // verus!
