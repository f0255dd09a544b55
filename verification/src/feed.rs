//! The feed document that is made from a snapshot of the store.
//!
//! A document is plain data: a title and one entry for each record, in the
//! order of the snapshot, which is the order in which the records were
//! pushed. Making a document reads nothing but its arguments, so the same
//! snapshot always gives the same document.

use crate::message::record_views;
use crate::message::MessageRecord;
use crate::message::MessageRecordView;
use crate::message::Timestamp;
use crate::store::latest;
use crate::store::lemma_pushes_keep_latest;
use crate::store::pushed_all;
use crate::text2html::is_sanitized;
use substring::Substring;
use vstd::prelude::*;

verus! {

/// How many characters of a message's content go into the title of its
/// entry.
pub const TITLE_LENGTH: usize = 80;

/// The title of the feed.
pub const FEED_TITLE: &'static str = "Discord messages";

/// One entry of a feed document.
#[derive(Debug)]
pub struct FeedEntry {
    /// The identifier of the entry, unique and stable.
    pub id: String,
    /// The author's name followed by the start of the content.
    pub title: String,
    /// The name of the author.
    pub author: String,
    /// The body: safe markup, carried as it is.
    pub content: String,
    /// When the message was sent.
    pub published: Timestamp,
    /// When the message was last changed.
    pub updated: Timestamp,
    /// A URL that leads to the message.
    pub link: String,
}

/// The mathematical value of a [`FeedEntry`].
pub struct FeedEntryView {
    pub id: Seq<char>,
    pub title: Seq<char>,
    pub author: Seq<char>,
    pub content: Seq<char>,
    pub published: Timestamp,
    pub updated: Timestamp,
    pub link: Seq<char>,
}

impl View for FeedEntry {
    type V = FeedEntryView;

    open spec fn view(&self) -> FeedEntryView {
        FeedEntryView {
            id: self.id@,
            title: self.title@,
            author: self.author@,
            content: self.content@,
            published: self.published,
            updated: self.updated,
            link: self.link@,
        }
    }
}

/// The values of a sequence of entries, in the same order.
pub open spec fn entry_views(entries: Seq<FeedEntry>) -> Seq<FeedEntryView> {
    entries.map_values(|entry: FeedEntry| entry@)
}

/// A feed document: a title and the entries, oldest first.
#[derive(Debug)]
pub struct FeedDocument {
    pub title: String,
    pub entries: Vec<FeedEntry>,
}

/// The mathematical value of a [`FeedDocument`].
pub struct FeedDocumentView {
    pub title: Seq<char>,
    pub entries: Seq<FeedEntryView>,
}

impl View for FeedDocument {
    type V = FeedDocumentView;

    open spec fn view(&self) -> FeedDocumentView {
        FeedDocumentView { title: self.title@, entries: entry_views(self.entries@) }
    }
}

/// The characters of `text` from position `start` up to, not including,
/// position `end`. Positions beyond the text count as its end, and a range
/// whose end is not after its start is empty.
pub open spec fn char_range(text: Seq<char>, start: int, end: int) -> Seq<char> {
    if end <= start {
        Seq::<char>::empty()
    } else if start >= text.len() {
        Seq::<char>::empty()
    } else if end >= text.len() {
        text.subrange(start, text.len() as int)
    } else {
        text.subrange(start, end)
    }
}

/// Calls `Substring::substring` of the `substring` crate. Trusted: the
/// result holds the characters of the range, counted in characters and not
/// in bytes, and the crate cuts the range to the text where it reaches
/// beyond it.
#[verifier::external_body]
fn substring<'a>(text: &'a str, start: usize, end: usize) -> (part: &'a str)
    ensures
        part@ == char_range(text@, start as int, end as int),
{
    text.substring(start, end)
}

/// The title of the entry for a message: the author, a colon and a space,
/// and the first [`TITLE_LENGTH`] characters of the content (all of it where
/// it is shorter). The cut counts characters and pays no regard to markup.
pub open spec fn title_of(author: Seq<char>, content: Seq<char>) -> Seq<char> {
    author + ": "@ + char_range(content, 0, TITLE_LENGTH as int)
}

/// The entry that stands for a record.
pub open spec fn entry_of(record: MessageRecordView) -> FeedEntryView {
    FeedEntryView {
        id: record.id,
        title: title_of(record.author, record.content),
        author: record.author,
        content: record.content,
        published: record.created_at,
        updated: record.edited_at,
        link: record.permalink,
    }
}

/// The entries that stand for a sequence of records, in the same order.
pub open spec fn entries_of(records: Seq<MessageRecordView>) -> Seq<FeedEntryView> {
    records.map_values(|record: MessageRecordView| entry_of(record))
}

/// The document that is made from a snapshot and a title.
pub open spec fn feed_of(records: Seq<MessageRecordView>, title: Seq<char>) -> FeedDocumentView {
    FeedDocumentView { title, entries: entries_of(records) }
}

/// Makes the title of an entry from the author's name and the content.
pub fn entry_title(author: &str, content: &str) -> (title: String)
    ensures
        title@ == title_of(author@, content@),
{
    let mut title = String::from_str(author);
    title.append(": ");
    title.append(substring(content, 0, TITLE_LENGTH));
    title
}

/// Makes the entry that stands for a record.
pub fn entry_for(record: &MessageRecord) -> (entry: FeedEntry)
    ensures
        entry@ == entry_of(record@),
        is_sanitized(entry@.content),
{
    FeedEntry {
        id: String::from_str(record.id()),
        title: entry_title(record.author(), record.content()),
        author: String::from_str(record.author()),
        content: String::from_str(record.content()),
        published: record.created_at(),
        updated: record.edited_at(),
        link: String::from_str(record.permalink()),
    }
}

/// Makes the feed document of a snapshot: one entry for each record, in the
/// order of the snapshot. An empty snapshot gives a document without
/// entries. Every body is sanitizer output.
pub fn synthesize(records: &Vec<MessageRecord>, feed_title: &str) -> (document: FeedDocument)
    ensures
        document@ == feed_of(record_views(records@), feed_title@),
        document@.entries.len() == records@.len(),
        forall|i: int|
            0 <= i < document@.entries.len() ==> is_sanitized(
                #[trigger] document@.entries[i].content,
            ),
{
    let mut entries: Vec<FeedEntry> = Vec::new();
    let mut i: usize = 0;
    while i < records.len()
        invariant
            i <= records.len(),
            entries@.len() == i,
            forall|j: int|
                0 <= j < i ==> (#[trigger] entries@[j])@ == entry_of(records@[j]@) && is_sanitized(
                    entries@[j]@.content,
                ),
        decreases records.len() - i,
    {
        let entry = entry_for(&records[i]);
        entries.push(entry);
        i = i + 1;
    }
    let document = FeedDocument { title: String::from_str(feed_title), entries };
    assert(document@.entries =~= entries_of(record_views(records@)));
    document
}

/// Title truncation: where the content is longer than [`TITLE_LENGTH`]
/// characters, the title holds exactly its first [`TITLE_LENGTH`] characters
/// after the author, the colon and the space; a shorter content is in the
/// title whole.
pub proof fn lemma_title_truncation(author: Seq<char>, content: Seq<char>)
    ensures
        content.len() > TITLE_LENGTH ==> title_of(author, content) == author + ": "@
            + content.take(TITLE_LENGTH as int),
        content.len() > TITLE_LENGTH ==> title_of(author, content).len() == author.len() + 2
            + TITLE_LENGTH,
        content.len() <= TITLE_LENGTH ==> title_of(author, content) == author + ": "@ + content,
{
    reveal_strlit(": ");
    if content.len() <= TITLE_LENGTH {
        assert(char_range(content, 0, TITLE_LENGTH as int) =~= content);
    }
}

/// Feed ordering: the entries of the feed of a store follow the order in
/// which the records were pushed. The feed made after pushing `records`
/// into an empty store has one entry for each of the records that the store
/// still holds, which are the most recent ones, and the entries stand in
/// the order of the pushes; where all records fit, entry `i` stands for
/// record `i`.
pub proof fn lemma_feed_follows_push_order(
    capacity: nat,
    records: Seq<MessageRecordView>,
    title: Seq<char>,
)
    requires
        capacity >= 1,
    ensures
        feed_of(
            pushed_all(Seq::<MessageRecordView>::empty(), capacity, records),
            title,
        ).entries == entries_of(latest(records, capacity)),
        records.len() <= capacity ==> feed_of(
            pushed_all(Seq::<MessageRecordView>::empty(), capacity, records),
            title,
        ).entries == entries_of(records),
        forall|i: int|
            0 <= i < latest(records, capacity).len() ==> (#[trigger] feed_of(
                pushed_all(Seq::<MessageRecordView>::empty(), capacity, records),
                title,
            ).entries[i]) == entry_of(
                records[records.len() - latest(records, capacity).len() + i],
            ),
{
    lemma_pushes_keep_latest(Seq::<MessageRecordView>::empty(), capacity, records);
    assert(Seq::<MessageRecordView>::empty() + records =~= records);
}

/// Determinism: the document depends on the snapshot and the title alone.
/// Equal snapshots and equal titles give equal documents.
pub proof fn lemma_feed_is_determined(
    first: Seq<MessageRecordView>,
    second: Seq<MessageRecordView>,
    first_title: Seq<char>,
    second_title: Seq<char>,
)
    requires
        first == second,
        first_title == second_title,
    ensures
        feed_of(first, first_title) == feed_of(second, second_title),
{
}

/// Empty feed: the document of an empty snapshot has its title and no
/// entry.
pub proof fn lemma_empty_feed(title: Seq<char>)
    ensures
        feed_of(Seq::<MessageRecordView>::empty(), title).entries.len() == 0,
        feed_of(Seq::<MessageRecordView>::empty(), title).title == title,
{
}

} // verus!
