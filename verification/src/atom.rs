//! Writing a feed document as an Atom XML text.
//!
//! The `atom_syndication` crate does the writing. A document of this library
//! is first copied, entry by entry, into the crate's `Feed`; the crate then
//! serialises that feed. Verus cannot look into a `Feed`, so
//! [`feed_document`] names the document that a feed stands for, and
//! [`atom_xml`] names the text that the crate writes for it.

use crate::feed::entry_views;
use crate::feed::feed_of;
use crate::feed::synthesize;
use crate::feed::FeedDocument;
use crate::feed::FeedDocumentView;
use crate::feed::FeedEntry;
use crate::feed::FeedEntryView;
use crate::message::record_views;
use crate::message::MessageRecord;
use atom_syndication::ContentBuilder;
use atom_syndication::EntryBuilder;
use atom_syndication::Feed;
use atom_syndication::FeedBuilder;
use atom_syndication::LinkBuilder;
use atom_syndication::PersonBuilder;
use chrono::DateTime;
use vstd::prelude::*;

verus! {

/// The media type of the text that [`to_xml`] writes, as the feed endpoint
/// announces it.
pub const CONTENT_TYPE: &'static str = "application/atom+xml; charset=utf-8";

#[verifier::external_type_specification]
#[verifier::external_body]
pub struct ExFeed(Feed);

/// The document that an Atom feed stands for. It is `Some` for the feeds
/// that this module builds and for no others: a feed with the document's
/// title, with one entry for each entry of the document, in the same order,
/// and with nothing else set. Such an entry has the id, the title, the
/// content, the two dates, one author with the author's name and one link
/// to the entry's URL.
pub uninterp spec fn feed_document(feed: Feed) -> Option<FeedDocumentView>;

/// The XML text that `atom_syndication` writes for the feed of a document.
/// The text depends on the document alone: no clock, no random number and
/// no setting of the machine goes into it.
pub uninterp spec fn atom_xml(document: FeedDocumentView) -> Seq<char>;

/// Calls `FeedBuilder::default().title(..).build()`. Trusted: the feed has
/// the title, no entry, and every other field as the crate sets it by
/// default.
#[verifier::external_body]
fn atom_feed(title: &str) -> (feed: Feed)
    ensures
        feed_document(feed) == Some(
            FeedDocumentView { title: title@, entries: Seq::<FeedEntryView>::empty() },
        ),
{
    FeedBuilder::default().title(title).build()
}

/// Builds an entry with `EntryBuilder` and pushes it onto the feed's
/// entries. The dates are made with `chrono::DateTime::from_timestamp`,
/// which accepts every instant that a `Timestamp` can hold. Trusted: the
/// feed then stands for the same document with this entry added at the end.
#[verifier::external_body]
fn atom_add_entry(feed: &mut Feed, entry: &FeedEntry)
    requires
        feed_document(*old(feed)) is Some,
    ensures
        feed_document(*final(feed)) == Some(
            FeedDocumentView {
                title: feed_document(*old(feed))->0.title,
                entries: feed_document(*old(feed))->0.entries.push(entry@),
            },
        ),
{
    let published = DateTime::from_timestamp(entry.published.seconds(), entry.published.nanos());
    let updated = DateTime::from_timestamp(entry.updated.seconds(), entry.updated.nanos());
    feed.entries.push(
        EntryBuilder::default()
            .id(entry.id.clone())
            .title(entry.title.clone())
            .content(ContentBuilder::default().value(entry.content.clone()).build())
            .authors([PersonBuilder::default().name(entry.author.clone()).build()])
            .links([LinkBuilder::default().href(entry.link.clone()).build()])
            .published(published.unwrap().fixed_offset())
            .updated(updated.unwrap())
            .build(),
    );
}

/// Calls `Feed::to_string`, which writes the feed as XML into memory.
/// Trusted: the text is the one that [`atom_xml`] names for the document
/// that the feed stands for.
#[verifier::external_body]
fn atom_to_string(feed: &Feed) -> (xml: String)
    requires
        feed_document(*feed) is Some,
    ensures
        xml@ == atom_xml(feed_document(*feed)->0),
{
    feed.to_string()
}

/// Writes a document as Atom XML: the feed with its title, then the entries
/// in the order of the document.
pub fn to_xml(document: &FeedDocument) -> (xml: String)
    ensures
        xml@ == atom_xml(document@),
{
    let mut feed = atom_feed(document.title.as_str());
    let ghost entries = entry_views(document.entries@);
    let mut i: usize = 0;
    assert(entries.take(0) =~= Seq::<FeedEntryView>::empty());
    while i < document.entries.len()
        invariant
            i <= document.entries.len(),
            entries == entry_views(document.entries@),
            feed_document(feed) == Some(
                FeedDocumentView { title: document.title@, entries: entries.take(i as int) },
            ),
        decreases document.entries.len() - i,
    {
        atom_add_entry(&mut feed, &document.entries[i]);
        assert(entries.take(i as int).push(entries[i as int]) =~= entries.take(i as int + 1));
        i = i + 1;
    }
    assert(entries.take(i as int) =~= entries);
    atom_to_string(&feed)
}

/// Writes the feed of a snapshot: the document made from the records, as
/// Atom XML. This is what the feed endpoint answers with, once it has taken
/// the snapshot. The text depends on the records and the title alone, so
/// two calls on the same snapshot give the same text.
pub fn feed_xml(records: &Vec<MessageRecord>, feed_title: &str) -> (xml: String)
    ensures
        xml@ == atom_xml(feed_of(record_views(records@), feed_title@)),
{
    let document = synthesize(records, feed_title);
    to_xml(&document)
}

} // verus!
