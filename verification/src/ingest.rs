//! What the ingestion side does with the events of the chat gateway.
//!
//! The gateway reports two things: that the connection is ready, with the
//! backlog of the configured channel, and that a message has arrived. Both
//! handlers turn inbound messages into records, oldest first, without
//! touching the store: the caller pushes the records afterwards and so holds
//! the store only for the push.

use crate::message::record_of;
use crate::message::record_views;
use crate::message::InboundMessage;
use crate::message::InboundMessageView;
use crate::message::MessageRecord;
use crate::message::MessageRecordView;
use vstd::prelude::*;

verus! {

/// How many of the most recent messages are asked of the gateway when the
/// connection is ready.
pub const BACKLOG_LIMIT: u64 = 20;

/// The values of a sequence of inbound messages, in the same order.
pub open spec fn inbound_views(messages: Seq<InboundMessage>) -> Seq<InboundMessageView> {
    messages.map_values(|message: InboundMessage| message@)
}

/// The records of a backlog that the gateway delivered newest first: one
/// record for each message, oldest first.
pub open spec fn backlog_records(newest_first: Seq<InboundMessageView>) -> Seq<MessageRecordView> {
    Seq::new(
        newest_first.len(),
        |i: int| record_of(newest_first[newest_first.len() - 1 - i]),
    )
}

/// The consumer of gateway events for one configured channel.
#[derive(Clone, Copy, Debug)]
pub struct IngestionAdapter {
    channel_id: u64,
}

impl IngestionAdapter {
    /// The number of the configured channel.
    pub closed spec fn spec_channel_id(self) -> nat {
        self.channel_id as nat
    }

    /// Whether a message with this value belongs to the configured channel.
    pub open spec fn spec_accepts(self, message: InboundMessageView) -> bool {
        message.channel_id == self.spec_channel_id()
    }

    /// The adapter for the channel with the given number.
    pub fn new(channel_id: u64) -> (adapter: IngestionAdapter)
        ensures
            adapter.spec_channel_id() == channel_id,
    {
        IngestionAdapter { channel_id }
    }

    /// The number of the configured channel.
    pub fn channel_id(&self) -> (channel_id: u64)
        ensures
            channel_id == self.spec_channel_id(),
    {
        self.channel_id
    }

    /// Whether the message belongs to the configured channel.
    pub fn accepts(&self, message: &InboundMessage) -> (yes: bool)
        ensures
            yes == self.spec_accepts(message@),
    {
        message.channel_id == self.channel_id
    }

    /// The gateway is ready and has delivered the backlog of the configured
    /// channel, newest message first. Returns the records to push, oldest
    /// first. A backlog with fewer messages than were asked for, or with
    /// none, is no error.
    pub fn on_ready(&self, newest_first: &Vec<InboundMessage>) -> (records: Vec<MessageRecord>)
        ensures
            record_views(records@) == backlog_records(inbound_views(newest_first@)),
            records@.len() == newest_first@.len(),
    {
        let mut records: Vec<MessageRecord> = Vec::new();
        let mut left: usize = newest_first.len();
        while left > 0
            invariant
                left <= newest_first.len(),
                records@.len() == newest_first.len() - left,
                forall|i: int|
                    0 <= i < records@.len() ==> (#[trigger] records@[i])@ == record_of(
                        newest_first@[newest_first.len() - 1 - i]@,
                    ),
            decreases left,
        {
            left = left - 1;
            let record = MessageRecord::from_inbound(&newest_first[left]);
            records.push(record);
        }
        assert(record_views(records@) =~= backlog_records(inbound_views(newest_first@)));
        records
    }

    /// A message has arrived. Returns its record where the message belongs
    /// to the configured channel, and `None` where it belongs to another.
    pub fn on_message(&self, message: &InboundMessage) -> (record: Option<MessageRecord>)
        ensures
            record is Some <==> self.spec_accepts(message@),
            record matches Some(made) ==> made@ == record_of(message@),
    {
        if self.accepts(message) {
            Some(MessageRecord::from_inbound(message))
        } else {
            None
        }
    }
}

/// The records of a backlog are those of its messages in the opposite
/// order: the message that the gateway delivered last, the oldest, comes
/// first.
pub proof fn lemma_backlog_is_reversed(newest_first: Seq<InboundMessageView>)
    ensures
        backlog_records(newest_first) == newest_first.reverse().map_values(
            |message: InboundMessageView| record_of(message),
        ),
{
    assert(backlog_records(newest_first) =~= newest_first.reverse().map_values(
        |message: InboundMessageView| record_of(message),
    ));
}

} // verus!
