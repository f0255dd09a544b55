//! Messages as they arrive from the chat gateway and as the store keeps them.

use crate::text2html::is_sanitized;
use crate::text2html::sanitized;
use crate::text2html::text2html;
use vstd::prelude::*;

verus! {

/// The first second that RFC 3339 can write: 0000-01-01T00:00:00Z.
pub const MIN_SECONDS: i64 = -62_167_219_200;

/// The last second that RFC 3339 can write: 9999-12-31T23:59:59Z.
pub const MAX_SECONDS: i64 = 253_402_300_799;

/// The nanoseconds in one second.
pub const NANOS_PER_SECOND: u32 = 1_000_000_000;

/// Whether `seconds` since the Unix epoch and `nanos` into that second are
/// an instant that an RFC 3339 timestamp can express.
pub open spec fn is_instant(seconds: int, nanos: int) -> bool {
    MIN_SECONDS <= seconds <= MAX_SECONDS && 0 <= nanos < NANOS_PER_SECOND
}

/// An instant on the UTC time line: whole seconds since 1970-01-01T00:00:00Z
/// and the nanoseconds into that second. Every value lies in the years 0000
/// to 9999, the range of RFC 3339.
#[derive(Clone, Copy, Debug, PartialEq, Eq, Structural)]
pub struct Timestamp {
    seconds: i64,
    nanos: u32,
}

impl Timestamp {
    #[verifier::type_invariant]
    spec fn in_range(self) -> bool {
        is_instant(self.seconds as int, self.nanos as int)
    }

    /// The whole seconds since the Unix epoch.
    pub closed spec fn spec_seconds(self) -> int {
        self.seconds as int
    }

    /// The nanoseconds into the second.
    pub closed spec fn spec_nanos(self) -> int {
        self.nanos as int
    }

    /// The instant `nanos` nanoseconds after `seconds` seconds since the Unix
    /// epoch, or `None` where RFC 3339 has no way to write it.
    pub fn new(seconds: i64, nanos: u32) -> (made: Option<Timestamp>)
        ensures
            made is Some <==> is_instant(seconds as int, nanos as int),
            made matches Some(t) ==> t.spec_seconds() == seconds && t.spec_nanos() == nanos,
    {
        if MIN_SECONDS <= seconds && seconds <= MAX_SECONDS && nanos < NANOS_PER_SECOND {
            Some(Timestamp { seconds, nanos })
        } else {
            None
        }
    }

    /// The whole seconds since the Unix epoch.
    pub fn seconds(&self) -> (seconds: i64)
        ensures
            seconds == self.spec_seconds(),
            is_instant(self.spec_seconds(), self.spec_nanos()),
    {
        proof {
            use_type_invariant(self);
        }
        self.seconds
    }

    /// The nanoseconds into the second.
    pub fn nanos(&self) -> (nanos: u32)
        ensures
            nanos == self.spec_nanos(),
            is_instant(self.spec_seconds(), self.spec_nanos()),
    {
        proof {
            use_type_invariant(self);
        }
        self.nanos
    }
}

/// Two instants with the same seconds and nanoseconds are the same instant.
pub proof fn lemma_timestamp_by_parts(a: Timestamp, b: Timestamp)
    requires
        a.spec_seconds() == b.spec_seconds(),
        a.spec_nanos() == b.spec_nanos(),
    ensures
        a == b,
{
}

/// The character that writes the digit `d`.
pub open spec fn digit_char(d: nat) -> char {
    if d == 0 {
        '0'
    } else if d == 1 {
        '1'
    } else if d == 2 {
        '2'
    } else if d == 3 {
        '3'
    } else if d == 4 {
        '4'
    } else if d == 5 {
        '5'
    } else if d == 6 {
        '6'
    } else if d == 7 {
        '7'
    } else if d == 8 {
        '8'
    } else {
        '9'
    }
}

/// The decimal numeral of `n`: its digits from the most significant to the
/// least, with no sign and no leading zero (`0` is written `0`).
pub open spec fn decimal(n: nat) -> Seq<char>
    decreases n,
{
    if n < 10 {
        seq![digit_char(n)]
    } else {
        decimal(n / 10).push(digit_char(n % 10))
    }
}

/// The one-character text of a digit.
fn digit_text(d: u64) -> (text: &'static str)
    requires
        d < 10,
    ensures
        text@ == seq![digit_char(d as nat)],
{
    proof {
        reveal_strlit("0");
        reveal_strlit("1");
        reveal_strlit("2");
        reveal_strlit("3");
        reveal_strlit("4");
        reveal_strlit("5");
        reveal_strlit("6");
        reveal_strlit("7");
        reveal_strlit("8");
        reveal_strlit("9");
    }
    let text = if d == 0 {
        "0"
    } else if d == 1 {
        "1"
    } else if d == 2 {
        "2"
    } else if d == 3 {
        "3"
    } else if d == 4 {
        "4"
    } else if d == 5 {
        "5"
    } else if d == 6 {
        "6"
    } else if d == 7 {
        "7"
    } else if d == 8 {
        "8"
    } else {
        "9"
    };
    assert(text@ =~= seq![digit_char(d as nat)]);
    text
}

/// Writes `n` as a decimal numeral.
pub fn decimal_string(n: u64) -> (text: String)
    ensures
        text@ == decimal(n as nat),
{
    let mut text = String::from_str(digit_text(n % 10));
    let mut rest: u64 = n / 10;
    while rest > 0
        invariant
            decimal(n as nat) == if rest > 0 {
                decimal(rest as nat) + text@
            } else {
                text@
            },
        decreases rest,
    {
        let ghost low = text@;
        text = String::from_str(digit_text(rest % 10)).concat(text.as_str());
        proof {
            let digit = seq![digit_char((rest % 10) as nat)];
            assert(text@ == digit + low);
            if rest >= 10 {
                assert(decimal(rest as nat) + low =~= decimal((rest / 10) as nat) + text@);
            } else {
                assert(decimal(rest as nat) + low =~= text@);
            }
        }
        rest = rest / 10;
    }
    text
}

/// The channel name that a record gets where the gateway could not tell it.
pub open spec fn fallback_channel_name() -> Seq<char> {
    "Unknown Channel"@
}

/// A message as the chat gateway delivers it, not yet made safe.
#[derive(Debug)]
pub struct InboundMessage {
    /// The platform's number of the message.
    pub id: u64,
    /// The author's display name when the message was received.
    pub author: String,
    /// The number of the channel that the message was sent to.
    pub channel_id: u64,
    /// The channel's name, or `None` where it could not be resolved.
    pub channel_name: Option<String>,
    /// The text as the author sent it.
    pub content: String,
    /// When the message was sent.
    pub created_at: Timestamp,
    /// When the message was last edited, if it ever was.
    pub edited_at: Option<Timestamp>,
    /// A URL that leads to the message on its platform.
    pub permalink: String,
}

/// The mathematical value of an [`InboundMessage`].
pub struct InboundMessageView {
    pub id: nat,
    pub author: Seq<char>,
    pub channel_id: nat,
    pub channel_name: Option<Seq<char>>,
    pub content: Seq<char>,
    pub created_at: Timestamp,
    pub edited_at: Option<Timestamp>,
    pub permalink: Seq<char>,
}

impl View for InboundMessage {
    type V = InboundMessageView;

    open spec fn view(&self) -> InboundMessageView {
        InboundMessageView {
            id: self.id as nat,
            author: self.author@,
            channel_id: self.channel_id as nat,
            channel_name: match self.channel_name {
                Some(name) => Some(name@),
                None => None,
            },
            content: self.content@,
            created_at: self.created_at,
            edited_at: self.edited_at,
            permalink: self.permalink@,
        }
    }
}

/// The mathematical value of a [`MessageRecord`].
pub struct MessageRecordView {
    pub id: Seq<char>,
    pub author: Seq<char>,
    pub channel_name: Seq<char>,
    pub content: Seq<char>,
    pub created_at: Timestamp,
    pub edited_at: Timestamp,
    pub permalink: Seq<char>,
}

/// The record that is kept of an inbound message: the id as a decimal
/// numeral, the channel name or its fallback, the text made safe, and the
/// time of creation in place of a missing time of edit.
pub open spec fn record_of(message: InboundMessageView) -> MessageRecordView {
    MessageRecordView {
        id: decimal(message.id),
        author: message.author,
        channel_name: match message.channel_name {
            Some(name) => name,
            None => fallback_channel_name(),
        },
        content: sanitized(message.content),
        created_at: message.created_at,
        edited_at: match message.edited_at {
            Some(edited) => edited,
            None => message.created_at,
        },
        permalink: message.permalink,
    }
}

/// Whether a record's value is one that records can have: the id is the
/// decimal numeral of a 64-bit number and the content came out of the
/// sanitizer.
pub open spec fn is_record(record: MessageRecordView) -> bool {
    &&& exists|n: u64| #[trigger] decimal(n as nat) == record.id
    &&& is_sanitized(record.content)
}

/// A message as the store keeps it. A record is made from an inbound message
/// and never changes afterwards; its content is always sanitizer output.
#[derive(Debug)]
pub struct MessageRecord {
    id: String,
    author: String,
    channel_name: String,
    content: String,
    created_at: Timestamp,
    edited_at: Timestamp,
    permalink: String,
}

impl View for MessageRecord {
    type V = MessageRecordView;

    closed spec fn view(&self) -> MessageRecordView {
        MessageRecordView {
            id: self.id@,
            author: self.author@,
            channel_name: self.channel_name@,
            content: self.content@,
            created_at: self.created_at,
            edited_at: self.edited_at,
            permalink: self.permalink@,
        }
    }
}

impl Clone for MessageRecord {
    fn clone(&self) -> (copy: Self)
        ensures
            copy@ == self@,
    {
        proof {
            use_type_invariant(self);
        }
        MessageRecord {
            id: self.id.clone(),
            author: self.author.clone(),
            channel_name: self.channel_name.clone(),
            content: self.content.clone(),
            created_at: self.created_at,
            edited_at: self.edited_at,
            permalink: self.permalink.clone(),
        }
    }
}

impl MessageRecord {
    #[verifier::type_invariant]
    spec fn well_formed(&self) -> bool {
        is_record(self@)
    }

    /// Makes the record of an inbound message. The text is sanitized here,
    /// so no record ever holds raw text.
    pub fn from_inbound(message: &InboundMessage) -> (record: MessageRecord)
        ensures
            record@ == record_of(message@),
            is_record(record@),
    {
        let content = text2html(message.content.as_str());
        let channel_name = match &message.channel_name {
            Some(name) => name.clone(),
            None => String::from_str("Unknown Channel"),
        };
        let edited_at = match message.edited_at {
            Some(edited) => edited,
            None => message.created_at,
        };
        let id = decimal_string(message.id);
        assert(decimal(message.id as nat) == id@);
        MessageRecord {
            id,
            author: message.author.clone(),
            channel_name,
            content,
            created_at: message.created_at,
            edited_at,
            permalink: message.permalink.clone(),
        }
    }

    /// The platform's number of the message, as a decimal numeral.
    pub fn id(&self) -> (id: &str)
        ensures
            id@ == self@.id,
    {
        self.id.as_str()
    }

    /// The author's display name.
    pub fn author(&self) -> (author: &str)
        ensures
            author@ == self@.author,
    {
        self.author.as_str()
    }

    /// The channel's name, or `Unknown Channel`.
    pub fn channel_name(&self) -> (name: &str)
        ensures
            name@ == self@.channel_name,
    {
        self.channel_name.as_str()
    }

    /// The safe markup of the message text.
    pub fn content(&self) -> (content: &str)
        ensures
            content@ == self@.content,
            is_sanitized(content@),
    {
        proof {
            use_type_invariant(self);
        }
        self.content.as_str()
    }

    /// When the message was sent.
    pub fn created_at(&self) -> (at: Timestamp)
        ensures
            at == self@.created_at,
    {
        self.created_at
    }

    /// When the message was last edited; the time of creation where it never
    /// was.
    pub fn edited_at(&self) -> (at: Timestamp)
        ensures
            at == self@.edited_at,
    {
        self.edited_at
    }

    /// A URL that leads to the message on its platform.
    pub fn permalink(&self) -> (link: &str)
        ensures
            link@ == self@.permalink,
    {
        self.permalink.as_str()
    }
}

/// The values of a sequence of records, in the same order.
pub open spec fn record_views(records: Seq<MessageRecord>) -> Seq<MessageRecordView> {
    records.map_values(|record: MessageRecord| record@)
}

/// The records of a sequence of inbound messages, in the same order.
pub open spec fn records_of(messages: Seq<InboundMessageView>) -> Seq<MessageRecordView> {
    messages.map_values(|message: InboundMessageView| record_of(message))
}

} // verus!
