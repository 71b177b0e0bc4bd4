//! The records of a conversation and what of them a reader is shown.
use crate::text::{
    blank, copy_opt, has_prefix, is_blank, join, joined_by, opt_view, same_text, text_views,
    trim_start, trimmed_start,
};
use vstd::prelude::*;

verus! {

/// The most bytes that one record may take.
pub const MAX_RECORD_BYTES: u64 = 67_108_864;

/// A part of a message.
#[derive(Debug)]
pub struct ContentPart {
    pub kind: String,
    pub text: Option<String>,
}

/// What a record is about.
#[derive(Debug)]
pub struct Payload {
    pub kind: String,
    pub id: Option<String>,
    pub role: Option<String>,
    pub channel: Option<String>,
    pub phase: Option<String>,
    pub recipient: Option<String>,
    pub message: Option<String>,
    pub content: Vec<ContentPart>,
    /// Whether images are attached.
    pub images: bool,
    /// Whether images of this machine are attached.
    pub local_images: bool,
}

/// A record of a conversation.
#[derive(Debug)]
pub struct Record {
    pub kind: String,
    pub timestamp: Option<String>,
    pub payload: Payload,
}

/// Who wrote a message.
#[derive(Clone, Copy, Debug, PartialEq, Eq, Structural)]
pub enum MessageRole {
    User,
    Assistant,
}

/// A message that a reader is shown.
#[derive(Debug)]
pub struct Message {
    pub role: MessageRole,
    pub body: String,
    pub timestamp: Option<String>,
    /// Whether it was recorded as an event rather than as an item of a response.
    pub event: bool,
}

/// A message, as contracts speak of it.
#[verifier::ext_equal]
pub ghost struct MessageView {
    pub role: MessageRole,
    pub body: Seq<char>,
    pub timestamp: Option<Seq<char>>,
    pub event: bool,
}

impl View for Message {
    type V = MessageView;

    open spec fn view(&self) -> MessageView {
        MessageView {
            role: self.role,
            body: self.body@,
            timestamp: opt_view(self.timestamp),
            event: self.event,
        }
    }
}

/// Whether a text of the user is context that was added for the model.
pub open spec fn is_injected(text: Seq<char>) -> bool {
    let value = trimmed_start(text);
    "# AGENTS.md instructions"@.is_prefix_of(value) || "<environment_context>"@.is_prefix_of(value)
        || "<permissions instructions>"@.is_prefix_of(value) || "<app-context>"@.is_prefix_of(value)
        || "<user_instructions>"@.is_prefix_of(value)
}

/// Whether a text of the user is context that was added for the model.
pub fn injected_user_context(text: &str) -> (r: bool)
    ensures
        r == is_injected(text@),
{
    let value = trim_start(text);
    has_prefix(&value, "# AGENTS.md instructions") || has_prefix(&value, "<environment_context>")
        || has_prefix(&value, "<permissions instructions>") || has_prefix(&value, "<app-context>")
        || has_prefix(&value, "<user_instructions>")
}

/// What is shown for an image.
pub open spec fn image_mark() -> Seq<char> {
    "[图片 / Image]"@
}

/// What is shown of a part of a message, if anything.
pub open spec fn part_text(part: ContentPart) -> Option<Seq<char>> {
    let kind = part.kind@;
    if kind == "input_text"@ || kind == "output_text"@ || kind == "text"@ {
        opt_view(part.text)
    } else if kind == "input_image"@ || kind == "image"@ {
        Some(image_mark())
    } else if kind == "input_audio"@ || kind == "audio"@ {
        Some("[音频 / Audio]"@)
    } else {
        None
    }
}

/// What is shown of the parts of a message.
pub open spec fn part_texts(parts: Seq<ContentPart>) -> Seq<Seq<char>>
    decreases parts.len(),
{
    if parts.len() == 0 {
        seq![]
    } else {
        let head = part_texts(parts.drop_last());
        match part_text(parts.last()) {
            Some(text) => head.push(text),
            None => head,
        }
    }
}

fn text_of_part(part: &ContentPart) -> (r: Option<String>)
    ensures
        opt_view(r) == part_text(*part),
{
    let kind = part.kind.as_str();
    if same_text(kind, "input_text") || same_text(kind, "output_text") || same_text(kind, "text") {
        copy_opt(&part.text)
    } else if same_text(kind, "input_image") || same_text(kind, "image") {
        Some("[图片 / Image]".to_owned())
    } else if same_text(kind, "input_audio") || same_text(kind, "audio") {
        Some("[音频 / Audio]".to_owned())
    } else {
        None
    }
}

fn texts_of_parts(parts: &Vec<ContentPart>) -> (r: Vec<String>)
    ensures
        text_views(r@) == part_texts(parts@),
{
    let mut out: Vec<String> = Vec::new();
    let mut i: usize = 0;
    assert(text_views(out@) =~= part_texts(parts@.take(0)));
    while i < parts.len()
        invariant
            i <= parts@.len(),
            text_views(out@) == part_texts(parts@.take(i as int)),
        decreases parts@.len() - i,
    {
        assert(parts@.take(i + 1).drop_last() =~= parts@.take(i as int));
        let ghost before = out@;
        if let Some(text) = text_of_part(&parts[i]) {
            out.push(text);
            assert(text_views(out@) =~= text_views(before).push(text@));
        }
        i = i + 1;
    }
    assert(parts@.take(parts@.len() as int) =~= parts@);
    out
}

/// Whether a record is meant for the model or a tool rather than for the reader.
pub open spec fn is_internal(payload: Payload) -> bool {
    let channel = opt_view(payload.channel);
    channel == Some("analysis"@) || channel == Some("justify"@) || channel == Some("confidence"@)
        || opt_view(payload.phase) == Some("analysis"@) || (payload.recipient is Some && opt_view(
        payload.recipient,
    ) != Some("all"@))
}

/// The message in a record as it stands, if the record holds one of the user or the assistant.
pub open spec fn raw_message(record: Record) -> Option<MessageView> {
    let payload = record.payload;
    let timestamp = opt_view(record.timestamp);
    let said = match payload.message {
        Some(message) => message@,
        None => seq![],
    };
    if record.kind@ == "event_msg"@ {
        if payload.kind@ == "user_message"@ {
            Some(MessageView { role: MessageRole::User, body: said, timestamp, event: true })
        } else if payload.kind@ == "agent_message"@ {
            Some(MessageView { role: MessageRole::Assistant, body: said, timestamp, event: true })
        } else {
            None
        }
    } else if record.kind@ == "response_item"@ && payload.kind@ == "message"@ {
        let body = joined_by(part_texts(payload.content@), "\n\n"@);
        if opt_view(payload.role) == Some("user"@) {
            if is_injected(body) {
                None
            } else {
                Some(MessageView { role: MessageRole::User, body, timestamp, event: false })
            }
        } else if opt_view(payload.role) == Some("assistant"@) {
            Some(MessageView { role: MessageRole::Assistant, body, timestamp, event: false })
        } else {
            None
        }
    } else {
        None
    }
}

/// A text with a mark for the images that are attached to it.
pub open spec fn with_images(body: Seq<char>, attached: bool) -> Seq<char> {
    if !attached {
        body
    } else if body.len() == 0 {
        image_mark()
    } else {
        body + "\n\n"@ + image_mark()
    }
}

/// The message in a record that a reader is shown, if any.
pub open spec fn shown_message(record: Record) -> Option<MessageView> {
    if is_internal(record.payload) {
        None
    } else {
        match raw_message(record) {
            None => None,
            Some(message) => {
                let body = with_images(
                    message.body,
                    record.payload.images || record.payload.local_images,
                );
                if blank(body) {
                    None
                } else {
                    Some(MessageView { body, ..message })
                }
            },
        }
    }
}

/// A message, as contracts speak of it, if there is one.
pub open spec fn opt_message(message: Option<Message>) -> Option<MessageView> {
    match message {
        Some(message) => Some(message@),
        None => None,
    }
}

fn is_text(value: &Option<String>, expected: &str) -> (r: bool)
    ensures
        r == (opt_view(*value) == Some(expected@)),
{
    match value {
        Some(value) => same_text(value, expected),
        None => false,
    }
}

fn found_message(record: &Record) -> (r: Option<Message>)
    ensures
        opt_message(r) == raw_message(*record),
{
    let payload = &record.payload;
    let timestamp = copy_opt(&record.timestamp);
    if same_text(&record.kind, "event_msg") {
        let role = if same_text(&payload.kind, "user_message") {
            MessageRole::User
        } else if same_text(&payload.kind, "agent_message") {
            MessageRole::Assistant
        } else {
            return None;
        };
        let body = match &payload.message {
            Some(message) => message.clone(),
            None => String::new(),
        };
        let message = Message { role, body, timestamp, event: true };
        proof {
            reveal_strlit("user_message");
            reveal_strlit("agent_message");
            assert(message@ =~= raw_message(*record)->0);
        }
        return Some(message);
    }
    if !same_text(&record.kind, "response_item") || !same_text(&payload.kind, "message") {
        return None;
    }
    let user = is_text(&payload.role, "user");
    if !user && !is_text(&payload.role, "assistant") {
        return None;
    }
    let body = join(&texts_of_parts(&payload.content), "\n\n");
    if user && injected_user_context(&body) {
        return None;
    }
    let role = if user {
        MessageRole::User
    } else {
        MessageRole::Assistant
    };
    Some(Message { role, body, timestamp, event: false })
}

/// The message in a record that a reader is shown, if any.
pub fn visible_message(record: &Record) -> (r: Option<Message>)
    ensures
        opt_message(r) == shown_message(*record),
{
    let payload = &record.payload;
    if is_text(&payload.channel, "analysis") || is_text(&payload.channel, "justify") || is_text(
        &payload.channel,
        "confidence",
    ) || is_text(&payload.phase, "analysis") {
        return None;
    }
    if payload.recipient.is_some() && !is_text(&payload.recipient, "all") {
        return None;
    }
    let mut message = match found_message(record) {
        Some(message) => message,
        None => return None,
    };
    if payload.images || payload.local_images {
        if has_text(&message.body) {
            message.body.append("\n\n");
        }
        message.body.append("[图片 / Image]");
        assert(message.body@ =~= with_images(raw_message(*record)->0.body, true));
    }
    if is_blank(&message.body) {
        return None;
    }
    Some(message)
}

fn has_text(text: &str) -> (r: bool)
    ensures
        r == (text@.len() > 0),
{
    for c in it: text.chars()
        invariant
            it.seq() == text@,
            it.index() == 0,
    {
        return true;
    }
    false
}

/// What a record for the model or for a tool holds is never shown.
pub proof fn law_internal_records_stay_hidden(record: Record)
    ensures
        is_internal(record.payload) ==> shown_message(record) is None,
        record.kind@ != "event_msg"@ && record.kind@ != "response_item"@ ==> shown_message(
            record,
        ) is None,
        record.kind@ == "response_item"@ && opt_view(record.payload.role) != Some("user"@)
            && opt_view(record.payload.role) != Some("assistant"@) ==> shown_message(
            record,
        ) is None,
{
    reveal_strlit("event_msg");
    reveal_strlit("response_item");
    assert("event_msg"@.len() != "response_item"@.len());
}

/// A message that is shown is never blank.
pub proof fn law_shown_messages_say_something(record: Record)
    ensures
        shown_message(record) matches Some(message) ==> !blank(message.body),
{
}

/// The length of the line that bytes begin with, its break included; all of them where no line
/// ends.
pub open spec fn line_length(bytes: Seq<u8>) -> nat
    decreases bytes.len(),
{
    if bytes.len() == 0 {
        0
    } else if bytes[0] == 10 {
        1
    } else {
        1 + line_length(bytes.skip(1))
    }
}

/// Whether a line ends within some bytes.
pub open spec fn ends_line(bytes: Seq<u8>) -> bool {
    line_length(bytes) > 0 && bytes[line_length(bytes) - 1] == 10
}

proof fn lemma_line_length(bytes: Seq<u8>, n: int)
    requires
        0 <= n <= bytes.len(),
        forall|i: int| 0 <= i < n - 1 ==> bytes[i] != 10,
        n < bytes.len() ==> n > 0 && bytes[n - 1] == 10,
    ensures
        line_length(bytes) == n,
    decreases bytes.len(),
{
    if bytes.len() > 0 && n != 1 {
        let rest = bytes.skip(1);
        assert(bytes[0] != 10);
        assert forall|i: int| 0 <= i < n - 2 implies rest[i] != 10 by {
            assert(rest[i] == bytes[i + 1]);
        }
        lemma_line_length(rest, n - 1);
    } else if n == 1 && bytes.len() > 0 && bytes[0] != 10 {
        assert(line_length(bytes.skip(1)) == 0);
    }
}

/// A line ends with its first break.
pub proof fn lemma_line(bytes: Seq<u8>)
    ensures
        line_length(bytes) <= bytes.len(),
        bytes.len() > 0 ==> line_length(bytes) > 0,
        forall|i: int| 0 <= i < line_length(bytes) - 1 ==> bytes[i] != 10,
        line_length(bytes) < bytes.len() ==> ends_line(bytes),
    decreases bytes.len(),
{
    if bytes.len() > 0 && bytes[0] != 10 {
        let rest = bytes.skip(1);
        lemma_line(rest);
        assert forall|i: int| 0 <= i < line_length(bytes) - 1 implies bytes[i] != 10 by {
            if i > 0 {
                assert(bytes[i] == rest[i - 1]);
            }
        }
        if line_length(rest) > 0 {
            assert(rest[line_length(rest) - 1] == bytes[line_length(bytes) - 1]);
        }
    }
}

fn length_of_line(bytes: &[u8]) -> (r: usize)
    ensures
        r == line_length(bytes@),
        r <= bytes@.len(),
{
    let mut i: usize = 0;
    while i < bytes.len()
        invariant
            i <= bytes@.len(),
            forall|j: int| 0 <= j < i ==> bytes@[j] != 10,
        decreases bytes@.len() - i,
    {
        if bytes[i] == 10 {
            proof {
                lemma_line_length(bytes@, i + 1);
            }
            return i + 1;
        }
        i = i + 1;
    }
    proof {
        lemma_line_length(bytes@, i as int);
    }
    i
}

/// The reading of one record, which ends with its line.
#[derive(Debug, PartialEq, Eq, Structural)]
pub struct JsonLine {
    pub ended: bool,
    pub consumed: u64,
    /// How much of the buffered bytes belongs to the line and was not read yet.
    pub buffered: usize,
    pub buffer_ends_line: bool,
    pub has_content: bool,
}

/// White space between the values of a record.
pub open spec fn is_byte_space(byte: u8) -> bool {
    byte == 9 || byte == 10 || byte == 12 || byte == 13 || byte == 32
}

/// Whether some bytes hold more than white space.
pub open spec fn has_content(bytes: Seq<u8>) -> bool {
    exists|i: int| 0 <= i < bytes.len() && !is_byte_space(#[trigger] bytes[i])
}

fn holds_content(bytes: &[u8], count: usize) -> (r: bool)
    requires
        count <= bytes@.len(),
    ensures
        r == has_content(bytes@.take(count as int)),
{
    let mut i: usize = 0;
    while i < count
        invariant
            i <= count <= bytes@.len(),
            forall|j: int| 0 <= j < i ==> is_byte_space(bytes@[j]),
        decreases count - i,
    {
        let byte: u8 = bytes[i];
        if !(byte == 9 || byte == 10 || byte == 12 || byte == 13 || byte == 32) {
            assert(!is_byte_space(bytes@.take(count as int)[i as int]));
            return true;
        }
        i = i + 1;
    }
    false
}

/// How much of the buffered bytes belongs to the line.
pub open spec fn line_left(line: JsonLine, available: Seq<u8>) -> nat {
    if line.buffered == 0 {
        line_length(available)
    } else {
        line.buffered as nat
    }
}

/// Whether the line ends within the buffered bytes.
pub open spec fn line_ends(line: JsonLine, available: Seq<u8>) -> bool {
    if line.buffered == 0 {
        ends_line(available)
    } else {
        line.buffer_ends_line
    }
}

/// How many bytes a read takes: what there is room for, what is left of the line, and no more than
/// a record may hold.
pub open spec fn read_count(line: JsonLine, available: Seq<u8>, room: nat) -> nat {
    let left = line_left(line, available);
    let allowed = (MAX_RECORD_BYTES - line.consumed) as nat;
    let smaller = if room <= left {
        room
    } else {
        left
    };
    if smaller <= allowed {
        smaller
    } else {
        allowed
    }
}

/// The state after a read that took so many bytes.
pub open spec fn line_after(line: JsonLine, available: Seq<u8>, count: nat) -> JsonLine {
    let left = (line_left(line, available) - count) as usize;
    JsonLine {
        ended: left == 0 && line_ends(line, available),
        consumed: (line.consumed + count) as u64,
        buffered: left,
        buffer_ends_line: line_ends(line, available),
        has_content: line.has_content || has_content(available.take(count as int)),
    }
}

impl JsonLine {
    /// The reading of a record of which nothing was read yet.
    pub fn new() -> (r: JsonLine)
        ensures
            r == (JsonLine {
                ended: false,
                consumed: 0,
                buffered: 0,
                buffer_ends_line: false,
                has_content: false,
            }),
    {
        JsonLine {
            ended: false,
            consumed: 0,
            buffered: 0,
            buffer_ends_line: false,
            has_content: false,
        }
    }

    /// How many of the buffered bytes a read with some room takes. An error says that the record
    /// is too large.
    pub fn read(&mut self, available: &[u8], room: usize) -> (r: Result<usize, ()>)
        requires
            available@.len() > 0 ==> old(self).buffered <= available@.len(),
        ensures
            if old(self).ended || room == 0 {
                r == Ok::<usize, ()>(0) && *final(self) == *old(self)
            } else if available@.len() == 0 {
                r == Ok::<usize, ()>(0) && *final(self) == (JsonLine { ended: true, ..*old(self) })
            } else if old(self).consumed >= MAX_RECORD_BYTES {
                r is Err && *final(self) == *old(self)
            } else {
                r is Ok && r->Ok_0 == read_count(*old(self), available@, room as nat)
                    && *final(self) == line_after(*old(self), available@, r->Ok_0 as nat)
            },
            r is Ok ==> r->Ok_0 <= available@.len() && r->Ok_0 <= room,
    {
        if self.ended || room == 0 {
            return Ok(0);
        }
        if available.len() == 0 {
            self.ended = true;
            return Ok(0);
        }
        if self.consumed >= MAX_RECORD_BYTES {
            return Err(());
        }
        let ghost before = *self;
        proof {
            lemma_line(available@);
        }
        if self.buffered == 0 {
            self.buffered = length_of_line(available);
            self.buffer_ends_line = available[self.buffered - 1] == 10;
        }
        let allowed: u64 = MAX_RECORD_BYTES - self.consumed;
        let mut count: usize = if room <= self.buffered {
            room
        } else {
            self.buffered
        };
        if count as u64 > allowed {
            count = allowed as usize;
        }
        self.has_content = self.has_content || holds_content(available, count);
        self.buffered = self.buffered - count;
        self.ended = self.buffered == 0 && self.buffer_ends_line;
        self.consumed = self.consumed + count as u64;
        assert(*self == line_after(before, available@, count as nat));
        Ok(count)
    }
}

/// Whether the state of a read agrees with the bytes that are buffered now.
pub open spec fn line_agrees(line: JsonLine, available: Seq<u8>) -> bool {
    line.buffered > 0 ==> {
        &&& line.buffered <= available.len()
        &&& forall|i: int| 0 <= i < line.buffered - 1 ==> available[i] != 10
        &&& line.buffer_ends_line == (available[line.buffered - 1] == 10)
    }
}

/// A read never goes past the end of its line, so a record that cannot be understood takes nothing
/// of the next one: only the last byte that it takes can be a line break, and the record has ended
/// just when it is one.
pub proof fn law_reads_stop_at_the_line(line: JsonLine, available: Seq<u8>, room: nat)
    requires
        !line.ended,
        line.consumed < MAX_RECORD_BYTES,
        available.len() > 0,
        available.len() <= usize::MAX,
        room > 0,
        line_agrees(line, available),
    ensures
        ({
            let count = read_count(line, available, room);
            let after = line_after(line, available, count);
            &&& 0 < count <= available.len()
            &&& forall|i: int| 0 <= i < count - 1 ==> available[i] != 10
            &&& after.ended == (available[count - 1] == 10)
            &&& line_agrees(after, available.skip(count as int))
        }),
{
    lemma_line(available);
    let count = read_count(line, available, room);
    let after = line_after(line, available, count);
    let rest = available.skip(count as int);
    let left = line_left(line, available);
    assert(forall|i: int| 0 <= i < left - 1 ==> available[i] != 10);
    assert(line_ends(line, available) == (available[left - 1] == 10));
    if after.buffered > 0 {
        assert forall|i: int| 0 <= i < after.buffered - 1 implies rest[i] != 10 by {
            assert(rest[i] == available[i + count]);
        }
        assert(rest[after.buffered - 1] == available[left - 1]);
        assert(available[count - 1] != 10);
    }
}

/// How much of the buffered bytes is skipped to get to the end of a line, and whether that is the
/// end: of the line, or of everything.
pub fn drain_line(available: &[u8]) -> (r: (usize, bool))
    ensures
        r.0 == line_length(available@),
        r.1 == (available@.len() == 0 || ends_line(available@)),
        r.0 <= available@.len(),
{
    if available.len() == 0 {
        return (0, true);
    }
    proof {
        lemma_line(available@);
    }
    let count: usize = length_of_line(available);
    (count, available[count - 1] == 10)
}

} // verus!
