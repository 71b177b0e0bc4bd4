//! What holds of the transcript of a conversation and of an export.
use crate::clock::rfc3339_again;
use crate::digest::sha256;
use crate::error::CodexxError;
use crate::sessions::export::{
    block, check_destination, chosen, chosen_sessions, closing, confirm_destination,
    destination_snapshot, escaped, escaped_char, events_with, export_codex_sessions_inner, filename,
    find_session, heading, is_kept, kept_count, key_input, key_lines, key_of, law_chosen_once,
    markdown_label, member_name, message_key, padded, reported, role_name, rollout_path,
    safe_rollout_path, scanned, transcript, visit_records, write_markdown, written_titles,
    DestinationFacts, DestinationKind, RecordLine, SessionExport, SessionHeader, SessionOutcome,
    SessionScan,
};
use crate::sessions::records::{
    part_texts, shown_message, visible_message, Message, MessageRole, MessageView, Record,
};
use crate::text::{
    blank, decimal, is_control, is_space, joined_by, lowered, opt_view, pieces, text_views, trimmed,
    trimmed_end, utf8,
};
use crate::text_laws::lemma_blank;
use vstd::prelude::*;

verus! {

proof fn lemma_transcript_grows(messages: Seq<MessageView>, i: nat, n: nat)
    requires
        i <= n,
    ensures
        transcript(messages, i).len() <= transcript(messages, n).len(),
        transcript(messages, i) == transcript(messages, n).take(
            transcript(messages, i).len() as int,
        ),
    decreases n,
{
    if i < n {
        lemma_transcript_grows(messages, i, (n - 1) as nat);
        let short = transcript(messages, (n - 1) as nat);
        let p = transcript(messages, i).len() as int;
        assert(transcript(messages, n).take(p) =~= short.take(p));
    } else {
        assert(transcript(messages, n).take(transcript(messages, n).len() as int) =~= transcript(
            messages,
            n,
        ));
    }
}

/// How the block of a message begins: a rule, who wrote it and, where that is known, when.
pub open spec fn block_head(message: MessageView) -> Seq<char> {
    "---\n\n## "@ + (match message.role {
        MessageRole::User => "用户 / User"@,
        MessageRole::Assistant => "助手 / Assistant"@,
    }) + "\n\n"@ + (match message.timestamp {
        Some(text) => match rfc3339_again(text) {
            Some(at) => "*"@ + at + "*\n\n"@,
            None => seq![],
        },
        None => seq![],
    })
}

/// Where the block of a message that is shown stands in the transcript.
proof fn lemma_shown_at(
    session: &SessionHeader,
    scan: SessionScan,
    r: Result<String, CodexxError>,
    i: int,
) -> (at: int)
    requires
        scan.wf(),
        call_ensures(write_markdown, (session, scan), r),
        r is Ok,
        0 <= i < scan@.messages.len(),
        is_kept(scan@.messages, i),
    ensures
        ({
            let said = block_head(scan@.messages[i]) + trimmed(scan@.messages[i].body) + "\n\n"@;
            &&& at == heading(*session).len() + transcript(scan@.messages, i as nat).len()
            &&& at + said.len() == heading(*session).len() + transcript(
                scan@.messages,
                (i + 1) as nat,
            ).len()
            &&& at + said.len() <= heading(*session).len() + transcript(
                scan@.messages,
                scan@.messages.len(),
            ).len() <= r->Ok_0@.len()
            &&& r->Ok_0@.subrange(at, at + said.len()) == said
        }),
{
    let messages = scan@.messages;
    let text = r->Ok_0@;
    let whole = transcript(messages, messages.len());
    let said = block_head(messages[i]) + trimmed(messages[i].body) + "\n\n"@;
    assert(block(messages[i]) =~= said);
    let before = transcript(messages, i as nat);
    let after = transcript(messages, (i + 1) as nat);
    assert(after == before + said);
    lemma_transcript_grows(messages, (i + 1) as nat, messages.len());
    let at = heading(*session).len() + before.len() as int;
    assert(text =~= heading(*session) + whole + closing(scan@.malformed));
    assert forall|k: int| 0 <= k < said.len() implies text[at + k] == said[k] by {
        assert(text[at + k] == whole[before.len() + k]);
        assert(whole.take(after.len() as int)[before.len() + k] == after[before.len() + k]);
    }
    assert(text.subrange(at, at + said.len()) =~= said);
    at
}

/// A message shows its whole text: the transcript holds the trimmed body of every event, and of
/// every reply that no event repeats, as one part and in full, whatever its length, below who wrote
/// it and when.
pub proof fn law_transcripts_hold_whole_messages(
    session: &SessionHeader,
    scan: SessionScan,
    r: Result<String, CodexxError>,
    i: int,
) -> (at: int)
    requires
        scan.wf(),
        call_ensures(write_markdown, (session, scan), r),
        r is Ok,
        0 <= i < scan@.messages.len(),
        scan@.messages[i].event || forall|j: int|
            0 <= j < scan@.messages.len() && (#[trigger] scan@.messages[j]).event ==> key_of(
                scan@.messages[j],
            ) != key_of(scan@.messages[i]),
    ensures
        ({
            let message = scan@.messages[i];
            let body = trimmed(message.body);
            let head = block_head(message);
            &&& 0 <= at
            &&& at + head.len() + body.len() <= r->Ok_0@.len()
            &&& r->Ok_0@.subrange(at, at + head.len()) == head
            &&& r->Ok_0@.subrange(at + head.len(), at + head.len() + body.len()) == body
        }),
{
    let messages = scan@.messages;
    if !messages[i].event {
        lemma_no_events(messages, key_of(messages[i]));
    }
    assert(is_kept(messages, i));
    let at = lemma_shown_at(session, scan, r, i);
    let head = block_head(messages[i]);
    let body = trimmed(messages[i].body);
    let said = head + body + "\n\n"@;
    let text = r->Ok_0@;
    assert forall|k: int| 0 <= k < said.len() implies text[at + k] == said[k] by {
        assert(text.subrange(at, at + said.len())[k] == said[k]);
    }
    assert(text.subrange(at, at + head.len()) =~= head);
    let shown = text.subrange(at + head.len(), at + head.len() + body.len());
    assert forall|k: int| 0 <= k < body.len() implies shown[k] == body[k] by {
        assert(said[head.len() + k] == body[k]);
        assert(text[at + (head.len() + k)] == said[head.len() + k]);
    }
    assert(shown =~= body);
    at
}

proof fn lemma_no_events(messages: Seq<MessageView>, key: Seq<char>)
    requires
        forall|j: int|
            0 <= j < messages.len() && (#[trigger] messages[j]).event ==> key_of(messages[j]) != key,
    ensures
        events_with(messages, key) == 0,
    decreases messages.len(),
{
    if messages.len() > 0 {
        assert forall|j: int|
            0 <= j < messages.drop_last().len() && (#[trigger] messages.drop_last()[j]).event implies key_of(
            messages.drop_last()[j],
        ) != key by {
            assert(messages[j] == messages.drop_last()[j]);
        }
        lemma_no_events(messages.drop_last(), key);
        assert(messages.last() == messages[messages.len() - 1]);
    }
}

/// Messages show in the order in which they were recorded.
pub proof fn law_transcripts_keep_the_order(
    session: &SessionHeader,
    scan: SessionScan,
    r: Result<String, CodexxError>,
    i: int,
    j: int,
) -> (places: (int, int))
    requires
        scan.wf(),
        call_ensures(write_markdown, (session, scan), r),
        r is Ok,
        0 <= i < j < scan@.messages.len(),
        scan@.messages[i].event,
        scan@.messages[j].event,
    ensures
        ({
            let first = trimmed(scan@.messages[i].body);
            let second = trimmed(scan@.messages[j].body);
            &&& 0 <= places.0
            &&& places.0 + first.len() <= places.1
            &&& places.1 + second.len() <= r->Ok_0@.len()
            &&& r->Ok_0@.subrange(places.0, places.0 + first.len()) == first
            &&& r->Ok_0@.subrange(places.1, places.1 + second.len()) == second
        }),
{
    let messages = scan@.messages;
    let a = lemma_shown_at(session, scan, r, i);
    let b = lemma_shown_at(session, scan, r, j);
    lemma_transcript_grows(messages, (i + 1) as nat, j as nat);
    let c = law_transcripts_hold_whole_messages(session, scan, r, i);
    let d = law_transcripts_hold_whole_messages(session, scan, r, j);
    let text = r->Ok_0@;
    let first = trimmed(messages[i].body);
    let second = trimmed(messages[j].body);
    let x = a + block_head(messages[i]).len() as int;
    let y = b + block_head(messages[j]).len() as int;
    let said = block_head(messages[i]) + first + "\n\n"@;
    let more = block_head(messages[j]) + second + "\n\n"@;
    assert forall|k: int| 0 <= k < first.len() implies text[x + k] == first[k] by {
        assert(text.subrange(a, a + said.len())[block_head(messages[i]).len() + k] == first[k]);
    }
    assert forall|k: int| 0 <= k < second.len() implies text[y + k] == second[k] by {
        assert(text.subrange(b, b + more.len())[block_head(messages[j]).len() + k] == second[k]);
    }
    assert(text.subrange(x, x + first.len()) =~= first);
    assert(text.subrange(y, y + second.len()) =~= second);
    (x, y)
}

/// A transcript begins with the title and holds nothing beside its heading, one block for each
/// message that is shown, and a note on what could not be read: its length is theirs.
pub proof fn law_transcripts_hold_nothing_else(
    session: &SessionHeader,
    scan: SessionScan,
    r: Result<String, CodexxError>,
)
    requires
        scan.wf(),
        call_ensures(write_markdown, (session, scan), r),
        r is Ok,
    ensures
        ("# "@ + escaped(session.title@) + "\n\n"@).is_prefix_of(r->Ok_0@),
        scan@.malformed == 0 ==> r->Ok_0@.len() == heading(*session).len() + blocks_length(
            scan@.messages,
            scan@.messages.len(),
        ),
        scan@.malformed > 0 ==> exists|at: int|
            0 <= at && at + decimal(scan@.malformed).len() <= r->Ok_0@.len() && at
                >= heading(*session).len() && #[trigger] r->Ok_0@.subrange(
                at,
                at + decimal(scan@.malformed).len(),
            ) == decimal(scan@.malformed),
{
    let messages = scan@.messages;
    let text = r->Ok_0@;
    let whole = transcript(messages, messages.len());
    let title = "# "@ + escaped(session.title@) + "\n\n"@;
    lemma_blocks_length(messages, messages.len());
    assert(text == heading(*session) + whole + closing(scan@.malformed));
    assert(heading(*session).take(title.len() as int) =~= title);
    assert(title.is_prefix_of(text)) by {
        assert(text.subrange(0, title.len() as int) =~= heading(*session).take(title.len() as int));
    }
    if scan@.malformed > 0 {
        let number = decimal(scan@.malformed);
        let at = heading(*session).len() + whole.len() + "> 有 "@.len() as int;
        assert forall|k: int| 0 <= k < number.len() implies text[at + k] == number[k] by {
            assert(closing(scan@.malformed)["> 有 "@.len() + k] == number[k]);
        }
        assert(text.subrange(at, at + number.len()) =~= number);
    }
}

/// How long the blocks of the first messages are together.
pub open spec fn blocks_length(messages: Seq<MessageView>, count: nat) -> nat
    decreases count,
{
    if count == 0 {
        0
    } else {
        blocks_length(messages, (count - 1) as nat) + (if is_kept(messages, count - 1) {
            block_head(messages[count - 1]).len() + trimmed(messages[count - 1].body).len() + 2
        } else {
            0
        })
    }
}

proof fn lemma_blocks_length(messages: Seq<MessageView>, count: nat)
    ensures
        blocks_length(messages, count) == transcript(messages, count).len(),
    decreases count,
{
    if count > 0 {
        lemma_blocks_length(messages, (count - 1) as nat);
        let message = messages[count - 1];
        reveal_strlit("\n\n");
        assert(block(message) =~= block_head(message) + trimmed(message.body) + "\n\n"@);
    }
}

/// A conversation in which anything was said has a transcript; one in which nothing was has none.
pub proof fn law_conversations_with_messages_are_exported(
    session: &SessionHeader,
    scan: SessionScan,
    r: Result<String, CodexxError>,
)
    requires
        scan.wf(),
        call_ensures(write_markdown, (session, scan), r),
    ensures
        r is Ok <==> scan@.messages.len() > 0,
{
    let messages = scan@.messages;
    if messages.len() > 0 {
        if exists|i: int| 0 <= i < messages.len() && (#[trigger] messages[i]).event {
            let i = choose|i: int| 0 <= i < messages.len() && (#[trigger] messages[i]).event;
            lemma_kept_counts(messages, i, messages.len());
        } else {
            lemma_no_events(messages, key_of(messages[0]));
            lemma_kept_counts(messages, 0, messages.len());
        }
    }
}

proof fn lemma_kept_counts(messages: Seq<MessageView>, i: int, count: nat)
    requires
        0 <= i < count,
        is_kept(messages, i),
    ensures
        kept_count(messages, count) > 0,
    decreases count,
{
    if i < count - 1 {
        lemma_kept_counts(messages, i, (count - 1) as nat);
    }
}

/// The messages that lines say, in their order.
pub open spec fn said(lines: Seq<RecordLine>) -> Seq<MessageView>
    decreases lines.len(),
{
    if lines.len() == 0 {
        seq![]
    } else {
        let head = said(lines.drop_last());
        match lines.last().record {
            Some(record) => if record.kind@ == "session_meta"@ {
                head
            } else {
                match shown_message(record) {
                    Some(message) => head.push(message),
                    None => head,
                }
            },
            None => head,
        }
    }
}

/// How many lines hold something that is no record.
pub open spec fn unread(lines: Seq<RecordLine>) -> nat
    decreases lines.len(),
{
    if lines.len() == 0 {
        0
    } else {
        unread(lines.drop_last()) + (if lines.last().record is None && lines.last().has_content {
            1nat
        } else {
            0
        })
    }
}

proof fn lemma_scanned(lines: Seq<RecordLine>, id: Seq<char>)
    requires
        scanned(lines, id) is Ok,
    ensures
        scanned(lines, id)->Ok_0.messages == said(lines),
        scanned(lines, id)->Ok_0.malformed == unread(lines),
        forall|i: int|
            0 <= i < lines.len() && ((#[trigger] lines[i]).record matches Some(record)
                && record.kind@ == "session_meta"@) ==> opt_view(lines[i].record->0.payload.id)
                == Some(id),
        scanned(lines, id)->Ok_0.verified ==> exists|i: int|
            0 <= i < lines.len() && ((#[trigger] lines[i]).record matches Some(record)
                && record.kind@ == "session_meta"@),
    decreases lines.len(),
{
    if lines.len() > 0 {
        lemma_scanned(lines.drop_last(), id);
        assert forall|i: int|
            0 <= i < lines.len() && ((#[trigger] lines[i]).record matches Some(record)
                && record.kind@ == "session_meta"@) implies opt_view(lines[i].record->0.payload.id)
            == Some(id) by {
            if i < lines.len() - 1 {
                assert(lines.drop_last()[i] == lines[i]);
            }
        }
        if scanned(lines, id)->Ok_0.verified {
            if scanned(lines.drop_last(), id)->Ok_0.verified {
                let i = choose|i: int|
                    0 <= i < lines.drop_last().len() && ((#[trigger] lines.drop_last()[i]).record matches Some(
                        record,
                    ) && record.kind@ == "session_meta"@);
                assert(lines[i] == lines.drop_last()[i]);
            } else {
                assert(lines[lines.len() - 1] == lines.last());
            }
        }
    }
}

/// What is read of a file are the messages that its lines say, all of them and in their order, and
/// how many lines could not be read; and only where every identity in the file is that of the
/// conversation, and there is one.
pub proof fn law_reading_keeps_every_message(
    lines: &Vec<RecordLine>,
    id: &str,
    r: Result<SessionScan, CodexxError>,
)
    requires
        call_ensures(visit_records, (lines, id), r),
        r is Ok,
    ensures
        r->Ok_0.wf(),
        r->Ok_0@.messages == said(lines@),
        r->Ok_0@.malformed == unread(lines@),
        exists|i: int|
            0 <= i < lines@.len() && ((#[trigger] lines@[i]).record matches Some(record)
                && record.kind@ == "session_meta"@),
        forall|i: int|
            0 <= i < lines@.len() && ((#[trigger] lines@[i]).record matches Some(record)
                && record.kind@ == "session_meta"@) ==> opt_view(lines@[i].record->0.payload.id)
                == Some(id@),
{
    lemma_scanned(lines@, id@);
}

/// A file of another conversation is not read.
pub proof fn law_other_conversations_are_refused(
    lines: &Vec<RecordLine>,
    id: &str,
    r: Result<SessionScan, CodexxError>,
    i: int,
)
    requires
        call_ensures(visit_records, (lines, id), r),
        0 <= i < lines@.len(),
        lines@[i].record matches Some(record) && record.kind@ == "session_meta"@ && opt_view(
            record.payload.id,
        ) != Some(id@),
    ensures
        r is Err,
{
    if r is Ok {
        lemma_scanned(lines@, id@);
    }
}

/// Whether a record is for the reader: on no channel and in no phase of the model's own, and to
/// everyone.
pub open spec fn for_the_reader(record: Record) -> bool {
    let payload = record.payload;
    &&& payload.channel matches Some(channel) ==> channel@ != "analysis"@ && channel@ != "justify"@
        && channel@ != "confidence"@
    &&& payload.phase matches Some(phase) ==> phase@ != "analysis"@
    &&& payload.recipient matches Some(recipient) ==> recipient@ == "all"@
}

/// What an event says is shown as it is: a message of the user as the user's, an answer as the
/// assistant's, with its whole text and its time; with a mark behind it where images are attached.
pub proof fn law_events_are_shown_as_said(record: &Record, r: Option<Message>)
    requires
        call_ensures(visible_message, (record,), r),
        record.kind@ == "event_msg"@,
        for_the_reader(*record),
        record.payload.message is Some,
        !blank(record.payload.message->0@),
    ensures
        ({
            let text = record.payload.message->0@;
            let attached = record.payload.images || record.payload.local_images;
            &&& record.payload.kind@ == "user_message"@ || record.payload.kind@ == "agent_message"@ ==> (
            r matches Some(message) && message.event && opt_view(message.timestamp) == opt_view(
                record.timestamp,
            ) && (message.role is User <==> record.payload.kind@ == "user_message"@) && (!attached
                ==> message.body@ == text) && (attached ==> message.body@ == text + "\n\n"@
                + "[图片 / Image]"@))
            &&& record.payload.kind@ != "user_message"@ && record.payload.kind@ != "agent_message"@
                ==> r is None
        }),
{
    reveal_strlit("user_message");
    reveal_strlit("agent_message");
    let text = record.payload.message->0@;
    assert(text.len() > 0) by {
        if text.len() == 0 {
            assert(trimmed(text).len() == 0);
        }
    }
    let longer = text + "\n\n"@ + "[图片 / Image]"@;
    lemma_blank(text);
    lemma_blank(longer);
    let i = choose|i: int| 0 <= i < text.len() && !is_space(#[trigger] text[i]);
    assert(longer[i] == text[i]);
    assert("user_message"@.len() == 12 && "agent_message"@.len() == 13);
}

/// The text of an item of a response is that of its parts, one after the other, for the assistant and
/// for the user.
pub proof fn law_replies_are_shown_as_said(record: &Record, r: Option<Message>)
    requires
        call_ensures(visible_message, (record,), r),
        record.kind@ == "response_item"@,
        record.payload.kind@ == "message"@,
        for_the_reader(*record),
        !record.payload.images,
        !record.payload.local_images,
        opt_view(record.payload.role) == Some("assistant"@),
    ensures
        r is Some <==> !blank(joined_by(part_texts(record.payload.content@), "\n\n"@)),
        r matches Some(message) ==> message.role is Assistant && !message.event && message.body@
            == joined_by(part_texts(record.payload.content@), "\n\n"@) && opt_view(message.timestamp)
            == opt_view(record.timestamp),
{
    reveal_strlit("event_msg");
    reveal_strlit("response_item");
    reveal_strlit("user");
    reveal_strlit("assistant");
    assert("event_msg"@.len() == 9 && "response_item"@.len() == 13 && "user"@.len() == 4
        && "assistant"@.len() == 9);
}

/// What is meant for the model or a tool is never shown.
pub proof fn law_only_records_for_the_reader_show(record: &Record, r: Option<Message>)
    requires
        call_ensures(visible_message, (record,), r),
    ensures
        r is Some ==> for_the_reader(*record) && (record.kind@ == "event_msg"@ || record.kind@
            == "response_item"@),
        r matches Some(message) ==> !blank(message.body@),
{
}

/// Each text part of a message is a part of what is shown, in full.
pub proof fn law_every_text_part_shows(
    parts: Seq<crate::sessions::records::ContentPart>,
    i: int,
) -> (at: int)
    requires
        0 <= i < parts.len(),
        parts[i].kind@ == "input_text"@ || parts[i].kind@ == "output_text"@ || parts[i].kind@
            == "text"@,
        parts[i].text is Some,
    ensures
        0 <= at < part_texts(parts).len(),
        part_texts(parts)[at] == parts[i].text->0@,
    decreases parts.len(),
{
    if i < parts.len() - 1 {
        assert(parts.drop_last()[i] == parts[i]);
        law_every_text_part_shows(parts.drop_last(), i)
    } else {
        part_texts(parts.drop_last()).len() as int
    }
}

proof fn lemma_key_lines_hold(lines: Seq<Seq<char>>, i: int) -> (at: int)
    requires
        0 <= i < lines.len(),
    ensures
        0 <= at,
        at + utf8(trimmed_end(lines[i])).len() <= key_lines(lines).len(),
        key_lines(lines).subrange(at, at + utf8(trimmed_end(lines[i])).len()) == utf8(
            trimmed_end(lines[i]),
        ),
    decreases lines.len(),
{
    let head = key_lines(lines.drop_last());
    let last = utf8(trimmed_end(lines.last()));
    let whole = key_lines(lines);
    if i < lines.len() - 1 {
        let at = lemma_key_lines_hold(lines.drop_last(), i);
        let line = utf8(trimmed_end(lines[i]));
        assert(lines.drop_last()[i] == lines[i]);
        assert(whole.subrange(at, at + line.len()) =~= head.subrange(at, at + line.len()));
        at
    } else {
        assert(whole.subrange(head.len() as int, (head.len() + last.len()) as int) =~= last);
        head.len() as int
    }
}

/// The key of a message is a digest in which its role and every one of its lines are, so that no line
/// can change without the digested bytes changing there.
pub proof fn law_message_keys_cover_every_line(message: &Message, r: Vec<u8>, i: int) -> (found: (
    Seq<u8>,
    int,
))
    requires
        call_ensures(message_key, (message,), r),
        !blank(message.body@),
        0 <= i < pieces(trimmed(message.body@), '\n').len(),
    ensures
        ({
            let (bytes, at) = found;
            let line = utf8(trimmed_end(pieces(trimmed(message.body@), '\n')[i]));
            &&& r@ == sha256(bytes)
            &&& message.role is User ==> utf8("user"@).is_prefix_of(bytes)
            &&& message.role is Assistant ==> utf8("assistant"@).is_prefix_of(bytes)
            &&& 0 <= at
            &&& at + line.len() <= bytes.len()
            &&& bytes.subrange(at, at + line.len()) == line
        }),
{
    let lines = pieces(trimmed(message.body@), '\n');
    let bytes = key_input(message.role, message.body@);
    let role = utf8(role_name(message.role));
    let inner = lemma_key_lines_hold(lines, i);
    let line = utf8(trimmed_end(lines[i]));
    assert(bytes == role + key_lines(lines));
    assert(bytes.subrange(0, role.len() as int) =~= role);
    assert(bytes.subrange(role.len() + inner, role.len() + inner + line.len()) =~= key_lines(
        lines,
    ).subrange(inner, inner + line.len()));
    (bytes, role.len() + inner)
}

/// A label without control characters and without what Markdown gives a meaning is the text itself.
pub proof fn law_plain_labels_stay(value: &str, r: String)
    requires
        call_ensures(markdown_label, (value,), r),
        forall|i: int|
            0 <= i < value@.len() ==> !is_control(#[trigger] value@[i]) && value@[i] != '\\'
                && value@[i] != '*' && value@[i] != '_' && value@[i] != '`' && value@[i] != '['
                && value@[i] != ']' && value@[i] != '<' && value@[i] != '>',
    ensures
        r@ == value@,
{
    lemma_plain_stays(value@);
}

proof fn lemma_plain_stays(s: Seq<char>)
    requires
        forall|i: int| 0 <= i < s.len() ==> escaped_char(#[trigger] s[i]) == seq![s[i]],
    ensures
        escaped(s) == s,
    decreases s.len(),
{
    if s.len() > 0 {
        assert forall|i: int| 0 <= i < s.drop_last().len() implies escaped_char(
            #[trigger] s.drop_last()[i],
        ) == seq![s.drop_last()[i]] by {
            assert(s[i] == s.drop_last()[i]);
        }
        lemma_plain_stays(s.drop_last());
        assert(s[s.len() - 1] == s.last());
        assert(escaped(s) =~= s);
    }
}

/// What Markdown gives a meaning is written with a backslash before it, angle brackets by their
/// names, and a label of two texts is their labels one after the other.
pub proof fn law_labels_are_escaped(c: char, s: Seq<char>)
    ensures
        escaped(s.push(c)) == escaped(s) + escaped(seq![c]),
        c == '*' || c == '_' || c == '`' || c == '[' || c == ']' || c == '\\' ==> escaped(seq![c])
            == seq!['\\', c],
        c == '<' ==> escaped(seq![c]) == "&lt;"@,
        c == '>' ==> escaped(seq![c]) == "&gt;"@,
        c == '\n' || c == '\t' ==> escaped(seq![c]) == seq![' '],
{
    reveal_with_fuel(escaped, 3);
    assert(s.push(c).drop_last() =~= s);
    let empty: Seq<char> = seq![];
    assert(seq![c].drop_last() =~= empty);
    assert(escaped(seq![c]) =~= escaped_char(c));
}

/// The file of a conversation in an archive has its number, from one on and with at least three
/// digits, and the ending of Markdown.
pub proof fn law_member_names_are_numbered(title: &str, index: usize, r: String)
    requires
        index < usize::MAX,
        call_ensures(filename, (title, index), r),
    ensures
        ".md"@.is_suffix_of(r@),
        (decimal((index + 1) as nat) + seq!['-']).is_suffix_of(
            r@.take(number_length((index + 1) as nat) + 1),
        ),
        number_length((index + 1) as nat) + 1 <= r@.len(),
        number_length((index + 1) as nat) >= 3,
{
    let number = padded((index + 1) as nat);
    let name = member_name(title@, index as nat);
    lemma_padding((index + 1) as nat);
    let digits = decimal((index + 1) as nat) + seq!['-'];
    let front = name.take(number_length((index + 1) as nat) + 1);
    assert(front =~= number + seq!['-']);
    assert(front.subrange(front.len() - digits.len(), front.len() as int) =~= digits);
    assert(name.subrange(name.len() - ".md"@.len(), name.len() as int) =~= ".md"@);
}

/// How many digits the number of a file has.
pub open spec fn number_length(n: nat) -> int {
    if decimal(n).len() < 3 {
        3
    } else {
        decimal(n).len() as int
    }
}

proof fn lemma_padding(n: nat)
    ensures
        padded(n).len() == number_length(n),
        decimal(n).is_suffix_of(padded(n)),
{
    reveal_with_fuel(decimal, 4);
    assert(padded(n).subrange(padded(n).len() - decimal(n).len(), padded(n).len() as int)
        =~= decimal(n));
    if n >= 100 {
        assert(decimal(n / 10).len() >= 2);
    }
}

/// Of conversations that were chosen once each, all are exported, in the order in which they were
/// chosen; of others each once.
pub proof fn law_every_chosen_conversation_is_exported(
    ids: &Vec<String>,
    r: Result<Vec<String>, CodexxError>,
    i: int,
)
    requires
        call_ensures(chosen_sessions, (ids,), r),
        0 <= i < ids@.len(),
        !blank(ids@[i]@),
    ensures
        r is Ok,
        text_views(r->Ok_0@).contains(ids@[i]@),
        text_views(r->Ok_0@).no_duplicates(),
        text_views(ids@).no_duplicates() && (forall|j: int|
            0 <= j < ids@.len() ==> !blank((#[trigger] ids@[j])@)) ==> text_views(r->Ok_0@)
            == text_views(ids@),
{
    let all = text_views(ids@);
    law_chosen_once(all);
    assert(all[i] == ids@[i]@);
    assert(all.contains(ids@[i]@));
    assert(chosen(all).contains(ids@[i]@));
    if all.no_duplicates() && (forall|j: int| 0 <= j < ids@.len() ==> !blank((#[trigger] ids@[j])@)) {
        assert forall|j: int| 0 <= j < all.len() implies !blank(#[trigger] all[j]) by {
            assert(all[j] == ids@[j]@);
        }
        lemma_distinct_all_chosen(all);
    }
}

proof fn lemma_distinct_all_chosen(ids: Seq<Seq<char>>)
    requires
        ids.no_duplicates(),
        forall|j: int| 0 <= j < ids.len() ==> !blank(#[trigger] ids[j]),
    ensures
        chosen(ids) == ids,
    decreases ids.len(),
{
    if ids.len() > 0 {
        let shorter = ids.drop_last();
        assert forall|j: int| 0 <= j < shorter.len() implies !blank(#[trigger] shorter[j]) by {
            assert(shorter[j] == ids[j]);
        }
        lemma_distinct_all_chosen(shorter);
        assert(!blank(ids[ids.len() - 1]));
        if shorter.contains(ids.last()) {
            let k = shorter.index_of(ids.last());
            assert(ids[k] == ids[ids.len() - 1]);
        }
        assert(chosen(ids) =~= ids);
    }
}

/// How many outcomes are conversations that were written.
pub open spec fn written_count(outcomes: Seq<SessionOutcome>) -> nat
    decreases outcomes.len(),
{
    if outcomes.len() == 0 {
        0
    } else {
        written_count(outcomes.drop_last()) + (if outcomes.last() is Written {
            1nat
        } else {
            0
        })
    }
}

proof fn lemma_written_count(outcomes: Seq<SessionOutcome>)
    ensures
        written_titles(outcomes).len() == written_count(outcomes) <= outcomes.len(),
    decreases outcomes.len(),
{
    if outcomes.len() > 0 {
        lemma_written_count(outcomes.drop_last());
    }
}

proof fn lemma_reported_grows(
    before: Seq<Seq<char>>,
    ids: Seq<Seq<char>>,
    outcomes: Seq<SessionOutcome>,
    count: nat,
)
    requires
        count <= outcomes.len(),
    ensures
        reported(before, ids, outcomes, count).len() >= before.len(),
        reported(before, ids, outcomes, count).take(before.len() as int) == before,
        reported(before, ids, outcomes, count).len() >= before.len() + count - written_count(
            outcomes.take(count as int),
        ),
    decreases count,
{
    if count > 0 {
        lemma_reported_grows(before, ids, outcomes, (count - 1) as nat);
        assert(outcomes.take(count as int).drop_last() =~= outcomes.take(count - 1));
        let head = reported(before, ids, outcomes, (count - 1) as nat);
        assert(reported(before, ids, outcomes, count).take(before.len() as int) =~= head.take(
            before.len() as int,
        ));
    } else {
        assert(before.take(before.len() as int) =~= before);
    }
}

/// An export counts every conversation once, as written or as failed; it has a file for each that was
/// written, or is that one file where one alone was asked for; it keeps the warnings that there were,
/// and adds at least one for each conversation that failed. Only where none was written it fails.
pub proof fn law_exports_account_for_every_conversation(
    ids: &Vec<String>,
    outcomes: &Vec<SessionOutcome>,
    warnings: Vec<String>,
    r: Result<SessionExport, CodexxError>,
)
    requires
        ids@.len() == outcomes@.len(),
        call_ensures(export_codex_sessions_inner, (ids, outcomes, warnings), r),
    ensures
        r is Err <==> written_count(outcomes@) == 0,
        r matches Ok(export) ==> {
            &&& export.exported_sessions == written_count(outcomes@)
            &&& export.failed_sessions == outcomes@.len() - written_count(outcomes@)
            &&& export.members is None <==> ids@.len() == 1
            &&& export.members matches Some(members) ==> members@.len() == written_count(outcomes@)
            &&& export.warnings@.len() >= warnings@.len() + export.failed_sessions
            &&& text_views(export.warnings@).take(warnings@.len() as int) == text_views(warnings@)
        },
{
    lemma_written_count(outcomes@);
    lemma_reported_grows(text_views(warnings@), text_views(ids@), outcomes@, outcomes@.len());
    assert(outcomes@.take(outcomes@.len() as int) =~= outcomes@);
    if let Ok(export) = r {
        assert(text_views(export.warnings@).len() == export.warnings@.len());
        if let Some(members) = export.members {
            assert(text_views(members@).len() == members@.len());
        }
    }
}

/// An export is saved only at an absolute place with the ending of its kind, in a folder that is there
/// and outside of the data of Codex, and under a name.
pub proof fn law_destinations_are_checked(
    count: usize,
    facts: &DestinationFacts,
    r: Result<(), CodexxError>,
)
    requires
        call_ensures(check_destination, (count, facts), r),
    ensures
        r is Ok ==> facts.absolute && facts.parent_exists && !facts.inside_codex
            && facts.has_file_name && facts.extension is Some,
        r is Ok && count == 1 ==> lowered(facts.extension->0@) == "md"@,
        r is Ok && count != 1 ==> lowered(facts.extension->0@) == "zip"@,
        facts.absolute && facts.parent_exists && !facts.inside_codex && facts.has_file_name && (
        facts.extension matches Some(found) && lowered(found@) == (if count == 1 {
            "md"@
        } else {
            "zip"@
        })) ==> r is Ok,
{
    reveal_strlit("md");
    reveal_strlit("zip");
    assert(lowered("md"@) =~= "md"@);
    assert(lowered("zip"@) =~= "zip"@);
}

/// A file at the chosen place is overwritten only while it is the one that was seen: nothing where
/// there was nothing, the same content where there was some.
pub proof fn law_changed_destinations_are_left_alone(
    kind: DestinationKind,
    later: DestinationKind,
    contents: &[u8],
    now: &[u8],
    a: Option<Vec<u8>>,
    b: Option<Vec<u8>>,
    r: Result<(), CodexxError>,
)
    requires
        call_ensures(destination_snapshot, (kind, contents), Ok(a)),
        call_ensures(destination_snapshot, (later, now), Ok(b)),
        call_ensures(confirm_destination, (&a, &b), r),
    ensures
        kind != later ==> r is Err,
        kind == later && contents@ == now@ ==> r is Ok,
        kind is Missing && later is Missing ==> r is Ok,
        kind is File && later is File && sha256(contents@) != sha256(now@) ==> r is Err,
{
}

/// A conversation is read only from an ordinary file with the right ending within the storage, at the
/// path that is recorded.
pub proof fn law_only_rollouts_are_read(
    recorded: &Option<String>,
    path: &str,
    is_file: bool,
    is_symlink: bool,
    within_storage: bool,
    found: Result<String, CodexxError>,
    r: Result<(), CodexxError>,
)
    requires
        call_ensures(rollout_path, (recorded,), found),
        call_ensures(safe_rollout_path, (is_file, is_symlink, path, within_storage), r),
    ensures
        found matches Ok(text) ==> *recorded matches Some(given) && text@ == given@ && !blank(given@),
        *recorded matches Some(given) && !blank(given@) ==> found is Ok,
        r is Ok <==> is_file && !is_symlink && within_storage && ".jsonl"@.is_suffix_of(path@),
{
}

/// The conversation that is found has the identifier that was asked for, and is found if any has.
pub proof fn law_conversations_are_found_by_their_identifier(
    ids: &Vec<String>,
    id: &str,
    r: Option<usize>,
    i: int,
)
    requires
        call_ensures(find_session, (ids, id), r),
        0 <= i < ids@.len(),
    ensures
        r matches Some(at) ==> at < ids@.len() && ids@[at as int]@ == id@ && (ids@[i]@ == id@ ==> i
            <= at),
        ids@[i]@ == id@ ==> r is Some,
{
    let all = text_views(ids@);
    assert(all.len() == ids@.len());
    assert(all[i] == ids@[i]@);
    if let Some(at) = r {
        assert(all[at as int] == ids@[at as int]@);
    }
    if ids@[i]@ == id@ {
        assert(all.contains(id@));
    }
}

/// A transcript begins with the title of the conversation and says its project, its model and when
/// it was last active, where these are known, and which conversation it is.
pub proof fn law_transcripts_say_what_they_are_of(
    session: &SessionHeader,
    scan: SessionScan,
    given: (&str, &str, &str, &str),
    title: String,
    id: String,
    project: String,
    model: String,
    r: Result<String, CodexxError>,
)
    requires
        scan.wf(),
        call_ensures(write_markdown, (session, scan), r),
        r is Ok,
        given.0@ == session.title@,
        given.1@ == session.id@,
        session.project is Some ==> given.2@ == session.project->0@,
        session.model is Some ==> given.3@ == session.model->0@,
        call_ensures(markdown_label, (given.0,), title),
        call_ensures(markdown_label, (given.1,), id),
        call_ensures(markdown_label, (given.2,), project),
        call_ensures(markdown_label, (given.3,), model),
    ensures
        ({
            let active = crate::sessions::export::last_activity(*session);
            let first = "# "@ + title@ + "\n\n"@;
            let second = if session.project is Some {
                "- 项目 / Project："@ + project@ + "\n"@
            } else {
                seq![]
            };
            let third = if session.model is Some {
                "- 模型 / Model："@ + model@ + "\n"@
            } else {
                seq![]
            };
            let fourth = if active is Some {
                "- 最近活动 / Last activity："@ + active->0 + "\n"@
            } else {
                seq![]
            };
            (first + second + third + fourth + "- 会话 / Session："@ + id@
                + "\n\n"@).is_prefix_of(r->Ok_0@)
        }),
{
    let whole = heading(*session);
    assert(r->Ok_0@.subrange(0, whole.len() as int) =~= whole);
}

/// How many outcomes are to be reported: all but those that were written whole.
pub open spec fn reported_count(outcomes: Seq<SessionOutcome>) -> nat
    decreases outcomes.len(),
{
    if outcomes.len() == 0 {
        0
    } else {
        reported_count(outcomes.drop_last()) + (if outcomes.last() is Written
            && outcomes.last()->malformed == 0 {
            0nat
        } else {
            1
        })
    }
}

proof fn lemma_reported_count(
    before: Seq<Seq<char>>,
    ids: Seq<Seq<char>>,
    outcomes: Seq<SessionOutcome>,
    count: nat,
)
    requires
        count <= outcomes.len(),
    ensures
        reported(before, ids, outcomes, count).len() == before.len() + reported_count(
            outcomes.take(count as int),
        ),
    decreases count,
{
    if count > 0 {
        lemma_reported_count(before, ids, outcomes, (count - 1) as nat);
        assert(outcomes.take(count as int).drop_last() =~= outcomes.take(count - 1));
        assert(outcomes.take(count as int).last() == outcomes[count - 1]);
    }
}

/// An export reports each conversation that is missing, that failed or of which some records could
/// not be read, once, and no other.
pub proof fn law_exports_report_what_is_incomplete(
    ids: &Vec<String>,
    outcomes: &Vec<SessionOutcome>,
    warnings: Vec<String>,
    r: Result<SessionExport, CodexxError>,
)
    requires
        ids@.len() == outcomes@.len(),
        call_ensures(export_codex_sessions_inner, (ids, outcomes, warnings), r),
        r is Ok,
    ensures
        r->Ok_0.warnings@.len() == warnings@.len() + reported_count(outcomes@),
{
    lemma_reported_count(text_views(warnings@), text_views(ids@), outcomes@, outcomes@.len());
    assert(outcomes@.take(outcomes@.len() as int) =~= outcomes@);
    assert(text_views(r->Ok_0.warnings@).len() == r->Ok_0.warnings@.len());
    assert(text_views(warnings@).len() == warnings@.len());
}

/// A title that is fit for a file stands whole in the name of the file; where there is none, a word
/// for a conversation stands there.
pub proof fn law_fit_titles_name_the_file(title: &str, index: usize, r: String)
    requires
        index < usize::MAX,
        call_ensures(filename, (title, index), r),
        title@.len() == 0 || (utf8(title@).len() <= 180 && !is_space(title@[0]) && !is_space(
            title@.last(),
        ) && title@[0] != '.' && title@.last() != '.' && forall|i: int|
            0 <= i < title@.len() ==> !crate::naming::is_forbidden(#[trigger] title@[i])),
    ensures
        r@.skip(number_length((index + 1) as nat) + 1) == (if title@.len() == 0 {
            "会话"@
        } else {
            title@
        }) + ".md"@,
{
    lemma_padding((index + 1) as nat);
    let s = title@;
    let shown = if s.len() == 0 {
        "会话"@
    } else {
        s
    };
    assert(crate::sessions::export::underscored(s) =~= s);
    crate::text::lemma_trimmed_end(s);
    assert(crate::naming::fitted(s, 180) == s);
    assert(crate::text::trimmed_start(s) == s);
    assert(trimmed_end(s) == s);
    assert(crate::naming::edge_start(s, false) == s);
    assert(crate::naming::edge_end(s, false) == s);
    let number = padded((index + 1) as nat);
    assert(r@ == number + seq!['-'] + shown + ".md"@);
    assert(r@.skip(number.len() as int + 1) =~= shown + ".md"@);
}

} // verus!
