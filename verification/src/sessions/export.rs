//! Conversations as Markdown.
use crate::clock::{rewrite_rfc3339, rfc3339, rfc3339_again, rfc3339_text_of_millis};
use crate::digest::{hex_of, hex_text, sha256, sha256_of};
use crate::error::{config, error_text, CodexxError, ErrorView};
use crate::naming::{
    char_is_forbidden, edges_off, fit, fitted, is_forbidden, lemma_edges_off, lemma_fitted,
    lemma_one_byte, lemma_part_bytes, lemma_utf8_concat, lemma_width, trim_edges, MAX_STEM_BYTES,
};
use crate::sessions::records::{
    shown_message, visible_message, Message, MessageRole, MessageView, Record,
};
use crate::text::{
    add_utf8, blank, char_is_control, chars_of, decimal, decimal_of, find_last, first_chars, is_blank,
    is_control, is_digit, join, joined3, joined_by, last_at, lemma_trimmed_part, lowered,
    opt_bytes, opt_view, pieces, same_bytes, same_text, split, strip_suffix, text_views, to_lower, trim,
    trim_end, trimmed, trimmed_end, utf8,
};
use vstd::hash_map::StringHashMap;
use vstd::prelude::*;

verus! {

/// The most different messages that one conversation may hold.
pub const MAX_MESSAGE_KEYS: usize = 250_000;

/// A role, as records spell it.
pub open spec fn role_name(role: MessageRole) -> Seq<char> {
    match role {
        MessageRole::User => "user"@,
        MessageRole::Assistant => "assistant"@,
    }
}

/// Lines without the white space at their ends, each with a break.
pub open spec fn key_lines(lines: Seq<Seq<char>>) -> Seq<u8>
    decreases lines.len(),
{
    if lines.len() == 0 {
        seq![]
    } else {
        key_lines(lines.drop_last()) + utf8(trimmed_end(lines.last())) + seq![10u8]
    }
}

/// What the key of a message is taken of: who wrote it and its lines, whatever their breaks and
/// trailing spaces are.
pub open spec fn key_input(role: MessageRole, body: Seq<char>) -> Seq<u8> {
    utf8(role_name(role)) + (if blank(body) {
        seq![]
    } else {
        key_lines(pieces(trimmed(body), '\n'))
    })
}

/// The key by which the two records of one message are recognised.
pub open spec fn key_of(message: MessageView) -> Seq<char> {
    hex_text(sha256(key_input(message.role, message.body)))
}

/// The key by which the two records of one message are recognised.
pub fn message_key(message: &Message) -> (r: Vec<u8>)
    ensures
        r@ == sha256(key_input(message.role, message.body@)),
        r@.len() == 32,
{
    let mut bytes: Vec<u8> = Vec::new();
    match message.role {
        MessageRole::User => add_utf8(&mut bytes, "user"),
        MessageRole::Assistant => add_utf8(&mut bytes, "assistant"),
    }
    let ghost head = bytes@;
    assert(head =~= utf8(role_name(message.role)));
    if !is_blank(&message.body) {
        let lines = split(&trim(&message.body), '\n');
        let ghost all = text_views(lines@);
        let mut i: usize = 0;
        assert(head + key_lines(all.take(0)) =~= head);
        while i < lines.len()
            invariant
                i <= lines@.len(),
                all == text_views(lines@),
                bytes@ == head + key_lines(all.take(i as int)),
            decreases lines@.len() - i,
        {
            assert(all.take(i + 1).drop_last() =~= all.take(i as int));
            assert(all[i as int] == lines@[i as int]@);
            add_utf8(&mut bytes, &trim_end(&lines[i]));
            bytes.push(10);
            assert(bytes@ =~= head + key_lines(all.take(i + 1)));
            i = i + 1;
        }
        assert(all.take(all.len() as int) =~= all);
    }
    assert(bytes@ =~= key_input(message.role, message.body@));
    sha256_of(bytes.as_slice())
}

/// How many of the messages are events with this key.
pub open spec fn events_with(messages: Seq<MessageView>, key: Seq<char>) -> nat
    decreases messages.len(),
{
    if messages.len() == 0 {
        0
    } else {
        events_with(messages.drop_last(), key) + (if messages.last().event && key_of(
            messages.last(),
        ) == key {
            1nat
        } else {
            0
        })
    }
}

/// How many of the messages are items of responses with this key.
pub open spec fn replies_with(messages: Seq<MessageView>, key: Seq<char>) -> nat
    decreases messages.len(),
{
    if messages.len() == 0 {
        0
    } else {
        replies_with(messages.drop_last(), key) + (if !messages.last().event && key_of(
            messages.last(),
        ) == key {
            1nat
        } else {
            0
        })
    }
}

/// The keys of the messages that are events.
pub open spec fn event_keys(messages: Seq<MessageView>) -> Set<Seq<char>>
    decreases messages.len(),
{
    if messages.len() == 0 {
        Set::empty()
    } else if messages.last().event {
        event_keys(messages.drop_last()).insert(key_of(messages.last()))
    } else {
        event_keys(messages.drop_last())
    }
}

/// Messages, as contracts speak of them.
pub open spec fn message_views(messages: Seq<Message>) -> Seq<MessageView> {
    messages.map_values(|message: Message| message@)
}

/// A line of a conversation's file: its record, if it holds one, and whether it holds anything.
#[derive(Debug)]
pub struct RecordLine {
    pub record: Option<Record>,
    pub has_content: bool,
}

/// What was read of a conversation, as contracts speak of it.
#[verifier::ext_equal]
pub ghost struct ScanView {
    pub messages: Seq<MessageView>,
    pub malformed: nat,
    /// Whether the conversation's identity was found.
    pub verified: bool,
}

/// What is known before anything was read.
pub open spec fn nothing_scanned() -> ScanView {
    ScanView { messages: seq![], malformed: 0, verified: false }
}

/// What is reported of a file of another conversation.
pub open spec fn other_session() -> Seq<char> {
    "会话文件与所选会话不一致，已停止导出"@
}

/// What is reported of a file that does not say which conversation it is of.
pub open spec fn unknown_session() -> Seq<char> {
    "会话文件缺少有效的身份记录，已停止导出"@
}

/// What reading one more line comes to.
pub open spec fn scanned_line(scan: ScanView, line: RecordLine, id: Seq<char>) -> Result<
    ScanView,
    Seq<char>,
> {
    match line.record {
        None => Ok(
            ScanView {
                malformed: scan.malformed + (if line.has_content {
                    1nat
                } else {
                    0
                }),
                ..scan
            },
        ),
        Some(record) => if record.kind@ == "session_meta"@ {
            if opt_view(record.payload.id) == Some(id) {
                Ok(ScanView { verified: true, ..scan })
            } else {
                Err(other_session())
            }
        } else {
            match shown_message(record) {
                None => Ok(scan),
                Some(message) => if !scan.verified {
                    Err(unknown_session())
                } else if message.event && event_keys(scan.messages).len() >= MAX_MESSAGE_KEYS {
                    Err("此会话消息过多，请拆分后导出"@)
                } else {
                    Ok(ScanView { messages: scan.messages.push(message), ..scan })
                },
            }
        },
    }
}

/// What reading some lines comes to.
pub open spec fn scanned(lines: Seq<RecordLine>, id: Seq<char>) -> Result<ScanView, Seq<char>>
    decreases lines.len(),
{
    if lines.len() == 0 {
        Ok(nothing_scanned())
    } else {
        match scanned(lines.drop_last(), id) {
            Err(error) => Err(error),
            Ok(scan) => scanned_line(scan, lines.last(), id),
        }
    }
}

/// What was read of a conversation.
pub struct SessionScan {
    messages: Vec<Message>,
    malformed: usize,
    verified_meta: bool,
    counts: StringHashMap<usize>,
}

impl View for SessionScan {
    type V = ScanView;

    closed spec fn view(&self) -> ScanView {
        ScanView {
            messages: message_views(self.messages@),
            malformed: self.malformed as nat,
            verified: self.verified_meta,
        }
    }
}

impl SessionScan {
    /// The counts are those of the events that were read.
    pub closed spec fn wf(self) -> bool {
        &&& self.counts@.dom() =~= event_keys(self@.messages)
        &&& forall|key: Seq<char>|
            #[trigger] self.counts@.contains_key(key) ==> self.counts@[key] == events_with(
                self@.messages,
                key,
            )
    }

    /// What is known before anything was read.
    pub fn new() -> (r: SessionScan)
        ensures
            r.wf(),
            r@ == nothing_scanned(),
    {
        let scan = SessionScan {
            messages: Vec::new(),
            malformed: 0,
            verified_meta: false,
            counts: StringHashMap::new(),
        };
        assert(scan@.messages =~= Seq::<MessageView>::empty());
        scan
    }

    /// Reads one more line.
    pub fn step(&mut self, line: &RecordLine, expected_id: &str) -> (r: Result<(), CodexxError>)
        requires
            old(self).wf(),
            old(self)@.malformed < usize::MAX,
        ensures
            final(self).wf(),
            match scanned_line(old(self)@, *line, expected_id@) {
                Ok(scan) => r is Ok && final(self)@ == scan,
                Err(message) => r matches Err(error) && error@ == ErrorView::Config(message)
                    && final(self)@ == old(self)@,
            },
    {
        let ghost before = self@;
        let record = match &line.record {
            Some(record) => record,
            None => {
                if line.has_content {
                    self.malformed = self.malformed + 1;
                }
                return Ok(());
            },
        };
        if same_text(&record.kind, "session_meta") {
            let matches = match &record.payload.id {
                Some(id) => same_text(id, expected_id),
                None => false,
            };
            if !matches {
                return Err(config("会话文件与所选会话不一致，已停止导出"));
            }
            self.verified_meta = true;
            return Ok(());
        }
        let message = match visible_message(record) {
            Some(message) => message,
            None => return Ok(()),
        };
        if !self.verified_meta {
            return Err(config("会话文件缺少有效的身份记录，已停止导出"));
        }
        let ghost said = message@;
        let ghost old_messages = self@.messages;
        if message.event {
            if self.counts.len() >= MAX_MESSAGE_KEYS {
                return Err(config("此会话消息过多，请拆分后导出"));
            }
            let key = hex_of(message_key(&message).as_slice());
            let ghost counted = key@;
            let earlier: usize = match self.counts.get(&key) {
                Some(count) => *count,
                None => 0,
            };
            let ghost old_list = self.messages@;
            self.messages.push(message);
            let length: usize = self.messages.len();
            proof {
                lemma_events_bound(old_messages, counted);
                assert(message_views(self.messages@) =~= old_messages.push(said));
                lemma_event_keys(old_messages, counted);
            }
            self.counts.insert(key, earlier + 1);
            proof {
                assert(self@.messages.drop_last() =~= old_messages);
                assert forall|other: Seq<char>| #[trigger]
                    self.counts@.contains_key(other) implies self.counts@[other] == events_with(
                    self@.messages,
                    other,
                ) by {}
            }
        } else {
            self.messages.push(message);
            proof {
                assert(message_views(self.messages@) =~= old_messages.push(said));
                assert(self@.messages.drop_last() =~= old_messages);
            }
        }
        Ok(())
    }

    /// Whether the conversation's identity was found.
    pub fn finish(&self) -> (r: Result<usize, CodexxError>)
        ensures
            if self@.verified {
                r is Ok && r->Ok_0 == self@.malformed
            } else {
                r matches Err(error) && error@ == ErrorView::Config(unknown_session())
            },
    {
        if self.verified_meta {
            Ok(self.malformed)
        } else {
            Err(config("会话文件缺少有效的身份记录，已停止导出"))
        }
    }
}

proof fn lemma_events_bound(messages: Seq<MessageView>, key: Seq<char>)
    ensures
        events_with(messages, key) <= messages.len(),
    decreases messages.len(),
{
    if messages.len() > 0 {
        lemma_events_bound(messages.drop_last(), key);
    }
}

/// A key is among the keys just when an event has it.
proof fn lemma_event_keys(messages: Seq<MessageView>, key: Seq<char>)
    ensures
        event_keys(messages).contains(key) == (events_with(messages, key) > 0),
        event_keys(messages).finite(),
    decreases messages.len(),
{
    if messages.len() > 0 {
        lemma_event_keys(messages.drop_last(), key);
    }
}

/// Reads the lines of a conversation's file. The first line that cannot belong to the conversation
/// stops it.
pub fn visit_records(lines: &Vec<RecordLine>, expected_id: &str) -> (r: Result<
    SessionScan,
    CodexxError,
>)
    ensures
        match scanned(lines@, expected_id@) {
            Err(message) => r matches Err(error) && error@ == ErrorView::Config(message),
            Ok(scan) => if scan.verified {
                r matches Ok(found) && found.wf() && found@ == scan
            } else {
                r matches Err(error) && error@ == ErrorView::Config(unknown_session())
            },
        },
{
    let mut scan = SessionScan::new();
    let mut i: usize = 0;
    assert(lines@.take(0) =~= Seq::<RecordLine>::empty());
    while i < lines.len()
        invariant
            i <= lines@.len(),
            scan.wf(),
            scan@.malformed <= i,
            scanned(lines@.take(i as int), expected_id@) == Ok::<ScanView, Seq<char>>(scan@),
        decreases lines@.len() - i,
    {
        assert(lines@.take(i + 1).drop_last() =~= lines@.take(i as int));
        match scan.step(&lines[i], expected_id) {
            Ok(_) => {},
            Err(error) => {
                proof {
                    lemma_scan_stops(lines@, expected_id@, i + 1);
                }
                return Err(error);
            },
        }
        i = i + 1;
    }
    assert(lines@.take(lines@.len() as int) =~= lines@);
    match scan.finish() {
        Ok(_) => Ok(scan),
        Err(error) => Err(error),
    }
}

/// Once reading was stopped, later lines change nothing.
proof fn lemma_scan_stops(lines: Seq<RecordLine>, id: Seq<char>, n: int)
    requires
        0 <= n <= lines.len(),
        scanned(lines.take(n), id) is Err,
    ensures
        scanned(lines, id) == scanned(lines.take(n), id),
    decreases lines.len() - n,
{
    if n < lines.len() {
        assert(lines.take(n + 1).drop_last() =~= lines.take(n));
        lemma_scan_stops(lines, id, n + 1);
    } else {
        assert(lines.take(n) =~= lines);
    }
}

/// What a character of a label is written as: a control character as a space, one that Markdown
/// gives a meaning with a backslash before it, an angle bracket by its name.
pub open spec fn escaped_char(c: char) -> Seq<char> {
    if is_control(c) {
        seq![' ']
    } else if c == '\\' || c == '*' || c == '_' || c == '`' || c == '[' || c == ']' {
        seq!['\\', c]
    } else if c == '<' {
        "&lt;"@
    } else if c == '>' {
        "&gt;"@
    } else {
        seq![c]
    }
}

/// A text as a label in Markdown.
pub open spec fn escaped(s: Seq<char>) -> Seq<char>
    decreases s.len(),
{
    if s.len() == 0 {
        seq![]
    } else {
        escaped(s.drop_last()) + escaped_char(s.last())
    }
}

/// A text as a label in Markdown.
pub fn markdown_label(value: &str) -> (r: String)
    ensures
        r@ == escaped(value@),
{
    let chars = chars_of(value);
    let mut out = String::new();
    let mut i: usize = 0;
    while i < chars.len()
        invariant
            i <= chars@.len(),
            chars@ == value@,
            out@ == escaped(value@.take(i as int)),
        decreases chars@.len() - i,
    {
        let c = chars[i];
        assert(value@.take(i + 1).drop_last() =~= value@.take(i as int));
        if char_is_control(c) {
            out.push(' ');
        } else if c == '\\' || c == '*' || c == '_' || c == '`' || c == '[' || c == ']' {
            out.push('\\');
            out.push(c);
        } else if c == '<' {
            out.append("&lt;");
        } else if c == '>' {
            out.append("&gt;");
        } else {
            out.push(c);
        }
        assert(out@ =~= escaped(value@.take(i + 1)));
        i = i + 1;
    }
    assert(value@.take(value@.len() as int) =~= value@);
    out
}

/// A label stays on its line and opens no tag: it holds no control character and no angle bracket.
pub proof fn law_label_is_one_plain_line(s: Seq<char>)
    ensures
        forall|i: int|
            0 <= i < escaped(s).len() ==> !is_control(#[trigger] escaped(s)[i]) && escaped(s)[i]
                != '<' && escaped(s)[i] != '>',
    decreases s.len(),
{
    if s.len() > 0 {
        law_label_is_one_plain_line(s.drop_last());
        reveal_strlit("&lt;");
        reveal_strlit("&gt;");
        let head = escaped(s.drop_last());
        let tail = escaped_char(s.last());
        assert forall|i: int| 0 <= i < escaped(s).len() implies !is_control(
            #[trigger] escaped(s)[i],
        ) && escaped(s)[i] != '<' && escaped(s)[i] != '>' by {
            if i < head.len() {
                assert(escaped(s)[i] == head[i]);
            } else {
                assert(escaped(s)[i] == tail[i - head.len()]);
            }
        }
    }
}

/// Whether a message stands in the transcript: every event does, and of the items of responses
/// with one key those that come after as many as there are events with that key.
pub open spec fn is_kept(messages: Seq<MessageView>, i: int) -> bool {
    messages[i].event || replies_with(messages.take(i), key_of(messages[i])) >= events_with(
        messages,
        key_of(messages[i]),
    )
}

/// What the transcript calls a role.
pub open spec fn role_title(role: MessageRole) -> Seq<char> {
    match role {
        MessageRole::User => "用户 / User"@,
        MessageRole::Assistant => "助手 / Assistant"@,
    }
}

/// A message in the transcript.
pub open spec fn block(message: MessageView) -> Seq<char> {
    let stated = match message.timestamp {
        Some(text) => rfc3339_again(text),
        None => None,
    };
    "---\n\n## "@ + role_title(message.role) + "\n\n"@ + (match stated {
        Some(at) => "*"@ + at + "*\n\n"@,
        None => seq![],
    }) + trimmed(message.body) + "\n\n"@
}

/// The transcript of the first messages.
pub open spec fn transcript(messages: Seq<MessageView>, count: nat) -> Seq<char>
    decreases count,
{
    if count == 0 {
        seq![]
    } else {
        let head = transcript(messages, (count - 1) as nat);
        if is_kept(messages, count - 1) {
            head + block(messages[count - 1])
        } else {
            head
        }
    }
}

/// How many of the first messages stand in the transcript.
pub open spec fn kept_count(messages: Seq<MessageView>, count: nat) -> nat
    decreases count,
{
    if count == 0 {
        0
    } else {
        kept_count(messages, (count - 1) as nat) + (if is_kept(messages, count - 1) {
            1nat
        } else {
            0
        })
    }
}

/// What is known of a conversation beside its messages.
#[derive(Debug)]
pub struct SessionHeader {
    pub id: String,
    pub title: String,
    /// The name of the project that it belongs to.
    pub project: Option<String>,
    pub model: Option<String>,
    pub updated_at_ms: Option<i64>,
}

/// A line of the heading, if there is anything to state.
pub open spec fn stated_line(label: Seq<char>, value: Option<Seq<char>>) -> Seq<char> {
    match value {
        Some(value) => label + value + "\n"@,
        None => seq![],
    }
}

/// A text as a label, if there is one.
pub open spec fn opt_escaped(value: Option<Seq<char>>) -> Option<Seq<char>> {
    match value {
        Some(value) => Some(escaped(value)),
        None => None,
    }
}

/// When a conversation was last active.
pub open spec fn last_activity(session: SessionHeader) -> Option<Seq<char>> {
    match session.updated_at_ms {
        Some(millis) => rfc3339(
            (millis as int / 1000) as i64,
            ((millis as int % 1000) * 1_000_000) as u32,
        ),
        None => None,
    }
}

/// The heading of a transcript.
pub open spec fn heading(session: SessionHeader) -> Seq<char> {
    "# "@ + escaped(session.title@) + "\n\n"@ + stated_line(
        "- 项目 / Project："@,
        opt_escaped(opt_view(session.project)),
    ) + stated_line("- 模型 / Model："@, opt_escaped(opt_view(session.model))) + stated_line(
        "- 最近活动 / Last activity："@,
        last_activity(session),
    ) + "- 会话 / Session："@ + escaped(session.id@) + "\n\n"@
}

/// The closing note on what could not be read.
pub open spec fn closing(malformed: nat) -> Seq<char> {
    if malformed == 0 {
        seq![]
    } else {
        "> 有 "@ + decimal(malformed) + " 条不完整或过大的记录未能导出。\n"@
    }
}

fn add_line(out: &mut String, label: &str, value: &Option<String>, plain: bool)
    ensures
        final(out)@ == old(out)@ + stated_line(
            label@,
            if plain {
                opt_view(*value)
            } else {
                opt_escaped(opt_view(*value))
            },
        ),
{
    if let Some(value) = value {
        out.append(label);
        if plain {
            out.append(value);
        } else {
            out.append(&markdown_label(value));
        }
        out.append("\n");
    }
    assert(out@ =~= old(out)@ + stated_line(
        label@,
        if plain {
            opt_view(*value)
        } else {
            opt_escaped(opt_view(*value))
        },
    ));
}

fn write_heading(session: &SessionHeader) -> (r: String)
    ensures
        r@ == heading(*session),
{
    let mut out = joined3("# ", &markdown_label(&session.title), "\n\n");
    add_line(&mut out, "- 项目 / Project：", &session.project, false);
    add_line(&mut out, "- 模型 / Model：", &session.model, false);
    let active: Option<String> = match session.updated_at_ms {
        Some(millis) => rfc3339_text_of_millis(millis),
        None => None,
    };
    add_line(&mut out, "- 最近活动 / Last activity：", &active, true);
    out.append("- 会话 / Session：");
    out.append(&markdown_label(&session.id));
    out.append("\n\n");
    assert(out@ =~= heading(*session));
    out
}

fn write_block(out: &mut String, message: &Message)
    ensures
        final(out)@ == old(out)@ + block(message@),
{
    out.append("---\n\n## ");
    match message.role {
        MessageRole::User => out.append("用户 / User"),
        MessageRole::Assistant => out.append("助手 / Assistant"),
    }
    out.append("\n\n");
    let stated: Option<String> = match &message.timestamp {
        Some(text) => rewrite_rfc3339(text),
        None => None,
    };
    if let Some(at) = &stated {
        out.append("*");
        out.append(at);
        out.append("*\n\n");
    }
    out.append(&trim(&message.body));
    out.append("\n\n");
    assert(out@ =~= old(out)@ + block(message@));
}

/// The transcript of a conversation. One without a message of the user or the assistant has none.
pub fn write_markdown(session: &SessionHeader, scan: SessionScan) -> (r: Result<String, CodexxError>)
    requires
        scan.wf(),
    ensures
        ({
            let messages = scan@.messages;
            if kept_count(messages, messages.len()) == 0 {
                r matches Err(error) && error@ == ErrorView::Config(
                    "此会话没有可导出的用户或助手消息"@,
                )
            } else {
                r matches Ok(text) && text@ == heading(*session) + transcript(
                    messages,
                    messages.len(),
                ) + closing(scan@.malformed)
            }
        }),
{
    let ghost all = scan@.messages;
    let malformed: usize = scan.malformed;
    let ghost counts = scan.counts@;
    let list = scan.messages;
    let mut remaining = scan.counts;
    let mut out = write_heading(session);
    let mut any: bool = false;
    let mut i: usize = 0;
    proof {
        assert forall|key: Seq<char>| #[trigger] remaining@.contains_key(key) implies remaining@[key]
            == events_with(all, key) by {}
        assert(all.take(0) =~= Seq::<MessageView>::empty());
        assert(out@ =~= heading(*session) + transcript(all, 0));
    }
    while i < list.len()
        invariant
            i <= list@.len(),
            all == message_views(list@),
            remaining@.dom() =~= event_keys(all),
            forall|key: Seq<char>| #[trigger]
                remaining@.contains_key(key) ==> remaining@[key] == left_of(
                    events_with(all, key),
                    replies_with(all.take(i as int), key),
                ),
            out@ == heading(*session) + transcript(all, i as nat),
            any == (kept_count(all, i as nat) > 0),
        decreases list@.len() - i,
    {
        let message = &list[i];
        let ghost said = all[i as int];
        assert(said == message@);
        let ghost key_text = key_of(said);
        proof {
            assert(all.take(i + 1).drop_last() =~= all.take(i as int));
            assert(all.take(i + 1).last() == said);
            lemma_event_keys(all, key_text);
        }
        let mut skipped: bool = false;
        if !message.event {
            let key = hex_of(message_key(message).as_slice());
            let left: usize = match remaining.get(&key) {
                Some(count) => *count,
                None => 0,
            };
            if left > 0 {
                remaining.insert(key, left - 1);
                skipped = true;
            }
        }
        assert(skipped == !is_kept(all, i as int));
        if !skipped {
            write_block(&mut out, message);
            any = true;
        }
        assert(out@ =~= heading(*session) + transcript(all, (i + 1) as nat));
        i = i + 1;
    }
    if !any {
        return Err(config("此会话没有可导出的用户或助手消息"));
    }
    if malformed > 0 {
        out.append("> 有 ");
        out.append(&decimal_of(malformed as u128));
        out.append(" 条不完整或过大的记录未能导出。\n");
    }
    assert(out@ =~= heading(*session) + transcript(all, all.len()) + closing(malformed as nat));
    Ok(out)
}

/// What is left of some things once others were taken away.
pub open spec fn left_of(count: nat, taken: nat) -> nat {
    if count > taken {
        (count - taken) as nat
    } else {
        0
    }
}

/// How many of the first messages stand in the transcript under one key.
pub open spec fn kept_with(messages: Seq<MessageView>, count: nat, key: Seq<char>) -> nat
    decreases count,
{
    if count == 0 {
        0
    } else {
        kept_with(messages, (count - 1) as nat, key) + (if is_kept(messages, count - 1) && key_of(
            messages[count - 1],
        ) == key {
            1nat
        } else {
            0
        })
    }
}

proof fn lemma_kept_with(messages: Seq<MessageView>, count: nat, key: Seq<char>)
    requires
        count <= messages.len(),
    ensures
        kept_with(messages, count, key) == events_with(messages.take(count as int), key) + left_of(
            replies_with(messages.take(count as int), key),
            events_with(messages, key),
        ),
    decreases count,
{
    if count > 0 {
        lemma_kept_with(messages, (count - 1) as nat, key);
        assert(messages.take(count as int).drop_last() =~= messages.take(count - 1));
    }
}

/// A message that was recorded both as an event and as an item of a response stands in the
/// transcript once, a turn that was taken again stands there again, and a message with only one of
/// the two records is not lost: of each message there are as many as of the more frequent of its
/// two kinds of record.
pub proof fn law_each_turn_shows_once(messages: Seq<MessageView>, key: Seq<char>)
    ensures
        kept_with(messages, messages.len(), key) == (if events_with(messages, key) >= replies_with(
            messages,
            key,
        ) {
            events_with(messages, key)
        } else {
            replies_with(messages, key)
        }),
{
    lemma_kept_with(messages, messages.len(), key);
    assert(messages.take(messages.len() as int) =~= messages);
}

/// A number of at least three digits.
pub open spec fn padded(n: nat) -> Seq<char> {
    if n < 10 {
        seq!['0', '0'] + decimal(n)
    } else if n < 100 {
        seq!['0'] + decimal(n)
    } else {
        decimal(n)
    }
}

/// A title with an underscore for each character that a file system refuses.
pub open spec fn underscored(s: Seq<char>) -> Seq<char> {
    s.map_values(
        |c: char|
            if is_forbidden(c) {
                '_'
            } else {
                c
            },
    )
}

/// The part of a title that a file name takes over.
pub open spec fn title_stem(title: Seq<char>) -> Seq<char> {
    edges_off(trimmed(fitted(underscored(title), MAX_STEM_BYTES as nat)), false)
}

/// The name of a conversation's file in an archive.
pub open spec fn member_name(title: Seq<char>, index: nat) -> Seq<char> {
    let stem = title_stem(title);
    padded(index + 1) + seq!['-'] + (if stem.len() == 0 {
        "会话"@
    } else {
        stem
    }) + ".md"@
}

/// The name of a conversation's file in an archive.
pub fn filename(title: &str, index: usize) -> (r: String)
    requires
        index < usize::MAX,
    ensures
        r@ == member_name(title@, index as nat),
{
    let chars = chars_of(title);
    let mut cleaned: Vec<char> = Vec::new();
    let mut i: usize = 0;
    let ghost whole = underscored(title@);
    while i < chars.len()
        invariant
            i <= chars@.len(),
            chars@ == title@,
            whole == underscored(title@),
            cleaned@ == whole.take(i as int),
        decreases chars@.len() - i,
    {
        let c = chars[i];
        cleaned.push(
            if char_is_forbidden(c) {
                '_'
            } else {
                c
            },
        );
        assert(cleaned@ =~= whole.take(i + 1));
        i = i + 1;
    }
    assert(whole.take(whole.len() as int) =~= whole);
    let fitting = fit(&cleaned, MAX_STEM_BYTES);
    let text = text_of(&fitting);
    let stem = trim_edges(&chars_of(&trim(&text)), false);
    let number: usize = index + 1;
    let mut out = String::new();
    if number < 100 {
        out.push('0');
    }
    if number < 10 {
        out.push('0');
    }
    out.append(&decimal_of(number as u128));
    out.push('-');
    let count: usize = chars_of(&stem).len();
    if count == 0 {
        out.append("会话");
    } else {
        out.append(&stem);
    }
    out.append(".md");
    assert(out@ =~= member_name(title@, index as nat));
    out
}

fn text_of(chars: &Vec<char>) -> (r: String)
    ensures
        r@ == chars@,
{
    let mut out = String::new();
    let mut i: usize = 0;
    while i < chars.len()
        invariant
            i <= chars@.len(),
            out@ == chars@.take(i as int),
        decreases chars@.len() - i,
    {
        out.push(chars[i]);
        assert(out@ =~= chars@.take(i + 1));
        i = i + 1;
    }
    assert(chars@.take(chars@.len() as int) =~= chars@);
    out
}

/// The number that digits stand for.
spec fn value(digits: Seq<char>) -> int
    decreases digits.len(),
{
    if digits.len() == 0 {
        0
    } else {
        10 * value(digits.drop_last()) + (digits.last() as int - 48)
    }
}

proof fn lemma_value_of_decimal(n: nat)
    ensures
        value(decimal(n)) == n,
        decimal(n).len() > 0,
        forall|i: int| 0 <= i < decimal(n).len() ==> is_digit(#[trigger] decimal(n)[i]),
    decreases n,
{
    reveal_with_fuel(value, 2);
    if n >= 10 {
        lemma_value_of_decimal(n / 10);
        assert(decimal(n).drop_last() =~= decimal(n / 10));
    } else {
        assert(decimal(n).drop_last() =~= Seq::<char>::empty());
    }
    assert(decimal(n).last() as int == 48 + n % 10);
    assert forall|i: int| 0 <= i < decimal(n).len() implies is_digit(#[trigger] decimal(n)[i]) by {
        if i < decimal(n).len() - 1 {
            assert(decimal(n)[i] == decimal(n / 10)[i]);
        }
    }
}

proof fn lemma_value_of_zero(digits: Seq<char>)
    ensures
        value(seq!['0'] + digits) == value(digits),
    decreases digits.len(),
{
    reveal_with_fuel(value, 2);
    let longer = seq!['0'] + digits;
    if digits.len() == 0 {
        assert(longer.drop_last() =~= Seq::<char>::empty());
    } else {
        assert(longer.drop_last() =~= seq!['0'] + digits.drop_last());
        lemma_value_of_zero(digits.drop_last());
    }
}

proof fn lemma_padded(n: nat)
    ensures
        value(padded(n)) == n,
        padded(n).len() > 0,
        forall|i: int| 0 <= i < padded(n).len() ==> is_digit(#[trigger] padded(n)[i]),
{
    lemma_value_of_decimal(n);
    lemma_value_of_zero(decimal(n));
    lemma_value_of_zero(seq!['0'] + decimal(n));
    assert(seq!['0', '0'] + decimal(n) =~= seq!['0'] + (seq!['0'] + decimal(n)));
}

/// No two files of an archive have the same name, whatever their titles are.
pub proof fn law_member_names_differ(
    title: Seq<char>,
    index: nat,
    other_title: Seq<char>,
    other_index: nat,
)
    requires
        index != other_index,
    ensures
        member_name(title, index) != member_name(other_title, other_index),
{
    let name = member_name(title, index);
    let other = member_name(other_title, other_index);
    let number = padded(index + 1);
    let other_number = padded(other_index + 1);
    lemma_padded(index + 1);
    lemma_padded(other_index + 1);
    assert(name[number.len() as int] == '-');
    assert(other[other_number.len() as int] == '-');
    assert(forall|i: int| 0 <= i < number.len() ==> name[i] == number[i]);
    assert(forall|i: int| 0 <= i < other_number.len() ==> other[i] == other_number[i]);
    if name == other {
        if number.len() < other_number.len() {
            assert(is_digit(other_number[number.len() as int]));
        } else if other_number.len() < number.len() {
            assert(is_digit(number[other_number.len() as int]));
        } else {
            assert(number =~= other_number);
        }
    }
}

proof fn lemma_fallback_bytes()
    ensures
        utf8("会话"@).len() <= 8,
{
    reveal_strlit("会话");
    assert("会话"@ =~= seq!['会'] + seq!['话']);
    lemma_utf8_concat(seq!['会'], seq!['话']);
    lemma_width('会');
    lemma_width('话');
}

proof fn lemma_extension_bytes()
    ensures
        utf8(".md"@).len() == 3,
{
    reveal_strlit(".md");
    assert(".md"@ =~= seq!['.'] + seq!['m'] + seq!['d']);
    lemma_utf8_concat(seq!['.'] + seq!['m'], seq!['d']);
    lemma_utf8_concat(seq!['.'], seq!['m']);
    lemma_one_byte('.');
    lemma_one_byte('m');
    lemma_one_byte('d');
}

proof fn lemma_stem_bytes(title: Seq<char>)
    ensures
        utf8(title_stem(title)).len() <= MAX_STEM_BYTES,
{
    let fitting = fitted(underscored(title), MAX_STEM_BYTES as nat);
    lemma_fitted(underscored(title), MAX_STEM_BYTES as nat);
    let part = lemma_trimmed_part(fitting);
    lemma_part_bytes(fitting, part.0, part.1);
    lemma_edges_off(trimmed(fitting), false);
}

/// The name of a file in an archive takes no more than 184 bytes beside its number.
pub proof fn law_member_name_fits(title: Seq<char>, index: nat)
    ensures
        utf8(member_name(title, index)).len() <= utf8(padded(index + 1)).len() + MAX_STEM_BYTES + 4,
{
    lemma_stem_bytes(title);
    lemma_fallback_bytes();
    lemma_extension_bytes();
    lemma_one_byte('-');
    let stem = title_stem(title);
    let used = if stem.len() == 0 {
        "会话"@
    } else {
        stem
    };
    let number = padded(index + 1);
    lemma_utf8_concat(number + seq!['-'] + used, ".md"@);
    lemma_utf8_concat(number + seq!['-'], used);
    lemma_utf8_concat(number, seq!['-']);
}

/// The name of a file in an archive leads out of no folder and holds no character that a file
/// system refuses.
pub proof fn law_member_name_is_permitted(title: Seq<char>, index: nat)
    ensures
        forall|i: int|
            0 <= i < member_name(title, index).len() ==> !is_forbidden(
                #[trigger] member_name(title, index)[i],
            ),
{
    let fitting = fitted(underscored(title), MAX_STEM_BYTES as nat);
    lemma_fitted(underscored(title), MAX_STEM_BYTES as nat);
    let part = lemma_trimmed_part(fitting);
    let inner = trimmed(fitting);
    lemma_edges_off(inner, false);
    let stem = title_stem(title);
    let (a, b) = choose|a: int, b: int|
        0 <= a <= b <= inner.len() && edges_off(inner, false) == #[trigger] inner.subrange(a, b);
    assert forall|i: int| 0 <= i < stem.len() implies !is_forbidden(#[trigger] stem[i]) by {
        assert(stem[i] == underscored(title)[part.0 + a + i]);
    }
    lemma_padded(index + 1);
    let number = padded(index + 1);
    let name = member_name(title, index);
    reveal_strlit("会话");
    reveal_strlit(".md");
    let used = if stem.len() == 0 {
        "会话"@
    } else {
        stem
    };
    assert forall|i: int| 0 <= i < name.len() implies !is_forbidden(#[trigger] name[i]) by {
        if i < number.len() {
            assert(name[i] == number[i]);
        } else if i == number.len() {
        } else if i < number.len() + 1 + used.len() {
            assert(name[i] == used[i - number.len() - 1]);
        } else {
            assert(name[i] == ".md"@[i - number.len() - 1 - used.len()]);
        }
    }
}

/// The conversations to export: each that was chosen, once.
pub open spec fn chosen(ids: Seq<Seq<char>>) -> Seq<Seq<char>>
    decreases ids.len(),
{
    if ids.len() == 0 {
        seq![]
    } else {
        let head = chosen(ids.drop_last());
        if blank(ids.last()) || head.contains(ids.last()) {
            head
        } else {
            head.push(ids.last())
        }
    }
}

/// The conversations to export: each that was chosen, once. There has to be one.
pub fn chosen_sessions(session_ids: &Vec<String>) -> (r: Result<Vec<String>, CodexxError>)
    ensures
        if chosen(text_views(session_ids@)).len() == 0 {
            r matches Err(error) && error@ == ErrorView::Config("请先选择要导出的会话"@)
        } else {
            r matches Ok(ids) && text_views(ids@) == chosen(text_views(session_ids@))
        },
{
    let mut ids: Vec<String> = Vec::new();
    let mut i: usize = 0;
    let ghost all = text_views(session_ids@);
    assert(text_views(ids@) =~= chosen(all.take(0)));
    while i < session_ids.len()
        invariant
            i <= session_ids@.len(),
            all == text_views(session_ids@),
            text_views(ids@) == chosen(all.take(i as int)),
        decreases session_ids@.len() - i,
    {
        let id = &session_ids[i];
        assert(all.take(i + 1).drop_last() =~= all.take(i as int));
        assert(all.take(i + 1).last() == id@);
        if !is_blank(id) && !listed(&ids, id) {
            let ghost before = ids@;
            ids.push(id.clone());
            assert(text_views(ids@) =~= text_views(before).push(id@));
        }
        i = i + 1;
    }
    assert(all.take(all.len() as int) =~= all);
    if ids.len() == 0 {
        return Err(config("请先选择要导出的会话"));
    }
    Ok(ids)
}

fn listed(texts: &Vec<String>, text: &str) -> (r: bool)
    ensures
        r == text_views(texts@).contains(text@),
{
    let mut i: usize = 0;
    while i < texts.len()
        invariant
            i <= texts@.len(),
            forall|j: int| 0 <= j < i ==> (#[trigger] texts@[j])@ != text@,
        decreases texts@.len() - i,
    {
        if same_text(&texts[i], text) {
            assert(text_views(texts@)[i as int] == text@);
            return true;
        }
        i = i + 1;
    }
    assert forall|j: int| 0 <= j < texts@.len() implies text_views(texts@)[j] != text@ by {
        assert(text_views(texts@)[j] == texts@[j]@);
    }
    false
}

/// No conversation is exported twice, none is blank, and every other one that was chosen is there.
pub proof fn law_chosen_once(ids: Seq<Seq<char>>)
    ensures
        chosen(ids).no_duplicates(),
        forall|i: int| 0 <= i < chosen(ids).len() ==> !blank(#[trigger] chosen(ids)[i]),
        forall|id: Seq<char>| #[trigger]
            chosen(ids).contains(id) == (ids.contains(id) && !blank(id)),
    decreases ids.len(),
{
    if ids.len() > 0 {
        let shorter = ids.drop_last();
        let head = chosen(shorter);
        law_chosen_once(shorter);
        assert forall|id: Seq<char>| #[trigger] chosen(ids).contains(id) == (ids.contains(id)
            && !blank(id)) by {
            assert(ids.contains(id) == (shorter.contains(id) || ids.last() == id)) by {
                if ids.contains(id) && ids.last() != id {
                    let k = ids.index_of(id);
                    assert(shorter[k] == id);
                }
                if shorter.contains(id) {
                    let k = shorter.index_of(id);
                    assert(ids[k] == id);
                }
                if ids.last() == id {
                    assert(ids[ids.len() - 1] == id);
                }
            }
            assert(head.contains(id) == (shorter.contains(id) && !blank(id)));
            if !(blank(ids.last()) || head.contains(ids.last())) {
                assert(chosen(ids) == head.push(ids.last()));
                if head.contains(id) {
                    let k = head.index_of(id);
                    assert(chosen(ids)[k] == id);
                }
                if id == ids.last() {
                    assert(chosen(ids)[head.len() as int] == id);
                }
            }
        }
    }
}

/// The place that was chosen for an export.
pub struct DestinationFacts {
    pub absolute: bool,
    pub extension: Option<String>,
    /// Whether the folder exists.
    pub parent_exists: bool,
    /// Whether the folder belongs to the data of Codex.
    pub inside_codex: bool,
    pub has_file_name: bool,
}

/// The extension of an export: one conversation is a file, more are an archive.
pub open spec fn export_extension(count: nat) -> Seq<char> {
    if count == 1 {
        "md"@
    } else {
        "zip"@
    }
}

/// Whether an export of so many conversations can be saved there.
pub fn check_destination(count: usize, facts: &DestinationFacts) -> (r: Result<(), CodexxError>)
    ensures
        ({
            let extension = export_extension(count as nat);
            if !facts.absolute || !(facts.extension matches Some(found) && lowered(found@)
                == lowered(extension)) {
                r matches Err(error) && error@ == ErrorView::Config(
                    "请选择 ."@ + extension + " 文件作为导出位置"@,
                )
            } else if !facts.parent_exists {
                r matches Err(error) && error@ == ErrorView::Config("导出文件夹不存在"@)
            } else if facts.inside_codex {
                r matches Err(error) && error@ == ErrorView::Config(
                    "请选择 Codex 数据目录之外的位置保存导出文件"@,
                )
            } else if !facts.has_file_name {
                r matches Err(error) && error@ == ErrorView::Config("请选择导出文件名"@)
            } else {
                r is Ok
            }
        }),
{
    let extension = if count == 1 {
        "md"
    } else {
        "zip"
    };
    let fits = match &facts.extension {
        Some(found) => same_text(&to_lower(found), &to_lower(extension)),
        None => false,
    };
    if !facts.absolute || !fits {
        return Err(
            CodexxError::Config(joined3("请选择 .", extension, " 文件作为导出位置")),
        );
    }
    if !facts.parent_exists {
        return Err(config("导出文件夹不存在"));
    }
    if facts.inside_codex {
        return Err(config("请选择 Codex 数据目录之外的位置保存导出文件"));
    }
    if !facts.has_file_name {
        return Err(config("请选择导出文件名"));
    }
    Ok(())
}

/// What stands at the chosen place.
#[derive(Clone, Copy, Debug, PartialEq, Eq, Structural)]
pub enum DestinationKind {
    Missing,
    File,
    Other,
}

/// By what the file at the chosen place is recognised again; its contents are given where there is
/// one.
pub fn destination_snapshot(kind: DestinationKind, contents: &[u8]) -> (r: Result<
    Option<Vec<u8>>,
    CodexxError,
>)
    ensures
        match kind {
            DestinationKind::Missing => r matches Ok(found) && found is None,
            DestinationKind::Other => r matches Err(error) && error@ == ErrorView::Config(
                "请选择普通文件作为导出位置"@,
            ),
            DestinationKind::File => r matches Ok(found) && found is Some && found->0@ == sha256(
                contents@,
            ),
        },
{
    match kind {
        DestinationKind::Missing => Ok(None),
        DestinationKind::Other => Err(config("请选择普通文件作为导出位置")),
        DestinationKind::File => Ok(Some(sha256_of(contents))),
    }
}

/// Whether the file at the chosen place is still the one that was seen.
pub fn confirm_destination(before: &Option<Vec<u8>>, now: &Option<Vec<u8>>) -> (r: Result<
    (),
    CodexxError,
>)
    ensures
        if opt_bytes(*before) == opt_bytes(*now) {
            r is Ok
        } else {
            r matches Err(error) && error@ == ErrorView::Config(
                "导出位置的文件已被其他程序修改，请重新导出"@,
            )
        },
{
    let same = match (before, now) {
        (None, None) => true,
        (Some(before), Some(now)) => same_bytes(before.as_slice(), now.as_slice()),
        _ => false,
    };
    if same {
        Ok(())
    } else {
        Err(config("导出位置的文件已被其他程序修改，请重新导出"))
    }
}

/// The path of a conversation's file, as it is recorded.
pub fn rollout_path(recorded: &Option<String>) -> (r: Result<String, CodexxError>)
    ensures
        match *recorded {
            Some(path) if !blank(path@) => r matches Ok(found) && found@ == path@,
            _ => r matches Err(error) && error@ == ErrorView::Config(
                "找不到此会话的聊天记录文件"@,
            ),
        },
{
    if let Some(path) = recorded {
        if !is_blank(path) {
            return Ok(path.clone());
        }
    }
    Err(config("找不到此会话的聊天记录文件"))
}

/// Whether a conversation may be read from a file: an ordinary one with the right extension, within
/// the place where conversations are kept once all links are followed.
pub fn safe_rollout_path(is_file: bool, is_symlink: bool, path: &str, within_storage: bool) -> (r:
    Result<(), CodexxError>)
    ensures
        if !is_file || is_symlink || !".jsonl"@.is_suffix_of(path@) {
            r matches Err(error) && error@ == ErrorView::Config("不支持此会话文件类型"@)
        } else if !within_storage {
            r matches Err(error) && error@ == ErrorView::Config(
                "会话文件路径不属于所选会话，已停止导出"@,
            )
        } else {
            r is Ok
        },
{
    if !is_file || is_symlink || strip_suffix(path, ".jsonl").is_none() {
        return Err(config("不支持此会话文件类型"));
    }
    if !within_storage {
        return Err(config("会话文件路径不属于所选会话，已停止导出"));
    }
    Ok(())
}

/// The conversation with an identifier: the last of those that are listed.
pub fn find_session(ids: &Vec<String>, id: &str) -> (r: Option<usize>)
    ensures
        match r {
            Some(i) => last_at(text_views(ids@), id@, i as int),
            None => !text_views(ids@).contains(id@),
        },
{
    find_last(ids, id)
}

/// What became of a conversation that was to be exported.
pub enum SessionOutcome {
    /// It is not listed any more.
    Missing,
    Written { title: String, malformed: usize },
    Failed { title: String, error: CodexxError },
}

/// The beginning of a text.
pub open spec fn beginning(s: Seq<char>, count: nat) -> Seq<char> {
    if s.len() <= count {
        s
    } else {
        s.take(count as int)
    }
}

/// What is reported of an outcome, if anything.
pub open spec fn outcome_warning(id: Seq<char>, outcome: SessionOutcome) -> Option<Seq<char>> {
    match outcome {
        SessionOutcome::Missing => Some(
            "会话 "@ + beginning(id, 8) + " 已不在当前会话列表中"@,
        ),
        SessionOutcome::Written { title, malformed } => if malformed == 0 {
            None
        } else {
            Some(
                "「"@ + beginning(title@, 60) + "」有 "@ + decimal(malformed as nat)
                    + " 条不完整或过大的记录未能导出"@,
            )
        },
        SessionOutcome::Failed { title, error } => Some(
            "「"@ + beginning(title@, 60) + "」导出失败："@ + error_text(error@),
        ),
    }
}

/// What is reported of the first outcomes, after what was reported before.
pub open spec fn reported(
    before: Seq<Seq<char>>,
    ids: Seq<Seq<char>>,
    outcomes: Seq<SessionOutcome>,
    count: nat,
) -> Seq<Seq<char>>
    decreases count,
{
    if count == 0 {
        before
    } else {
        let head = reported(before, ids, outcomes, (count - 1) as nat);
        match outcome_warning(ids[count - 1], outcomes[count - 1]) {
            Some(warning) => head.push(warning),
            None => head,
        }
    }
}

/// The titles of the conversations that were written.
pub open spec fn written_titles(outcomes: Seq<SessionOutcome>) -> Seq<Seq<char>>
    decreases outcomes.len(),
{
    if outcomes.len() == 0 {
        seq![]
    } else {
        let head = written_titles(outcomes.drop_last());
        match outcomes.last() {
            SessionOutcome::Written { title, .. } => head.push(title@),
            _ => head,
        }
    }
}

/// An export that is ready to be saved.
#[derive(Debug)]
pub struct SessionExport {
    /// The names in the archive, in the order of the conversations that were written; nothing
    /// where the export is a single file.
    pub members: Option<Vec<String>>,
    pub exported_sessions: usize,
    pub failed_sessions: usize,
    pub warnings: Vec<String>,
}

/// The names in an archive of conversations with these titles.
pub open spec fn member_names(titles: Seq<Seq<char>>) -> Seq<Seq<char>> {
    titles.map(|i: int, title: Seq<char>| member_name(title, i as nat))
}

fn warn_of(id: &str, outcome: &SessionOutcome) -> (r: Option<String>)
    ensures
        opt_view(r) == outcome_warning(id@, *outcome),
{
    match outcome {
        SessionOutcome::Missing => Some(
            joined3("会话 ", &first_chars(id, 8), " 已不在当前会话列表中"),
        ),
        SessionOutcome::Written { title, malformed } => {
            if *malformed == 0 {
                return None;
            }
            let mut text = joined3("「", &first_chars(title, 60), "」有 ");
            text.append(&decimal_of(*malformed as u128));
            text.append(" 条不完整或过大的记录未能导出");
            Some(text)
        },
        SessionOutcome::Failed { title, error } => {
            let mut text = joined3("「", &first_chars(title, 60), "」导出失败：");
            text.append(&error.text());
            Some(text)
        },
    }
}

proof fn lemma_titles_bound(outcomes: Seq<SessionOutcome>)
    ensures
        written_titles(outcomes).len() <= outcomes.len(),
    decreases outcomes.len(),
{
    if outcomes.len() > 0 {
        lemma_titles_bound(outcomes.drop_last());
    }
}

/// What is saved of the conversations that were to be exported. One that could not be written is
/// reported and takes no place in the archive; if none could, nothing is saved.
pub fn export_codex_sessions_inner(
    ids: &Vec<String>,
    outcomes: &Vec<SessionOutcome>,
    warnings: Vec<String>,
) -> (r: Result<SessionExport, CodexxError>)
    requires
        ids@.len() == outcomes@.len(),
    ensures
        ({
            let titles = written_titles(outcomes@);
            let messages = reported(
                text_views(warnings@),
                text_views(ids@),
                outcomes@,
                outcomes@.len(),
            );
            if titles.len() == 0 {
                r matches Err(error) && error@ == ErrorView::Config(
                    joined_by(messages, "；"@),
                )
            } else {
                r matches Ok(export) && export.exported_sessions == titles.len()
                    && export.failed_sessions == ids@.len() - titles.len() && text_views(
                    export.warnings@,
                ) == messages && (match export.members {
                    None => ids@.len() == 1,
                    Some(members) => ids@.len() != 1 && text_views(members@) == member_names(
                        titles,
                    ),
                })
            }
        }),
{
    let ghost before = text_views(warnings@);
    let ghost names = text_views(ids@);
    let mut warnings = warnings;
    let mut members: Vec<String> = Vec::new();
    let mut i: usize = 0;
    assert(text_views(members@) =~= member_names(written_titles(outcomes@.take(0))));
    while i < outcomes.len()
        invariant
            i <= outcomes@.len() == ids@.len(),
            names == text_views(ids@),
            text_views(warnings@) == reported(before, names, outcomes@, i as nat),
            text_views(members@) == member_names(written_titles(outcomes@.take(i as int))),
        decreases outcomes@.len() - i,
    {
        assert(outcomes@.take(i + 1).drop_last() =~= outcomes@.take(i as int));
        assert(names[i as int] == ids@[i as int]@);
        if let Some(warning) = warn_of(&ids[i], &outcomes[i]) {
            let ghost earlier = warnings@;
            warnings.push(warning);
            assert(text_views(warnings@) =~= text_views(earlier).push(warning@));
        }
        if let SessionOutcome::Written { title, .. } = &outcomes[i] {
            let ghost earlier = members@;
            let ghost titles = written_titles(outcomes@.take(i as int));
            proof {
                lemma_titles_bound(outcomes@.take(i as int));
                assert(text_views(earlier).len() == titles.len());
            }
            let name = filename(title, members.len());
            members.push(name);
            assert(text_views(members@) =~= text_views(earlier).push(name@));
            assert(text_views(members@) =~= member_names(titles.push(title@)));
        }
        i = i + 1;
    }
    assert(outcomes@.take(outcomes@.len() as int) =~= outcomes@);
    proof {
        lemma_titles_bound(outcomes@);
        assert(text_views(members@).len() == written_titles(outcomes@).len());
    }
    if members.len() == 0 {
        return Err(CodexxError::Config(join(&warnings, "；")));
    }
    let exported_sessions: usize = members.len();
    Ok(
        SessionExport {
            members: if ids.len() == 1 {
                None
            } else {
                Some(members)
            },
            exported_sessions,
            failed_sessions: ids.len() - exported_sessions,
            warnings,
        },
    )
}

} // verus!
