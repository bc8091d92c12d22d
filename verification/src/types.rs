//! The normalized data model shared by every analyzer.
use vstd::prelude::*;
use crate::time::Timestamp;

verus! {

/// The coding tool a message was recorded by.
#[derive(Clone, Copy, Debug, PartialEq, Eq, Structural)]
pub enum Application {
    GeminiCli,
    QwenCode,
    CodexCli,
    Cline,
    RooCode,
    KiloCode,
    Copilot,
    AmazonQ,
    KiroCli,
    Warp,
    OpenCode,
    DroidCli,
}

/// Who wrote a message.
#[derive(Clone, Copy, Debug, PartialEq, Eq, Structural)]
pub enum MessageRole {
    User,
    Assistant,
}

/// Number of counters held by [`Stats`].
pub const NUM_FIELDS: usize = 33;

/// Index of the first of the five todo counters in [`Stats::field`].
pub const FIRST_TODO_FIELD: usize = 22;

/// Index of the last of the five todo counters in [`Stats::field`].
pub const LAST_TODO_FIELD: usize = 26;

/// Index of `tool_calls`, the one 32-bit counter, in [`Stats::field`].
pub const TOOL_CALLS_FIELD: usize = 6;

/// Per-message usage counters. Every counter starts at zero.
#[derive(Clone, Copy, Debug, PartialEq, Eq, Structural)]
pub struct Stats {
    pub input_tokens: u64,
    pub output_tokens: u64,
    pub reasoning_tokens: u64,
    pub cache_creation_tokens: u64,
    pub cache_read_tokens: u64,
    pub cached_tokens: u64,
    pub tool_calls: u32,
    pub terminal_commands: u64,
    pub file_searches: u64,
    pub file_content_searches: u64,
    pub files_read: u64,
    pub files_added: u64,
    pub files_edited: u64,
    pub files_deleted: u64,
    pub lines_read: u64,
    pub lines_added: u64,
    pub lines_edited: u64,
    pub lines_deleted: u64,
    pub bytes_read: u64,
    pub bytes_added: u64,
    pub bytes_edited: u64,
    pub bytes_deleted: u64,
    pub todos_created: u64,
    pub todos_completed: u64,
    pub todos_in_progress: u64,
    pub todo_writes: u64,
    pub todo_reads: u64,
    pub code_lines: u64,
    pub docs_lines: u64,
    pub data_lines: u64,
    pub media_lines: u64,
    pub config_lines: u64,
    pub other_lines: u64,
}

/// The largest value counter `i` can hold.
pub open spec fn field_bound(i: int) -> int {
    if i == TOOL_CALLS_FIELD as int { u32::MAX as int } else { u64::MAX as int }
}

/// Whether counter `i` is one of the todo counters, which user messages also contribute.
pub open spec fn is_todo_field(i: int) -> bool {
    FIRST_TODO_FIELD as int <= i <= LAST_TODO_FIELD as int
}

/// The all-zero counters, as a value.
pub open spec fn zero_stats() -> Stats {
    Stats {
        input_tokens: 0,
        output_tokens: 0,
        reasoning_tokens: 0,
        cache_creation_tokens: 0,
        cache_read_tokens: 0,
        cached_tokens: 0,
        tool_calls: 0,
        terminal_commands: 0,
        file_searches: 0,
        file_content_searches: 0,
        files_read: 0,
        files_added: 0,
        files_edited: 0,
        files_deleted: 0,
        lines_read: 0,
        lines_added: 0,
        lines_edited: 0,
        lines_deleted: 0,
        bytes_read: 0,
        bytes_added: 0,
        bytes_edited: 0,
        bytes_deleted: 0,
        todos_created: 0,
        todos_completed: 0,
        todos_in_progress: 0,
        todo_writes: 0,
        todo_reads: 0,
        code_lines: 0,
        docs_lines: 0,
        data_lines: 0,
        media_lines: 0,
        config_lines: 0,
        other_lines: 0,
    }
}

impl Stats {
    /// Counter `i` (in declaration order) as a mathematical integer.
    pub open spec fn field(self, i: int) -> int {
        if i == 0 { self.input_tokens as int }
        else if i == 1 { self.output_tokens as int }
        else if i == 2 { self.reasoning_tokens as int }
        else if i == 3 { self.cache_creation_tokens as int }
        else if i == 4 { self.cache_read_tokens as int }
        else if i == 5 { self.cached_tokens as int }
        else if i == 6 { self.tool_calls as int }
        else if i == 7 { self.terminal_commands as int }
        else if i == 8 { self.file_searches as int }
        else if i == 9 { self.file_content_searches as int }
        else if i == 10 { self.files_read as int }
        else if i == 11 { self.files_added as int }
        else if i == 12 { self.files_edited as int }
        else if i == 13 { self.files_deleted as int }
        else if i == 14 { self.lines_read as int }
        else if i == 15 { self.lines_added as int }
        else if i == 16 { self.lines_edited as int }
        else if i == 17 { self.lines_deleted as int }
        else if i == 18 { self.bytes_read as int }
        else if i == 19 { self.bytes_added as int }
        else if i == 20 { self.bytes_edited as int }
        else if i == 21 { self.bytes_deleted as int }
        else if i == 22 { self.todos_created as int }
        else if i == 23 { self.todos_completed as int }
        else if i == 24 { self.todos_in_progress as int }
        else if i == 25 { self.todo_writes as int }
        else if i == 26 { self.todo_reads as int }
        else if i == 27 { self.code_lines as int }
        else if i == 28 { self.docs_lines as int }
        else if i == 29 { self.data_lines as int }
        else if i == 30 { self.media_lines as int }
        else if i == 31 { self.config_lines as int }
        else if i == 32 { self.other_lines as int }
        else { 0 }
    }

    /// Counter `i` (in declaration order).
    pub fn field_value(&self, i: usize) -> (r: u64)
        requires
            i < NUM_FIELDS,
        ensures
            r as int == self.field(i as int),
    {
        if i == 0 {
            self.input_tokens
        } else if i == 1 {
            self.output_tokens
        } else if i == 2 {
            self.reasoning_tokens
        } else if i == 3 {
            self.cache_creation_tokens
        } else if i == 4 {
            self.cache_read_tokens
        } else if i == 5 {
            self.cached_tokens
        } else if i == 6 {
            self.tool_calls as u64
        } else if i == 7 {
            self.terminal_commands
        } else if i == 8 {
            self.file_searches
        } else if i == 9 {
            self.file_content_searches
        } else if i == 10 {
            self.files_read
        } else if i == 11 {
            self.files_added
        } else if i == 12 {
            self.files_edited
        } else if i == 13 {
            self.files_deleted
        } else if i == 14 {
            self.lines_read
        } else if i == 15 {
            self.lines_added
        } else if i == 16 {
            self.lines_edited
        } else if i == 17 {
            self.lines_deleted
        } else if i == 18 {
            self.bytes_read
        } else if i == 19 {
            self.bytes_added
        } else if i == 20 {
            self.bytes_edited
        } else if i == 21 {
            self.bytes_deleted
        } else if i == 22 {
            self.todos_created
        } else if i == 23 {
            self.todos_completed
        } else if i == 24 {
            self.todos_in_progress
        } else if i == 25 {
            self.todo_writes
        } else if i == 26 {
            self.todo_reads
        } else if i == 27 {
            self.code_lines
        } else if i == 28 {
            self.docs_lines
        } else if i == 29 {
            self.data_lines
        } else if i == 30 {
            self.media_lines
        } else if i == 31 {
            self.config_lines
        } else {
            self.other_lines
        }
    }

    /// All counters are zero.
    pub open spec fn is_zero(self) -> bool {
        forall|i: int| 0 <= i < NUM_FIELDS ==> #[trigger] self.field(i) == 0
    }

    /// The all-zero counters.
    pub fn zero() -> (s: Stats)
        ensures
            s.is_zero(),
            s == zero_stats(),
    {
        Stats {
            input_tokens: 0,
            output_tokens: 0,
            reasoning_tokens: 0,
            cache_creation_tokens: 0,
            cache_read_tokens: 0,
            cached_tokens: 0,
            tool_calls: 0,
            terminal_commands: 0,
            file_searches: 0,
            file_content_searches: 0,
            files_read: 0,
            files_added: 0,
            files_edited: 0,
            files_deleted: 0,
            lines_read: 0,
            lines_added: 0,
            lines_edited: 0,
            lines_deleted: 0,
            bytes_read: 0,
            bytes_added: 0,
            bytes_edited: 0,
            bytes_deleted: 0,
            todos_created: 0,
            todos_completed: 0,
            todos_in_progress: 0,
            todo_writes: 0,
            todo_reads: 0,
            code_lines: 0,
            docs_lines: 0,
            data_lines: 0,
            media_lines: 0,
            config_lines: 0,
            other_lines: 0,
        }
    }
}

/// One normalized message of a conversation with a coding tool. Its cost in currency is kept
/// beside it by the caller; every counter the library aggregates lives in `stats`.
#[derive(Clone, Debug)]
pub struct ConversationMessage {
    pub application: Application,
    pub date: Timestamp,
    pub project_hash: String,
    pub conversation_hash: String,
    pub local_hash: Option<String>,
    pub global_hash: String,
    pub model: Option<String>,
    pub stats: Stats,
    pub role: MessageRole,
    pub content: Option<String>,
}

/// How many AI messages of one day named one model.
#[derive(Clone, Debug)]
pub struct ModelCount {
    pub name: String,
    pub count: u32,
}

/// Everything recorded on one local calendar day. `date` is the day's number, counted in days
/// from 1970-01-01.
#[derive(Clone, Debug)]
pub struct DailyStats {
    pub date: i64,
    pub user_messages: u32,
    pub ai_messages: u32,
    pub conversations: u32,
    pub models: Vec<ModelCount>,
    pub stats: Stats,
    pub active_seconds: u64,
}

/// Everything one analyzer produced.
#[derive(Clone, Debug)]
pub struct AgenticCodingToolStats {
    pub daily_stats: Vec<DailyStats>,
    pub num_conversations: u64,
    pub messages: Vec<ConversationMessage>,
    pub analyzer_name: String,
}

/// The results of every analyzer that produced any.
#[derive(Clone, Debug)]
pub struct MultiAnalyzerStats {
    pub analyzer_stats: Vec<AgenticCodingToolStats>,
}

/// A message as the contracts see it: every text field as its characters.
pub ghost struct MessageView {
    pub application: Application,
    pub date: Timestamp,
    pub project_hash: Seq<char>,
    pub conversation_hash: Seq<char>,
    pub local_hash: Option<Seq<char>>,
    pub global_hash: Seq<char>,
    pub model: Option<Seq<char>>,
    pub stats: Stats,
    pub role: MessageRole,
    pub content: Option<Seq<char>>,
}

/// The characters of an optional string.
pub open spec fn opt_view(s: Option<String>) -> Option<Seq<char>> {
    match s {
        Some(t) => Some(t@),
        None => None,
    }
}

/// The characters of an optional string slice.
pub open spec fn opt_str_view(s: Option<&str>) -> Option<Seq<char>> {
    match s {
        Some(t) => Some(t@),
        None => None,
    }
}

/// A copy of an optional string.
pub fn copy_opt_string(s: &Option<String>) -> (r: Option<String>)
    ensures
        r == *s,
{
    match s {
        Some(t) => Some(t.clone()),
        None => None,
    }
}

impl ConversationMessage {
    /// A field-for-field copy of the message.
    pub fn duplicate(&self) -> (r: ConversationMessage)
        ensures
            r == *self,
    {
        ConversationMessage {
            application: self.application,
            date: self.date,
            project_hash: self.project_hash.clone(),
            conversation_hash: self.conversation_hash.clone(),
            local_hash: copy_opt_string(&self.local_hash),
            global_hash: self.global_hash.clone(),
            model: copy_opt_string(&self.model),
            stats: self.stats,
            role: self.role,
            content: copy_opt_string(&self.content),
        }
    }
}

impl View for ConversationMessage {
    type V = MessageView;

    open spec fn view(&self) -> MessageView {
        MessageView {
            application: self.application,
            date: self.date,
            project_hash: self.project_hash@,
            conversation_hash: self.conversation_hash@,
            local_hash: opt_view(self.local_hash),
            global_hash: self.global_hash@,
            model: opt_view(self.model),
            stats: self.stats,
            role: self.role,
            content: opt_view(self.content),
        }
    }
}

/// Token counts to be priced for `model`: the arguments of a total-cost lookup in the model
/// pricing table, which works in floating point and so is evaluated by the caller.
#[derive(Clone, Debug)]
pub struct CostQuery {
    pub model: String,
    pub input_tokens: u64,
    pub output_tokens: u64,
    pub cache_creation_tokens: u64,
    pub cache_read_tokens: u64,
}

/// A cost query as the contracts see it.
pub ghost struct CostQueryView {
    pub model: Seq<char>,
    pub input_tokens: u64,
    pub output_tokens: u64,
    pub cache_creation_tokens: u64,
    pub cache_read_tokens: u64,
}

impl View for CostQuery {
    type V = CostQueryView;

    open spec fn view(&self) -> CostQueryView {
        CostQueryView {
            model: self.model@,
            input_tokens: self.input_tokens,
            output_tokens: self.output_tokens,
            cache_creation_tokens: self.cache_creation_tokens,
            cache_read_tokens: self.cache_read_tokens,
        }
    }
}

/// A parsed message together with the usage its cost is computed from, if it has one.
#[derive(Clone, Debug)]
pub struct PricedMessage {
    pub message: ConversationMessage,
    pub usage: Option<CostQuery>,
}

/// A priced message as the contracts see it.
pub ghost struct PricedMessageView {
    pub message: MessageView,
    pub usage: Option<CostQueryView>,
}

impl View for PricedMessage {
    type V = PricedMessageView;

    open spec fn view(&self) -> PricedMessageView {
        PricedMessageView {
            message: self.message@,
            usage: match self.usage {
                Some(q) => Some(q@),
                None => None,
            },
        }
    }
}

/// What message stats `s` adds to counter `i` of a daily total: everything for an AI message,
/// only the todo counters for a user message.
pub open spec fn contribution(s: Stats, is_ai: bool, i: int) -> int {
    if is_ai || is_todo_field(i) { s.field(i) } else { 0 }
}

impl Stats {
    /// Adds what `other` contributes to a daily total (see [`contribution`]) into `self`.
    pub fn accumulate(&mut self, other: &Stats, is_ai: bool)
        requires
            forall|i: int|
                0 <= i < NUM_FIELDS ==> old(self).field(i) + contribution(*other, is_ai, i)
                    <= field_bound(i),
        ensures
            forall|i: int|
                0 <= i < NUM_FIELDS ==> #[trigger] final(self).field(i) == old(self).field(i)
                    + contribution(*other, is_ai, i),
    {
        proof {
            assert(old(self).field(0) + contribution(*other, is_ai, 0) <= field_bound(0));
            assert(old(self).field(1) + contribution(*other, is_ai, 1) <= field_bound(1));
            assert(old(self).field(2) + contribution(*other, is_ai, 2) <= field_bound(2));
            assert(old(self).field(3) + contribution(*other, is_ai, 3) <= field_bound(3));
            assert(old(self).field(4) + contribution(*other, is_ai, 4) <= field_bound(4));
            assert(old(self).field(5) + contribution(*other, is_ai, 5) <= field_bound(5));
            assert(old(self).field(6) + contribution(*other, is_ai, 6) <= field_bound(6));
            assert(old(self).field(7) + contribution(*other, is_ai, 7) <= field_bound(7));
            assert(old(self).field(8) + contribution(*other, is_ai, 8) <= field_bound(8));
            assert(old(self).field(9) + contribution(*other, is_ai, 9) <= field_bound(9));
            assert(old(self).field(10) + contribution(*other, is_ai, 10) <= field_bound(10));
            assert(old(self).field(11) + contribution(*other, is_ai, 11) <= field_bound(11));
            assert(old(self).field(12) + contribution(*other, is_ai, 12) <= field_bound(12));
            assert(old(self).field(13) + contribution(*other, is_ai, 13) <= field_bound(13));
            assert(old(self).field(14) + contribution(*other, is_ai, 14) <= field_bound(14));
            assert(old(self).field(15) + contribution(*other, is_ai, 15) <= field_bound(15));
            assert(old(self).field(16) + contribution(*other, is_ai, 16) <= field_bound(16));
            assert(old(self).field(17) + contribution(*other, is_ai, 17) <= field_bound(17));
            assert(old(self).field(18) + contribution(*other, is_ai, 18) <= field_bound(18));
            assert(old(self).field(19) + contribution(*other, is_ai, 19) <= field_bound(19));
            assert(old(self).field(20) + contribution(*other, is_ai, 20) <= field_bound(20));
            assert(old(self).field(21) + contribution(*other, is_ai, 21) <= field_bound(21));
            assert(old(self).field(22) + contribution(*other, is_ai, 22) <= field_bound(22));
            assert(old(self).field(23) + contribution(*other, is_ai, 23) <= field_bound(23));
            assert(old(self).field(24) + contribution(*other, is_ai, 24) <= field_bound(24));
            assert(old(self).field(25) + contribution(*other, is_ai, 25) <= field_bound(25));
            assert(old(self).field(26) + contribution(*other, is_ai, 26) <= field_bound(26));
            assert(old(self).field(27) + contribution(*other, is_ai, 27) <= field_bound(27));
            assert(old(self).field(28) + contribution(*other, is_ai, 28) <= field_bound(28));
            assert(old(self).field(29) + contribution(*other, is_ai, 29) <= field_bound(29));
            assert(old(self).field(30) + contribution(*other, is_ai, 30) <= field_bound(30));
            assert(old(self).field(31) + contribution(*other, is_ai, 31) <= field_bound(31));
            assert(old(self).field(32) + contribution(*other, is_ai, 32) <= field_bound(32));
        }
        if is_ai {
            self.input_tokens = self.input_tokens + other.input_tokens;
            self.output_tokens = self.output_tokens + other.output_tokens;
            self.reasoning_tokens = self.reasoning_tokens + other.reasoning_tokens;
            self.cache_creation_tokens = self.cache_creation_tokens + other.cache_creation_tokens;
            self.cache_read_tokens = self.cache_read_tokens + other.cache_read_tokens;
            self.cached_tokens = self.cached_tokens + other.cached_tokens;
            self.tool_calls = self.tool_calls + other.tool_calls;
            self.terminal_commands = self.terminal_commands + other.terminal_commands;
            self.file_searches = self.file_searches + other.file_searches;
            self.file_content_searches = self.file_content_searches + other.file_content_searches;
            self.files_read = self.files_read + other.files_read;
            self.files_added = self.files_added + other.files_added;
            self.files_edited = self.files_edited + other.files_edited;
            self.files_deleted = self.files_deleted + other.files_deleted;
            self.lines_read = self.lines_read + other.lines_read;
            self.lines_added = self.lines_added + other.lines_added;
            self.lines_edited = self.lines_edited + other.lines_edited;
            self.lines_deleted = self.lines_deleted + other.lines_deleted;
            self.bytes_read = self.bytes_read + other.bytes_read;
            self.bytes_added = self.bytes_added + other.bytes_added;
            self.bytes_edited = self.bytes_edited + other.bytes_edited;
            self.bytes_deleted = self.bytes_deleted + other.bytes_deleted;
            self.code_lines = self.code_lines + other.code_lines;
            self.docs_lines = self.docs_lines + other.docs_lines;
            self.data_lines = self.data_lines + other.data_lines;
            self.media_lines = self.media_lines + other.media_lines;
            self.config_lines = self.config_lines + other.config_lines;
            self.other_lines = self.other_lines + other.other_lines;
        }
        self.todos_created = self.todos_created + other.todos_created;
        self.todos_completed = self.todos_completed + other.todos_completed;
        self.todos_in_progress = self.todos_in_progress + other.todos_in_progress;
        self.todo_writes = self.todo_writes + other.todo_writes;
        self.todo_reads = self.todo_reads + other.todo_reads;
    }
}

} // verus!
