//! The log ring buffer that feeds the debug console.

use vstd::prelude::*;
use crate::table::{table_view, table_insert};
use crate::text::{chars_of, str_eq};

verus! {

/// How many entries the buffer keeps; the oldest go first.
pub const MAX_BUFFER_SIZE: usize = 5000;

#[derive(Debug, Clone, Copy, PartialEq, Eq, Structural)]
pub enum LogLevel {
    Error,
    Warn,
    Info,
    Debug,
    Trace,
}

pub open spec fn level_text(l: LogLevel) -> Seq<char> {
    match l {
        LogLevel::Error => "ERROR"@,
        LogLevel::Warn => "WARN"@,
        LogLevel::Info => "INFO"@,
        LogLevel::Debug => "DEBUG"@,
        LogLevel::Trace => "TRACE"@,
    }
}

impl LogLevel {
    pub fn as_str(&self) -> (r: &'static str)
        ensures
            r@ == level_text(*self),
    {
        match self {
            LogLevel::Error => "ERROR",
            LogLevel::Warn => "WARN",
            LogLevel::Info => "INFO",
            LogLevel::Debug => "DEBUG",
            LogLevel::Trace => "TRACE",
        }
    }
}

/// One captured log event.
#[derive(Debug)]
pub struct LogEntry {
    pub id: u64,
    /// Milliseconds since the Unix epoch.
    pub timestamp: i64,
    pub level: String,
    pub target: String,
    pub message: String,
    /// Structured fields other than the message, oldest entry first.
    pub fields: Vec<(String, String)>,
}

pub open spec fn same_pairs(a: Seq<(String, String)>, b: Seq<(String, String)>) -> bool {
    a.len() == b.len() && forall|i: int| 0 <= i < a.len() ==> (#[trigger] a[i]).0@ == b[i].0@ && a[i].1@ == b[i].1@
}

/// `b` holds what `a` holds.
pub open spec fn same_entry(a: LogEntry, b: LogEntry) -> bool {
    &&& a.id == b.id
    &&& a.timestamp == b.timestamp
    &&& a.level@ == b.level@
    &&& a.target@ == b.target@
    &&& a.message@ == b.message@
    &&& same_pairs(a.fields@, b.fields@)
}

pub open spec fn same_entries(a: Seq<LogEntry>, b: Seq<LogEntry>) -> bool {
    a.len() == b.len() && forall|i: int| 0 <= i < a.len() ==> same_entry(#[trigger] a[i], b[i])
}

fn copy_pairs(v: &Vec<(String, String)>) -> (r: Vec<(String, String)>)
    ensures
        same_pairs(v@, r@),
{
    let mut out: Vec<(String, String)> = Vec::new();
    let mut i: usize = 0;
    while i < v.len()
        invariant
            i <= v.len(),
            out@.len() == i,
            forall|j: int| 0 <= j < i ==> (#[trigger] v@[j]).0@ == out@[j].0@ && v@[j].1@ == out@[j].1@,
        decreases v.len() - i,
    {
        out.push((v[i].0.clone(), v[i].1.clone()));
        i = i + 1;
    }
    out
}

impl LogEntry {
    pub fn copy(&self) -> (r: LogEntry)
        ensures
            same_entry(*self, r),
    {
        LogEntry {
            id: self.id,
            timestamp: self.timestamp,
            level: self.level.clone(),
            target: self.target.clone(),
            message: self.message.clone(),
            fields: copy_pairs(&self.fields),
        }
    }
}

fn copy_entries(v: &Vec<LogEntry>) -> (r: Vec<LogEntry>)
    ensures
        same_entries(v@, r@),
{
    let mut out: Vec<LogEntry> = Vec::new();
    let mut i: usize = 0;
    while i < v.len()
        invariant
            i <= v.len(),
            out@.len() == i,
            forall|j: int| 0 <= j < i ==> same_entry(#[trigger] v@[j], out@[j]),
        decreases v.len() - i,
    {
        out.push(v[i].copy());
        i = i + 1;
    }
    out
}

/// The text of a debug-formatted value without its surrounding quote marks:
/// `s[a..b]`, where `a` skips the leading `"` and `b` stops before the
/// trailing ones.
pub open spec fn quotes_trimmed(s: Seq<char>, a: int, b: int) -> bool {
    &&& 0 <= a <= b <= s.len()
    &&& forall|j: int| 0 <= j < a ==> s[j] == '"'
    &&& a < s.len() ==> s[a] != '"'
    &&& forall|j: int| b <= j < s.len() ==> s[j] == '"'
    &&& a < b ==> s[b - 1] != '"'
}

/// Removes the leading and trailing `"` of `s`.
pub fn trim_quotes(s: &str) -> (r: String)
    ensures
        exists|a: int, b: int| quotes_trimmed(s@, a, b) && r@ == s@.subrange(a, b),
{
    let c = chars_of(s);
    let n = c.len();
    let mut a: usize = 0;
    while a < n && c[a] == '"'
        invariant
            a <= n,
            n == c@.len(),
            forall|j: int| 0 <= j < a ==> c@[j] == '"',
        decreases n - a,
    {
        a = a + 1;
    }
    let mut b: usize = n;
    while b > a && c[b - 1] == '"'
        invariant
            a <= b <= n,
            n == c@.len(),
            forall|j: int| b <= j < n ==> c@[j] == '"',
        decreases b,
    {
        b = b - 1;
    }
    assert(quotes_trimmed(s@, a as int, b as int));
    s.substring_char(a, b).to_string()
}

/// The message and fields gathered from one event.
pub struct FieldVisitor {
    pub message: Option<String>,
    pub fields: Vec<(String, String)>,
}

impl FieldVisitor {
    pub fn new() -> (r: Self)
        ensures
            r.message is None,
            r.fields@.len() == 0,
    {
        FieldVisitor { message: None, fields: Vec::new() }
    }

    /// Records a text field; the one named `message` becomes the message.
    pub fn record_str(&mut self, name: &str, value: &str)
        ensures
            name@ == "message"@ ==> text_or_empty(final(self).message) == value@ && final(self).message is Some,
            name@ == "message"@ ==> final(self).fields == old(self).fields,
            name@ != "message"@ ==> final(self).message == old(self).message,
            name@ != "message"@ ==> table_view(final(self).fields@) == table_view(old(self).fields@).insert(name@, value@),
    {
        if str_eq(name, "message") {
            self.message = Some(value.to_string());
        } else {
            table_insert(&mut self.fields, name.to_string(), value.to_string());
        }
    }

    /// Records a debug-formatted field; the message loses its quote marks.
    pub fn record_debug(&mut self, name: &str, formatted: &str)
        ensures
            name@ == "message"@ ==> final(self).message is Some,
            name@ == "message"@ ==> (exists|a: int, b: int|
                quotes_trimmed(formatted@, a, b) && text_or_empty(final(self).message) == formatted@.subrange(a, b)),
            name@ == "message"@ ==> final(self).fields == old(self).fields,
            name@ != "message"@ ==> final(self).message == old(self).message,
            name@ != "message"@ ==> table_view(final(self).fields@) == table_view(old(self).fields@).insert(name@, formatted@),
    {
        if str_eq(name, "message") {
            self.message = Some(trim_quotes(formatted));
        } else {
            table_insert(&mut self.fields, name.to_string(), formatted.to_string());
        }
    }

    /// Records a number or a flag, given as its text; never the message.
    pub fn record_value(&mut self, name: &str, text: &str)
        ensures
            final(self).message == old(self).message,
            table_view(final(self).fields@) == table_view(old(self).fields@).insert(name@, text@),
    {
        table_insert(&mut self.fields, name.to_string(), text.to_string());
    }
}

/// The debug-console state: whether capture is on, the next entry id and
/// the buffered entries, oldest first.
pub struct LogBridge {
    enabled: bool,
    next_id: u64,
    buffer: Vec<LogEntry>,
}

impl LogBridge {
    pub closed spec fn enabled_spec(&self) -> bool {
        self.enabled
    }

    pub closed spec fn next_id_spec(&self) -> u64 {
        self.next_id
    }

    pub closed spec fn entries(&self) -> Seq<LogEntry> {
        self.buffer@
    }

    pub open spec fn wf(&self) -> bool {
        self.entries().len() <= MAX_BUFFER_SIZE
    }

    pub fn new() -> (r: Self)
        ensures
            r.wf(),
            !r.enabled_spec(),
            r.next_id_spec() == 0,
            r.entries().len() == 0,
    {
        LogBridge { enabled: false, next_id: 0, buffer: Vec::new() }
    }

    /// Captures one event when capture is on and the event says something.
    /// The entry gets the next id; when the buffer is full its oldest entry
    /// goes. The stored entry is handed back for emission.
    pub fn record_event(&mut self, level: LogLevel, target: &str, visitor: FieldVisitor, timestamp: i64) -> (r: Option<LogEntry>)
        requires
            old(self).wf(),
        ensures
            final(self).wf(),
            final(self).enabled_spec() == old(self).enabled_spec(),
            (!old(self).enabled_spec() || (text_or_empty(visitor.message).len() == 0 && visitor.fields@.len() == 0))
                ==> r is None && final(self).entries() == old(self).entries() && final(self).next_id_spec() == old(self).next_id_spec(),
            r is Some ==> r->0.id == old(self).next_id_spec() && r->0.timestamp == timestamp && r->0.level@ == level_text(level)
                && r->0.target@ == target@ && r->0.message@ == text_or_empty(visitor.message)
                && same_pairs(r->0.fields@, visitor.fields@),
            r is Some ==> final(self).next_id_spec() == if old(self).next_id_spec() == u64::MAX { 0 } else { (old(self).next_id_spec() + 1) as u64 },
            r is Some ==> final(self).entries().len() > 0 && same_entry(final(self).entries().last(), r->0),
            r is Some && old(self).entries().len() < MAX_BUFFER_SIZE ==> final(self).entries().drop_last() == old(self).entries(),
            r is Some && old(self).entries().len() >= MAX_BUFFER_SIZE ==> final(self).entries().drop_last() == old(self).entries().drop_first(),
            old(self).enabled_spec() && (text_or_empty(visitor.message).len() > 0 || visitor.fields@.len() > 0) ==> r is Some,
    {
        if !self.enabled {
            return None;
        }
        let message = match visitor.message {
            Some(m) => m,
            None => String::new(),
        };
        if message.as_str().unicode_len() == 0 && visitor.fields.len() == 0 {
            return None;
        }
        let entry = LogEntry {
            id: self.next_id,
            timestamp,
            level: level.as_str().to_string(),
            target: target.to_string(),
            message,
            fields: visitor.fields,
        };
        self.next_id = if self.next_id == u64::MAX { 0 } else { self.next_id + 1 };
        if self.buffer.len() >= MAX_BUFFER_SIZE {
            self.buffer.remove(0);
        }
        let out = entry.copy();
        self.buffer.push(entry);
        proof {
            assert(self.buffer@.drop_last() =~= self.buffer@.subrange(0, self.buffer@.len() - 1));
        }
        Some(out)
    }
}

pub open spec fn text_or_empty(o: Option<String>) -> Seq<char> {
    match o {
        Some(s) => s@,
        None => Seq::empty(),
    }
}

/// Turns capture on and hands back the buffered entries, for emission.
pub fn enable_log_bridge(bridge: &mut LogBridge) -> (r: Vec<LogEntry>)
    requires
        old(bridge).wf(),
    ensures
        final(bridge).wf(),
        final(bridge).enabled_spec(),
        final(bridge).entries() == old(bridge).entries(),
        final(bridge).next_id_spec() == old(bridge).next_id_spec(),
        same_entries(old(bridge).entries(), r@),
{
    bridge.enabled = true;
    copy_entries(&bridge.buffer)
}

pub fn disable_log_bridge(bridge: &mut LogBridge)
    requires
        old(bridge).wf(),
    ensures
        final(bridge).wf(),
        !final(bridge).enabled_spec(),
        final(bridge).entries() == old(bridge).entries(),
        final(bridge).next_id_spec() == old(bridge).next_id_spec(),
{
    bridge.enabled = false;
}

pub fn is_log_bridge_enabled(bridge: &LogBridge) -> (r: bool)
    ensures
        r == bridge.enabled_spec(),
{
    bridge.enabled
}

/// A copy of the buffered entries, oldest first.
pub fn get_buffered_logs(bridge: &LogBridge) -> (r: Vec<LogEntry>)
    ensures
        same_entries(bridge.entries(), r@),
{
    copy_entries(&bridge.buffer)
}

pub fn clear_log_buffer(bridge: &mut LogBridge)
    requires
        old(bridge).wf(),
    ensures
        final(bridge).wf(),
        final(bridge).entries().len() == 0,
        final(bridge).enabled_spec() == old(bridge).enabled_spec(),
        final(bridge).next_id_spec() == old(bridge).next_id_spec(),
{
    bridge.buffer = Vec::new();
}

/// The tracing layer that feeds the debug console.
pub struct TauriLogBridgeLayer;

impl TauriLogBridgeLayer {
    pub fn new() -> (r: Self) {
        TauriLogBridgeLayer
    }
}

} // verus!
