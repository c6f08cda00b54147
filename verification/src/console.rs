//! The console: what pages have written, and what of it is shown.

use std::collections::VecDeque;

use vstd::prelude::*;
use vstd::string::*;

use crate::text;
use crate::unicode;

verus! {

/// How many messages the console keeps.
pub const MAX_MESSAGES: usize = 500;

/// How grave a message is.
#[derive(Clone, Copy, Debug, PartialEq, Eq, Structural)]
pub enum ConsoleLogLevel {
    Log,
    Debug,
    Info,
    Warn,
    Error,
    Trace,
}

/// A message that a page has written.
#[derive(Debug)]
pub struct ConsoleMessage {
    pub level: ConsoleLogLevel,
    pub text: String,
}

/// The colour that a message is shown in.
#[derive(Clone, Copy, Debug, PartialEq, Eq, Structural)]
pub enum MessageColour {
    Red,
    Amber,
    Accent,
    Plain,
}

/// A level's name, as the filter finds it.
pub open spec fn level_name(l: ConsoleLogLevel) -> Seq<char> {
    match l {
        ConsoleLogLevel::Log => "log"@,
        ConsoleLogLevel::Debug => "debug"@,
        ConsoleLogLevel::Info => "info"@,
        ConsoleLogLevel::Warn => "warn"@,
        ConsoleLogLevel::Error => "error"@,
        ConsoleLogLevel::Trace => "trace"@,
    }
}

fn name_level(l: ConsoleLogLevel) -> (r: &'static str)
    ensures
        r@ == level_name(l),
{
    match l {
        ConsoleLogLevel::Log => "log",
        ConsoleLogLevel::Debug => "debug",
        ConsoleLogLevel::Info => "info",
        ConsoleLogLevel::Warn => "warn",
        ConsoleLogLevel::Error => "error",
        ConsoleLogLevel::Trace => "trace",
    }
}

/// The colour that a message is shown in.
pub fn message_colour(l: ConsoleLogLevel) -> (r: MessageColour)
    ensures
        r == match l {
            ConsoleLogLevel::Error => MessageColour::Red,
            ConsoleLogLevel::Warn => MessageColour::Amber,
            ConsoleLogLevel::Info => MessageColour::Accent,
            _ => MessageColour::Plain,
        },
{
    match l {
        ConsoleLogLevel::Error => MessageColour::Red,
        ConsoleLogLevel::Warn => MessageColour::Amber,
        ConsoleLogLevel::Info => MessageColour::Accent,
        _ => MessageColour::Plain,
    }
}

/// A message is shown: the filter is empty, or found in the level's name or in the text, whatever
/// the case.
pub open spec fn is_shown(m: ConsoleMessage, filter: Seq<char>) -> bool {
    let f = unicode::lowercase(filter);
    f.len() == 0 || text::has(level_name(m.level), f) || text::has(
        unicode::lowercase(m.text@),
        f,
    )
}

/// The messages with one more, and the oldest gone where there are too many.
pub open spec fn logged(m: Seq<ConsoleMessage>, x: ConsoleMessage) -> Seq<ConsoleMessage> {
    let all = m.push(x);
    if all.len() > MAX_MESSAGES {
        all.skip(all.len() - MAX_MESSAGES)
    } else {
        all
    }
}

/// The console keeps at most its limit, always the latest messages, the new one among them.
pub proof fn the_console_keeps_the_latest(m: Seq<ConsoleMessage>, x: ConsoleMessage)
    ensures
        logged(m, x).len() <= MAX_MESSAGES,
        logged(m, x).len() > 0,
        logged(m, x).last() == x,
{
}

/// The places of the messages that are shown.
pub open spec fn shown_places(m: Seq<ConsoleMessage>, filter: Seq<char>) -> Seq<int>
    decreases m.len(),
{
    if m.len() == 0 {
        Seq::empty()
    } else {
        let rest = shown_places(m.drop_last(), filter);
        if is_shown(m.last(), filter) {
            rest.push(m.len() - 1)
        } else {
            rest
        }
    }
}

/// What pages have written.
pub struct ConsoleLog {
    pub messages: VecDeque<ConsoleMessage>,
}

impl ConsoleLog {
    /// Nothing yet.
    pub fn new() -> (r: ConsoleLog)
        ensures
            r.messages@.len() == 0,
    {
        ConsoleLog { messages: VecDeque::new() }
    }

    /// A page has written a message.
    pub fn show_console_message(&mut self, level: ConsoleLogLevel, message: String)
        ensures
            final(self).messages@ == logged(
                old(self).messages@,
                (ConsoleMessage { level, text: message }),
            ),
    {
        let x: ConsoleMessage = ConsoleMessage { level, text: message };
        let ghost all = self.messages@.push(x);
        self.messages.push_back(x);
        let ghost mut n: int = 0;
        assert(all.skip(0) =~= all);
        while self.messages.len() > MAX_MESSAGES
            invariant
                0 <= n <= all.len(),
                self.messages@ == all.skip(n),
                n > 0 ==> all.len() - n >= MAX_MESSAGES,
            decreases self.messages@.len(),
        {
            let _ = self.messages.pop_front();
            assert(all.skip(n).skip(1) =~= all.skip(n + 1));
            assert(self.messages@ =~= all.skip(n + 1));
            proof {
                n = n + 1;
            }
        }
    }

    /// Forgets every message.
    pub fn clear(&mut self)
        ensures
            final(self).messages@.len() == 0,
    {
        self.messages.clear();
    }

    /// The places of the messages that are shown.
    pub fn shown(&self, filter: &str) -> (r: Vec<usize>)
        ensures
            Seq::new(r@.len(), |i: int| r@[i] as int) == shown_places(self.messages@, filter@),
    {
        let f: String = unicode::to_lowercase(filter);
        let ghost all = self.messages@;
        let mut out: Vec<usize> = Vec::new();
        let mut i: usize = 0;
        assert(Seq::new(out@.len(), |i: int| out@[i] as int) =~= shown_places(
            all.take(0),
            filter@,
        ));
        while i < self.messages.len()
            invariant
                i <= self.messages@.len(),
                all == self.messages@,
                f@ == unicode::lowercase(filter@),
                Seq::new(out@.len(), |i: int| out@[i] as int) == shown_places(
                    all.take(i as int),
                    filter@,
                ),
            decreases self.messages@.len() - i,
        {
            let ghost before = Seq::new(out@.len(), |i: int| out@[i] as int);
            assert(all.take(i + 1).drop_last() =~= all.take(i as int));
            assert(all.take(i + 1).last() == all[i as int]);
            let m: &ConsoleMessage = &self.messages[i];
            if f.as_str().unicode_len() == 0 || text::contains(name_level(m.level), f.as_str())
                || text::contains(unicode::to_lowercase(m.text.as_str()).as_str(), f.as_str()) {
                out.push(i);
                assert(Seq::new(out@.len(), |i: int| out@[i] as int) =~= before.push(i as int));
            }
            i = i + 1;
        }
        assert(all.take(self.messages@.len() as int) =~= all);
        out
    }
}

// ---------------------------------------------------------------------------
// Laws
// ---------------------------------------------------------------------------

/// A message is shown where the filter stands in its text, whatever the case, or in the name of its
/// level; without a filter every message is shown, and with one no other.
pub proof fn the_filter_finds_messages(m: Seq<ConsoleMessage>, x: ConsoleMessage, filter: Seq<char>)
    ensures
        unicode::lowercase(filter).len() == 0 || text::has(
            unicode::lowercase(x.text@),
            unicode::lowercase(filter),
        ) || text::has(level_name(x.level), unicode::lowercase(filter)) ==> shown_places(
            m.push(x),
            filter,
        ) == shown_places(m, filter).push(m.len() as int),
        unicode::lowercase(filter).len() > 0 && !text::has(
            unicode::lowercase(x.text@),
            unicode::lowercase(filter),
        ) && !text::has(level_name(x.level), unicode::lowercase(filter)) ==> shown_places(
            m.push(x),
            filter,
        ) == shown_places(m, filter),
        shown_places(Seq::empty(), filter).len() == 0,
{
    assert(m.push(x).drop_last() =~= m);
}

/// The console loses only the oldest messages, and only where it is full.
pub proof fn only_the_oldest_messages_go(m: Seq<ConsoleMessage>, x: ConsoleMessage)
    ensures
        m.len() < 500 ==> logged(m, x) == m.push(x),
        m.len() >= 500 ==> logged(m, x) == m.skip(m.len() - 499).push(x),
{
    if m.len() >= 500 {
        assert(logged(m, x) =~= m.skip(m.len() - 499).push(x));
    }
}

/// Each level goes by its own name.
pub proof fn levels_have_their_names()
    ensures
        level_name(ConsoleLogLevel::Error) == "error"@,
        level_name(ConsoleLogLevel::Warn) == "warn"@,
        level_name(ConsoleLogLevel::Info) == "info"@,
        level_name(ConsoleLogLevel::Log) == "log"@,
        level_name(ConsoleLogLevel::Debug) == "debug"@,
        level_name(ConsoleLogLevel::Trace) == "trace"@,
{
}

} // verus!
