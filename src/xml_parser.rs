//! The XML export dialect: `Log`, `Message`, `From`/`To` > `User`, `Text`.
use vstd::prelude::*;
use crate::types::{
    ArchiveDetails, Attribute, Data, DataView, Event, FileType, Message, MessageView, Text, attribute_or, blank_view,
    data_views, int_opt, lookup_or,
};
use crate::path::{PathContext, ends_with};
use crate::text::str_eq;
use crate::chrono_glue::{
    clock_prefix_parsed, clock_text_parsed, clock_minutes_between, parse_clock_prefix, clock_from_text, minutes_between,
};

verus! {

/// The layout of the absolute time at the front of a `DateTime` attribute.
pub open spec fn utc_layout() -> Seq<char> {
    "%Y-%m-%dT%H:%M:%S"@
}

/// The offset in minutes of local time `time` from the absolute `datetime`:
/// present only when both parse as times of day.
pub open spec fn offset_of(datetime: Seq<char>, time: Seq<char>) -> Option<int> {
    match (clock_prefix_parsed(datetime, utc_layout()), clock_text_parsed(time)) {
        (Some(u), Some(l)) => Some(clock_minutes_between(l, u)),
        _ => None,
    }
}

/// What a start element named `name` with `attrs`, under ancestors `path`,
/// makes of record `m`.
pub open spec fn started(m: MessageView, path: Seq<Seq<char>>, name: Seq<char>, attrs: Seq<Attribute>) -> MessageView {
    if name == "Message"@ {
        let dt = lookup_or(attrs, "DateTime"@, ""@);
        MessageView {
            session_id: lookup_or(attrs, "SessionID"@, "0"@),
            datetime: dt,
            timezone_offset: offset_of(dt, lookup_or(attrs, "Time"@, ""@)),
            ..m
        }
    } else if name == "User"@ && path.contains("From"@) {
        MessageView { sender: lookup_or(attrs, "FriendlyName"@, ""@), ..m }
    } else if name == "User"@ && path.contains("To"@) {
        MessageView { receiver: lookup_or(attrs, "FriendlyName"@, ""@), ..m }
    } else if name == "Text"@ {
        MessageView {
            data: m.data.push(DataView::Text { style: lookup_or(attrs, "Style"@, ""@), content: Seq::empty() }),
            ..m
        }
    } else {
        m
    }
}

/// What character data `s` under ancestors `path` makes of record `m`:
/// directly inside `Message > Text` it becomes the content of the last text.
pub open spec fn filled(m: MessageView, path: Seq<Seq<char>>, s: Seq<char>) -> MessageView {
    if ends_with(path, seq!["Message"@, "Text"@]) && m.data.len() > 0 && m.data.last() is Text {
        MessageView {
            data: m.data.update(m.data.len() - 1, DataView::Text { style: m.data.last()->Text_style, content: s }),
            ..m
        }
    } else {
        m
    }
}

/// The parser's state as the contracts see it.
pub struct XmlView {
    pub recipient_id: Seq<char>,
    pub file_type: FileType,
    pub first_session_id: Seq<char>,
    pub last_session_id: Seq<char>,
    pub path: Seq<Seq<char>>,
    pub done: bool,
    pub message: MessageView,
}

/// One event: the next state, and the record it closes, if any. After the
/// end of the document nothing changes.
pub open spec fn step(st: XmlView, ev: Event) -> (XmlView, Option<MessageView>) {
    if st.done {
        (st, None)
    } else {
        match ev {
            Event::Start { name, attributes } => {
                let log = name@ == "Log"@;
                (XmlView {
                    first_session_id: if log {
                        lookup_or(attributes@, "FirstSessionID"@, "0"@)
                    } else {
                        st.first_session_id
                    },
                    last_session_id: if log {
                        lookup_or(attributes@, "LastSessionID"@, "0"@)
                    } else {
                        st.last_session_id
                    },
                    path: st.path.push(name@),
                    message: started(st.message, st.path, name@, attributes@),
                    ..st
                }, None)
            },
            Event::Characters(s) => (XmlView { message: filled(st.message, st.path, s@), ..st }, None),
            Event::End { name } => {
                let path = if st.path.len() > 0 { st.path.drop_last() } else { st.path };
                if name@ == "Message"@ {
                    (XmlView { path, message: blank_view(), ..st }, Some(st.message))
                } else {
                    (XmlView { path, ..st }, None)
                }
            },
            Event::EndDocument => (XmlView { done: true, ..st }, None),
            Event::Other => (st, None),
        }
    }
}

/// A run over `events`: the final state and the records closed on the way.
pub open spec fn run(st: XmlView, events: Seq<Event>) -> (XmlView, Seq<MessageView>)
    decreases events.len(),
{
    if events.len() == 0 {
        (st, Seq::empty())
    } else {
        let (next, out) = step(st, events[0]);
        let (last, rest) = run(next, events.skip(1));
        (last, match out {
            Some(m) => seq![m] + rest,
            None => rest,
        })
    }
}

/// Number of `Message` end events before the end of the document.
pub open spec fn message_ends(events: Seq<Event>) -> nat
    decreases events.len(),
{
    if events.len() == 0 {
        0
    } else {
        match events[0] {
            Event::EndDocument => 0,
            Event::End { name } => (if name@ == "Message"@ { 1nat } else { 0nat }) + message_ends(events.skip(1)),
            _ => message_ends(events.skip(1)),
        }
    }
}

pub open spec fn message_views(v: Seq<Message>) -> Seq<MessageView> {
    v.map_values(|m: Message| m@)
}

pub open spec fn opt_message_view(o: Option<Message>) -> Option<MessageView> {
    match o {
        Some(m) => Some(m@),
        None => None,
    }
}

/// A run closes one record for each `Message` end event before the end of
/// the document, and none once the document has ended.
pub proof fn lemma_one_record_per_message(st: XmlView, events: Seq<Event>)
    ensures
        run(st, events).1.len() == if st.done { 0 } else { message_ends(events) },
    decreases events.len(),
{
    if events.len() > 0 {
        lemma_one_record_per_message(step(st, events[0]).0, events.skip(1));
        if !st.done && events[0] is EndDocument {
            lemma_nothing_after_end(step(st, events[0]).0, events.skip(1));
        }
    }
}

/// Once the document has ended, further events change nothing and close no
/// record: the summary is frozen.
pub proof fn lemma_nothing_after_end(st: XmlView, events: Seq<Event>)
    requires
        st.done,
    ensures
        run(st, events) == (st, Seq::<MessageView>::empty()),
    decreases events.len(),
{
    if events.len() > 0 {
        lemma_nothing_after_end(st, events.skip(1));
    }
}

/// The summary becomes available exactly when the end of the document has
/// been seen: before that a run leaves the parser unfinished.
pub proof fn lemma_done_iff_end_seen(st: XmlView, events: Seq<Event>)
    ensures
        run(st, events).0.done == (st.done || exists|j: int| 0 <= j < events.len() && events[j] is EndDocument),
    decreases events.len(),
{
    if events.len() > 0 {
        let next = step(st, events[0]).0;
        lemma_done_iff_end_seen(next, events.skip(1));
        if exists|j: int| 0 <= j < events.len() && events[j] is EndDocument {
            let j = choose|j: int| 0 <= j < events.len() && events[j] is EndDocument;
            if j > 0 {
                assert(events.skip(1)[j - 1] == events[j]);
            }
        }
        if exists|j: int| 0 <= j < events.len() - 1 && events.skip(1)[j] is EndDocument {
            let j = choose|j: int| 0 <= j < events.len() - 1 && events.skip(1)[j] is EndDocument;
            assert(events[j + 1] == events.skip(1)[j]);
        }
    }
}

/// Parsing the same archive twice from scratch gives the same records and the
/// same final summary: a parser made by `new` for a path starts from one
/// state, and a run is determined by that state and the events.
pub proof fn lemma_reparse_identical(
    path: Seq<char>,
    events: Seq<Event>,
    first: (XmlView, Seq<MessageView>),
    second: (XmlView, Seq<MessageView>),
)
    requires
        first == run(initial(crate::location::file_stem_text(path)), events),
        second == run(initial(crate::location::file_stem_text(path)), events),
    ensures
        first.1 == second.1,
        first.0.first_session_id == second.0.first_session_id,
        first.0.last_session_id == second.0.last_session_id,
        first.0.recipient_id == second.0.recipient_id,
        first.0.done == second.0.done,
{
}

/// A parser for the XML export dialect, fed one markup event at a time.
pub struct XmlParser {
    details: ArchiveDetails,
    parents: PathContext,
    done: bool,
    message: Message,
}

impl View for XmlParser {
    type V = XmlView;

    closed spec fn view(&self) -> XmlView {
        XmlView {
            recipient_id: self.details.recipient_id@,
            file_type: self.details.file_type,
            first_session_id: self.details.first_session_id@,
            last_session_id: self.details.last_session_id@,
            path: self.parents@,
            done: self.done,
            message: self.message@,
        }
    }
}

/// The state of a parser that has seen no event yet.
pub open spec fn initial(recipient_id: Seq<char>) -> XmlView {
    XmlView {
        recipient_id,
        file_type: FileType::XML,
        first_session_id: Seq::empty(),
        last_session_id: Seq::empty(),
        path: Seq::empty(),
        done: false,
        message: blank_view(),
    }
}

impl XmlParser {
    /// A parser for the archive at `path`, whose recipient is named by the
    /// file's stem.
    pub fn new(path: &str) -> (r: XmlParser)
        ensures
            r@ == initial(crate::location::file_stem_text(path@)),
    {
        let r = XmlParser {
            details: ArchiveDetails {
                recipient_id: crate::location::file_stem(path),
                file_type: FileType::XML,
                first_session_id: String::new(),
                last_session_id: String::new(),
            },
            parents: PathContext::new(),
            done: false,
            message: Message::blank(),
        };
        r
    }

    /// The archive summary: `None` until the end of the document was fed.
    pub fn details(&self) -> (r: Option<&ArchiveDetails>)
        ensures
            r is Some == self@.done,
            r matches Some(d) ==> {
                &&& d.recipient_id@ == self@.recipient_id
                &&& d.file_type == self@.file_type
                &&& d.first_session_id@ == self@.first_session_id
                &&& d.last_session_id@ == self@.last_session_id
            },
    {
        if self.done {
            Some(&self.details)
        } else {
            None
        }
    }

    /// Whether the end of the document has been fed.
    pub fn is_done(&self) -> (r: bool)
        ensures
            r == self@.done,
    {
        self.done
    }

    fn start_element(&mut self, name: &str, attrs: &Vec<Attribute>)
        ensures
            final(self).message@ == started(old(self).message@, old(self).parents@, name@, attrs@),
            final(self).parents@ == old(self).parents@,
            final(self).done == old(self).done,
            final(self).details.recipient_id == old(self).details.recipient_id,
            final(self).details.file_type == old(self).details.file_type,
            final(self).details.first_session_id@ == if name@ == "Log"@ {
                lookup_or(attrs@, "FirstSessionID"@, "0"@)
            } else {
                old(self).details.first_session_id@
            },
            final(self).details.last_session_id@ == if name@ == "Log"@ {
                lookup_or(attrs@, "LastSessionID"@, "0"@)
            } else {
                old(self).details.last_session_id@
            },
    {
        proof {
            reveal_strlit("Log");
            reveal_strlit("Message");
            reveal_strlit("User");
            reveal_strlit("Text");
            reveal_strlit("");
            assert("Log"@.len() == 3 && "Message"@.len() == 7 && "User"@.len() == 4);
            assert("Log"@ != "Message"@ && "Log"@ != "User"@ && "Log"@ != "Text"@);
            assert("Message"@ != "User"@ && "Message"@ != "Text"@);
            assert("User"@[0] != "Text"@[0]);
            assert(""@ =~= Seq::<char>::empty());
        }
        if str_eq(name, "Log") {
            self.details.first_session_id = attribute_or(attrs, "FirstSessionID", "0");
            self.details.last_session_id = attribute_or(attrs, "LastSessionID", "0");
        } else if str_eq(name, "Message") {
            self.message.session_id = attribute_or(attrs, "SessionID", "0");
            self.message.datetime = attribute_or(attrs, "DateTime", "");
            let time = attribute_or(attrs, "Time", "");
            self.message.timezone_offset = offset_minutes(self.message.datetime.as_str(), time.as_str());
        } else if str_eq(name, "User") {
            if self.parents.contains("From") {
                self.message.sender_friendly_name = attribute_or(attrs, "FriendlyName", "");
            } else if self.parents.contains("To") {
                self.message.receiver_friendly_name = attribute_or(attrs, "FriendlyName", "");
            }
        } else if str_eq(name, "Text") {
            let style = attribute_or(attrs, "Style", "");
            self.message.data.push(Data::Text(Text { style, content: String::new() }));
            assert(data_views(self.message.data@) =~= data_views(old(self).message.data@).push(
                DataView::Text { style: lookup_or(attrs@, "Style"@, ""@), content: Seq::empty() },
            ));
        }
    }

    fn fill_text(&mut self, s: &String)
        ensures
            final(self).message@ == filled(old(self).message@, old(self).parents@, s@),
            final(self).parents@ == old(self).parents@,
            final(self).done == old(self).done,
            final(self).details == old(self).details,
    {
        let pat = vec!["Message", "Text"];
        proof {
            assert(crate::path::str_views(pat@) =~= seq!["Message"@, "Text"@]);
        }
        if !self.parents.ends_with(&pat) {
            return;
        }
        let n = self.message.data.len();
        if n == 0 {
            return;
        }
        let style = match &self.message.data[n - 1] {
            Data::Text(t) => t.style.clone(),
            _ => {
                return;
            },
        };
        self.message.data.set(n - 1, Data::Text(Text { style, content: s.clone() }));
        proof {
            let old_data = data_views(old(self).message.data@);
            assert(data_views(self.message.data@) =~= old_data.update(
                n - 1,
                DataView::Text { style: old_data.last()->Text_style, content: s@ },
            ));
        }
    }

    /// Hands one event to the parser; returns the record that a `Message` end
    /// event closes.
    pub fn feed(&mut self, ev: &Event) -> (r: Option<Message>)
        ensures
            (final(self)@, opt_message_view(r)) == step(old(self)@, *ev),
    {
        if self.done {
            return None;
        }
        match ev {
            Event::Start { name, attributes } => {
                self.start_element(name.as_str(), attributes);
                self.parents.enter(name.clone());
                None
            },
            Event::Characters(s) => {
                self.fill_text(s);
                None
            },
            Event::End { name } => {
                let _ = self.parents.leave();
                if str_eq(name.as_str(), "Message") {
                    let mut m = Message::blank();
                    core::mem::swap(&mut m, &mut self.message);
                    Some(m)
                } else {
                    None
                }
            },
            Event::EndDocument => {
                self.done = true;
                None
            },
            Event::Other => None,
        }
    }

    /// Feeds `events` in order and returns the records they close: one for
    /// each `Message` end event before the end of the document.
    pub fn collect_records(&mut self, events: &Vec<Event>) -> (r: Vec<Message>)
        ensures
            (final(self)@, message_views(r@)) == run(old(self)@, events@),
            r@.len() == if old(self)@.done { 0 } else { message_ends(events@) },
    {
        let mut out: Vec<Message> = Vec::new();
        let mut i: usize = 0;
        assert(events@.skip(0) =~= events@);
        assert(message_views(out@) =~= Seq::<MessageView>::empty());
        while i < events.len()
            invariant
                i <= events@.len(),
                run(old(self)@, events@) == (run(self@, events@.skip(i as int)).0,
                    message_views(out@) + run(self@, events@.skip(i as int)).1),
            decreases events@.len() - i,
        {
            let ghost before = self@;
            let ghost done = out@;
            proof {
                assert(events@.skip(i as int).skip(1) =~= events@.skip(i + 1));
                assert(events@.skip(i as int)[0] == events@[i as int]);
            }
            if let Some(m) = self.feed(&events[i]) {
                out.push(m);
                assert(message_views(out@) =~= message_views(done).push(m@));
                assert(seq![m@] + run(self@, events@.skip(i + 1)).1 =~= seq![m@].add(run(self@, events@.skip(i + 1)).1));
                assert(message_views(done) + (seq![m@] + run(self@, events@.skip(i + 1)).1)
                    =~= message_views(out@) + run(self@, events@.skip(i + 1)).1);
            }
            i = i + 1;
        }
        proof {
            assert(events@.skip(i as int) =~= Seq::<Event>::empty());
            assert(message_views(out@) + Seq::<MessageView>::empty() =~= message_views(out@));
            lemma_one_record_per_message(old(self)@, events@);
        }
        out
    }
}

/// The offset in minutes of local `time` from the absolute `datetime`, or
/// `None` unless both parse.
pub fn offset_minutes(datetime: &str, time: &str) -> (r: Option<i64>)
    ensures
        int_opt(r) == offset_of(datetime@, time@),
{
    match parse_clock_prefix(datetime, "%Y-%m-%dT%H:%M:%S") {
        Some(u) => match clock_from_text(time) {
            Some(l) => Some(minutes_between(l, u)),
            None => None,
        },
        None => None,
    }
}

} // verus!
