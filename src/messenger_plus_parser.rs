//! The HTML session export dialect: sessions are `div`s under `body`, each
//! holding a participant list and a table whose rows are records.
use vstd::prelude::*;
use crate::types::{ArchiveDetails, Attribute, Data, Event, FileType, Image, Message, ParseError, Text, attribute, data_views, lookup};
use crate::path::{PathContext, ends_with, str_views};
use crate::text::{str_eq, trim, decode_entities, contains, trimmed, entities_decoded, contains_run};
use crate::chrono_glue::{StampParts, ClockParts, valid_stamp, stamp_parsed, clock_parsed, stamp_text, parse_stamp, parse_clock, format_stamp};
use crate::location::{file_stem, file_stem_text, parent, parent_text};

verus! {

pub open spec fn body_path() -> Seq<Seq<char>> {
    seq!["html"@, "body"@]
}

pub open spec fn tbody_path() -> Seq<Seq<char>> {
    seq!["html"@, "body"@, "div"@, "table"@, "tbody"@]
}

pub open spec fn row_path() -> Seq<Seq<char>> {
    tbody_path().push("tr"@)
}

pub open spec fn cell_path() -> Seq<Seq<char>> {
    row_path().push("td"@)
}

pub open spec fn header_path() -> Seq<Seq<char>> {
    row_path().push("th"@)
}

pub open spec fn clock_path() -> Seq<Seq<char>> {
    header_path().push("span"@)
}

pub open spec fn participant_path() -> Seq<Seq<char>> {
    seq!["html"@, "body"@, "div"@, "ul"@, "li"@]
}

pub open spec fn session_layout() -> Seq<char> {
    "Session_%Y-%m-%dT%H-%M-%S"@
}

pub open spec fn clock_layout() -> Seq<char> {
    "(%H:%M)"@
}

/// The first record's timestamp: the session's date, the header's hour and
/// minute, and the session marker's second, written to the second.
pub open spec fn first_stamp(date: StampParts, c: ClockParts) -> Seq<char> {
    stamp_text((date.0, date.1, date.2, c.0, c.1, date.5), "%Y-%m-%dT%H:%M:%S"@)
}

/// A later record's timestamp: the session's date and the header's hour and
/// minute, written to the minute.
pub open spec fn later_stamp(date: StampParts, c: ClockParts) -> Seq<char> {
    stamp_text((date.0, date.1, date.2, c.0, c.1, 0), "%Y-%m-%dT%H:%M"@)
}

/// Sender and receiver for a row whose header reads `header`: the owner
/// sends when the header mentions the owner's name.
pub open spec fn participants(header: Seq<char>, owner: Seq<char>, counterpart: Seq<char>) -> (Seq<char>, Seq<char>) {
    if contains_run(header, owner) {
        (owner, counterpart)
    } else {
        (counterpart, owner)
    }
}

/// Whichever of two names is the owner, a header that mentions exactly one of
/// them names that one as the sender and the other as the receiver.
pub proof fn lemma_sender_independent_of_owner(header: Seq<char>, a: Seq<char>, b: Seq<char>)
    requires
        contains_run(header, a) != contains_run(header, b),
    ensures
        participants(header, a, b) == participants(header, b, a),
        participants(header, a, b).0 == (if contains_run(header, a) { a } else { b }),
{
}

/// The parser's state as the contracts see it.
pub struct PlusView {
    pub session_id: Seq<char>,
    pub date: StampParts,
    pub owner: Seq<char>,
    pub counterpart: Seq<char>,
    pub style: Seq<char>,
    pub first: bool,
    pub done: bool,
    pub path: Seq<Seq<char>>,
    pub attrs: Seq<Attribute>,
    pub details: ArchiveDetails,
    pub message: Message,
}

pub open spec fn same_session(a: PlusView, b: PlusView) -> bool {
    &&& a.session_id == b.session_id
    &&& a.date == b.date
    &&& a.owner == b.owner
    &&& a.counterpart == b.counterpart
    &&& a.style == b.style
    &&& a.first == b.first
    &&& a.done == b.done
    &&& a.details == b.details
}

/// Every field of a record but its payload is kept.
pub open spec fn same_header(m: Message, n: Message) -> bool {
    &&& n.datetime == m.datetime
    &&& n.timezone_offset == m.timezone_offset
    &&& n.session_id == m.session_id
    &&& n.sender_friendly_name == m.sender_friendly_name
    &&& n.receiver_friendly_name == m.receiver_friendly_name
}

pub open spec fn is_placeholder(d: Data) -> bool {
    d matches Data::System(s) && s@ == Seq::<char>::empty()
}

pub open spec fn is_session_marker(path: Seq<Seq<char>>, name: Seq<char>, attrs: Seq<Attribute>) -> bool {
    name == "div"@ && ends_with(path, body_path()) && lookup(attrs, "class"@) == Some("mplsession"@)
        && lookup(attrs, "id"@).is_some()
}

pub open spec fn is_bad_marker(path: Seq<Seq<char>>, name: Seq<char>, attrs: Seq<Attribute>) -> bool {
    is_session_marker(path, name, attrs) && stamp_parsed(lookup(attrs, "id"@).unwrap(), session_layout()).is_none()
}

/// What a start element named `name` with `attrs` does to state `a`,
/// giving `b` (before its name is entered on the path); `src` is the image
/// to load, if any.
pub open spec fn started(a: PlusView, b: PlusView, name: Seq<char>, attrs: Seq<Attribute>, src: Option<Seq<char>>) -> bool {
    let path = a.path;
    if is_session_marker(path, name, attrs) {
        let id = lookup(attrs, "id"@).unwrap();
        let p = stamp_parsed(id, session_layout()).unwrap();
        &&& src.is_none()
        &&& b.session_id == id
        &&& b.date == p
        &&& b.details.first_session_id@ == (if a.details.first_session_id@.len() == 0 {
            id
        } else {
            a.details.first_session_id@
        })
        &&& b.details.last_session_id == a.details.last_session_id
        &&& b.details.recipient_id == a.details.recipient_id
        &&& b.details.file_type == a.details.file_type
        &&& b.owner == a.owner && b.counterpart == a.counterpart && b.style == a.style
        &&& b.first == a.first && b.done == a.done
        &&& b.message == a.message
    } else if name == "td"@ && ends_with(path, row_path()) && lookup(attrs, "style"@).is_some() {
        &&& src.is_none()
        &&& b.style == trimmed(entities_decoded(lookup(attrs, "style"@).unwrap()))
        &&& b.session_id == a.session_id && b.date == a.date && b.owner == a.owner
        &&& b.counterpart == a.counterpart && b.first == a.first && b.done == a.done
        &&& b.details == a.details
        &&& b.message == a.message
    } else if name == "tr"@ && ends_with(path, tbody_path()) {
        &&& src.is_none()
        &&& same_session(a, b)
        &&& b.message.session_id@ == a.session_id
        &&& b.message.datetime == a.message.datetime
        &&& b.message.timezone_offset == a.message.timezone_offset
        &&& b.message.sender_friendly_name == a.message.sender_friendly_name
        &&& b.message.receiver_friendly_name == a.message.receiver_friendly_name
        &&& if lookup(attrs, "class"@) == Some("msgplus"@) {
            b.message.data@.len() == 1 && is_placeholder(b.message.data@[0])
        } else {
            b.message.data == a.message.data
        }
    } else if name == "img"@ && ends_with(path, cell_path()) && lookup(attrs, "src"@).is_some() {
        let s = lookup(attrs, "src"@).unwrap();
        &&& src == Some(s)
        &&& same_session(a, b)
        &&& same_header(a.message, b.message)
        &&& b.message.data@.len() == a.message.data@.len() + 1
        &&& b.message.data@.drop_last() == a.message.data@
        &&& b.message.data@.last() matches Data::Image(img) && {
            &&& img.src@ == trimmed(s)
            &&& img.alt@ == (match lookup(attrs, "alt"@) {
                Some(t) => trimmed(t),
                None => Seq::<char>::empty(),
            })
            &&& img.content@.len() == 0
        }
    } else {
        &&& src.is_none()
        &&& same_session(a, b)
        &&& b.message == a.message
    }
}

pub open spec fn is_bad_clock(a: PlusView, s: Seq<char>) -> bool {
    a.path == clock_path() && clock_parsed(s, clock_layout()).is_none()
}

/// What character data `s` does to state `a`, giving `b`.
pub open spec fn filled(a: PlusView, b: PlusView, s: Seq<char>) -> bool {
    if a.path == participant_path() {
        &&& if lookup(a.attrs, "class"@) == Some("in"@) {
            b.owner == trimmed(s) && b.counterpart == a.counterpart
        } else {
            b.counterpart == trimmed(s) && b.owner == a.owner
        }
        &&& b.session_id == a.session_id && b.date == a.date && b.style == a.style
        &&& b.first == a.first && b.done == a.done && b.details == a.details
        &&& b.message == a.message
    } else if a.path == clock_path() {
        let c = clock_parsed(s, clock_layout()).unwrap();
        &&& b.session_id == a.session_id && b.date == a.date && b.owner == a.owner
        &&& b.counterpart == a.counterpart && b.style == a.style && b.done == a.done
        &&& b.details == a.details
        &&& !b.first
        &&& b.message.datetime@ == (if a.first { first_stamp(a.date, c) } else { later_stamp(a.date, c) })
        &&& b.message.timezone_offset == a.message.timezone_offset
        &&& b.message.session_id == a.message.session_id
        &&& b.message.sender_friendly_name == a.message.sender_friendly_name
        &&& b.message.receiver_friendly_name == a.message.receiver_friendly_name
        &&& b.message.data == a.message.data
    } else if a.path == header_path() {
        let who = participants(s, a.owner, a.counterpart);
        &&& same_session(a, b)
        &&& b.message.sender_friendly_name@ == who.0
        &&& b.message.receiver_friendly_name@ == who.1
        &&& b.message.datetime == a.message.datetime
        &&& b.message.timezone_offset == a.message.timezone_offset
        &&& b.message.session_id == a.message.session_id
        &&& b.message.data == a.message.data
    } else if a.path == cell_path() {
        &&& same_session(a, b)
        &&& same_header(a.message, b.message)
        &&& if a.message.data@.len() > 0 && a.message.data@[0] is System {
            &&& b.message.data@.len() == a.message.data@.len()
            &&& b.message.data@[0] matches Data::System(t) && t@ == s
            &&& b.message.data@.skip(1) == a.message.data@.skip(1)
        } else {
            &&& b.message.data@.len() == a.message.data@.len() + 1
            &&& b.message.data@.drop_last() == a.message.data@
            &&& b.message.data@.last() matches Data::Text(t) && {
                &&& t.content@ == s
                &&& t.style@ == (match lookup(a.attrs, "style"@) {
                    Some(st) => trimmed(st),
                    None => a.style,
                })
            }
        }
    } else {
        &&& same_session(a, b)
        &&& b.message == a.message
    }
}

/// Two states that no reader of the parser can tell apart: equal fields,
/// records and summaries equal as plain values.
pub open spec fn same_view(x: PlusView, y: PlusView) -> bool {
    &&& x.session_id == y.session_id
    &&& x.date == y.date
    &&& x.owner == y.owner
    &&& x.counterpart == y.counterpart
    &&& x.style == y.style
    &&& x.first == y.first
    &&& x.done == y.done
    &&& x.path == y.path
    &&& x.attrs == y.attrs
    &&& x.details.recipient_id@ == y.details.recipient_id@
    &&& x.details.file_type == y.details.file_type
    &&& x.details.first_session_id@ == y.details.first_session_id@
    &&& x.details.last_session_id@ == y.details.last_session_id@
    &&& x.message@ == y.message@
}

/// A start element fed to one state always leads to the same state and asks
/// for the same image: re-parsing an archive repeats every step.
pub proof fn lemma_start_deterministic(
    a: PlusView,
    b1: PlusView,
    b2: PlusView,
    name: Seq<char>,
    attrs: Seq<Attribute>,
    src1: Option<Seq<char>>,
    src2: Option<Seq<char>>,
)
    requires
        started(a, b1, name, attrs, src1),
        started(a, b2, name, attrs, src2),
        b1.path == a.path && b2.path == a.path,
        b1.attrs == a.attrs && b2.attrs == a.attrs,
    ensures
        src1 == src2,
        same_view(b1, b2),
{
    let d1 = data_views(b1.message.data@);
    let d2 = data_views(b2.message.data@);
    if !is_session_marker(a.path, name, attrs) && !(name == "td"@ && ends_with(a.path, row_path())
        && lookup(attrs, "style"@).is_some()) {
        if name == "tr"@ && ends_with(a.path, tbody_path()) {
            if lookup(attrs, "class"@) == Some("msgplus"@) {
                assert(d1 =~= d2);
            }
        } else if name == "img"@ && ends_with(a.path, cell_path()) && lookup(attrs, "src"@).is_some() {
            let d0 = data_views(a.message.data@);
            assert(b1.message.data@.last()->Image_0.content@ =~= b2.message.data@.last()->Image_0.content@);
            assert(d1 =~= d0.push(b1.message.data@.last()@));
            assert(d2 =~= d0.push(b2.message.data@.last()@));
        }
    }
}

/// Character data fed to one state always leads to the same state.
pub proof fn lemma_fill_deterministic(a: PlusView, b1: PlusView, b2: PlusView, s: Seq<char>)
    requires
        filled(a, b1, s),
        filled(a, b2, s),
        b1.path == a.path && b2.path == a.path,
        b1.attrs == a.attrs && b2.attrs == a.attrs,
    ensures
        same_view(b1, b2),
{
    let d1 = data_views(b1.message.data@);
    let d2 = data_views(b2.message.data@);
    let d0 = data_views(a.message.data@);
    if a.path != participant_path() && a.path != clock_path() && a.path != header_path() && a.path == cell_path() {
        if a.message.data@.len() > 0 && a.message.data@[0] is System {
            assert forall|i: int| 0 <= i < d1.len() implies d1[i] == d2[i] by {
                if i > 0 {
                    assert(b1.message.data@[i] == b1.message.data@.skip(1)[i - 1]);
                    assert(b2.message.data@[i] == b2.message.data@.skip(1)[i - 1]);
                }
            }
            assert(d1 =~= d2);
        } else {
            assert(d1 =~= d0.push(b1.message.data@.last()@));
            assert(d2 =~= d0.push(b2.message.data@.last()@));
        }
    }
}

/// One fed event, as `feed` performs it: from state `a`, event `ev` leads to
/// state `b` with result `r`. After the end of the document nothing changes.
pub open spec fn fed(a: PlusView, ev: Event, b: PlusView, r: Result<Step, ParseError>) -> bool {
    &&& a.done ==> r == Ok::<Step, ParseError>(Step::Continue) && b == a
    &&& !a.done ==> match ev {
        Event::Start { name, attributes } => {
            &&& r is Err <==> is_bad_marker(a.path, name@, attributes@)
            &&& r matches Err(e) ==> b == a && (e matches ParseError::BadSessionId(id)
                && id@ == lookup(attributes@, "id"@).unwrap())
            &&& r matches Ok(st) ==> {
                &&& !(st is Record)
                &&& b.path == a.path.push(name@)
                &&& b.attrs == attributes@
                &&& started(a, b, name@, attributes@, match st {
                    Step::LoadImage(p) => Some(p@),
                    _ => None,
                })
            }
        },
        Event::Characters(s) => {
            &&& r is Err <==> is_bad_clock(a, s@)
            &&& r matches Err(e) ==> b == a && (e matches ParseError::BadClock(t) && t@ == s@)
            &&& r is Ok ==> {
                &&& r == Ok::<Step, ParseError>(Step::Continue)
                &&& filled(a, b, s@)
                &&& b.path == a.path
                &&& b.attrs == a.attrs
            }
        },
        Event::End { name } => {
            let path = if a.path.len() > 0 { a.path.drop_last() } else { a.path };
            &&& b.path == path
            &&& b.attrs == a.attrs
            &&& same_session(a, b)
            &&& if name@ == "tr"@ && ends_with(path, tbody_path()) {
                r == Ok::<Step, ParseError>(Step::Record(a.message)) && b.message.is_blank()
            } else {
                r == Ok::<Step, ParseError>(Step::Continue) && b.message == a.message
            }
        },
        Event::EndDocument => {
            &&& r == Ok::<Step, ParseError>(Step::Continue)
            &&& b.done
            &&& b.details.last_session_id@ == a.session_id
            &&& b.details.first_session_id == a.details.first_session_id
            &&& b.details.recipient_id == a.details.recipient_id
            &&& b.details.file_type == a.details.file_type
            &&& b.message == a.message
            &&& b.path == a.path && b.attrs == a.attrs
            &&& b.session_id == a.session_id && b.date == a.date
            &&& b.owner == a.owner && b.counterpart == a.counterpart
            &&& b.style == a.style && b.first == a.first
        },
        Event::Other => r == Ok::<Step, ParseError>(Step::Continue) && b == a,
    }
}

/// The path after one event: a start element enters its name, an end
/// element leaves the innermost one.
pub open spec fn next_path(path: Seq<Seq<char>>, ev: Event) -> Seq<Seq<char>> {
    match ev {
        Event::Start { name, .. } => path.push(name@),
        Event::End { .. } => if path.len() > 0 { path.drop_last() } else { path },
        _ => path,
    }
}

/// Whether `ev` closes a table row directly under `tbody`.
pub open spec fn closes_row(path: Seq<Seq<char>>, ev: Event) -> bool {
    ev matches Event::End { name } && name@ == "tr"@ && ends_with(next_path(path, ev), tbody_path())
}

/// Rows that close before the end of the document, starting at `path`.
pub open spec fn row_ends(path: Seq<Seq<char>>, events: Seq<Event>) -> nat
    decreases events.len(),
{
    if events.len() == 0 || events[0] is EndDocument {
        0
    } else {
        (if closes_row(path, events[0]) { 1nat } else { 0nat }) + row_ends(next_path(path, events[0]), events.skip(1))
    }
}

/// Number of results that hand back a record.
pub open spec fn records_in(results: Seq<Result<Step, ParseError>>) -> nat
    decreases results.len(),
{
    if results.len() == 0 {
        0
    } else {
        (if results[0] matches Ok(Step::Record(_)) { 1nat } else { 0nat }) + records_in(results.skip(1))
    }
}

/// A run of feeds: `states[i]` is fed `events[i]`, giving `states[i + 1]`
/// and `results[i]`.
pub open spec fn is_trace(states: Seq<PlusView>, events: Seq<Event>, results: Seq<Result<Step, ParseError>>) -> bool {
    &&& states.len() == events.len() + 1
    &&& results.len() == events.len()
    &&& forall|i: int| #![trigger events[i]] 0 <= i < events.len() ==> fed(states[i], events[i], states[i + 1], results[i])
}

proof fn lemma_trace_tail(states: Seq<PlusView>, events: Seq<Event>, results: Seq<Result<Step, ParseError>>)
    requires
        is_trace(states, events, results),
        events.len() > 0,
    ensures
        is_trace(states.skip(1), events.skip(1), results.skip(1)),
        fed(states[0], events[0], states[1], results[0]),
{
    let first = events[0];
    assert forall|i: int| 0 <= i < events.len() - 1 implies fed(
        states.skip(1)[i],
        #[trigger] events.skip(1)[i],
        states.skip(1)[i + 1],
        results.skip(1)[i],
    ) by {
        let e = events[i + 1];
        assert(states.skip(1)[i] == states[i + 1]);
        assert(states.skip(1)[i + 1] == states[i + 2]);
    }
}

proof fn lemma_no_records_after_end(states: Seq<PlusView>, events: Seq<Event>, results: Seq<Result<Step, ParseError>>)
    requires
        is_trace(states, events, results),
        states[0].done,
    ensures
        records_in(results) == 0,
    decreases events.len(),
{
    if events.len() > 0 {
        lemma_trace_tail(states, events, results);
        lemma_no_records_after_end(states.skip(1), events.skip(1), results.skip(1));
    }
}

/// Fed without error from an unfinished state, the parser hands back one
/// record for each table row that closes directly under `tbody`, up to the
/// end of the document, and none after it.
pub proof fn lemma_one_record_per_row(states: Seq<PlusView>, events: Seq<Event>, results: Seq<Result<Step, ParseError>>)
    requires
        is_trace(states, events, results),
        !states[0].done,
        forall|i: int| 0 <= i < results.len() ==> #[trigger] results[i] is Ok,
    ensures
        records_in(results) == row_ends(states[0].path, events),
    decreases events.len(),
{
    if events.len() > 0 {
        lemma_trace_tail(states, events, results);
        assert(results[0] is Ok);
        assert forall|i: int| 0 <= i < results.skip(1).len() implies #[trigger] results.skip(1)[i] is Ok by {
            assert(results[i + 1] is Ok);
        }
        if events[0] is EndDocument {
            lemma_no_records_after_end(states.skip(1), events.skip(1), results.skip(1));
        } else {
            lemma_one_record_per_row(states.skip(1), events.skip(1), results.skip(1));
        }
    }
}

/// What the parser hands back for one event.
#[derive(Debug, PartialEq, Eq)]
pub enum Step {
    /// Nothing to do but feed the next event.
    Continue,
    /// A record is complete.
    Record(Message),
    /// An image was added to the record under assembly: its content is the
    /// file at this path, relative to the archive's directory, to be handed
    /// back with `attach_image`.
    LoadImage(String),
}

struct Session {
    date: StampParts,
    id: String,
    owner: String,
    counterpart: String,
    message_style: String,
}

/// A parser for the HTML session export, fed one markup event at a time.
pub struct MessengerPlusParser {
    details: ArchiveDetails,
    parents: PathContext,
    attrs: Vec<Attribute>,
    session: Session,
    directory: String,
    first_message: bool,
    done: bool,
    message: Message,
}

impl View for MessengerPlusParser {
    type V = PlusView;

    closed spec fn view(&self) -> PlusView {
        PlusView {
            session_id: self.session.id@,
            date: self.session.date,
            owner: self.session.owner@,
            counterpart: self.session.counterpart@,
            style: self.session.message_style@,
            first: self.first_message,
            done: self.done,
            path: self.parents@,
            attrs: self.attrs@,
            details: self.details,
            message: self.message,
        }
    }
}

impl MessengerPlusParser {
    /// The session's date stays a valid calendar date-time.
    pub closed spec fn wf(&self) -> bool {
        valid_stamp(self.session.date)
    }

    pub closed spec fn spec_directory(&self) -> Seq<char> {
        self.directory@
    }

    /// A parser for the archive at `path`: its recipient is named by the
    /// file's stem, and images are looked up in its directory, which must
    /// exist.
    pub fn new(path: &str) -> (r: Result<MessengerPlusParser, ParseError>)
        ensures
            parent_text(path@).is_none() <==> r is Err,
            r matches Err(e) ==> e matches ParseError::NoDirectory(p) && p@ == path@,
            r matches Ok(p) ==> {
                &&& p.wf()
                &&& Some(p.spec_directory()) == parent_text(path@)
                &&& p@.details.recipient_id@ == file_stem_text(path@)
                &&& p@.details.file_type == FileType::MessengerPlus
                &&& p@.details.first_session_id@.len() == 0
                &&& p@.details.last_session_id@.len() == 0
                &&& p@.session_id.len() == 0
                &&& p@.date == (1970i32, 1u32, 1u32, 0u32, 0u32, 0u32)
                &&& p@.owner.len() == 0 && p@.counterpart.len() == 0 && p@.style.len() == 0
                &&& p@.first && !p@.done
                &&& p@.path.len() == 0
                &&& p@.attrs.len() == 0
                &&& p@.message.is_blank()
            },
    {
        let directory = match parent(path) {
            Some(d) => d,
            None => {
                return Err(ParseError::NoDirectory(path.to_string()));
            },
        };
        Ok(MessengerPlusParser {
            details: ArchiveDetails {
                recipient_id: file_stem(path),
                file_type: FileType::MessengerPlus,
                first_session_id: String::new(),
                last_session_id: String::new(),
            },
            parents: PathContext::new(),
            attrs: Vec::new(),
            session: Session {
                date: (1970, 1, 1, 0, 0, 0),
                id: String::new(),
                owner: String::new(),
                counterpart: String::new(),
                message_style: String::new(),
            },
            directory,
            first_message: true,
            done: false,
            message: Message::blank(),
        })
    }

    /// The directory that image paths are relative to.
    pub fn directory(&self) -> (r: &str)
        ensures
            r@ == self.spec_directory(),
    {
        self.directory.as_str()
    }

    /// The archive summary: `None` until the end of the document was fed.
    pub fn details(&self) -> (r: Option<&ArchiveDetails>)
        ensures
            r == (if self@.done { Some(&self@.details) } else { None }),
    {
        if self.done {
            Some(&self.details)
        } else {
            None
        }
    }

    /// Whether the end of the document has been fed.
    pub fn is_done(&self) -> (r: bool)
        ensures
            r == self@.done,
    {
        self.done
    }

    fn start_element(&mut self, name: &str, attrs: &Vec<Attribute>) -> (r: Result<Option<String>, ParseError>)
        requires
            old(self).wf(),
        ensures
            final(self).wf(),
            r is Err <==> is_bad_marker(old(self)@.path, name@, attrs@),
            r matches Err(e) ==> final(self)@ == old(self)@ && (e matches ParseError::BadSessionId(id)
                && id@ == lookup(attrs@, "id"@).unwrap()),
            r matches Ok(src) ==> {
                &&& started(old(self)@, final(self)@, name@, attrs@, crate::types::opt_view(src))
                &&& final(self)@.path == old(self)@.path
                &&& final(self)@.attrs == old(self)@.attrs
            },
    {
        proof {
            reveal_strlit("div");
            reveal_strlit("td");
            reveal_strlit("tr");
            reveal_strlit("img");
            reveal_strlit("");
            assert("div"@.len() == 3 && "img"@.len() == 3 && "td"@.len() == 2 && "tr"@.len() == 2);
            assert("div"@[0] != "img"@[0]);
            assert("div"@ != "td"@ && "div"@ != "tr"@ && "div"@ != "img"@);
            assert("img"@ != "td"@ && "img"@ != "tr"@);
            assert("td"@[1] != "tr"@[1]);
            assert(""@ =~= Seq::<char>::empty());
        }
        if str_eq(name, "div") {
            let pat = vec!["html", "body"];
            assert(str_views(pat@) =~= body_path());
            if !self.parents.ends_with(&pat) {
                return Ok(None);
            }
            let class = attribute(attrs, "class");
            let is_marker = match &class {
                Some(c) => str_eq(c.as_str(), "mplsession"),
                None => false,
            };
            if !is_marker {
                return Ok(None);
            }
            if let Some(id) = attribute(attrs, "id") {
                match parse_stamp(id.as_str(), "Session_%Y-%m-%dT%H-%M-%S") {
                    None => {
                        return Err(ParseError::BadSessionId(id));
                    },
                    Some(p) => {
                        if self.details.first_session_id.as_str().unicode_len() == 0 {
                            self.details.first_session_id = id.clone();
                        }
                        self.session.id = id;
                        self.session.date = p;
                    },
                }
            }
            Ok(None)
        } else if str_eq(name, "td") {
            let pat = vec!["html", "body", "div", "table", "tbody", "tr"];
            assert(str_views(pat@) =~= row_path());
            if self.parents.ends_with(&pat) {
                if let Some(st) = attribute(attrs, "style") {
                    let decoded = decode_entities(st.as_str());
                    self.session.message_style = trim(decoded.as_str());
                }
            }
            Ok(None)
        } else if str_eq(name, "tr") {
            let pat = vec!["html", "body", "div", "table", "tbody"];
            assert(str_views(pat@) =~= tbody_path());
            if self.parents.ends_with(&pat) {
                self.message.session_id = self.session.id.clone();
                let class = attribute(attrs, "class");
                let is_status = match &class {
                    Some(c) => str_eq(c.as_str(), "msgplus"),
                    None => false,
                };
                if is_status {
                    self.message.data = vec![Data::System(String::new())];
                }
            }
            Ok(None)
        } else if str_eq(name, "img") {
            let pat = vec!["html", "body", "div", "table", "tbody", "tr", "td"];
            assert(str_views(pat@) =~= cell_path());
            if !self.parents.ends_with(&pat) {
                return Ok(None);
            }
            match attribute(attrs, "src") {
                Some(src) => {
                    let alt = match attribute(attrs, "alt") {
                        Some(a) => trim(a.as_str()),
                        None => String::new(),
                    };
                    let img = Image { src: trim(src.as_str()), alt, content: Vec::new() };
                    self.message.data.push(Data::Image(img));
                    assert(self.message.data@.drop_last() =~= old(self).message.data@);
                    Ok(Some(src))
                },
                None => Ok(None),
            }
        } else {
            Ok(None)
        }
    }
    fn fill_text(&mut self, s: &String) -> (r: Result<(), ParseError>)
        requires
            old(self).wf(),
        ensures
            final(self).wf(),
            r is Err <==> is_bad_clock(old(self)@, s@),
            r matches Err(e) ==> final(self)@ == old(self)@ && (e matches ParseError::BadClock(t) && t@ == s@),
            r is Ok ==> {
                &&& filled(old(self)@, final(self)@, s@)
                &&& final(self)@.path == old(self)@.path
                &&& final(self)@.attrs == old(self)@.attrs
            },
    {
        let participant = vec!["html", "body", "div", "ul", "li"];
        assert(str_views(participant@) =~= participant_path());
        if self.parents.is(&participant) {
            let class = attribute(&self.attrs, "class");
            let is_owner = match &class {
                Some(c) => str_eq(c.as_str(), "in"),
                None => false,
            };
            if is_owner {
                self.session.owner = trim(s.as_str());
            } else {
                self.session.counterpart = trim(s.as_str());
            }
            return Ok(());
        }
        let clock = vec!["html", "body", "div", "table", "tbody", "tr", "th", "span"];
        assert(str_views(clock@) =~= clock_path());
        if self.parents.is(&clock) {
            match parse_clock(s.as_str(), "(%H:%M)") {
                None => {
                    return Err(ParseError::BadClock(s.clone()));
                },
                Some(c) => {
                    let d = self.session.date;
                    if self.first_message {
                        self.message.datetime = format_stamp((d.0, d.1, d.2, c.0, c.1, d.5), "%Y-%m-%dT%H:%M:%S");
                        self.first_message = false;
                    } else {
                        self.message.datetime = format_stamp((d.0, d.1, d.2, c.0, c.1, 0), "%Y-%m-%dT%H:%M");
                    }
                },
            }
            return Ok(());
        }
        let header = vec!["html", "body", "div", "table", "tbody", "tr", "th"];
        assert(str_views(header@) =~= header_path());
        if self.parents.is(&header) {
            if contains(s.as_str(), self.session.owner.as_str()) {
                self.message.sender_friendly_name = self.session.owner.clone();
                self.message.receiver_friendly_name = self.session.counterpart.clone();
            } else {
                self.message.sender_friendly_name = self.session.counterpart.clone();
                self.message.receiver_friendly_name = self.session.owner.clone();
            }
            return Ok(());
        }
        let cell = vec!["html", "body", "div", "table", "tbody", "tr", "td"];
        assert(str_views(cell@) =~= cell_path());
        if self.parents.is(&cell) {
            let placeholder = self.message.data.len() > 0 && match &self.message.data[0] {
                Data::System(_) => true,
                _ => false,
            };
            if placeholder {
                self.message.data.set(0, Data::System(s.clone()));
                assert(self.message.data@.skip(1) =~= old(self).message.data@.skip(1));
            } else {
                let style = match attribute(&self.attrs, "style") {
                    Some(st) => trim(st.as_str()),
                    None => self.session.message_style.clone(),
                };
                self.message.data.push(Data::Text(Text { style, content: s.clone() }));
                assert(self.message.data@.drop_last() =~= old(self).message.data@);
            }
        }
        Ok(())
    }

    /// Hands one event to the parser. A start element may ask for an image
    /// (`LoadImage`); the end of a table row under `tbody` hands back the
    /// record it closes. After the end of the document nothing changes.
    pub fn feed(&mut self, ev: Event) -> (r: Result<Step, ParseError>)
        requires
            old(self).wf(),
        ensures
            final(self).wf(),
            fed(old(self)@, ev, final(self)@, r),
    {
        if self.done {
            return Ok(Step::Continue);
        }
        match ev {
            Event::Start { name, attributes } => {
                let src = self.start_element(name.as_str(), &attributes)?;
                self.parents.enter(name);
                self.attrs = attributes;
                match src {
                    Some(p) => Ok(Step::LoadImage(p)),
                    None => Ok(Step::Continue),
                }
            },
            Event::Characters(s) => {
                self.fill_text(&s)?;
                Ok(Step::Continue)
            },
            Event::End { name } => {
                let _ = self.parents.leave();
                let pat = vec!["html", "body", "div", "table", "tbody"];
                assert(str_views(pat@) =~= tbody_path());
                if str_eq(name.as_str(), "tr") && self.parents.ends_with(&pat) {
                    let mut m = Message::blank();
                    core::mem::swap(&mut m, &mut self.message);
                    Ok(Step::Record(m))
                } else {
                    Ok(Step::Continue)
                }
            },
            Event::EndDocument => {
                self.details.last_session_id = self.session.id.clone();
                self.done = true;
                Ok(Step::Continue)
            },
            Event::Other => Ok(Step::Continue),
        }
    }

    /// Gives the image that the last `LoadImage` asked for its content: the
    /// last payload entry, where it is an image, takes `content`.
    pub fn attach_image(&mut self, content: Vec<u8>)
        requires
            old(self).wf(),
        ensures
            final(self).wf(),
            same_session(old(self)@, final(self)@),
            final(self)@.path == old(self)@.path,
            final(self)@.attrs == old(self)@.attrs,
            same_header(old(self)@.message, final(self)@.message),
            final(self)@.message.data@.drop_last() == old(self)@.message.data@.drop_last(),
            final(self)@.message.data@.len() == old(self)@.message.data@.len(),
            old(self)@.message.data@.len() > 0 && old(self)@.message.data@.last() is Image ==> {
                &&& final(self)@.message.data@.last() matches Data::Image(img)
                &&& old(self)@.message.data@.last() matches Data::Image(was)
                &&& img.src == was.src && img.alt == was.alt && img.content@ == content@
            },
            !(old(self)@.message.data@.len() > 0 && old(self)@.message.data@.last() is Image)
                ==> final(self)@ == old(self)@,
    {
        let n = self.message.data.len();
        if n == 0 {
            return;
        }
        let (src, alt) = match &self.message.data[n - 1] {
            Data::Image(img) => (img.src.clone(), img.alt.clone()),
            _ => {
                return;
            },
        };
        self.message.data.set(n - 1, Data::Image(Image { src, alt, content }));
        assert(self.message.data@.drop_last() =~= old(self).message.data@.drop_last());
    }
}

} // verus!
