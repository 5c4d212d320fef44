use vstd::prelude::*;

verus! {

/// Which dialect an archive was written in.
#[derive(Clone, Copy, Debug, PartialEq, Eq)]
pub enum FileType {
    MessengerPlus,
    XML,
}

/// Archive-wide summary, complete once the event stream has ended.
#[derive(Clone, Debug, PartialEq, Eq)]
pub struct ArchiveDetails {
    pub recipient_id: String,
    pub file_type: FileType,
    pub first_session_id: String,
    pub last_session_id: String,
}

#[derive(Clone, Debug, PartialEq, Eq)]
pub struct Text {
    pub style: String,
    pub content: String,
}

#[derive(Clone, Debug, PartialEq, Eq)]
pub struct Image {
    pub src: String,
    pub alt: String,
    pub content: Vec<u8>,
}

/// One payload entry of a record.
#[derive(Clone, Debug, PartialEq, Eq)]
pub enum Data {
    Text(Text),
    Image(Image),
    System(String),
}

/// One normalized conversation turn.
#[derive(Clone, Debug, PartialEq, Eq)]
pub struct Message {
    pub datetime: String,
    pub timezone_offset: Option<i64>,
    pub session_id: String,
    pub sender_friendly_name: String,
    pub receiver_friendly_name: String,
    pub data: Vec<Data>,
}

/// A name/value pair carried by a start-element event.
#[derive(Clone, Debug, PartialEq, Eq)]
pub struct Attribute {
    pub name: String,
    pub value: String,
}

/// A structural markup event, as produced by a tokenizing reader.
#[derive(Clone, Debug, PartialEq, Eq)]
pub enum Event {
    Start { name: String, attributes: Vec<Attribute> },
    Characters(String),
    End { name: String },
    EndDocument,
    /// Any event that carries no structure (comments, declarations, ...).
    Other,
}

/// The schema violations that stop the parse of the current record.
#[derive(Clone, Debug, PartialEq, Eq)]
pub enum ParseError {
    /// A session marker whose identifier is not `Session_<date>T<time>`.
    BadSessionId(String),
    /// A header time that is not `(HH:MM)`.
    BadClock(String),
    /// An archive path with no containing directory.
    NoDirectory(String),
}

/// A payload entry as plain values.
pub enum DataView {
    Text { style: Seq<char>, content: Seq<char> },
    Image { src: Seq<char>, alt: Seq<char>, content: Seq<u8> },
    System(Seq<char>),
}

/// A record as plain values.
pub struct MessageView {
    pub datetime: Seq<char>,
    pub timezone_offset: Option<int>,
    pub session_id: Seq<char>,
    pub sender: Seq<char>,
    pub receiver: Seq<char>,
    pub data: Seq<DataView>,
}

impl View for Data {
    type V = DataView;

    open spec fn view(&self) -> DataView {
        match self {
            Data::Text(t) => DataView::Text { style: t.style@, content: t.content@ },
            Data::Image(i) => DataView::Image { src: i.src@, alt: i.alt@, content: i.content@ },
            Data::System(s) => DataView::System(s@),
        }
    }
}

pub open spec fn data_views(d: Seq<Data>) -> Seq<DataView> {
    d.map_values(|x: Data| x@)
}

impl View for Message {
    type V = MessageView;

    open spec fn view(&self) -> MessageView {
        MessageView {
            datetime: self.datetime@,
            timezone_offset: int_opt(self.timezone_offset),
            session_id: self.session_id@,
            sender: self.sender_friendly_name@,
            receiver: self.receiver_friendly_name@,
            data: data_views(self.data@),
        }
    }
}

pub open spec fn int_opt(o: Option<i64>) -> Option<int> {
    match o {
        Some(x) => Some(x as int),
        None => None,
    }
}

pub open spec fn blank_view() -> MessageView {
    MessageView {
        datetime: Seq::empty(),
        timezone_offset: None,
        session_id: Seq::empty(),
        sender: Seq::empty(),
        receiver: Seq::empty(),
        data: Seq::empty(),
    }
}

pub open spec fn opt_view(o: Option<String>) -> Option<Seq<char>> {
    match o {
        Some(s) => Some(s@),
        None => None,
    }
}

/// The value of the last attribute named `key`: later duplicates win.
pub open spec fn lookup(attrs: Seq<Attribute>, key: Seq<char>) -> Option<Seq<char>>
    decreases attrs.len(),
{
    if attrs.len() == 0 {
        None
    } else if attrs.last().name@ == key {
        Some(attrs.last().value@)
    } else {
        lookup(attrs.drop_last(), key)
    }
}

/// The value of attribute `key`, or `dflt` where it is absent.
pub open spec fn lookup_or(attrs: Seq<Attribute>, key: Seq<char>, dflt: Seq<char>) -> Seq<char> {
    match lookup(attrs, key) {
        Some(v) => v,
        None => dflt,
    }
}

impl Message {
    /// A record with every field empty and no payload.
    pub open spec fn is_blank(&self) -> bool {
        &&& self.datetime@ == Seq::<char>::empty()
        &&& self.timezone_offset.is_none()
        &&& self.session_id@ == Seq::<char>::empty()
        &&& self.sender_friendly_name@ == Seq::<char>::empty()
        &&& self.receiver_friendly_name@ == Seq::<char>::empty()
        &&& self.data@.len() == 0
    }

    pub fn blank() -> (r: Message)
        ensures
            r.is_blank(),
            r@ == blank_view(),
    {
        let r = Message {
            datetime: String::new(),
            timezone_offset: None,
            session_id: String::new(),
            sender_friendly_name: String::new(),
            receiver_friendly_name: String::new(),
            data: Vec::new(),
        };
        assert(data_views(r.data@) =~= Seq::<DataView>::empty());
        r
    }
}

/// The value of attribute `key` in `attrs`; the last one wins on duplicates.
pub fn attribute(attrs: &Vec<Attribute>, key: &str) -> (r: Option<String>)
    ensures
        opt_view(r) == lookup(attrs@, key@),
{
    let mut i: usize = attrs.len();
    assert(attrs@.subrange(0, i as int) =~= attrs@);
    while i > 0
        invariant
            i <= attrs@.len(),
            lookup(attrs@, key@) == lookup(attrs@.subrange(0, i as int), key@),
        decreases i,
    {
        let a = &attrs[i - 1];
        if crate::text::str_eq(a.name.as_str(), key) {
            return Some(a.value.clone());
        }
        assert(attrs@.subrange(0, i as int).drop_last() =~= attrs@.subrange(0, i - 1));
        i = i - 1;
    }
    None
}

/// The value of attribute `key`, or a copy of `dflt` where it is absent.
pub fn attribute_or(attrs: &Vec<Attribute>, key: &str, dflt: &str) -> (r: String)
    ensures
        r@ == lookup_or(attrs@, key@, dflt@),
{
    match attribute(attrs, key) {
        Some(v) => v,
        None => dflt.to_string(),
    }
}

} // verus!
