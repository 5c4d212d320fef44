use messenger_archive::{
    ArchiveDetails, Attribute, Data, Event, FileType, Image, Message, MessengerPlusParser, ParseError, Step, Text,
};

fn start(name: &str, attrs: &[(&str, &str)]) -> Event {
    Event::Start {
        name: name.to_string(),
        attributes: attrs
            .iter()
            .map(|(k, v)| Attribute { name: k.to_string(), value: v.to_string() })
            .collect(),
    }
}

fn chars(s: &str) -> Event {
    Event::Characters(s.to_string())
}

fn end(name: &str) -> Event {
    Event::End { name: name.to_string() }
}

const BOB_STYLE: &str = "font-family:\"Courier New\";color:#004000;";
const ALICE_STYLE: &str = "font-family:\"Segoe UI\";";
const SESSION: &str = "Session_2009-08-05T19-30-21";

fn session_open(owner: &str, counterpart: &str) -> Vec<Event> {
    vec![
        start("html", &[]),
        start("body", &[]),
        start("div", &[("class", "mplsession"), ("id", SESSION)]),
        start("ul", &[]),
        start("li", &[("class", "in")]),
        chars(owner),
        end("li"),
        start("li", &[]),
        chars(counterpart),
        end("li"),
        end("ul"),
        start("table", &[]),
        start("tbody", &[]),
    ]
}

fn session_close() -> Vec<Event> {
    vec![end("tbody"), end("table"), end("div"), end("body"), end("html"), Event::EndDocument]
}

fn row(clock: &str, header: &str, style: &str, lines: &[&str]) -> Vec<Event> {
    let mut v = vec![
        start("tr", &[]),
        start("th", &[]),
        start("span", &[]),
        chars(clock),
        end("span"),
        chars(header),
        end("th"),
        start("td", &[("style", style)]),
    ];
    for (i, l) in lines.iter().enumerate() {
        if i > 0 {
            v.push(start("br", &[]));
            v.push(end("br"));
        }
        v.push(chars(l));
    }
    v.push(end("td"));
    v.push(end("tr"));
    v
}

fn status_row(clock: &str, text: &str) -> Vec<Event> {
    vec![
        start("tr", &[("class", "msgplus")]),
        start("th", &[]),
        start("span", &[]),
        chars(clock),
        end("span"),
        end("th"),
        start("td", &[]),
        chars(text),
        end("td"),
        end("tr"),
    ]
}

/// Feeds every event; images get `image` as their content.
fn run(parser: &mut MessengerPlusParser, events: Vec<Event>, image: &[u8]) -> Result<Vec<Message>, ParseError> {
    let mut out = Vec::new();
    for e in events {
        match parser.feed(e)? {
            Step::Record(m) => out.push(m),
            Step::LoadImage(_) => parser.attach_image(image.to_vec()),
            Step::Continue => {}
        }
    }
    Ok(out)
}

fn text(style: &str, content: &str) -> Data {
    Data::Text(Text { style: style.to_string(), content: content.to_string() })
}

fn message(datetime: &str, sender: &str, receiver: &str, data: Vec<Data>) -> Message {
    Message {
        datetime: datetime.to_string(),
        timezone_offset: None,
        session_id: SESSION.to_string(),
        sender_friendly_name: sender.to_string(),
        receiver_friendly_name: receiver.to_string(),
        data,
    }
}

fn sample_events() -> Vec<Event> {
    let mut ev = session_open("Alice", "Bob");
    ev.extend(row("(19:30)", "Bob says:", BOB_STYLE, &["Hello Alice!", "How are you?"]));
    ev.extend(row(
        "(19:30)",
        "Alice says:",
        ALICE_STYLE,
        &["I'm fine, thank you!", "What about you?", "Have you called John about this weekend?"],
    ));
    ev.extend(row("(19:31)", "Bob says:", BOB_STYLE, &["Yes!", "He should have called you..."]));
    ev.extend(row("(19:31)", "Alice says:", ALICE_STYLE, &["He didn't!"]));
    ev.extend(vec![
        start("tr", &[]),
        start("th", &[]),
        start("span", &[]),
        chars("(19:35)"),
        end("span"),
        chars("Bob says:"),
        end("th"),
        start("td", &[("style", BOB_STYLE)]),
        start("img", &[("src", "./Images/MsgPlus_Img0663.png"), ("alt", ":)")]),
        end("img"),
        chars("Maybe you can call him?"),
        end("td"),
        end("tr"),
    ]);
    ev.extend(status_row("(19:44)", "Alice is now offline"));
    ev.extend(session_close());
    ev
}

const PNG: &[u8] = &[0x89, b'P', b'N', b'G', 0x0d, 0x0a, 0x1a, 0x0a];

#[test]
fn messenger_plus_parser_parse_sample_file() {
    let path = "test/alice@example.com.html";
    let mut parser = MessengerPlusParser::new(path).unwrap();
    let buffer = PNG.to_vec();

    let details = ArchiveDetails {
        file_type: FileType::MessengerPlus,
        recipient_id: "alice@example.com".to_string(),
        first_session_id: "Session_2009-08-05T19-30-21".to_string(),
        last_session_id: "Session_2009-08-05T19-30-21".to_string(),
    };
    let messages = vec![
        message("2009-08-05T19:30:21", "Bob", "Alice", vec![text(BOB_STYLE, "Hello Alice!"), text(BOB_STYLE, "How are you?")]),
        message(
            "2009-08-05T19:30",
            "Alice",
            "Bob",
            vec![
                text(ALICE_STYLE, "I'm fine, thank you!"),
                text(ALICE_STYLE, "What about you?"),
                text(ALICE_STYLE, "Have you called John about this weekend?"),
            ],
        ),
        message("2009-08-05T19:31", "Bob", "Alice", vec![text(BOB_STYLE, "Yes!"), text(BOB_STYLE, "He should have called you...")]),
        message("2009-08-05T19:31", "Alice", "Bob", vec![text(ALICE_STYLE, "He didn't!")]),
        message(
            "2009-08-05T19:35",
            "Bob",
            "Alice",
            vec![
                Data::Image(Image {
                    src: "./Images/MsgPlus_Img0663.png".to_string(),
                    alt: ":)".to_string(),
                    content: buffer,
                }),
                text(BOB_STYLE, "Maybe you can call him?"),
            ],
        ),
        message("2009-08-05T19:44", "", "", vec![Data::System("Alice is now offline".to_string())]),
    ];
    let got = run(&mut parser, sample_events(), PNG).unwrap();
    assert_eq!(got.len(), 6);
    assert_eq!(got[0], messages[0]);
    assert_eq!(got[1], messages[1]);
    assert_eq!(got[2], messages[2]);
    assert_eq!(got[3], messages[3]);
    assert_eq!(got[4], messages[4]);
    assert_eq!(got[5], messages[5]);
    assert_eq!(parser.details(), Some(&details));
}

#[test]
fn plus_image_requests_raw_src_and_trims_it() {
    let mut parser = MessengerPlusParser::new("dir/a.html").unwrap();
    let mut asked = Vec::new();
    let mut ev = session_open("A", "B");
    ev.extend(vec![
        start("tr", &[]),
        start("td", &[]),
        start("img", &[("src", "  pic.png "), ("alt", " :) ")]),
    ]);
    for e in ev {
        if let Step::LoadImage(p) = parser.feed(e).unwrap() {
            asked.push(p);
            parser.attach_image(vec![1, 2, 3]);
        }
    }
    assert_eq!(asked, vec!["  pic.png ".to_string()]);
    for e in vec![end("img"), end("td")] {
        parser.feed(e).unwrap();
    }
    match parser.feed(end("tr")).unwrap() {
        Step::Record(m) => assert_eq!(
            m.data,
            vec![Data::Image(Image { src: "pic.png".to_string(), alt: ":)".to_string(), content: vec![1, 2, 3] })]
        ),
        other => panic!("expected a record, got {:?}", other),
    }
}

#[test]
fn plus_record_count_matches_rows() {
    let mut parser = MessengerPlusParser::new("x/alice.html").unwrap();
    let events = sample_events();
    let rows = events
        .iter()
        .filter(|e| matches!(e, Event::End { name } if name == "tr"))
        .count();
    let got = run(&mut parser, events, PNG).unwrap();
    assert_eq!(got.len(), rows);
}

#[test]
fn plus_first_record_to_the_second_later_to_the_minute() {
    let mut parser = MessengerPlusParser::new("x/alice.html").unwrap();
    let got = run(&mut parser, sample_events(), PNG).unwrap();
    assert_eq!(got[0].datetime.len(), "2009-08-05T19:30:21".len());
    for m in &got[1..] {
        assert_eq!(m.datetime.len(), "2009-08-05T19:30".len());
    }
}

#[test]
fn plus_sender_does_not_depend_on_which_name_is_owner() {
    let mut a = MessengerPlusParser::new("x/alice.html").unwrap();
    let mut ev = session_open("Alice", "Bob");
    ev.extend(row("(10:00)", "Bob says:", BOB_STYLE, &["hi"]));
    ev.extend(row("(10:01)", "Alice says:", ALICE_STYLE, &["hey"]));
    ev.extend(session_close());
    let first = run(&mut a, ev, PNG).unwrap();

    let mut b = MessengerPlusParser::new("x/alice.html").unwrap();
    let mut ev = session_open("Bob", "Alice");
    ev.extend(row("(10:00)", "Bob says:", BOB_STYLE, &["hi"]));
    ev.extend(row("(10:01)", "Alice says:", ALICE_STYLE, &["hey"]));
    ev.extend(session_close());
    let second = run(&mut b, ev, PNG).unwrap();

    assert_eq!(first, second);
    assert_eq!(first[0].sender_friendly_name, "Bob");
    assert_eq!(first[0].receiver_friendly_name, "Alice");
    assert_eq!(first[1].sender_friendly_name, "Alice");
    assert_eq!(first[1].receiver_friendly_name, "Bob");
}

#[test]
fn plus_reparse_is_identical() {
    let mut a = MessengerPlusParser::new("x/alice.html").unwrap();
    let mut b = MessengerPlusParser::new("x/alice.html").unwrap();
    let ra = run(&mut a, sample_events(), PNG).unwrap();
    let rb = run(&mut b, sample_events(), PNG).unwrap();
    assert_eq!(ra, rb);
    assert_eq!(a.details(), b.details());
}

#[test]
fn plus_dialogue_and_status_rows() {
    let mut parser = MessengerPlusParser::new("x/alice.html").unwrap();
    let mut ev = session_open("Alice", "Bob");
    ev.extend(row("(08:15)", "Bob says:", BOB_STYLE, &["Morning"]));
    ev.extend(status_row("(08:16)", "Bob is now offline"));
    ev.extend(session_close());
    let got = run(&mut parser, ev, PNG).unwrap();
    assert_eq!(got.len(), 2);
    assert_eq!(got[0].data, vec![text(BOB_STYLE, "Morning")]);
    assert_eq!(got[1].data, vec![Data::System("Bob is now offline".to_string())]);
    assert_eq!(got[1].datetime, "2009-08-05T08:16");
}

#[test]
fn plus_details_only_after_end_and_frozen() {
    let mut parser = MessengerPlusParser::new("x/alice.html").unwrap();
    let mut ev = session_open("Alice", "Bob");
    ev.extend(row("(08:15)", "Bob says:", BOB_STYLE, &["Morning"]));
    ev.extend(session_close());
    for e in ev {
        assert!(parser.details().is_none());
        parser.feed(e).unwrap();
    }
    let frozen = parser.details().cloned().unwrap();
    assert_eq!(frozen.last_session_id, SESSION);
    for e in sample_events() {
        assert_eq!(parser.feed(e).unwrap(), Step::Continue);
    }
    assert_eq!(parser.details(), Some(&frozen));
}

#[test]
fn plus_details_without_any_session() {
    let mut parser = MessengerPlusParser::new("x/empty.html").unwrap();
    for e in vec![start("html", &[]), end("html"), Event::EndDocument] {
        parser.feed(e).unwrap();
    }
    let d = parser.details().unwrap();
    assert_eq!(d.first_session_id, "");
    assert_eq!(d.last_session_id, "");
    assert_eq!(d.recipient_id, "empty");
}

#[test]
fn plus_bad_session_id_is_an_error() {
    let mut parser = MessengerPlusParser::new("x/alice.html").unwrap();
    parser.feed(start("html", &[])).unwrap();
    parser.feed(start("body", &[])).unwrap();
    let r = parser.feed(start("div", &[("class", "mplsession"), ("id", "Session_yesterday")]));
    assert_eq!(r, Err(ParseError::BadSessionId("Session_yesterday".to_string())));
}

#[test]
fn plus_bad_clock_is_an_error() {
    let mut parser = MessengerPlusParser::new("x/alice.html").unwrap();
    let mut ev = session_open("Alice", "Bob");
    ev.extend(vec![start("tr", &[]), start("th", &[]), start("span", &[])]);
    for e in ev {
        parser.feed(e).unwrap();
    }
    assert_eq!(parser.feed(chars("19:30")), Err(ParseError::BadClock("19:30".to_string())));
}

#[test]
fn plus_path_without_directory_is_refused() {
    assert_eq!(MessengerPlusParser::new("").err(), Some(ParseError::NoDirectory("".to_string())));
    assert_eq!(MessengerPlusParser::new("/").err(), Some(ParseError::NoDirectory("/".to_string())));
    let p = MessengerPlusParser::new("archive/alice.html").unwrap();
    assert_eq!(p.directory(), "archive");
}

#[test]
fn plus_default_style_is_decoded_and_trimmed() {
    let mut parser = MessengerPlusParser::new("x/alice.html").unwrap();
    let mut ev = session_open("Alice", "Bob");
    ev.extend(vec![
        start("tr", &[]),
        start("td", &[("style", "  font-family:&quot;Arial&quot;; ")]),
        start("br", &[]),
        end("br"),
        chars("plain"),
        end("td"),
    ]);
    for e in ev {
        parser.feed(e).unwrap();
    }
    match parser.feed(end("tr")).unwrap() {
        Step::Record(m) => assert_eq!(m.data, vec![text("font-family:\"Arial\";", "plain")]),
        other => panic!("expected a record, got {:?}", other),
    }
}

#[test]
fn plus_own_style_is_trimmed_not_decoded() {
    let mut parser = MessengerPlusParser::new("x/alice.html").unwrap();
    let mut ev = session_open("Alice", "Bob");
    ev.extend(vec![start("tr", &[]), start("td", &[("style", " a&amp;b ")]), chars("x"), end("td")]);
    for e in ev {
        parser.feed(e).unwrap();
    }
    match parser.feed(end("tr")).unwrap() {
        Step::Record(m) => assert_eq!(m.data, vec![text("a&amp;b", "x")]),
        other => panic!("expected a record, got {:?}", other),
    }
}

#[test]
fn plus_owner_name_inside_header_makes_owner_sender() {
    let mut parser = MessengerPlusParser::new("x/alice.html").unwrap();
    let mut ev = session_open("  Al  ", "Bob");
    ev.extend(row("(10:00)", "Alice says:", ALICE_STYLE, &["x"]));
    ev.extend(session_close());
    let got = run(&mut parser, ev, PNG).unwrap();
    assert_eq!(got[0].sender_friendly_name, "Al");
    assert_eq!(got[0].receiver_friendly_name, "Bob");
}
