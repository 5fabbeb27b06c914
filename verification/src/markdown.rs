//! The structure of a markdown document, as far as reference extraction
//! reads it: headings, lists, list items and the text inside them.

use pulldown_cmark::{Event, Parser, Tag, TagEnd};
use vstd::prelude::*;
use vstd::string::StringExecFns;

verus! {

/// One step of a walk through a markdown document.
#[derive(Debug)]
pub enum MarkdownEvent {
    HeadingStart,
    ListStart,
    ListEnd,
    ItemStart,
    ItemEnd,
    Text(String),
    /// Anything else: it never changes what is extracted.
    Other,
}

/// A [`MarkdownEvent`] with its text as a sequence of characters.
pub enum EventView {
    HeadingStart,
    ListStart,
    ListEnd,
    ItemStart,
    ItemEnd,
    Text(Seq<char>),
    Other,
}

impl View for MarkdownEvent {
    type V = EventView;

    open spec fn view(&self) -> EventView {
        match self {
            MarkdownEvent::HeadingStart => EventView::HeadingStart,
            MarkdownEvent::ListStart => EventView::ListStart,
            MarkdownEvent::ListEnd => EventView::ListEnd,
            MarkdownEvent::ItemStart => EventView::ItemStart,
            MarkdownEvent::ItemEnd => EventView::ItemEnd,
            MarkdownEvent::Text(text) => EventView::Text(text@),
            MarkdownEvent::Other => EventView::Other,
        }
    }
}

/// The views of a sequence of events, in the same order.
pub open spec fn event_views(events: Seq<MarkdownEvent>) -> Seq<EventView> {
    events.map_values(|event: MarkdownEvent| event@)
}

/// The events that the markdown parser yields for a document, in order.
pub uninterp spec fn markdown_events(content: Seq<char>) -> Seq<EventView>;

/// Runs `pulldown_cmark::Parser::new(content)` to its end and keeps, of each
/// event, its kind and, for a text node, its text. Believed, not proved: the
/// events depend on the document alone, so that the same document always gives
/// [`markdown_events`] of it.
#[verifier::external_body]
pub(crate) fn parse_markdown(content: &str) -> (events: Vec<MarkdownEvent>)
    ensures
        event_views(events@) == markdown_events(content@),
{
    let mut events = Vec::new();
    for event in Parser::new(content) {
        events.push(match event {
            Event::Start(Tag::Heading { .. }) => MarkdownEvent::HeadingStart,
            Event::Start(Tag::List(_)) => MarkdownEvent::ListStart,
            Event::End(TagEnd::List(_)) => MarkdownEvent::ListEnd,
            Event::Start(Tag::Item) => MarkdownEvent::ItemStart,
            Event::End(TagEnd::Item) => MarkdownEvent::ItemEnd,
            Event::Text(text) => MarkdownEvent::Text(text.to_string()),
            _ => MarkdownEvent::Other,
        });
    }
    events
}

/// Where a walk through a document stands.
pub struct ScanState {
    /// Whether text has been seen since the last heading began.
    pub heading_seen: bool,
    /// Whether the last list event was a start.
    pub in_list: bool,
    /// Whether an item is open and its text is being gathered.
    pub collecting: bool,
    /// The text gathered for the item that was opened last.
    pub text: Seq<char>,
}

/// The state before the first event.
pub open spec fn scan_start() -> ScanState {
    ScanState { heading_seen: false, in_list: false, collecting: false, text: Seq::empty() }
}

/// The state after one more event.
///
/// A single flag tracks lists, so the end of an inner list also ends the outer
/// one as far as the walk is concerned: items that follow it are not opened.
pub open spec fn scan_step(state: ScanState, event: EventView) -> ScanState {
    match event {
        EventView::HeadingStart => ScanState { heading_seen: false, ..state },
        EventView::ListStart => ScanState { in_list: true, ..state },
        EventView::ListEnd => ScanState { in_list: false, ..state },
        EventView::ItemStart => if state.in_list {
            ScanState { collecting: true, text: Seq::empty(), ..state }
        } else {
            state
        },
        EventView::ItemEnd => ScanState { collecting: false, ..state },
        EventView::Text(text) => ScanState {
            heading_seen: true,
            text: if state.collecting {
                state.text + text
            } else {
                state.text
            },
            ..state
        },
        EventView::Other => state,
    }
}

/// The text of the item that an event closes, if it closes one.
pub open spec fn closed_item(state: ScanState, event: EventView) -> Option<Seq<char>> {
    if event is ItemEnd && state.collecting {
        Some(state.text)
    } else {
        None
    }
}

/// The state after a sequence of events.
pub open spec fn scan(events: Seq<EventView>) -> ScanState
    decreases events.len(),
{
    if events.len() == 0 {
        scan_start()
    } else {
        scan_step(scan(events.drop_last()), events.last())
    }
}

/// The texts of the items that a sequence of events closes, in order.
pub open spec fn item_texts(events: Seq<EventView>) -> Seq<Seq<char>>
    decreases events.len(),
{
    if events.len() == 0 {
        Seq::empty()
    } else {
        let before = item_texts(events.drop_last());
        match closed_item(scan(events.drop_last()), events.last()) {
            Some(text) => before.push(text),
            None => before,
        }
    }
}

/// The views of a sequence of strings, in the same order.
pub open spec fn text_views(texts: Seq<String>) -> Seq<Seq<char>> {
    texts.map_values(|text: String| text@)
}

/// A walk through a document, fed one event at a time.
pub struct Scanner {
    heading_seen: bool,
    in_list: bool,
    collecting: bool,
    text: String,
}

impl View for Scanner {
    type V = ScanState;

    closed spec fn view(&self) -> ScanState {
        ScanState {
            heading_seen: self.heading_seen,
            in_list: self.in_list,
            collecting: self.collecting,
            text: self.text@,
        }
    }
}

impl Scanner {
    /// A walk that has seen no event yet.
    pub fn new() -> (scanner: Scanner)
        ensures
            scanner@ == scan_start(),
    {
        Scanner { heading_seen: false, in_list: false, collecting: false, text: String::new() }
    }

    /// Whether text has been seen since the last heading began.
    pub fn heading_seen(&self) -> (seen: bool)
        ensures
            seen == self@.heading_seen,
    {
        self.heading_seen
    }

    /// Takes one event. Returns the text of the list item that the event
    /// closes, if it closes one.
    pub fn feed(&mut self, event: &MarkdownEvent) -> (closed: Option<String>)
        ensures
            final(self)@ == scan_step(old(self)@, event@),
            closed is Some <==> closed_item(old(self)@, event@) is Some,
            closed is Some ==> closed->Some_0@ == closed_item(old(self)@, event@)->Some_0,
    {
        match event {
            MarkdownEvent::HeadingStart => {
                self.heading_seen = false;
                None
            },
            MarkdownEvent::ListStart => {
                self.in_list = true;
                None
            },
            MarkdownEvent::ListEnd => {
                self.in_list = false;
                None
            },
            MarkdownEvent::ItemStart => {
                if self.in_list {
                    self.collecting = true;
                    self.text = String::new();
                }
                None
            },
            MarkdownEvent::ItemEnd => {
                if self.collecting {
                    self.collecting = false;
                    Some(self.text.clone())
                } else {
                    None
                }
            },
            MarkdownEvent::Text(text) => {
                self.heading_seen = true;
                if self.collecting {
                    self.text.append(text.as_str());
                }
                None
            },
            MarkdownEvent::Other => None,
        }
    }
}

/// Walks a sequence of events and gathers the text of each list item that
/// was opened inside a list, in the order in which the items close.
pub fn collect_item_texts(events: &Vec<MarkdownEvent>) -> (texts: Vec<String>)
    ensures
        text_views(texts@) == item_texts(event_views(events@)),
{
    let ghost views = event_views(events@);
    let mut scanner = Scanner::new();
    let mut texts: Vec<String> = Vec::new();
    let mut position: usize = 0;
    while position < events.len()
        invariant
            position <= events.len(),
            views == event_views(events@),
            scanner@ == scan(views.take(position as int)),
            text_views(texts@) == item_texts(views.take(position as int)),
        decreases events.len() - position,
    {
        let ghost before = texts@;
        proof {
            assert(views.take(position + 1).drop_last() == views.take(position as int));
            assert(views.take(position + 1).last() == events[position as int]@);
        }
        if let Some(text) = scanner.feed(&events[position]) {
            texts.push(text);
            assert(text_views(texts@) == text_views(before).push(text@));
        }
        position += 1;
    }
    assert(views.take(position as int) == views);
    texts
}

} // verus!
