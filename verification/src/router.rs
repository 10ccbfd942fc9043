//! The update router: what the bot does for one update, one action at a
//! time. The router decides; its caller performs each action against the
//! transport or the store and reports what came of it.

use crate::card::{card, compose_card};
use crate::command::{
    classified,
    classify,
    classify_inline,
    Classified,
    ClassifiedView,
    Intent,
    IntentView,
    Row,
};
use crate::entry::{views as entry_views, Entry, EntryView};
use crate::listing::{
    compose_list,
    lemma_listing_is_capped,
    listing,
    placeholder,
    placeholder_view,
    views as candidate_views,
    Candidate,
    CandidateView,
    LIST_CAP,
};
use crate::text::lowercase_of;
use vstd::prelude::*;

verus! {

/// The language that every lookup is for.
pub const DEFAULT_LANGUAGE: &'static str = "en";

/// The reply to a search command without a term.
pub const PROMPT: &'static str = "Please provide a word to search.";

/// The reply to a search for one entry that found none.
pub const NOT_FOUND: &'static str = "No results found.";

/// The name under which the dictionary is sent as a document.
pub const DOCUMENT_NAME: &'static str = "brainworms.pdf";

/// The reply that says who made the bot.
pub const INFO_TEXT: &'static str =
    "Developed by <a href=\"https://puppy.support/\">oljoi</a>\nSource code avaiable at <a href=\"https://toys.puppy.support/oljoi/brainwormsbot\">toys.puppy.support</a>\n";

/// An inbound event of the transport.
#[derive(Debug, PartialEq, Eq)]
pub enum Update {
    /// A direct message in the conversation `chat`, with its text if it has
    /// any.
    Message { chat: i64, text: Option<String> },
    /// An inline query, identified by `id`.
    InlineQuery { id: String, query: String },
}

/// An update as a mathematical value. A message without text has the empty
/// text.
pub enum UpdateView {
    Message { chat: int, text: Seq<char> },
    InlineQuery { id: Seq<char>, query: Seq<char> },
}

impl View for Update {
    type V = UpdateView;

    open spec fn view(&self) -> UpdateView {
        match self {
            Update::Message { chat, text } => UpdateView::Message {
                chat: *chat as int,
                text: match text {
                    Some(text) => text@,
                    None => Seq::empty(),
                },
            },
            Update::InlineQuery { id, query } => UpdateView::InlineQuery { id: id@, query: query@ },
        }
    }
}

/// What the bot shows to be busy with.
#[derive(Clone, Copy, Debug, PartialEq, Eq)]
pub enum Indicator {
    Typing,
    UploadDocument,
}

/// What the router asks its caller to do next.
#[derive(Debug, PartialEq, Eq)]
pub enum Action {
    /// Show the indicator in the conversation.
    Indicate { chat: i64, indicator: Indicator },
    /// Send the text, which is markup, to the conversation.
    SendText { chat: i64, text: String },
    /// Send the dictionary as a document to the conversation.
    SendDocument { chat: i64 },
    /// Answer the inline query with the results, in this order.
    AnswerInline { query: String, results: Vec<Candidate> },
    /// Ask the store for the first entry that matches.
    FindOne { term: String, language: String },
    /// Ask the store for all the entries that match.
    FindMany { term: String, language: String },
    /// Nothing more: the update is handled.
    Done,
    /// Nothing more: handling the update has failed.
    Fail,
}

/// An action as a mathematical value.
pub enum ActionView {
    Indicate { chat: int, indicator: Indicator },
    SendText { chat: int, text: Seq<char> },
    SendDocument { chat: int },
    AnswerInline { query: Seq<char>, results: Seq<CandidateView> },
    FindOne { term: Seq<char>, language: Seq<char> },
    FindMany { term: Seq<char>, language: Seq<char> },
    Done,
    Fail,
}

impl View for Action {
    type V = ActionView;

    open spec fn view(&self) -> ActionView {
        match self {
            Action::Indicate { chat, indicator } => ActionView::Indicate {
                chat: *chat as int,
                indicator: *indicator,
            },
            Action::SendText { chat, text } => ActionView::SendText {
                chat: *chat as int,
                text: text@,
            },
            Action::SendDocument { chat } => ActionView::SendDocument { chat: *chat as int },
            Action::AnswerInline { query, results } => ActionView::AnswerInline {
                query: query@,
                results: candidate_views(results@),
            },
            Action::FindOne { term, language } => ActionView::FindOne {
                term: term@,
                language: language@,
            },
            Action::FindMany { term, language } => ActionView::FindMany {
                term: term@,
                language: language@,
            },
            Action::Done => ActionView::Done,
            Action::Fail => ActionView::Fail,
        }
    }
}

/// What came of the action that the router asked for.
#[derive(Debug, PartialEq, Eq)]
pub enum Event {
    /// The transport has done what it was asked.
    Sent,
    /// The transport has failed.
    SendFailed,
    /// The store has found this entry.
    Found(Entry),
    /// The store holds no entry that matches.
    NotFound,
    /// The store has found these entries, in this order.
    Matches(Vec<Entry>),
    /// The store has failed.
    StoreFailed,
}

/// An event as a mathematical value.
pub enum EventView {
    Sent,
    SendFailed,
    Found(EntryView),
    NotFound,
    Matches(Seq<EntryView>),
    StoreFailed,
}

impl View for Event {
    type V = EventView;

    open spec fn view(&self) -> EventView {
        match self {
            Event::Sent => EventView::Sent,
            Event::SendFailed => EventView::SendFailed,
            Event::Found(entry) => EventView::Found(entry@),
            Event::NotFound => EventView::NotFound,
            Event::Matches(entries) => EventView::Matches(entry_views(entries@)),
            Event::StoreFailed => EventView::StoreFailed,
        }
    }
}

/// How far the handling of one update has come.
#[derive(Debug, PartialEq, Eq)]
pub enum State {
    /// The upload indicator is out; the document comes next.
    SourceAnnounced { chat: i64 },
    /// The typing indicator is out; the lookup of `term` comes next.
    SearchAnnounced { chat: i64, term: String },
    /// The store is asked for one entry; the reply to `chat` comes next.
    LookingUpOne { chat: i64 },
    /// The store is asked for many entries; the answer to `query` comes next.
    LookingUpMany { query: String },
    /// The reply is out.
    Replying,
    /// Nothing is left to do.
    Finished,
}

/// A state as a mathematical value.
pub enum StateView {
    SourceAnnounced { chat: int },
    SearchAnnounced { chat: int, term: Seq<char> },
    LookingUpOne { chat: int },
    LookingUpMany { query: Seq<char> },
    Replying,
    Finished,
}

impl View for State {
    type V = StateView;

    open spec fn view(&self) -> StateView {
        match self {
            State::SourceAnnounced { chat } => StateView::SourceAnnounced { chat: *chat as int },
            State::SearchAnnounced { chat, term } => StateView::SearchAnnounced {
                chat: *chat as int,
                term: term@,
            },
            State::LookingUpOne { chat } => StateView::LookingUpOne { chat: *chat as int },
            State::LookingUpMany { query } => StateView::LookingUpMany { query: query@ },
            State::Replying => StateView::Replying,
            State::Finished => StateView::Finished,
        }
    }
}

/// How the handling of a direct message begins, given its conversation and
/// how its text was classified. The dictionary is announced by the upload
/// indicator and a search by the typing indicator; the makers are named and
/// a search without a term is answered at once; for anything else nothing
/// is done.
pub open spec fn opened_message(chat: int, c: ClassifiedView) -> (StateView, ActionView) {
    match c.intent {
        IntentView::ShowSource => (
            StateView::SourceAnnounced { chat },
            ActionView::Indicate { chat, indicator: Indicator::UploadDocument },
        ),
        IntentView::ShowInfo => (
            StateView::Replying,
            ActionView::SendText { chat, text: INFO_TEXT@ },
        ),
        IntentView::SearchOne(term) => (
            StateView::SearchAnnounced { chat, term },
            ActionView::Indicate { chat, indicator: Indicator::Typing },
        ),
        _ => if c.row == Row::SearchWithoutTerm {
            (StateView::Replying, ActionView::SendText { chat, text: PROMPT@ })
        } else {
            (StateView::Finished, ActionView::Done)
        },
    }
}

/// How the handling of an inline query begins, given its identifier and how
/// the query was classified: the store is asked for all the entries that
/// match the term.
pub open spec fn opened_inline(id: Seq<char>, intent: IntentView) -> (StateView, ActionView) {
    match intent {
        IntentView::SearchMany(term) => (
            StateView::LookingUpMany { query: id },
            ActionView::FindMany { term, language: DEFAULT_LANGUAGE@ },
        ),
        _ => (StateView::Finished, ActionView::Done),
    }
}

/// How the handling of an update begins. A direct message is classified by
/// its text in lowercase; an inline query is a search for many entries, for
/// the query as it is, empty or not.
pub open spec fn opened(update: UpdateView) -> (StateView, ActionView) {
    match update {
        UpdateView::Message { chat, text } => opened_message(
            chat,
            classified(lowercase_of(text)),
        ),
        UpdateView::InlineQuery { id, query } => opened_inline(id, IntentView::SearchMany(query)),
    }
}

/// How the handling of an update goes on from `state` when `event` comes in.
/// An event that the state does not wait for ends the handling in failure,
/// and so does a failure of the transport. A failure of the store is
/// answered as if nothing had been found.
pub open spec fn next(state: StateView, event: EventView, fallback: CandidateView) -> (
    StateView,
    ActionView,
) {
    match (state, event) {
        (StateView::SourceAnnounced { chat }, EventView::Sent) => (
            StateView::Replying,
            ActionView::SendDocument { chat },
        ),
        (StateView::SearchAnnounced { chat, term }, EventView::Sent) => (
            StateView::LookingUpOne { chat },
            ActionView::FindOne { term, language: DEFAULT_LANGUAGE@ },
        ),
        (StateView::LookingUpOne { chat }, EventView::Found(entry)) => (
            StateView::Replying,
            ActionView::SendText { chat, text: card(entry) },
        ),
        (StateView::LookingUpOne { chat }, EventView::NotFound)
        | (StateView::LookingUpOne { chat }, EventView::StoreFailed) => (
            StateView::Replying,
            ActionView::SendText { chat, text: NOT_FOUND@ },
        ),
        (StateView::LookingUpMany { query }, EventView::Matches(entries)) => (
            StateView::Replying,
            ActionView::AnswerInline { query, results: listing(entries, fallback) },
        ),
        (StateView::LookingUpMany { query }, EventView::StoreFailed) => (
            StateView::Replying,
            ActionView::AnswerInline { query, results: listing(Seq::empty(), fallback) },
        ),
        (StateView::Replying, EventView::Sent) => (StateView::Finished, ActionView::Done),
        _ => (StateView::Finished, ActionView::Fail),
    }
}

/// The router: it holds the candidate that stands for an empty result, made
/// once and handed out with every empty answer.
pub struct Router {
    pub fallback: Candidate,
}

impl Router {
    /// Makes a router with the placeholder candidate as its fallback.
    pub fn new() -> (r: Router)
        ensures
            r.fallback@ == placeholder_view(),
    {
        Router { fallback: placeholder() }
    }

    /// Begins the handling of a direct message in the conversation `chat`
    /// that was classified as `c`.
    pub fn open_message(&self, chat: i64, c: Classified) -> (r: (State, Action))
        ensures
            (r.0@, r.1@) == opened_message(chat as int, c@),
    {
        match c.intent {
            Intent::ShowSource => (
                State::SourceAnnounced { chat },
                Action::Indicate { chat, indicator: Indicator::UploadDocument },
            ),
            Intent::ShowInfo => (
                State::Replying,
                Action::SendText { chat, text: INFO_TEXT.to_owned() },
            ),
            Intent::SearchOne(term) => (
                State::SearchAnnounced { chat, term },
                Action::Indicate { chat, indicator: Indicator::Typing },
            ),
            _ => match c.row {
                Row::SearchWithoutTerm => (
                    State::Replying,
                    Action::SendText { chat, text: PROMPT.to_owned() },
                ),
                _ => (State::Finished, Action::Done),
            },
        }
    }

    /// Begins the handling of the inline query `id` that was classified as
    /// `intent`.
    pub fn open_inline(&self, id: String, intent: Intent) -> (r: (State, Action))
        ensures
            (r.0@, r.1@) == opened_inline(id@, intent@),
    {
        match intent {
            Intent::SearchMany(term) => (
                State::LookingUpMany { query: id },
                Action::FindMany { term, language: DEFAULT_LANGUAGE.to_owned() },
            ),
            _ => (State::Finished, Action::Done),
        }
    }

    /// Begins the handling of `update`: says what to do first, and what is
    /// waited for then.
    pub fn begin(&self, update: Update) -> (r: (State, Action))
        ensures
            (r.0@, r.1@) == opened(update@),
    {
        match update {
            Update::Message { chat, text } => {
                let text = match text {
                    Some(text) => text,
                    None => String::new(),
                };
                self.open_message(chat, classify(text.as_str()))
            },
            Update::InlineQuery { id, query } => self.open_inline(
                id,
                classify_inline(query.as_str()),
            ),
        }
    }

    /// Goes on with the handling of an update: takes what came of the last
    /// action, and says what to do next.
    pub fn advance(&self, state: State, event: Event) -> (r: (State, Action))
        ensures
            (r.0@, r.1@) == next(state@, event@, self.fallback@),
    {
        match (state, event) {
            (State::SourceAnnounced { chat }, Event::Sent) => (
                State::Replying,
                Action::SendDocument { chat },
            ),
            (State::SearchAnnounced { chat, term }, Event::Sent) => (
                State::LookingUpOne { chat },
                Action::FindOne { term, language: DEFAULT_LANGUAGE.to_owned() },
            ),
            (State::LookingUpOne { chat }, Event::Found(entry)) => (
                State::Replying,
                Action::SendText { chat, text: compose_card(&entry) },
            ),
            (State::LookingUpOne { chat }, Event::NotFound)
            | (State::LookingUpOne { chat }, Event::StoreFailed) => (
                State::Replying,
                Action::SendText { chat, text: NOT_FOUND.to_owned() },
            ),
            (State::LookingUpMany { query }, Event::Matches(entries)) => (
                State::Replying,
                Action::AnswerInline { query, results: compose_list(&entries, &self.fallback) },
            ),
            (State::LookingUpMany { query }, Event::StoreFailed) => {
                let none: Vec<Entry> = Vec::new();
                (
                    State::Replying,
                    Action::AnswerInline { query, results: compose_list(&none, &self.fallback) },
                )
            },
            (State::Replying, Event::Sent) => (State::Finished, Action::Done),
            _ => (State::Finished, Action::Fail),
        }
    }
}

/// Whether `action` is a reply: a message, a document or an answer that
/// reaches the user.
pub open spec fn is_reply(action: ActionView) -> bool {
    action is SendText || action is SendDocument || action is AnswerInline
}

/// Whether `action` ends the handling of an update.
pub open spec fn is_last(action: ActionView) -> bool {
    action is Done || action is Fail
}

/// The most actions that can follow in `state`.
pub open spec fn steps_left(state: StateView) -> nat {
    match state {
        StateView::SearchAnnounced { .. } => 3,
        StateView::SourceAnnounced { .. } => 2,
        StateView::LookingUpOne { .. } => 2,
        StateView::LookingUpMany { .. } => 2,
        StateView::Replying => 1,
        StateView::Finished => 0,
    }
}

/// The actions that the router asks for, one after the other, when the
/// events come in as `events` says, from `state` on and until the handling
/// has ended.
pub open spec fn run(state: StateView, events: Seq<EventView>, fallback: CandidateView) -> Seq<
    ActionView,
>
    decreases events.len(),
{
    if events.len() == 0 || state is Finished {
        Seq::empty()
    } else {
        let (then, action) = next(state, events[0], fallback);
        seq![action] + run(then, events.drop_first(), fallback)
    }
}

/// How many of `actions` are replies.
pub open spec fn replies(actions: Seq<ActionView>) -> nat
    decreases actions.len(),
{
    if actions.len() == 0 {
        0
    } else if is_reply(actions[0]) {
        1 + replies(actions.drop_first())
    } else {
        replies(actions.drop_first())
    }
}

/// The handling ends exactly when the action is a last one.
pub proof fn lemma_last_action_finishes(
    update: UpdateView,
    state: StateView,
    event: EventView,
    fallback: CandidateView,
)
    ensures
        opened(update).0 is Finished <==> is_last(opened(update).1),
        next(state, event, fallback).0 is Finished <==> is_last(next(state, event, fallback).1),
{
}

/// A failure of the transport ends the handling in failure, wherever it had
/// come to.
pub proof fn lemma_transport_failure_is_last(state: StateView, fallback: CandidateView)
    ensures
        next(state, EventView::SendFailed, fallback) == (StateView::Finished, ActionView::Fail),
{
}

/// A failure of the store shows as an empty result: in a search for one
/// entry as if none had been found, in a search for many as if the store had
/// found no entries.
pub proof fn lemma_store_failure_is_empty_result(
    chat: int,
    query: Seq<char>,
    fallback: CandidateView,
)
    ensures
        next(StateView::LookingUpOne { chat }, EventView::StoreFailed, fallback) == next(
            StateView::LookingUpOne { chat },
            EventView::NotFound,
            fallback,
        ),
        next(StateView::LookingUpMany { query }, EventView::StoreFailed, fallback) == next(
            StateView::LookingUpMany { query },
            EventView::Matches(Seq::empty()),
            fallback,
        ),
        next(StateView::LookingUpMany { query }, EventView::StoreFailed, fallback).1
            == (ActionView::AnswerInline { query, results: seq![fallback] }),
{
}

/// An inline query is always looked up, for the query as it is: the empty
/// query too.
pub proof fn lemma_inline_query_is_looked_up(id: Seq<char>, query: Seq<char>)
    ensures
        opened(UpdateView::InlineQuery { id, query }) == (
            StateView::LookingUpMany { query: id },
            ActionView::FindMany { term: query, language: DEFAULT_LANGUAGE@ },
        ),
{
}

/// Where the store finds nothing for an inline query, a router that holds the
/// placeholder answers with the placeholder and nothing else.
pub proof fn lemma_empty_answer_is_the_placeholder(query: Seq<char>)
    ensures
        next(
            StateView::LookingUpMany { query },
            EventView::Matches(Seq::empty()),
            placeholder_view(),
        ).1 == (ActionView::AnswerInline { query, results: seq![placeholder_view()] }),
{
}

/// An answer to an inline query holds at least one result and at most
/// [`LIST_CAP`], however many entries the store has found.
pub proof fn lemma_answer_is_capped(state: StateView, event: EventView, fallback: CandidateView)
    ensures
        next(state, event, fallback).1 matches ActionView::AnswerInline { results, .. } ==> 1
            <= results.len() <= LIST_CAP,
{
    match event {
        EventView::Matches(entries) => lemma_listing_is_capped(entries, fallback),
        _ => lemma_listing_is_capped(Seq::empty(), fallback),
    }
}

/// Every lookup that the router asks for is for the default language.
pub proof fn lemma_lookups_are_for_default_language(
    update: UpdateView,
    state: StateView,
    event: EventView,
    fallback: CandidateView,
)
    ensures
        opened(update).1 matches ActionView::FindMany { language, .. } ==> language
            == DEFAULT_LANGUAGE@,
        !(opened(update).1 is FindOne),
        next(state, event, fallback).1 matches ActionView::FindOne { language, .. } ==> language
            == DEFAULT_LANGUAGE@,
        !(next(state, event, fallback).1 is FindMany),
{
}

/// From `state` on, whatever events come in, at most `steps_left(state)`
/// actions follow, and at most one of them is a reply; none is where the
/// reply is out already.
pub proof fn lemma_run_is_bounded(
    state: StateView,
    events: Seq<EventView>,
    fallback: CandidateView,
)
    ensures
        run(state, events, fallback).len() <= steps_left(state),
        replies(run(state, events, fallback)) <= 1,
        state is Replying ==> replies(run(state, events, fallback)) == 0,
    decreases events.len(),
{
    if events.len() > 0 && !(state is Finished) {
        let (then, action) = next(state, events[0], fallback);
        let rest = run(then, events.drop_first(), fallback);
        lemma_run_is_bounded(then, events.drop_first(), fallback);
        assert((seq![action] + rest).drop_first() == rest);
    }
}

/// Where the actions from `state` on end with success, one of them is a
/// reply, unless the reply is out already.
pub proof fn lemma_run_that_succeeds_replies(
    state: StateView,
    events: Seq<EventView>,
    fallback: CandidateView,
)
    requires
        run(state, events, fallback).len() > 0,
        run(state, events, fallback).last() is Done,
    ensures
        replies(run(state, events, fallback)) == if state is Replying {
            0nat
        } else {
            1nat
        },
    decreases events.len(),
{
    let (then, action) = next(state, events[0], fallback);
    let rest = run(then, events.drop_first(), fallback);
    let whole = run(state, events, fallback);
    assert(whole.drop_first() == rest);
    if rest.len() > 0 {
        lemma_run_that_succeeds_replies(then, events.drop_first(), fallback);
    } else {
        assert(replies(rest) == 0);
    }
}

/// For one update the router asks for at most four actions, whatever the
/// transport and the store answer, and at most one of them is a reply.
pub proof fn lemma_one_reply_per_update(
    update: UpdateView,
    events: Seq<EventView>,
    fallback: CandidateView,
)
    ensures
        (seq![opened(update).1] + run(opened(update).0, events, fallback)).len() <= 4,
        replies(seq![opened(update).1] + run(opened(update).0, events, fallback)) <= 1,
{
    let (state, action) = opened(update);
    let rest = run(state, events, fallback);
    lemma_run_is_bounded(state, events, fallback);
    assert((seq![action] + rest).drop_first() == rest);
}

/// An update that is handled with success is answered by exactly one reply,
/// unless it called for nothing at all.
pub proof fn lemma_success_is_one_reply(
    update: UpdateView,
    events: Seq<EventView>,
    fallback: CandidateView,
)
    requires
        (seq![opened(update).1] + run(opened(update).0, events, fallback)).last() is Done,
    ensures
        replies(seq![opened(update).1] + run(opened(update).0, events, fallback)) == if opened(
            update,
        ).1 is Done {
            0nat
        } else {
            1nat
        },
{
    let (state, action) = opened(update);
    let rest = run(state, events, fallback);
    let whole = seq![action] + rest;
    assert(whole.drop_first() == rest);
    if rest.len() > 0 {
        lemma_run_that_succeeds_replies(state, events, fallback);
    } else {
        assert(replies(rest) == 0);
    }
}

} // verus!
