//! Commands: how the text of a direct message is split into a command and its
//! argument, which row of the command table the two fall under, and the
//! intent that the row stands for.

use crate::text::{is_space, is_whitespace, lowercase_of, same_text, to_chars};
use vstd::prelude::*;

verus! {

/// The command that opens the conversation.
pub const START: &'static str = "/start";

/// The argument with which [`START`] asks for the dictionary.
pub const START_SOURCE: &'static str = "source";

/// The command that asks for the dictionary.
pub const SOURCE: &'static str = "/source";

/// [`SOURCE`] without the slash.
pub const SOURCE_BARE: &'static str = "source";

/// The command that searches for one entry.
pub const SEARCH: &'static str = "/search";

/// [`SEARCH`] without the slash.
pub const SEARCH_BARE: &'static str = "search";

/// [`SEARCH`] in short.
pub const SEARCH_SHORT: &'static str = "s";

/// The command that asks who made the bot.
pub const INFO: &'static str = "/info";

/// [`INFO`] without the slash.
pub const INFO_BARE: &'static str = "info";

/// The first position at or after `from` where `s` holds no whitespace, or
/// the length of `s` where only whitespace follows.
pub open spec fn spaces_end(s: Seq<char>, from: int) -> int
    decreases s.len() - from,
{
    if 0 <= from < s.len() && is_space(s[from]) {
        spaces_end(s, from + 1)
    } else {
        from
    }
}

/// The first position at or after `from` where `s` holds whitespace, or the
/// length of `s` where none follows.
pub open spec fn word_end(s: Seq<char>, from: int) -> int
    decreases s.len() - from,
{
    if 0 <= from < s.len() && !is_space(s[from]) {
        word_end(s, from + 1)
    } else {
        from
    }
}

/// The command of a text: its first run of characters that are not
/// whitespace; empty where the text holds none.
pub open spec fn command_of(text: Seq<char>) -> Seq<char> {
    let start = spaces_end(text, 0);
    text.subrange(start, word_end(text, start))
}

/// The argument of a text: what follows the command, without the whitespace
/// that it begins with.
pub open spec fn argument_of(text: Seq<char>) -> Seq<char> {
    let start = spaces_end(text, 0);
    text.skip(spaces_end(text, word_end(text, start)))
}

/// Where whitespace ends, it does: up to there only whitespace stands, and
/// there the text ends or another character stands.
pub proof fn lemma_spaces_end(s: Seq<char>, from: int)
    requires
        0 <= from <= s.len(),
    ensures
        from <= spaces_end(s, from) <= s.len(),
        forall|k: int| from <= k < spaces_end(s, from) ==> is_space(#[trigger] s[k]),
        spaces_end(s, from) < s.len() ==> !is_space(s[spaces_end(s, from)]),
    decreases s.len() - from,
{
    if from < s.len() && is_space(s[from]) {
        lemma_spaces_end(s, from + 1);
    }
}

/// Where a word ends, it does: up to there no whitespace stands, and there
/// the text ends or whitespace stands.
pub proof fn lemma_word_end(s: Seq<char>, from: int)
    requires
        0 <= from <= s.len(),
    ensures
        from <= word_end(s, from) <= s.len(),
        forall|k: int| from <= k < word_end(s, from) ==> !is_space(#[trigger] s[k]),
        word_end(s, from) < s.len() ==> is_space(s[word_end(s, from)]),
    decreases s.len() - from,
{
    if from < s.len() && !is_space(s[from]) {
        lemma_word_end(s, from + 1);
    }
}

/// Whitespace ends at one place only: where only whitespace stands from
/// `from` up to `end`, and at `end` the text ends or another character
/// stands, there it ends.
pub proof fn lemma_spaces_end_is(s: Seq<char>, from: int, end: int)
    requires
        0 <= from <= end <= s.len(),
        forall|k: int| from <= k < end ==> is_space(#[trigger] s[k]),
        end < s.len() ==> !is_space(s[end]),
    ensures
        spaces_end(s, from) == end,
    decreases end - from,
{
    if from < end {
        lemma_spaces_end_is(s, from + 1, end);
    }
}

/// A word ends at one place only: where no whitespace stands from `from` up
/// to `end`, and at `end` the text ends or whitespace stands, there it ends.
pub proof fn lemma_word_end_is(s: Seq<char>, from: int, end: int)
    requires
        0 <= from <= end <= s.len(),
        forall|k: int| from <= k < end ==> !is_space(#[trigger] s[k]),
        end < s.len() ==> is_space(s[end]),
    ensures
        word_end(s, from) == end,
    decreases end - from,
{
    if from < end {
        lemma_word_end_is(s, from + 1, end);
    }
}

/// Finds where the whitespace that begins at `from` ends.
fn skip_spaces(s: &Vec<char>, from: usize) -> (to: usize)
    requires
        from <= s.len(),
    ensures
        to == spaces_end(s@, from as int),
        from <= to <= s.len(),
{
    let mut i: usize = from;
    while i < s.len() && is_whitespace(s[i])
        invariant
            from <= i <= s.len(),
            spaces_end(s@, i as int) == spaces_end(s@, from as int),
        decreases s.len() - i,
    {
        i += 1;
    }
    i
}

/// Finds where the word that begins at `from` ends.
fn skip_word(s: &Vec<char>, from: usize) -> (to: usize)
    requires
        from <= s.len(),
    ensures
        to == word_end(s@, from as int),
        from <= to <= s.len(),
{
    let mut i: usize = from;
    while i < s.len() && !is_whitespace(s[i])
        invariant
            from <= i <= s.len(),
            word_end(s@, i as int) == word_end(s@, from as int),
        decreases s.len() - i,
    {
        i += 1;
    }
    i
}

/// Splits a text into its command and its argument.
pub fn split_command(text: &str) -> (r: (&str, &str))
    ensures
        r.0@ == command_of(text@),
        r.1@ == argument_of(text@),
{
    let chars = to_chars(text);
    let start = skip_spaces(&chars, 0);
    let end = skip_word(&chars, start);
    let rest = skip_spaces(&chars, end);
    (text.substring_char(start, end), text.substring_char(rest, chars.len()))
}

/// Whether every character of `s` is whitespace.
pub open spec fn all_space(s: Seq<char>) -> bool {
    forall|k: int| 0 <= k < s.len() ==> is_space(#[trigger] s[k])
}

/// Whether no character of `s` is whitespace.
pub open spec fn no_space(s: Seq<char>) -> bool {
    forall|k: int| 0 <= k < s.len() ==> !is_space(#[trigger] s[k])
}

/// The whitespace that a text begins with.
pub open spec fn lead_of(text: Seq<char>) -> Seq<char> {
    text.subrange(0, spaces_end(text, 0))
}

/// The whitespace between the command of a text and its argument.
pub open spec fn gap_of(text: Seq<char>) -> Seq<char> {
    let end = word_end(text, spaces_end(text, 0));
    text.subrange(end, spaces_end(text, end))
}

/// A text is whitespace, its command, whitespace, and its argument, in this
/// order and with nothing else. The command holds no whitespace, and the
/// argument does not begin with any. Without a command nothing follows, and
/// whitespace parts the command from an argument that is not empty.
pub proof fn lemma_split_shape(text: Seq<char>)
    ensures
        text == lead_of(text) + command_of(text) + gap_of(text) + argument_of(text),
        all_space(lead_of(text)),
        no_space(command_of(text)),
        all_space(gap_of(text)),
        argument_of(text).len() > 0 ==> !is_space(argument_of(text)[0]),
        command_of(text).len() == 0 ==> gap_of(text).len() == 0 && argument_of(text).len() == 0,
        argument_of(text).len() > 0 ==> gap_of(text).len() > 0,
{
    let start = spaces_end(text, 0);
    let end = word_end(text, start);
    lemma_spaces_end(text, 0);
    lemma_word_end(text, start);
    lemma_spaces_end(text, end);
    assert forall|k: int| 0 <= k < command_of(text).len() implies !is_space(
        #[trigger] command_of(text)[k],
    ) by {
        assert(command_of(text)[k] == text[start + k]);
    }
    assert forall|k: int| 0 <= k < gap_of(text).len() implies is_space(
        #[trigger] gap_of(text)[k],
    ) by {
        assert(gap_of(text)[k] == text[end + k]);
    }
}

/// A text splits in one way only. Where it is whitespace, a word, whitespace
/// and a rest that does not begin with whitespace, the word is its command
/// and the rest its argument; provided that without a word nothing follows,
/// and that whitespace parts the word from a rest that is not empty.
pub proof fn lemma_split_is_unique(
    text: Seq<char>,
    lead: Seq<char>,
    word: Seq<char>,
    gap: Seq<char>,
    rest: Seq<char>,
)
    requires
        text == lead + word + gap + rest,
        all_space(lead),
        no_space(word),
        all_space(gap),
        rest.len() > 0 ==> !is_space(rest[0]),
        word.len() == 0 ==> gap.len() == 0 && rest.len() == 0,
        rest.len() > 0 ==> gap.len() > 0,
    ensures
        command_of(text) == word,
        argument_of(text) == rest,
{
    let a = lead.len() as int;
    let b = a + word.len();
    let c = b + gap.len();
    assert forall|k: int| 0 <= k < a implies is_space(#[trigger] text[k]) by {
        assert(text[k] == lead[k]);
    }
    assert forall|k: int| a <= k < b implies !is_space(#[trigger] text[k]) by {
        assert(text[k] == word[k - a]);
    }
    assert forall|k: int| b <= k < c implies is_space(#[trigger] text[k]) by {
        assert(text[k] == gap[k - b]);
    }
    if rest.len() > 0 {
        assert(text[c] == rest[0]);
    }
    lemma_spaces_end_is(text, 0, a);
    lemma_word_end_is(text, a, b);
    lemma_spaces_end_is(text, b, c);
}

/// The rows of the command table.
#[derive(Clone, Copy, Debug, PartialEq, Eq)]
pub enum Row {
    /// The opening command, asking for the dictionary.
    StartSource,
    /// The opening command with nothing after it.
    StartAlone,
    /// The opening command with any other argument.
    StartOther,
    /// A command that asks for the dictionary.
    Source,
    /// A search command with a term.
    Search,
    /// A search command without a term.
    SearchWithoutTerm,
    /// A command that asks who made the bot.
    Info,
    /// Anything else.
    Other,
}

/// Whether `command` is the opening command.
pub open spec fn is_start(command: Seq<char>) -> bool {
    command == START@
}

/// Whether `command` asks for the dictionary, with the slash or without.
pub open spec fn is_source(command: Seq<char>) -> bool {
    command == SOURCE@ || command == SOURCE_BARE@
}

/// Whether `command` searches for one entry, in any of its three forms.
pub open spec fn is_search(command: Seq<char>) -> bool {
    command == SEARCH@ || command == SEARCH_BARE@ || command == SEARCH_SHORT@
}

/// Whether `command` asks who made the bot, with the slash or without.
pub open spec fn is_info(command: Seq<char>) -> bool {
    command == INFO@ || command == INFO_BARE@
}

impl Row {
    /// Whether the row is the one for this command and argument: the
    /// condition that the command table writes in the row.
    pub open spec fn covers(self, command: Seq<char>, argument: Seq<char>) -> bool {
        match self {
            Row::StartSource => is_start(command) && argument == START_SOURCE@,
            Row::StartAlone => is_start(command) && argument.len() == 0,
            Row::StartOther => is_start(command) && argument != START_SOURCE@ && argument.len()
                != 0,
            Row::Source => is_source(command),
            Row::Search => is_search(command) && argument.len() != 0,
            Row::SearchWithoutTerm => is_search(command) && argument.len() == 0,
            Row::Info => is_info(command),
            Row::Other => !is_start(command) && !is_source(command) && !is_search(command)
                && !is_info(command),
        }
    }
}

/// The row that a command and its argument fall under.
pub open spec fn row_of(command: Seq<char>, argument: Seq<char>) -> Row {
    if is_start(command) {
        if argument == START_SOURCE@ {
            Row::StartSource
        } else if argument.len() == 0 {
            Row::StartAlone
        } else {
            Row::StartOther
        }
    } else if is_source(command) {
        Row::Source
    } else if is_search(command) {
        if argument.len() == 0 {
            Row::SearchWithoutTerm
        } else {
            Row::Search
        }
    } else if is_info(command) {
        Row::Info
    } else {
        Row::Other
    }
}

/// Finds the row that a command and its argument fall under.
pub fn dispatch(command: &str, argument: &str) -> (row: Row)
    ensures
        row == row_of(command@, argument@),
{
    if same_text(command, START) {
        if same_text(argument, START_SOURCE) {
            Row::StartSource
        } else if argument.is_empty() {
            Row::StartAlone
        } else {
            Row::StartOther
        }
    } else if same_text(command, SOURCE) || same_text(command, SOURCE_BARE) {
        Row::Source
    } else if same_text(command, SEARCH) || same_text(command, SEARCH_BARE) || same_text(
        command,
        SEARCH_SHORT,
    ) {
        if argument.is_empty() {
            Row::SearchWithoutTerm
        } else {
            Row::Search
        }
    } else if same_text(command, INFO) || same_text(command, INFO_BARE) {
        Row::Info
    } else {
        Row::Other
    }
}

/// The command words are nine different words, none of them empty.
pub proof fn lemma_command_words()
    ensures
        START@ =~= seq!['/', 's', 't', 'a', 'r', 't'],
        SOURCE@ =~= seq!['/', 's', 'o', 'u', 'r', 'c', 'e'],
        SOURCE_BARE@ =~= seq!['s', 'o', 'u', 'r', 'c', 'e'],
        START_SOURCE@ =~= seq!['s', 'o', 'u', 'r', 'c', 'e'],
        SEARCH@ =~= seq!['/', 's', 'e', 'a', 'r', 'c', 'h'],
        SEARCH_BARE@ =~= seq!['s', 'e', 'a', 'r', 'c', 'h'],
        SEARCH_SHORT@ =~= seq!['s'],
        INFO@ =~= seq!['/', 'i', 'n', 'f', 'o'],
        INFO_BARE@ =~= seq!['i', 'n', 'f', 'o'],
{
    reveal_strlit("/start");
    reveal_strlit("/source");
    reveal_strlit("source");
    reveal_strlit("/search");
    reveal_strlit("search");
    reveal_strlit("s");
    reveal_strlit("/info");
    reveal_strlit("info");
}

/// No command is of two kinds.
pub proof fn lemma_kinds_exclude(command: Seq<char>)
    ensures
        is_start(command) ==> !is_source(command) && !is_search(command) && !is_info(command),
        is_source(command) ==> !is_search(command) && !is_info(command),
        is_search(command) ==> !is_info(command),
{
    lemma_command_words();
    if command == START@ {
        assert(command.len() == 6 && command[0] == '/' && command[2] == 't');
    }
    if command == SOURCE@ {
        assert(command.len() == 7 && command[0] == '/' && command[2] == 'o');
    }
    if command == SOURCE_BARE@ {
        assert(command.len() == 6 && command[0] == 's' && command[1] == 'o');
    }
    if command == SEARCH@ {
        assert(command.len() == 7 && command[0] == '/' && command[2] == 'e');
    }
    if command == SEARCH_BARE@ {
        assert(command.len() == 6 && command[0] == 's' && command[1] == 'e');
    }
    if command == SEARCH_SHORT@ {
        assert(command.len() == 1);
    }
    if command == INFO@ {
        assert(command.len() == 5);
    }
    if command == INFO_BARE@ {
        assert(command.len() == 4);
    }
}

/// Every command and argument fall under exactly one row of the table:
/// the row that [`row_of`] names covers them, and no other row does.
pub proof fn lemma_exactly_one_row(command: Seq<char>, argument: Seq<char>)
    ensures
        row_of(command, argument).covers(command, argument),
        forall|row: Row| #[trigger]
            row.covers(command, argument) ==> row == row_of(command, argument),
{
    lemma_command_words();
    assert(START_SOURCE@.len() == 6);
}

/// What an update asks for.
#[derive(Debug, PartialEq, Eq)]
pub enum Intent {
    /// Send the dictionary as a document.
    ShowSource,
    /// Say who made the bot.
    ShowInfo,
    /// Look one entry up and show it.
    SearchOne(String),
    /// Look up all the entries for a term and list them.
    SearchMany(String),
    /// Nothing that the bot does.
    Unrecognized,
}

/// An intent as a mathematical value.
pub enum IntentView {
    ShowSource,
    ShowInfo,
    SearchOne(Seq<char>),
    SearchMany(Seq<char>),
    Unrecognized,
}

impl View for Intent {
    type V = IntentView;

    open spec fn view(&self) -> IntentView {
        match self {
            Intent::ShowSource => IntentView::ShowSource,
            Intent::ShowInfo => IntentView::ShowInfo,
            Intent::SearchOne(term) => IntentView::SearchOne(term@),
            Intent::SearchMany(term) => IntentView::SearchMany(term@),
            Intent::Unrecognized => IntentView::Unrecognized,
        }
    }
}

/// The intent that a row stands for, given the argument: the dictionary for
/// the rows that ask for it, a search for the argument where there is one to
/// search for, the makers for the row that asks for them, and none for the
/// rest.
pub open spec fn intent_of(row: Row, argument: Seq<char>) -> IntentView {
    match row {
        Row::StartSource | Row::Source => IntentView::ShowSource,
        Row::Search => IntentView::SearchOne(argument),
        Row::Info => IntentView::ShowInfo,
        Row::StartAlone | Row::StartOther | Row::SearchWithoutTerm | Row::Other =>
            IntentView::Unrecognized,
    }
}

/// The row that a direct message falls under, and its intent.
#[derive(Debug, PartialEq, Eq)]
pub struct Classified {
    pub row: Row,
    pub intent: Intent,
}

/// A classification as a mathematical value.
pub struct ClassifiedView {
    pub row: Row,
    pub intent: IntentView,
}

impl View for Classified {
    type V = ClassifiedView;

    open spec fn view(&self) -> ClassifiedView {
        ClassifiedView { row: self.row, intent: self.intent@ }
    }
}

/// How a text in lowercase is classified: by the row of its command and
/// argument.
pub open spec fn classified(text: Seq<char>) -> ClassifiedView {
    let row = row_of(command_of(text), argument_of(text));
    ClassifiedView { row, intent: intent_of(row, argument_of(text)) }
}

/// Names the intent that `row` stands for, given the argument.
pub fn intent(row: Row, argument: &str) -> (r: Intent)
    ensures
        r@ == intent_of(row, argument@),
{
    match row {
        Row::StartSource | Row::Source => Intent::ShowSource,
        Row::Search => Intent::SearchOne(argument.to_owned()),
        Row::Info => Intent::ShowInfo,
        Row::StartAlone | Row::StartOther | Row::SearchWithoutTerm | Row::Other =>
            Intent::Unrecognized,
    }
}

/// Classifies the text of a direct message that is in lowercase already.
pub fn classify_normalized(text: &str) -> (r: Classified)
    ensures
        r@ == classified(text@),
{
    let (command, argument) = split_command(text);
    let row = dispatch(command, argument);
    Classified { row, intent: intent(row, argument) }
}

/// Classifies the text of a direct message, whatever its case: the text is
/// put in lowercase first.
pub fn classify(text: &str) -> (r: Classified)
    ensures
        r@ == classified(lowercase_of(text@)),
{
    let lowered = text.to_lowercase();
    classify_normalized(lowered.as_str())
}

/// Classifies an inline query: always a search for many entries, for the
/// query as it is, empty or not.
pub fn classify_inline(query: &str) -> (r: Intent)
    ensures
        r@ == IntentView::SearchMany(query@),
{
    Intent::SearchMany(query.to_owned())
}

/// Every text falls under exactly one row of the command table.
pub proof fn lemma_text_has_one_row(text: Seq<char>)
    ensures
        classified(text).row.covers(command_of(text), argument_of(text)),
        forall|row: Row| #[trigger]
            row.covers(command_of(text), argument_of(text)) ==> row == classified(text).row,
{
    lemma_exactly_one_row(command_of(text), argument_of(text));
}

/// A direct message asks for a search exactly where it falls under the
/// search row. The search is for one entry then, and for the argument, which
/// is not empty and does not begin with whitespace.
pub proof fn lemma_search_is_for_the_argument(text: Seq<char>)
    ensures
        classified(text).intent is SearchOne <==> classified(text).row == Row::Search,
        !(classified(text).intent is SearchMany),
        classified(text).intent matches IntentView::SearchOne(term) ==> term == argument_of(text)
            && term.len() > 0 && !is_space(term[0]),
{
    lemma_split_shape(text);
}

/// The empty text has no command and no argument, and falls under the last
/// row.
pub proof fn lemma_empty_text_is_other()
    ensures
        command_of(Seq::empty()) == Seq::<char>::empty(),
        argument_of(Seq::empty()) == Seq::<char>::empty(),
        classified(Seq::empty()).row == Row::Other,
        classified(Seq::empty()).intent == IntentView::Unrecognized,
{
    lemma_command_words();
}

} // verus!
