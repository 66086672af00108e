//! The inline panel for side questions: what was asked and answered, what is
//! still open, and how the panel is laid out.
//!
//! The text area itself stands outside. The panel keeps what the text area
//! holds, and says what is to be done with it.

use std::collections::VecDeque;
use vstd::prelude::*;
use vstd::string::*;

use crate::ids::{is_random_uuid, random_uuid};
use crate::keys::KeyCode;
use crate::text::{byte_count, byte_len, result_text, texts, trim, trimmed};

verus! {

/// The id of the panel among the views of the bottom pane.
pub const BTW_VIEW_ID: &'static str = "btw";

/// How many questions with their answers the panel keeps.
pub const MAX_EXCHANGES: usize = 20;

/// How many lines of them it shows.
pub const MAX_RENDERED_HISTORY_LINES: usize = 14;

/// What stands before a question in the panel.
pub const QUESTION_LABEL: &'static str = "you: ";

/// What stands before an answer in the panel.
pub const ANSWER_LABEL: &'static str = "btw: ";

/// What stands before an error in the panel.
pub const ERROR_LABEL: &'static str = "btw error: ";

/// What the panel shows while a question is open.
pub const THINKING_LINE: &'static str = "btw: thinking…";

/// What an empty text area shows.
pub const PLACEHOLDER: &'static str = "Ask about the current conversation";

/// A question with its answer, or with what went wrong.
pub struct BtwExchange {
    pub question: String,
    pub answer: Result<String, String>,
}

/// A question that is still open.
pub struct PendingBtwRequest {
    pub request_id: u128,
    pub question: String,
}

/// How the panel was left.
#[derive(Clone, Copy, Debug, Eq, PartialEq, Structural)]
pub enum ViewCompletion {
    Accepted,
    Cancelled,
}

/// A question that is to be asked in a hidden thread.
pub struct StartBtw {
    pub parent_thread_id: u128,
    pub request_id: u128,
    pub question: String,
}

/// A question with its answer, as text.
pub struct ExchangeView {
    pub question: Seq<char>,
    pub answer: Result<Seq<char>, Seq<char>>,
}

/// The state of the panel, as text.
pub struct BtwViewState {
    pub parent_thread_id: u128,
    pub text: Seq<char>,
    pub cursor: nat,
    pub exchanges: Seq<ExchangeView>,
    pub pending: Option<(u128, Seq<char>)>,
    pub completion: Option<ViewCompletion>,
}

/// A small inline chat that never changes the active thread.
pub struct BtwView {
    parent_thread_id: u128,
    text: String,
    cursor: usize,
    exchanges: VecDeque<BtwExchange>,
    pending: Option<PendingBtwRequest>,
    completion: Option<ViewCompletion>,
}

impl View for BtwExchange {
    type V = ExchangeView;

    open spec fn view(&self) -> ExchangeView {
        ExchangeView { question: self.question@, answer: result_text(self.answer) }
    }
}

/// The exchanges of a panel, as text.
pub open spec fn exchange_views(exchanges: Seq<BtwExchange>) -> Seq<ExchangeView> {
    exchanges.map_values(|exchange: BtwExchange| exchange@)
}

/// The last `n` of some values, or all where there are not more.
pub open spec fn last_of<T>(values: Seq<T>, n: nat) -> Seq<T> {
    if values.len() > n {
        values.skip(values.len() - n)
    } else {
        values
    }
}

impl View for BtwView {
    type V = BtwViewState;

    closed spec fn view(&self) -> BtwViewState {
        BtwViewState {
            parent_thread_id: self.parent_thread_id,
            text: self.text@,
            cursor: self.cursor as nat,
            exchanges: exchange_views(self.exchanges@),
            pending: match self.pending {
                Some(pending) => Some((pending.request_id, pending.question@)),
                None => None,
            },
            completion: self.completion,
        }
    }
}

impl BtwViewState {
    /// A panel that was just opened.
    pub open spec fn opened(parent_thread_id: u128, initial_text: Seq<char>) -> Self {
        BtwViewState {
            parent_thread_id,
            text: initial_text,
            cursor: byte_len(initial_text),
            exchanges: Seq::empty(),
            pending: None,
            completion: None,
        }
    }

    /// Whether what is in the text area can be asked: nothing else is open, and
    /// it is more than white space.
    pub open spec fn can_submit(self) -> bool {
        self.pending is None && trimmed(self.text).len() > 0
    }

    /// The panel after the text area was submitted.
    pub open spec fn submitted(self, request_id: u128) -> Self {
        if self.can_submit() {
            BtwViewState {
                text: Seq::empty(),
                cursor: 0,
                pending: Some((request_id, trimmed(self.text))),
                ..self
            }
        } else {
            self
        }
    }

    /// Whether `request` is what the panel asks when it is submitted.
    pub open spec fn asks(self, request_id: u128, request: Option<StartBtw>) -> bool {
        if self.can_submit() {
            request matches Some(request) && request.parent_thread_id == self.parent_thread_id
                && request.request_id == request_id && request.question@ == trimmed(self.text)
        } else {
            request is None
        }
    }

    /// Whether a response is to the question that is open.
    pub open spec fn awaits(self, request_id: u128) -> bool {
        self.pending matches Some(pending) && pending.0 == request_id
    }

    /// The panel after a response came in.
    pub open spec fn answered(
        self,
        request_id: u128,
        result: Result<Seq<char>, Seq<char>>,
    ) -> Self {
        if self.awaits(request_id) {
            let exchange = ExchangeView { question: (self.pending->0).1, answer: result };
            BtwViewState {
                exchanges: last_of(self.exchanges.push(exchange), MAX_EXCHANGES as nat),
                pending: None,
                ..self
            }
        } else {
            self
        }
    }

    /// The line that says that a question is open, where one is.
    pub open spec fn open_line<L>(self, thinking: L) -> Option<L> {
        if self.pending is Some {
            Some(thinking)
        } else {
            None
        }
    }

    /// The panel after it was cancelled.
    pub open spec fn cancelled(self) -> Self {
        BtwViewState { completion: Some(ViewCompletion::Cancelled), ..self }
    }
}

/// What the panel shows of an exchange.
pub open spec fn exchange_entries(exchange: ExchangeView) -> Seq<Seq<char>> {
    seq![
        QUESTION_LABEL@ + exchange.question,
        match exchange.answer {
            Ok(answer) => ANSWER_LABEL@ + answer,
            Err(error) => ERROR_LABEL@ + error,
        },
    ]
}

/// What the panel shows of all exchanges, in order.
pub open spec fn history_texts(exchanges: Seq<ExchangeView>) -> Seq<Seq<char>>
    decreases exchanges.len(),
{
    if exchanges.len() == 0 {
        Seq::empty()
    } else {
        history_texts(exchanges.drop_last()) + exchange_entries(exchanges.last())
    }
}

/// The lines of some wrapped texts, in order.
pub open spec fn all_lines<L>(wrapped: Seq<Vec<L>>) -> Seq<L>
    decreases wrapped.len(),
{
    if wrapped.len() == 0 {
        Seq::empty()
    } else {
        all_lines(wrapped.drop_last()) + wrapped.last()@
    }
}

/// The lines that the panel shows: the last of the wrapped texts, and of the
/// line that says that a question is open.
pub open spec fn shown_lines<L>(wrapped: Seq<Vec<L>>, thinking: Option<L>) -> Seq<L> {
    let lines = match thinking {
        Some(line) => all_lines(wrapped).push(line),
        None => all_lines(wrapped),
    };
    last_of(lines, MAX_RENDERED_HISTORY_LINES as nat)
}

/// Whether `lines` are what the panel shows at a width, wrapped by `wrap`.
pub open spec fn shows_history<L, W: Fn(String, usize) -> Vec<L>>(
    state: BtwViewState,
    wrap: W,
    width: u16,
    thinking: L,
    lines: Seq<L>,
) -> bool {
    exists|entries: Seq<String>, wrapped: Seq<Vec<L>>|
        {
            &&& #[trigger] texts(entries) == history_texts(state.exchanges)
            &&& wrapped.len() == entries.len()
            &&& forall|i: int|
                0 <= i < entries.len() ==> call_ensures(
                    wrap,
                    (entries[i], wrap_width(width)),
                    #[trigger] wrapped[i],
                )
            &&& lines == #[trigger] shown_lines(wrapped, state.open_line(thinking))
        }
}

/// The width that the texts of the panel are wrapped at.
pub open spec fn wrap_width(width: u16) -> usize {
    if width == 0 {
        1
    } else {
        width as usize
    }
}

/// The last lines of some wrapped texts, and of the line that says that a
/// question is open.
pub fn shown_history<L>(wrapped: Vec<Vec<L>>, thinking: Option<L>) -> (lines: Vec<L>)
    ensures
        lines@ == shown_lines(wrapped@, thinking),
        lines.len() <= MAX_RENDERED_HISTORY_LINES,
{
    let ghost parts = wrapped@;
    let mut lines: Vec<L> = Vec::new();
    for part in it: wrapped.into_iter()
        invariant
            it.seq() == parts,
            lines@ == all_lines(parts.take(it.index() as int)),
    {
        let ghost before = lines@;
        let mut part = part;
        lines.append(&mut part);
        proof {
            assert(parts.take(it.index() + 1).drop_last() =~= parts.take(it.index() as int));
            assert(lines@ =~= before + parts[it.index() as int]@);
        }
    }
    assert(parts.take(parts.len() as int) =~= parts);
    if let Some(line) = thinking {
        lines.push(line);
    }
    if lines.len() > MAX_RENDERED_HISTORY_LINES {
        let from: usize = lines.len() - MAX_RENDERED_HISTORY_LINES;
        let ghost before = lines@;
        let kept = lines.split_off(from);
        assert(kept@ =~= before.skip(from as int));
        kept
    } else {
        lines
    }
}

/// A key with its modifiers: whether there are none, and whether control or alt
/// is among them.
#[derive(Clone, Copy, Debug, Eq, PartialEq, Structural)]
pub struct KeyPress {
    pub code: KeyCode,
    pub no_modifiers: bool,
    pub ctrl_or_alt: bool,
}

/// What the text area says of a key: whether it is the escape that ends its
/// insert mode, and whether keys may be part of a paste burst.
#[derive(Clone, Copy, Debug, Eq, PartialEq, Structural)]
pub struct TextAreaFacts {
    pub handles_vim_escape: bool,
    pub allows_paste_burst: bool,
}

/// What is to be done with a key.
#[derive(Clone, Copy, Debug, Eq, PartialEq, Structural)]
pub enum KeyAction {
    /// Leave the panel.
    Cancel,
    /// Submit the text area.
    Submit,
    /// Note a plain character in the paste burst and give it to the text area.
    /// Extend the burst where the character was part of it.
    InputPlainChar,
    /// Give a tab to the text area, and extend the paste burst where it was
    /// open.
    InputTab,
    /// Give the key to the text area and end the paste burst.
    InputAndEndBurst,
}

/// What is to be done with a key.
pub open spec fn action_for(key: KeyPress, facts: TextAreaFacts) -> KeyAction {
    if key.code == KeyCode::Esc {
        if facts.handles_vim_escape {
            KeyAction::InputAndEndBurst
        } else {
            KeyAction::Cancel
        }
    } else if key.code == KeyCode::Enter && key.no_modifiers {
        KeyAction::Submit
    } else if key.code is Char && !key.ctrl_or_alt && facts.allows_paste_burst {
        KeyAction::InputPlainChar
    } else if key.code == KeyCode::Tab && !key.ctrl_or_alt && facts.allows_paste_burst {
        KeyAction::InputTab
    } else {
        KeyAction::InputAndEndBurst
    }
}

/// What is to be done with a key.
pub fn key_action(key: KeyPress, facts: TextAreaFacts) -> (action: KeyAction)
    ensures
        action == action_for(key, facts),
{
    match key.code {
        KeyCode::Esc => if facts.handles_vim_escape {
            KeyAction::InputAndEndBurst
        } else {
            KeyAction::Cancel
        },
        KeyCode::Enter if key.no_modifiers => KeyAction::Submit,
        KeyCode::Char(_) if !key.ctrl_or_alt && facts.allows_paste_burst => KeyAction::InputPlainChar,
        KeyCode::Tab if !key.ctrl_or_alt && facts.allows_paste_burst => KeyAction::InputTab,
        _ => KeyAction::InputAndEndBurst,
    }
}

impl BtwView {
    #[verifier::type_invariant]
    spec fn bounded(&self) -> bool {
        self.exchanges@.len() <= MAX_EXCHANGES
    }

    /// A panel for questions about a thread, with a text to start from.
    pub fn new(parent_thread_id: u128, initial_text: String) -> (panel: Self)
        ensures
            panel@ == BtwViewState::opened(parent_thread_id, initial_text@),
    {
        let cursor: usize = byte_count(initial_text.as_str());
        let panel = BtwView {
            parent_thread_id,
            text: initial_text,
            cursor,
            exchanges: VecDeque::new(),
            pending: None,
            completion: None,
        };
        assert(panel@.exchanges =~= Seq::empty());
        panel
    }

    /// What the text area holds.
    pub fn text(&self) -> (text: &str)
        ensures
            text@ == self@.text,
    {
        self.text.as_str()
    }

    /// Where the cursor stands in it, in bytes.
    pub fn cursor(&self) -> (cursor: usize)
        ensures
            cursor == self@.cursor,
    {
        self.cursor
    }

    /// Takes in what the text area holds after it was edited.
    pub fn set_text(&mut self, text: String, cursor: usize)
        ensures
            final(self)@ == (BtwViewState { text: text@, cursor: cursor as nat, ..old(self)@ }),
    {
        proof {
            use_type_invariant(&*self);
        }
        self.text = text;
        self.cursor = cursor;
    }

    /// How many exchanges the panel keeps.
    pub fn exchange_count(&self) -> (count: usize)
        ensures
            count == self@.exchanges.len(),
            count <= MAX_EXCHANGES,
    {
        proof {
            use_type_invariant(self);
        }
        self.exchanges.len()
    }

    /// The question that is open, with the id of its request.
    pub fn pending(&self) -> (pending: Option<(u128, &str)>)
        ensures
            match pending {
                Some((request_id, question)) => self@.pending == Some((request_id, question@)),
                None => self@.pending is None,
            },
    {
        match &self.pending {
            Some(pending) => Some((pending.request_id, pending.question.as_str())),
            None => None,
        }
    }

    /// Submits the text area under a request id.
    pub fn submit_as(&mut self, request_id: u128) -> (request: Option<StartBtw>)
        ensures
            final(self)@ == old(self)@.submitted(request_id),
            old(self)@.asks(request_id, request),
    {
        proof {
            use_type_invariant(&*self);
        }
        if self.pending.is_some() {
            return None;
        }
        let question = trim(self.text.as_str()).to_string();
        if question.as_str().is_empty() {
            return None;
        }
        self.text = String::new();
        self.cursor = 0;
        self.pending = Some(PendingBtwRequest { request_id, question: question.clone() });
        assert(self@.text =~= Seq::empty());
        Some(StartBtw { parent_thread_id: self.parent_thread_id, request_id, question })
    }

    /// Submits the text area under a random request id.
    pub fn submit(&mut self) -> (request: Option<StartBtw>)
        ensures
            exists|request_id: u128|
                {
                    &&& is_random_uuid(request_id)
                    &&& final(self)@ == #[trigger] old(self)@.submitted(request_id)
                    &&& old(self)@.asks(request_id, request)
                },
    {
        let request_id: u128 = random_uuid();
        self.submit_as(request_id)
    }

    /// Takes in a key. A key for the text area is the caller's to pass on.
    pub fn handle_key_event(&mut self, key: KeyPress, facts: TextAreaFacts) -> (outcome: (
        KeyAction,
        Option<StartBtw>,
    ))
        ensures
            outcome.0 == action_for(key, facts),
            match action_for(key, facts) {
                KeyAction::Cancel => final(self)@ == old(self)@.cancelled() && outcome.1 is None,
                KeyAction::Submit => exists|request_id: u128|
                    {
                        &&& is_random_uuid(request_id)
                        &&& final(self)@ == #[trigger] old(self)@.submitted(request_id)
                        &&& old(self)@.asks(request_id, outcome.1)
                    },
                _ => final(self)@ == old(self)@ && outcome.1 is None,
            },
    {
        let action = key_action(key, facts);
        match action {
            KeyAction::Cancel => {
                self.on_ctrl_c();
                (action, None)
            },
            KeyAction::Submit => {
                let request = self.submit();
                (action, request)
            },
            _ => (action, None),
        }
    }

    /// Leaves the panel.
    pub fn on_ctrl_c(&mut self)
        ensures
            final(self)@ == old(self)@.cancelled(),
    {
        proof {
            use_type_invariant(&*self);
        }
        self.completion = Some(ViewCompletion::Cancelled);
    }

    /// Whether the panel was left.
    pub fn is_complete(&self) -> (complete: bool)
        ensures
            complete == (self@.completion is Some),
    {
        self.completion.is_some()
    }

    /// How the panel was left, if it was.
    pub fn completion(&self) -> (completion: Option<ViewCompletion>)
        ensures
            completion == self@.completion,
    {
        self.completion
    }

    /// Takes in the response to a request. One that the panel does not wait for
    /// is ignored.
    pub fn apply_btw_response(
        &mut self,
        request_id: u128,
        result: Result<String, String>,
    ) -> (applied: bool)
        ensures
            applied == old(self)@.awaits(request_id),
            final(self)@ == old(self)@.answered(request_id, result_text(result)),
    {
        proof {
            use_type_invariant(&*self);
        }
        let ours = match &self.pending {
            Some(pending) => pending.request_id == request_id,
            None => false,
        };
        if !ours {
            return false;
        }
        let mut pending: Option<PendingBtwRequest> = None;
        std::mem::swap(&mut pending, &mut self.pending);
        if let Some(pending) = pending {
            let ghost before = self.exchanges@;
            let mut exchanges: VecDeque<BtwExchange> = VecDeque::new();
            std::mem::swap(&mut exchanges, &mut self.exchanges);
            let exchange = BtwExchange { question: pending.question, answer: result };
            exchanges.push_back(exchange);
            let ghost all = exchanges@;
            proof {
                assert(exchange_views(all) =~= exchange_views(before).push(exchange@));
            }
            if exchanges.len() > MAX_EXCHANGES {
                let _ = exchanges.pop_front();
            }
            proof {
                assert(exchange_views(exchanges@) =~= last_of(
                    exchange_views(all),
                    MAX_EXCHANGES as nat,
                ));
            }
            self.exchanges = exchanges;
        }
        true
    }

    /// What the panel shows of its exchanges, each text to be wrapped.
    pub fn history_entries(&self) -> (entries: Vec<String>)
        ensures
            texts(entries@) == history_texts(self@.exchanges),
    {
        let mut entries: Vec<String> = Vec::new();
        let mut i: usize = 0;
        assert(texts(entries@) =~= Seq::empty());
        while i < self.exchanges.len()
            invariant
                0 <= i <= self.exchanges.len(),
                texts(entries@) == history_texts(self@.exchanges.take(i as int)),
            decreases self.exchanges.len() - i,
        {
            let ghost before = texts(entries@);
            let exchange = &self.exchanges[i];
            let mut question = QUESTION_LABEL.to_string();
            question.append(exchange.question.as_str());
            let mut answer = String::new();
            match &exchange.answer {
                Ok(text) => {
                    answer.append(ANSWER_LABEL);
                    answer.append(text.as_str());
                },
                Err(text) => {
                    answer.append(ERROR_LABEL);
                    answer.append(text.as_str());
                },
            }
            proof {
                let next = self@.exchanges.take(i + 1);
                assert(next.drop_last() =~= self@.exchanges.take(i as int));
                assert(next.last() == exchange@);
                assert(answer@ =~= exchange_entries(exchange@)[1]);
            }
            entries.push(question);
            entries.push(answer);
            assert(texts(entries@) =~= before + exchange_entries(exchange@));
            i += 1;
        }
        assert(self@.exchanges.take(self@.exchanges.len() as int) =~= self@.exchanges);
        entries
    }

    /// The lines that the panel shows, wrapped by `wrap`. `thinking` is the line
    /// that says that a question is open.
    pub fn history_lines<L, W: Fn(String, usize) -> Vec<L>>(
        &self,
        width: u16,
        wrap: W,
        thinking: L,
    ) -> (lines: Vec<L>)
        requires
            forall|text: String|
                history_texts(self@.exchanges).contains(text@) ==> #[trigger] call_requires(
                    wrap,
                    (text, wrap_width(width)),
                ),
        ensures
            shows_history(self@, wrap, width, thinking, lines@),
            lines.len() <= MAX_RENDERED_HISTORY_LINES,
    {
        let columns: usize = if width == 0 {
            1
        } else {
            width as usize
        };
        let entries = self.history_entries();
        let ghost all = entries@;
        let mut wrapped: Vec<Vec<L>> = Vec::new();
        for entry in it: entries.into_iter()
            invariant
                it.seq() == all,
                columns == wrap_width(width),
                texts(all) == history_texts(self@.exchanges),
                forall|text: String|
                    history_texts(self@.exchanges).contains(text@) ==> #[trigger] call_requires(
                        wrap,
                        (text, wrap_width(width)),
                    ),
                wrapped.len() == it.index(),
                forall|j: int|
                    0 <= j < it.index() ==> call_ensures(
                        wrap,
                        (all[j], wrap_width(width)),
                        #[trigger] wrapped[j],
                    ),
        {
            assert(texts(all)[it.index() as int] == entry@);
            let part = wrap(entry, columns);
            wrapped.push(part);
        }
        let ghost parts = wrapped@;
        let mark = if self.pending.is_some() {
            Some(thinking)
        } else {
            None
        };
        let lines = shown_history(wrapped, mark);
        proof {
            assert(texts(all) == history_texts(self@.exchanges));
            assert(lines@ == shown_lines(parts, self@.open_line(thinking)));
        }
        lines
    }
}

/// Whether a paste goes into the text area: not where it is empty.
pub fn handle_paste(pasted: &str) -> (inserted: bool)
    ensures
        inserted == (pasted@.len() > 0),
{
    !pasted.is_empty()
}

/// A panel for questions about a thread. A text to start from that is more than
/// white space is asked at once.
pub fn open_btw_prompt(parent_thread_id: u128, initial_text: String) -> (opened: (
    BtwView,
    Option<StartBtw>,
))
    ensures
        exists|request_id: u128|
            {
                &&& is_random_uuid(request_id)
                &&& opened.0@ == #[trigger] BtwViewState::opened(
                    parent_thread_id,
                    initial_text@,
                ).submitted(request_id)
                &&& BtwViewState::opened(parent_thread_id, initial_text@).asks(
                    request_id,
                    opened.1,
                )
            },
        opened.1 is Some == (trimmed(initial_text@).len() > 0),
{
    let mut panel = BtwView::new(parent_thread_id, initial_text);
    let request = panel.submit();
    (panel, request)
}

/// A rectangle of cells.
#[derive(Clone, Copy, Debug, Eq, PartialEq, Structural)]
pub struct Rect {
    pub x: u16,
    pub y: u16,
    pub width: u16,
    pub height: u16,
}

/// `n`, or the largest coordinate where `n` goes past it.
pub open spec fn coordinate(n: int) -> u16 {
    if n > u16::MAX {
        u16::MAX
    } else {
        n as u16
    }
}

/// What is drawn, in order.
#[derive(Clone, Copy, Debug, Eq, PartialEq, Structural)]
pub enum DrawOp {
    Title { area: Rect },
    HistoryLine { index: usize, area: Rect },
    Gutter { area: Rect },
    Clear { area: Rect },
    TextArea { area: Rect },
    Placeholder { area: Rect },
    Hint { area: Rect },
}

/// How wide the text area is in a panel.
pub fn usable_width(width: u16) -> (usable: u16)
    ensures
        usable == if width < 2 {
            0
        } else {
            width - 2
        },
{
    width.saturating_sub(2)
}

/// How high the input is: what the text area asks for, but at least one row and
/// at most six, and one row above it.
pub open spec fn input_rows(desired: u16) -> u16 {
    if desired < 1 {
        2
    } else if desired > 6 {
        7
    } else {
        (desired + 1) as u16
    }
}

/// How high the input is, where the text area asks for `desired` rows.
pub fn input_height(desired: u16) -> (height: u16)
    ensures
        height == input_rows(desired),
{
    if desired < 1 {
        2
    } else if desired > 6 {
        7
    } else {
        desired + 1
    }
}

/// How high the panel asks to be with `history` lines, where the text area asks
/// for `desired` rows.
pub fn desired_height(history: usize, desired: u16) -> (height: u16)
    requires
        history <= MAX_RENDERED_HISTORY_LINES,
    ensures
        height == 1 + history + input_rows(desired) + 2,
{
    1 + history as u16 + input_height(desired) + 2
}

/// Where the input starts in a panel with `history` lines.
pub open spec fn input_top(area: Rect, history: nat) -> u16 {
    coordinate(area.y + 1 + history)
}

/// Where the text area stands in a panel.
pub open spec fn text_rect(area: Rect, history: nat, desired: u16) -> Rect {
    Rect {
        x: coordinate(area.x + 2),
        y: coordinate(input_top(area, history) + 1),
        width: (area.width - 2) as u16,
        height: (input_rows(desired) - 1) as u16,
    }
}

/// Where the text area stands, for the cursor to be placed in it. Nowhere in a
/// panel with no room for it.
pub fn cursor_area(area: Rect, history: usize, desired: u16) -> (found: Option<Rect>)
    requires
        history <= MAX_RENDERED_HISTORY_LINES,
    ensures
        found == if area.height < 2 || area.width <= 2 {
            None
        } else {
            Some(text_rect(area, history as nat, desired))
        },
{
    if area.height < 2 || area.width <= 2 {
        return None;
    }
    let y: u16 = area.y.saturating_add(1).saturating_add(history as u16).saturating_add(1);
    Some(
        Rect {
            x: area.x.saturating_add(2),
            y,
            width: area.width - 2,
            height: input_height(desired) - 1,
        },
    )
}

/// The lines of the history, one below the other.
pub open spec fn history_ops(area: Rect, history: nat) -> Seq<DrawOp> {
    Seq::new(
        history,
        |i: int|
            DrawOp::HistoryLine {
                index: i as usize,
                area: Rect {
                    x: coordinate(area.x + 2),
                    y: coordinate(area.y + 1 + i),
                    width: if area.width < 2 {
                        0
                    } else {
                        (area.width - 2) as u16
                    },
                    height: 1,
                },
            },
    )
}

/// The bar along the input, row by row.
pub open spec fn gutter_ops(area: Rect, top: u16, rows: nat) -> Seq<DrawOp> {
    Seq::new(
        rows,
        |row: int|
            DrawOp::Gutter {
                area: Rect { x: area.x, y: coordinate(top + row), width: 2, height: 1 },
            },
    )
}

/// The input: the bar, and the text area with a placeholder where it is empty.
/// A panel that is too narrow for the bar has none.
pub open spec fn input_ops(area: Rect, history: nat, desired: u16, empty: bool) -> Seq<DrawOp> {
    let top = input_top(area, history);
    let rect = text_rect(area, history, desired);
    let placeholder = if empty {
        seq![DrawOp::Placeholder { area: rect }]
    } else {
        Seq::empty()
    };
    if area.width < 2 {
        Seq::empty()
    } else {
        gutter_ops(area, top, input_rows(desired) as nat) + seq![
            DrawOp::Clear { area: rect },
            DrawOp::TextArea { area: rect },
        ] + placeholder
    }
}

/// The row of the hint.
pub open spec fn hint_row(area: Rect, history: nat, desired: u16) -> u16 {
    coordinate(input_top(area, history) + input_rows(desired) + 1)
}

/// The hint, where there is a row left for it.
pub open spec fn hint_ops(area: Rect, history: nat, desired: u16) -> Seq<DrawOp> {
    let row = hint_row(area, history, desired);
    if row < coordinate(area.y + area.height) {
        seq![DrawOp::Hint { area: Rect { x: area.x, y: row, width: area.width, height: 1 } }]
    } else {
        Seq::empty()
    }
}

/// What is drawn of a panel with `history` lines, where the text area asks for
/// `desired` rows. Nothing is drawn where there is no room at all.
pub open spec fn draw_plan(area: Rect, history: nat, desired: u16, empty: bool) -> Seq<DrawOp> {
    let title = seq![
        DrawOp::Title { area: Rect { x: area.x, y: area.y, width: area.width, height: 1 } },
    ];
    if area.height == 0 || area.width == 0 {
        Seq::empty()
    } else {
        title + history_ops(area, history) + input_ops(area, history, desired, empty) + hint_ops(
            area,
            history,
            desired,
        )
    }
}

/// What is drawn of a panel with `history` lines, where the text area asks for
/// `desired` rows.
pub fn render(area: Rect, history: usize, desired: u16, text_is_empty: bool) -> (ops: Vec<DrawOp>)
    requires
        history <= MAX_RENDERED_HISTORY_LINES,
    ensures
        ops@ == draw_plan(area, history as nat, desired, text_is_empty),
{
    let mut ops: Vec<DrawOp> = Vec::new();
    if area.height == 0 || area.width == 0 {
        assert(ops@ =~= Seq::empty());
        return ops;
    }
    ops.push(
        DrawOp::Title { area: Rect { x: area.x, y: area.y, width: area.width, height: 1 } },
    );
    let ghost title = ops@;
    let mut index: usize = 0;
    assert(title + history_ops(area, history as nat).take(0) =~= title);
    while index < history
        invariant
            history <= MAX_RENDERED_HISTORY_LINES,
            0 <= index <= history,
            ops@ == title + history_ops(area, history as nat).take(index as int),
        decreases history - index,
    {
        let ghost before = ops@;
        ops.push(
            DrawOp::HistoryLine {
                index,
                area: Rect {
                    x: area.x.saturating_add(2),
                    y: area.y.saturating_add(1 + index as u16),
                    width: area.width.saturating_sub(2),
                    height: 1,
                },
            },
        );
        proof {
            let lines = history_ops(area, history as nat);
            assert(lines.take(index + 1) =~= lines.take(index as int).push(lines[index as int]));
            assert(ops@ =~= title + lines.take(index + 1));
        }
        index += 1;
    }
    proof {
        let lines = history_ops(area, history as nat);
        assert(lines.take(history as int) =~= lines);
    }
    let ghost shown = ops@;
    let rows: u16 = input_height(desired);
    let top: u16 = area.y.saturating_add(1).saturating_add(history as u16);
    if area.width >= 2 {
        let mut row: u16 = 0;
        let ghost gutters = gutter_ops(area, top, rows as nat);
        assert(shown + gutters.take(0) =~= shown);
        while row < rows
            invariant
                0 <= row <= rows,
                rows <= 7,
                gutters == gutter_ops(area, top, rows as nat),
                ops@ == shown + gutters.take(row as int),
            decreases rows - row,
        {
            ops.push(
                DrawOp::Gutter {
                    area: Rect { x: area.x, y: top.saturating_add(row), width: 2, height: 1 },
                },
            );
            proof {
                assert(gutters.take(row + 1) =~= gutters.take(row as int).push(
                    gutters[row as int],
                ));
                assert(ops@ =~= shown + gutters.take(row + 1));
            }
            row += 1;
        }
        assert(gutters.take(rows as int) =~= gutters);
        let rect = Rect {
            x: area.x.saturating_add(2),
            y: top.saturating_add(1),
            width: area.width - 2,
            height: rows - 1,
        };
        ops.push(DrawOp::Clear { area: rect });
        ops.push(DrawOp::TextArea { area: rect });
        if text_is_empty {
            ops.push(DrawOp::Placeholder { area: rect });
        }
        assert(rect == text_rect(area, history as nat, desired));
    }
    assert(ops@ =~= shown + input_ops(area, history as nat, desired, text_is_empty));
    let hint_y: u16 = top.saturating_add(rows).saturating_add(1);
    if hint_y < area.y.saturating_add(area.height) {
        ops.push(
            DrawOp::Hint { area: Rect { x: area.x, y: hint_y, width: area.width, height: 1 } },
        );
    }
    assert(ops@ =~= draw_plan(area, history as nat, desired, text_is_empty));
    ops
}

/// A response that the panel does not wait for changes nothing.
pub proof fn law_stale_response_changes_nothing(
    state: BtwViewState,
    request_id: u128,
    result: Result<Seq<char>, Seq<char>>,
)
    requires
        !state.awaits(request_id),
    ensures
        state.answered(request_id, result) == state,
{
}

/// A response is taken in once: it closes the question, and a second response
/// to the same request changes nothing.
pub proof fn law_response_is_taken_in_once(
    state: BtwViewState,
    request_id: u128,
    result: Result<Seq<char>, Seq<char>>,
    again: Result<Seq<char>, Seq<char>>,
)
    ensures
        !state.answered(request_id, result).awaits(request_id),
        state.answered(request_id, result).answered(request_id, again) == state.answered(
            request_id,
            result,
        ),
{
}

/// A response to the open question ends up last among the exchanges, with the
/// question that was asked, and the panel stays open.
pub proof fn law_response_answers_its_question(
    state: BtwViewState,
    request_id: u128,
    result: Result<Seq<char>, Seq<char>>,
)
    requires
        state.can_submit(),
    ensures
        ({
            let after = state.submitted(request_id).answered(request_id, result);
            &&& after.exchanges.len() > 0
            &&& after.exchanges.last() == ExchangeView {
                question: trimmed(state.text),
                answer: result,
            }
            &&& after.pending is None
            &&& after.completion == state.completion
        }),
{
    let exchange = ExchangeView { question: trimmed(state.text), answer: result };
    let all = state.exchanges.push(exchange);
    assert(last_of(all, MAX_EXCHANGES as nat).last() == all.last());
}

/// While a question is open no other is asked.
pub proof fn law_one_question_at_a_time(state: BtwViewState, first: u128, second: u128)
    requires
        state.can_submit(),
    ensures
        state.submitted(first).submitted(second) == state.submitted(first),
{
}

/// A panel that keeps no more exchanges than it may goes on doing so.
pub proof fn law_exchanges_stay_bounded(
    state: BtwViewState,
    request_id: u128,
    result: Result<Seq<char>, Seq<char>>,
)
    requires
        state.exchanges.len() <= MAX_EXCHANGES,
    ensures
        state.submitted(request_id).exchanges.len() <= MAX_EXCHANGES,
        state.answered(request_id, result).exchanges.len() <= MAX_EXCHANGES,
        state.cancelled().exchanges.len() <= MAX_EXCHANGES,
{
}

/// In a panel of the height that it asks for, everything that is drawn lies
/// within the panel, and the hint is drawn.
pub proof fn law_panel_has_room(area: Rect, history: nat, desired: u16, empty: bool)
    requires
        history <= MAX_RENDERED_HISTORY_LINES,
        area.height == 1 + history + input_rows(desired) + 2,
        area.width >= 2,
        area.x + area.width <= u16::MAX,
        area.y + area.height <= u16::MAX,
    ensures
        forall|i: int|
            0 <= i < draw_plan(area, history, desired, empty).len() ==> within(
                op_area(#[trigger] draw_plan(area, history, desired, empty)[i]),
                area,
            ),
        hint_ops(area, history, desired).len() == 1,
{
}

/// Where something is drawn.
pub open spec fn op_area(op: DrawOp) -> Rect {
    match op {
        DrawOp::Title { area } => area,
        DrawOp::HistoryLine { area, .. } => area,
        DrawOp::Gutter { area } => area,
        DrawOp::Clear { area } => area,
        DrawOp::TextArea { area } => area,
        DrawOp::Placeholder { area } => area,
        DrawOp::Hint { area } => area,
    }
}

/// Whether a rectangle lies within another.
pub open spec fn within(inner: Rect, outer: Rect) -> bool {
    &&& outer.x <= inner.x
    &&& outer.y <= inner.y
    &&& inner.x + inner.width <= outer.x + outer.width
    &&& inner.y + inner.height <= outer.y + outer.height
}

} // verus!
