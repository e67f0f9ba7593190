//! What the evaluator cannot do itself: it asks its host, and goes on with
//! the answers that the host has given so far.
//!
//! An evaluation is a function of its input and of the row of answers. Where
//! it needs an answer that the row does not hold yet, it stops with the
//! request; the host performs the request, adds the answer to the row and
//! starts the evaluation again from the same input.

use crate::store::{StoreView, SymbolTable};
use crate::text::{copy_text, copy_texts, texts};
use vstd::prelude::*;

verus! {

/// A request to the host.
pub enum Request {
    /// Run `command` under `shell` with `flags` and capture what it prints.
    Shell { shell: Vec<char>, flags: Vec<char>, command: Vec<char> },
    /// Run `command` under `shell` with `flags`, with the host's own output.
    Run { shell: Vec<char>, flags: Vec<char>, command: Vec<char> },
    /// The paths that match a pattern.
    Wildcard { pattern: Vec<char> },
    /// The canonical form of a path.
    Canonical { path: Vec<char> },
    /// The text of a file.
    Read { path: Vec<char> },
    /// When a file was last modified.
    Stat { path: Vec<char> },
}

pub enum RequestView {
    Shell { shell: Seq<char>, flags: Seq<char>, command: Seq<char> },
    Run { shell: Seq<char>, flags: Seq<char>, command: Seq<char> },
    Wildcard { pattern: Seq<char> },
    Canonical { path: Seq<char> },
    Read { path: Seq<char> },
    Stat { path: Seq<char> },
}

impl View for Request {
    type V = RequestView;

    open spec fn view(&self) -> RequestView {
        match *self {
            Request::Shell { shell, flags, command } => RequestView::Shell {
                shell: shell@,
                flags: flags@,
                command: command@,
            },
            Request::Run { shell, flags, command } => RequestView::Run {
                shell: shell@,
                flags: flags@,
                command: command@,
            },
            Request::Wildcard { pattern } => RequestView::Wildcard { pattern: pattern@ },
            Request::Canonical { path } => RequestView::Canonical { path: path@ },
            Request::Read { path } => RequestView::Read { path: path@ },
            Request::Stat { path } => RequestView::Stat { path: path@ },
        }
    }
}

/// An answer of the host.
pub enum Answer {
    /// What a command printed, and its exit status.
    Output { text: Vec<char>, status: i32 },
    /// The paths that match a pattern.
    Paths { paths: Vec<Vec<char>> },
    /// A text: a canonical path, or what a file holds.
    Text { text: Vec<char> },
    /// When a file was last modified: seconds and nanoseconds.
    Stamp { seconds: u64, nanos: u32 },
    /// There is no such file.
    Missing,
    /// The request could not be understood.
    Refused,
}

pub enum AnswerView {
    Output { text: Seq<char>, status: i32 },
    Paths { paths: Seq<Seq<char>> },
    Text { text: Seq<char> },
    Stamp { seconds: u64, nanos: u32 },
    Missing,
    Refused,
}

impl View for Answer {
    type V = AnswerView;

    open spec fn view(&self) -> AnswerView {
        match *self {
            Answer::Output { text, status } => AnswerView::Output { text: text@, status },
            Answer::Paths { paths } => AnswerView::Paths { paths: texts(paths@) },
            Answer::Text { text } => AnswerView::Text { text: text@ },
            Answer::Stamp { seconds, nanos } => AnswerView::Stamp { seconds, nanos },
            Answer::Missing => AnswerView::Missing,
            Answer::Refused => AnswerView::Refused,
        }
    }
}

impl Answer {
    /// A copy of the answer.
    pub fn copy(&self) -> (r: Answer)
        ensures
            r@ == self@,
    {
        match self {
            Answer::Output { text, status } => Answer::Output {
                text: copy_text(text),
                status: *status,
            },
            Answer::Paths { paths } => Answer::Paths { paths: copy_texts(paths) },
            Answer::Text { text } => Answer::Text { text: copy_text(text) },
            Answer::Stamp { seconds, nanos } => Answer::Stamp { seconds: *seconds, nanos: *nanos },
            Answer::Missing => Answer::Missing,
            Answer::Refused => Answer::Refused,
        }
    }
}

/// Where a line of the status stream goes.
#[derive(Clone, Copy, Debug, PartialEq, Eq, Structural)]
pub enum Stream {
    Output,
    Error,
}

/// One line for the status stream.
pub struct Message {
    pub stream: Stream,
    pub text: Vec<char>,
}

pub struct MessageView {
    pub stream: Stream,
    pub text: Seq<char>,
}

impl View for Message {
    type V = MessageView;

    open spec fn view(&self) -> MessageView {
        MessageView { stream: self.stream, text: self.text@ }
    }
}

pub open spec fn messages_view(log: Seq<Message>) -> Seq<MessageView> {
    Seq::new(log.len(), |i: int| log[i]@)
}

pub open spec fn answers_view(answers: Seq<Answer>) -> Seq<AnswerView> {
    Seq::new(answers.len(), |i: int| answers[i]@)
}

/// The answers that the host has given, how many of them the evaluation has
/// used, and the lines that it has written.
pub struct Host {
    answers: Vec<Answer>,
    used: usize,
    log: Vec<Message>,
}

pub struct HostView {
    pub answers: Seq<AnswerView>,
    pub used: nat,
    pub log: Seq<MessageView>,
}

impl HostView {
    /// The answer that comes next, if the row holds one more.
    pub open spec fn next(self) -> Option<AnswerView> {
        if self.used < self.answers.len() {
            Some(self.answers[self.used as int])
        } else {
            None
        }
    }

    /// The host after the next answer was used.
    pub open spec fn advance(self) -> HostView {
        if self.used < self.answers.len() {
            HostView { used: self.used + 1, ..self }
        } else {
            self
        }
    }

    pub open spec fn say(self, stream: Stream, text: Seq<char>) -> HostView {
        HostView { log: self.log.push(MessageView { stream, text }), ..self }
    }
}

impl View for Host {
    type V = HostView;

    closed spec fn view(&self) -> HostView {
        HostView {
            answers: answers_view(self.answers@),
            used: if self.used <= self.answers.len() {
                self.used as nat
            } else {
                self.answers.len() as nat
            },
            log: messages_view(self.log@),
        }
    }
}

impl Host {
    /// A host that has not answered yet.
    pub fn new() -> (r: Host)
        ensures
            r@ == (HostView { answers: Seq::empty(), used: 0, log: Seq::empty() }),
    {
        let r = Host { answers: Vec::new(), used: 0, log: Vec::new() };
        assert(answers_view(r.answers@) =~= Seq::empty());
        assert(messages_view(r.log@) =~= Seq::empty());
        r
    }

    /// A host that has given these answers, at the start of an evaluation.
    pub fn replay(answers: Vec<Answer>) -> (r: Host)
        ensures
            r@ == (HostView { answers: answers_view(answers@), used: 0, log: Seq::empty() }),
    {
        let r = Host { answers, used: 0, log: Vec::new() };
        assert(messages_view(r.log@) =~= Seq::empty());
        r
    }

    /// The next answer, which is then used.
    pub fn take(&mut self) -> (r: Option<Answer>)
        ensures
            match r {
                Some(a) => old(self)@.next() == Some(a@),
                None => old(self)@.next() is None,
            },
            final(self)@ == old(self)@.advance(),
    {
        if self.used < self.answers.len() {
            let a = self.answers[self.used].copy();
            self.used = self.used + 1;
            Some(a)
        } else {
            None
        }
    }

    /// Writes a line.
    pub fn say(&mut self, stream: Stream, text: Vec<char>)
        ensures
            final(self)@ == old(self)@.say(stream, text@),
    {
        let m = Message { stream, text };
        self.log.push(m);
        assert(messages_view(self.log@) =~= messages_view(old(self).log@).push(m@));
    }

    /// How many lines were written.
    pub fn written(&self) -> (r: usize)
        ensures
            r == self@.log.len(),
    {
        self.log.len()
    }

    /// The line with the number `i`.
    pub fn line(&self, i: usize) -> (r: &Message)
        requires
            i < self@.log.len(),
        ensures
            r@ == self@.log[i as int],
    {
        &self.log[i]
    }

    /// How many answers the evaluation has used.
    pub fn used(&self) -> (r: usize)
        ensures
            r == self@.used,
    {
        if self.used <= self.answers.len() {
            self.used
        } else {
            self.answers.len()
        }
    }
}

/// The store and the host: what an evaluation reads and changes.
pub struct Evaluator {
    pub vars: SymbolTable,
    pub host: Host,
}

pub struct EvalView {
    pub vars: StoreView,
    pub host: HostView,
}

impl View for Evaluator {
    type V = EvalView;

    open spec fn view(&self) -> EvalView {
        EvalView { vars: self.vars@, host: self.host@ }
    }
}

impl Evaluator {
    /// An evaluator with a store, at the start of an evaluation that has these answers.
    pub fn new(vars: SymbolTable, answers: Vec<Answer>) -> (r: Evaluator)
        ensures
            r@.vars == vars@,
            r@.host == (HostView { answers: answers_view(answers@), used: 0, log: Seq::empty() }),
    {
        Evaluator { vars, host: Host::replay(answers) }
    }
}

} // verus!
