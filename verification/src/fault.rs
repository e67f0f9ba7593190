//! The errors that end an evaluation, and their messages.

use crate::number::{decimal, decimal_of};
use crate::text::{append, chars_of, string_of};
use crate::vars::{Location, LocationView};
use crate::host::{Request, RequestView};
use vstd::prelude::*;

verus! {

/// Why an evaluation ends.
#[derive(Clone, Copy, Debug, PartialEq, Eq, Structural)]
pub enum FatalKind {
    /// A `$(` or `${` without its closing bracket, or closed by the other kind.
    Unterminated,
    /// A function got fewer arguments than it needs: `number` of them, for `text`.
    ArgCount,
    /// The first argument of `word` or `wordlist` (named by `other`) is no number.
    FirstNotNumber,
    /// The second argument of `wordlist` is no number.
    SecondNotNumber,
    /// The first argument of `word` is zero.
    WordZero,
    /// The first argument of `wordlist` is zero.
    WordListZero,
    /// `$(error text)`.
    UserError,
    /// References are nested more deeply than the evaluator follows them.
    TooDeep,
    /// The pattern of a `wildcard` is not one.
    BadPattern,
    /// The host gave an answer of a kind that was not asked for.
    BadAnswer,
    /// A target has rules with `:` and rules with `::`.
    MixedColons,
    /// A recipe line stands before any rule.
    RecipeOutsideRule,
    /// The file ends inside a conditional.
    MissingEndif,
    /// An `include` names a file that is not there.
    MissingInclude,
    /// An assignment without a name, or with an operator that is not one.
    BadAssignment,
    /// A directive lacks what it needs.
    BadDirective,
    /// Nothing says how to make the target `text`.
    NoRule,
    /// Nothing says how to make `text`, which `other` needs.
    NoRuleNeeded,
    /// A command of a recipe failed.
    CommandFailed,
}

/// An error that ends the evaluation.
pub struct Fatal {
    pub kind: FatalKind,
    pub loc: Location,
    pub text: Vec<char>,
    pub other: Vec<char>,
    pub number: usize,
}

pub struct FatalView {
    pub kind: FatalKind,
    pub loc: LocationView,
    pub text: Seq<char>,
    pub other: Seq<char>,
    pub number: usize,
}

impl View for Fatal {
    type V = FatalView;

    open spec fn view(&self) -> FatalView {
        FatalView {
            kind: self.kind,
            loc: self.loc@,
            text: self.text@,
            other: self.other@,
            number: self.number,
        }
    }
}

/// An error of a kind at a place, with nothing more to say.
pub open spec fn fatal_at(kind: FatalKind, loc: LocationView) -> FatalView {
    FatalView { kind, loc, text: Seq::empty(), other: Seq::empty(), number: 0 }
}

/// An error of a kind at a place, about a text.
pub open spec fn fatal_about(kind: FatalKind, loc: LocationView, text: Seq<char>) -> FatalView {
    FatalView { kind, loc, text, other: Seq::empty(), number: 0 }
}

impl Fatal {
    /// An error of a kind at a place.
    pub fn at(kind: FatalKind, loc: &Location) -> (r: Fatal)
        ensures
            r@ == fatal_at(kind, loc@),
    {
        Fatal { kind, loc: loc.copy(), text: Vec::new(), other: Vec::new(), number: 0 }
    }

    /// An error of a kind at a place, about a text.
    pub fn about(kind: FatalKind, loc: &Location, text: Vec<char>) -> (r: Fatal)
        ensures
            r@ == fatal_about(kind, loc@, text@),
    {
        Fatal { kind, loc: loc.copy(), text, other: Vec::new(), number: 0 }
    }

    /// The status with which the program ends after this error.
    pub fn exit_code(&self) -> (r: u8)
        ensures
            r == exit_code(self@.kind),
    {
        match self.kind {
            FatalKind::NoRule | FatalKind::NoRuleNeeded => 130,
            _ => 2,
        }
    }

    /// The line with which the program `program` reports the error.
    pub fn report(&self, program: &str) -> (r: String)
        ensures
            r@ == report(self@, program@),
    {
        let placed = match self.kind {
            FatalKind::NoRule | FatalKind::NoRuleNeeded | FatalKind::CommandFailed => false,
            _ => true,
        };
        let m = self.message();
        proof {
            reveal_strlit(": ");
            assert(placed ==> place(self@).len() > 0);
        }
        if placed {
            m
        } else {
            let mut out = chars_of(program);
            append(&mut out, &chars_of(": "));
            append(&mut out, &chars_of(m.as_str()));
            string_of(&out)
        }
    }

    /// The line that reports the error.
    pub fn message(&self) -> (r: String)
        ensures
            r@ == message(self@),
    {
        let mut out: Vec<char> = Vec::new();
        match self.kind {
            FatalKind::NoRule | FatalKind::NoRuleNeeded | FatalKind::CommandFailed => {},
            _ => {
                append(&mut out, self.loc.file_text());
                out.push(':');
                append(&mut out, &decimal_of(self.loc.line()));
                append(&mut out, &chars_of(": "));
            },
        }
        assert(out@ =~= place(self@));
        let ghost head = out@;
        append(&mut out, &chars_of("*** "));
        match self.kind {
            FatalKind::Unterminated => {
                append(&mut out, &chars_of("unterminated variable reference.  Stop."));
            },
            FatalKind::ArgCount => {
                append(&mut out, &chars_of("insufficient number of arguments ("));
                append(&mut out, &decimal_of(self.number));
                append(&mut out, &chars_of(") to function '"));
                append(&mut out, &self.text);
                append(&mut out, &chars_of("'.  Stop."));
            },
            FatalKind::FirstNotNumber => {
                append(&mut out, &chars_of("non-numeric first argument to '"));
                append(&mut out, &self.other);
                append(&mut out, &chars_of("' function: '"));
                append(&mut out, &self.text);
                append(&mut out, &chars_of("'.  Stop."));
            },
            FatalKind::SecondNotNumber => {
                append(&mut out, &chars_of("non-numeric second argument to '"));
                append(&mut out, &self.other);
                append(&mut out, &chars_of("' function: '"));
                append(&mut out, &self.text);
                append(&mut out, &chars_of("'.  Stop."));
            },
            FatalKind::WordZero => {
                append(
                    &mut out,
                    &chars_of("first argument to 'word' function must be greater than 0.  Stop."),
                );
            },
            FatalKind::WordListZero => {
                append(
                    &mut out,
                    &chars_of("invalid first argument to 'wordlist' function: '0'.  Stop."),
                );
            },
            FatalKind::UserError => {
                append(&mut out, &self.text);
                append(&mut out, &chars_of(".  Stop."));
            },
            FatalKind::TooDeep => {
                append(&mut out, &chars_of("references are nested too deeply.  Stop."));
            },
            FatalKind::BadPattern => {
                append(&mut out, &chars_of("invalid pattern '"));
                append(&mut out, &self.text);
                append(&mut out, &chars_of("'.  Stop."));
            },
            FatalKind::BadAnswer => {
                append(&mut out, &chars_of("unexpected answer.  Stop."));
            },
            FatalKind::MixedColons => {
                append(&mut out, &chars_of("target file '"));
                append(&mut out, &self.text);
                append(&mut out, &chars_of("' has both : and :: entries.  Stop"));
            },
            FatalKind::RecipeOutsideRule => {
                append(&mut out, &chars_of("recipe commences before first target.  Stop."));
            },
            FatalKind::MissingEndif => {
                append(&mut out, &chars_of("missing 'endif'.  Stop."));
            },
            FatalKind::MissingInclude => {
                append(&mut out, &self.text);
                append(&mut out, &chars_of(": No such file or directory.  Stop."));
            },
            FatalKind::BadAssignment => {
                append(&mut out, &chars_of("empty variable name.  Stop."));
            },
            FatalKind::BadDirective => {
                append(&mut out, &chars_of("invalid syntax in conditional.  Stop."));
            },
            FatalKind::NoRule => {
                append(&mut out, &chars_of("No rule to make target '"));
                append(&mut out, &self.text);
                append(&mut out, &chars_of("'.  Stop."));
            },
            FatalKind::NoRuleNeeded => {
                append(&mut out, &chars_of("No rule to make target '"));
                append(&mut out, &self.text);
                append(&mut out, &chars_of("', needed by '"));
                append(&mut out, &self.other);
                append(&mut out, &chars_of("'. Stop"));
            },
            FatalKind::CommandFailed => {
                append(&mut out, &chars_of("["));
                append(&mut out, self.loc.file_text());
                out.push(':');
                append(&mut out, &decimal_of(self.loc.line()));
                append(&mut out, &chars_of(": "));
                append(&mut out, &self.text);
                append(&mut out, &chars_of("] Error "));
                append(&mut out, &self.other);
            },
        }
        assert(out@ =~= head + "*** "@ + detail(self@));
        string_of(&out)
    }
}

pub open spec fn exit_code(kind: FatalKind) -> u8 {
    match kind {
        FatalKind::NoRule | FatalKind::NoRuleNeeded => 130,
        _ => 2,
    }
}

/// The place before the stars: `file:line: `; nothing for the errors of the
/// scheduler, which the program's name precedes.
pub open spec fn place(f: FatalView) -> Seq<char> {
    match f.kind {
        FatalKind::NoRule | FatalKind::NoRuleNeeded | FatalKind::CommandFailed => Seq::empty(),
        _ => f.loc.file_name + seq![':'] + decimal(f.loc.line as nat) + ": "@,
    }
}

/// What follows the stars.
pub open spec fn detail(f: FatalView) -> Seq<char> {
    match f.kind {
        FatalKind::Unterminated => "unterminated variable reference.  Stop."@,
        FatalKind::ArgCount => "insufficient number of arguments ("@ + decimal(f.number as nat)
            + ") to function '"@ + f.text + "'.  Stop."@,
        FatalKind::FirstNotNumber => "non-numeric first argument to '"@ + f.other
            + "' function: '"@ + f.text + "'.  Stop."@,
        FatalKind::SecondNotNumber => "non-numeric second argument to '"@ + f.other
            + "' function: '"@ + f.text + "'.  Stop."@,
        FatalKind::WordZero => "first argument to 'word' function must be greater than 0.  Stop."@,
        FatalKind::WordListZero => "invalid first argument to 'wordlist' function: '0'.  Stop."@,
        FatalKind::UserError => f.text + ".  Stop."@,
        FatalKind::TooDeep => "references are nested too deeply.  Stop."@,
        FatalKind::BadPattern => "invalid pattern '"@ + f.text + "'.  Stop."@,
        FatalKind::BadAnswer => "unexpected answer.  Stop."@,
        FatalKind::MixedColons => "target file '"@ + f.text + "' has both : and :: entries.  Stop"@,
        FatalKind::RecipeOutsideRule => "recipe commences before first target.  Stop."@,
        FatalKind::MissingEndif => "missing 'endif'.  Stop."@,
        FatalKind::MissingInclude => f.text + ": No such file or directory.  Stop."@,
        FatalKind::BadAssignment => "empty variable name.  Stop."@,
        FatalKind::BadDirective => "invalid syntax in conditional.  Stop."@,
        FatalKind::NoRule => "No rule to make target '"@ + f.text + "'.  Stop."@,
        FatalKind::NoRuleNeeded => "No rule to make target '"@ + f.text + "', needed by '"@
            + f.other + "'. Stop"@,
        FatalKind::CommandFailed => "["@ + f.loc.file_name + seq![':'] + decimal(
            f.loc.line as nat,
        ) + ": "@ + f.text + "] Error "@ + f.other,
    }
}

/// The line that reports an error.
pub open spec fn message(f: FatalView) -> Seq<char> {
    place(f) + "*** "@ + detail(f)
}

/// The line that reports an error of the program `program`: the errors of
/// the scheduler, which have no place, begin with the program's name.
pub open spec fn report(f: FatalView, program: Seq<char>) -> Seq<char> {
    if place(f).len() == 0 {
        program + ": "@ + message(f)
    } else {
        message(f)
    }
}

/// Why an evaluation stops before its end.
pub enum Stop {
    /// It needs an answer that the host has not given yet.
    Need(Request),
    /// It has met an error.
    Fatal(Fatal),
}

pub enum StopView {
    Need(RequestView),
    Fatal(FatalView),
}

impl View for Stop {
    type V = StopView;

    open spec fn view(&self) -> StopView {
        match *self {
            Stop::Need(r) => StopView::Need(r@),
            Stop::Fatal(f) => StopView::Fatal(f@),
        }
    }
}

/// A text or the reason why there is none, as contracts speak of it.
pub open spec fn text_result(r: Result<Vec<char>, Stop>) -> Result<Seq<char>, StopView> {
    match r {
        Ok(t) => Ok(t@),
        Err(s) => Err(s@),
    }
}

pub open spec fn stop_at(kind: FatalKind, loc: LocationView) -> StopView {
    StopView::Fatal(fatal_at(kind, loc))
}

} // verus!
