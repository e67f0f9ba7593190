//! Variable cells and where they were defined.

use crate::text::{append, chars_of, copy_text, string_of, trim, trim_of};
use vstd::prelude::*;

verus! {

/// How a variable's value is read.
#[derive(Clone, Copy, Debug, PartialEq, Eq, Structural)]
pub enum Flavor {
    Undefined,
    /// The value was expanded when it was assigned.
    Simple,
    /// The value is expanded each time the variable is read.
    Recursive,
}

/// Where a variable's definition comes from.
#[derive(Clone, Copy, Debug, PartialEq, Eq, Structural)]
pub enum Origin {
    Undefined,
    Default,
    Env,
    EnvOverride,
    File,
    CmdLine,
    Override,
    Automatic,
}

impl Origin {
    /// The strength of a definition: one of a higher rank is not replaced by
    /// one of a lower rank.
    pub open spec fn rank(self) -> nat {
        match self {
            Origin::Undefined => 0,
            Origin::Automatic => 0,
            Origin::Default => 1,
            Origin::Env => 2,
            Origin::EnvOverride => 3,
            Origin::File => 4,
            Origin::CmdLine => 5,
            Origin::Override => 6,
        }
    }

    /// The rank of the origin.
    pub fn rank_of(self) -> (r: u8)
        ensures
            r == self.rank(),
    {
        match self {
            Origin::Undefined => 0,
            Origin::Automatic => 0,
            Origin::Default => 1,
            Origin::Env => 2,
            Origin::EnvOverride => 3,
            Origin::File => 4,
            Origin::CmdLine => 5,
            Origin::Override => 6,
        }
    }
}

/// A place in a makefile.
#[derive(Debug, Clone)]
pub struct Location {
    file_name: Vec<char>,
    line: usize,
}

pub struct LocationView {
    pub file_name: Seq<char>,
    pub line: usize,
}

impl View for Location {
    type V = LocationView;

    closed spec fn view(&self) -> LocationView {
        LocationView { file_name: self.file_name@, line: self.line }
    }
}

impl Default for Location {
    fn default() -> (r: Location)
        ensures
            r@ == (LocationView { file_name: Seq::empty(), line: 0 }),
    {
        Location { file_name: Vec::new(), line: 0 }
    }
}

impl Location {
    /// A place: a file and a line.
    pub fn new(file_name: &str, line: usize) -> (r: Location)
        ensures
            r@ == (LocationView { file_name: file_name@, line }),
    {
        Location { file_name: chars_of(file_name), line }
    }

    /// A place: a file and a line.
    pub fn at(file_name: Vec<char>, line: usize) -> (r: Location)
        ensures
            r@ == (LocationView { file_name: file_name@, line }),
    {
        Location { file_name, line }
    }

    /// The name of the file.
    pub fn file_name(&self) -> (r: String)
        ensures
            r@ == self@.file_name,
    {
        string_of(&self.file_name)
    }

    /// The name of the file.
    pub fn file_text(&self) -> (r: &Vec<char>)
        ensures
            r@ == self@.file_name,
    {
        &self.file_name
    }

    /// The number of the line.
    pub fn line(&self) -> (r: usize)
        ensures
            r == self@.line,
    {
        self.line
    }

    /// A copy.
    pub fn copy(&self) -> (r: Location)
        ensures
            r@ == self@,
    {
        Location { file_name: copy_text(&self.file_name), line: self.line }
    }
}

pub open spec fn loc_view(loc: Option<Location>) -> Option<LocationView> {
    match loc {
        Some(l) => Some(l@),
        None => None,
    }
}

/// A copy of a place, if there is one.
pub fn copy_loc(loc: &Option<Location>) -> (r: Option<Location>)
    ensures
        loc_view(r) == loc_view(*loc),
{
    match loc {
        Some(l) => Some(l.copy()),
        None => None,
    }
}

/// A variable cell.
#[derive(Debug, Clone)]
pub struct Var {
    flavor: Flavor,
    origin: Origin,
    loc: Option<Location>,
    name: Vec<char>,
    value: Vec<char>,
    mark: ExportMark,
    ex_exported: bool,
}

/// What `export` and `unexport` have last said of a cell.
#[derive(Clone, Copy, Debug, PartialEq, Eq, Structural)]
enum ExportMark {
    Unmarked,
    Exported,
    Unexported,
}

pub struct VarView {
    pub flavor: Flavor,
    pub origin: Origin,
    pub loc: Option<LocationView>,
    pub name: Seq<char>,
    /// The text as it was stored: expanded already for a simple variable,
    /// not yet for a recursive one.
    pub value: Seq<char>,
    /// The cell is handed to the processes that are started.
    pub exported: bool,
    /// An `unexport` named the cell.
    pub unexported: bool,
    /// An `export` named the cell.
    pub ex_exported: bool,
}

impl VarView {
    /// A cell is not both exported and unexported, and an automatic cell is
    /// never exported.
    pub open spec fn consistent(self) -> bool {
        &&& !(self.exported && self.unexported)
        &&& self.origin == Origin::Automatic ==> !self.exported
    }

    pub open spec fn with_value(self, value: Seq<char>) -> VarView {
        VarView { value, ..self }
    }

    /// The cell after an `export` of it.
    pub open spec fn export(self) -> VarView {
        if self.origin == Origin::Automatic {
            self
        } else {
            VarView { exported: true, ex_exported: true, unexported: false, ..self }
        }
    }

    /// The cell after an `unexport` of it.
    pub open spec fn unexport(self) -> VarView {
        VarView { exported: false, unexported: true, ..self }
    }

    /// The cell after an assignment that takes effect: the name and the
    /// export marks stay, but an automatic cell is not exported.
    pub open spec fn redefine(
        self,
        flavor: Flavor,
        origin: Origin,
        loc: Option<LocationView>,
        value: Seq<char>,
    ) -> VarView {
        VarView {
            flavor,
            origin,
            loc,
            value,
            exported: self.exported && origin != Origin::Automatic,
            ..self
        }
    }

    /// The cell after `text` was appended to its value.
    pub open spec fn append(self, text: Seq<char>) -> VarView {
        VarView { value: self.value + seq![' '] + trim(text), ..self }
    }

    /// What the cell asks of the environment of the processes that are
    /// started: its value under its name, the name's removal, or nothing.
    pub open spec fn mirrored(self) -> Option<Option<Seq<char>>> {
        if self.exported {
            Some(Some(self.value))
        } else if self.unexported {
            Some(None)
        } else {
            None
        }
    }
}

impl View for Var {
    type V = VarView;

    closed spec fn view(&self) -> VarView {
        VarView {
            flavor: self.flavor,
            origin: self.origin,
            loc: loc_view(self.loc),
            name: self.name@,
            value: self.value@,
            exported: self.mark == ExportMark::Exported && self.origin != Origin::Automatic,
            unexported: self.mark == ExportMark::Unexported,
            ex_exported: self.ex_exported,
        }
    }
}

impl Var {
    /// A cell is not both exported and unexported, and an automatic cell is
    /// never exported.
    pub proof fn lemma_consistent(self)
        ensures
            self@.consistent(),
    {
    }

    /// A new cell. An automatic cell is not exported, whatever `exported` says.
    pub fn new(
        flavor: Flavor,
        origin: Origin,
        loc: Option<Location>,
        name: String,
        value: String,
        exported: bool,
    ) -> (r: Var)
        ensures
            r@ == (VarView {
                flavor,
                origin,
                loc: loc_view(loc),
                name: name@,
                value: value@,
                exported: exported && origin != Origin::Automatic,
                unexported: false,
                ex_exported: false,
            }),
    {
        Var::cell(flavor, origin, loc, chars_of(name.as_str()), chars_of(value.as_str()), exported)
    }

    /// A new cell from texts.
    pub fn cell(
        flavor: Flavor,
        origin: Origin,
        loc: Option<Location>,
        name: Vec<char>,
        value: Vec<char>,
        exported: bool,
    ) -> (r: Var)
        ensures
            r@ == (VarView {
                flavor,
                origin,
                loc: loc_view(loc),
                name: name@,
                value: value@,
                exported: exported && origin != Origin::Automatic,
                unexported: false,
                ex_exported: false,
            }),
    {
        let automatic = match origin {
            Origin::Automatic => true,
            _ => false,
        };
        Var {
            flavor,
            origin,
            loc,
            name,
            value,
            mark: if exported && !automatic {
                ExportMark::Exported
            } else {
                ExportMark::Unmarked
            },
            ex_exported: false,
        }
    }

    /// Marks the cell as exported, unless it is automatic.
    pub fn export(&mut self)
        ensures
            final(self)@ == old(self)@.export(),
    {
        let automatic = match self.origin {
            Origin::Automatic => true,
            _ => false,
        };
        if !automatic {
            self.mark = ExportMark::Exported;
            self.ex_exported = true;
        }
    }

    /// Marks the cell as unexported.
    pub fn unexport(&mut self)
        ensures
            final(self)@ == old(self)@.unexport(),
    {
        self.mark = ExportMark::Unexported;
    }

    /// Replaces the value.
    pub fn store(&mut self, value: String)
        ensures
            final(self)@ == old(self)@.with_value(value@),
    {
        self.value = chars_of(value.as_str());
    }

    /// Replaces the value.
    pub fn store_text(&mut self, value: Vec<char>)
        ensures
            final(self)@ == old(self)@.with_value(value@),
    {
        self.value = value;
    }

    /// Appends a space and `value` without the white space at its ends.
    pub fn append(&mut self, value: &str)
        ensures
            final(self)@ == old(self)@.append(value@),
    {
        let text = chars_of(value);
        self.append_text(&text);
    }

    /// Appends a space and `value` without the white space at its ends.
    pub fn append_text(&mut self, value: &Vec<char>)
        ensures
            final(self)@ == old(self)@.append(value@),
    {
        let t = trim_of(value);
        self.value.push(' ');
        append(&mut self.value, &t);
        assert(self.value@ =~= old(self).value@ + seq![' '] + trim(value@));
    }

    /// Replaces what an assignment gives: flavor, origin, place and value.
    /// The name and the export marks stay.
    pub fn redefine(&mut self, flavor: Flavor, origin: Origin, loc: Option<Location>, value: Vec<char>)
        ensures
            final(self)@ == old(self)@.redefine(flavor, origin, loc_view(loc), value@),
    {
        let automatic = match origin {
            Origin::Automatic => true,
            _ => false,
        };
        let keep = self.is_exported() && !automatic;
        match self.mark {
            ExportMark::Exported => {
                if !keep {
                    self.mark = ExportMark::Unmarked;
                }
            },
            _ => {},
        }
        self.flavor = flavor;
        self.origin = origin;
        self.loc = loc;
        self.value = value;
    }

    /// How the cell's value is read.
    pub fn flavor(&self) -> (r: Flavor)
        ensures
            r == self@.flavor,
    {
        self.flavor
    }

    /// Where the cell's definition comes from.
    pub fn origin(&self) -> (r: Origin)
        ensures
            r == self@.origin,
    {
        self.origin
    }

    /// Where the cell was defined.
    pub fn loc(&self) -> (r: &Option<Location>)
        ensures
            loc_view(*r) == self@.loc,
    {
        &self.loc
    }

    /// The name of the variable.
    pub fn name(&self) -> (r: String)
        ensures
            r@ == self@.name,
    {
        string_of(&self.name)
    }

    /// The name of the variable.
    pub fn name_text(&self) -> (r: &Vec<char>)
        ensures
            r@ == self@.name,
    {
        &self.name
    }

    /// The value as it is stored.
    pub fn value(&self) -> (r: String)
        ensures
            r@ == self@.value,
    {
        string_of(&self.value)
    }

    /// The value as it is stored.
    pub fn value_text(&self) -> (r: &Vec<char>)
        ensures
            r@ == self@.value,
    {
        &self.value
    }

    /// Whether the cell is handed to the processes that are started.
    pub fn is_exported(&self) -> (r: bool)
        ensures
            r == self@.exported,
    {
        match (self.mark, self.origin) {
            (ExportMark::Exported, Origin::Automatic) => false,
            (ExportMark::Exported, _) => true,
            _ => false,
        }
    }

    /// Whether an `unexport` named the cell last.
    pub fn is_unexported(&self) -> (r: bool)
        ensures
            r == self@.unexported,
    {
        match self.mark {
            ExportMark::Unexported => true,
            _ => false,
        }
    }

    /// Whether an `export` named the cell.
    pub fn is_explicitly_exported(&self) -> (r: bool)
        ensures
            r == self@.ex_exported,
    {
        self.ex_exported
    }

    /// What the cell asks of the environment of the processes that are
    /// started: `Some(Some(value))` to set its name, `Some(None)` to remove
    /// it, `None` to leave it as it is.
    pub fn mirrored(&self) -> (r: Option<Option<String>>)
        ensures
            match r {
                Some(Some(v)) => self@.mirrored() == Some(Some(v@)),
                Some(None) => self@.mirrored() == Some(None::<Seq<char>>),
                None => self@.mirrored() is None,
            },
    {
        if self.is_exported() {
            Some(Some(string_of(&self.value)))
        } else if self.is_unexported() {
            Some(None)
        } else {
            None
        }
    }

    /// A copy.
    pub fn copy(&self) -> (r: Var)
        ensures
            r@ == self@,
    {
        Var {
            flavor: self.flavor,
            origin: self.origin,
            loc: copy_loc(&self.loc),
            name: copy_text(&self.name),
            value: copy_text(&self.value),
            mark: self.mark,
            ex_exported: self.ex_exported,
        }
    }
}

} // verus!
