//! The variable store: the cells that are global, and the frames that shadow
//! them while a recipe, a `call` or a `foreach` is evaluated.

use crate::number::{decimal, decimal_of, number, parse_number};
use crate::text::{chars_of, copy_text, text_eq, trim, trim_of};
use crate::vars::{loc_view, Flavor, Location, LocationView, Origin, Var, VarView};
use vstd::prelude::*;

verus! {

/// The views of a row of cells.
pub open spec fn cells_view(cells: Seq<Var>) -> Seq<VarView> {
    Seq::new(cells.len(), |i: int| cells[i]@)
}

pub proof fn lemma_cells_push(cells: Seq<Var>, v: Var)
    ensures
        cells_view(cells.push(v)) == cells_view(cells).push(v@),
{
    assert(cells_view(cells.push(v)) =~= cells_view(cells).push(v@));
}

pub proof fn lemma_cells_update(cells: Seq<Var>, i: int, v: Var)
    requires
        0 <= i < cells.len(),
    ensures
        cells_view(cells.update(i, v)) == cells_view(cells).update(i, v@),
{
    assert(cells_view(cells.update(i, v)) =~= cells_view(cells).update(i, v@));
}

/// The first position from `i` on whose cell has the name; the length of the
/// row if none has it.
pub open spec fn find(cells: Seq<VarView>, name: Seq<char>, i: int) -> int
    decreases cells.len() - i,
{
    if 0 <= i < cells.len() && cells[i].name != name {
        find(cells, name, i + 1)
    } else if i < cells.len() {
        i
    } else {
        cells.len() as int
    }
}

/// The name is the decimal numeral of a number above `arity`.
pub open spec fn positional_above(name: Seq<char>, arity: usize) -> bool {
    match number(name) {
        Some(n) => n > arity && decimal(n as nat) == name,
        None => false,
    }
}

/// The cells that one evaluation has bound, and which they shadow.
pub struct Frame {
    cells: Vec<Var>,
    arity: Option<usize>,
}

pub struct FrameView {
    pub cells: Seq<VarView>,
    /// With `Some(k)` the frame belongs to a `call` with `k` arguments: it
    /// hides every positional variable above `k`.
    pub arity: Option<usize>,
}

impl View for Frame {
    type V = FrameView;

    closed spec fn view(&self) -> FrameView {
        FrameView { cells: cells_view(self.cells@), arity: self.arity }
    }
}

pub open spec fn frames_view(frames: Seq<Frame>) -> Seq<FrameView> {
    Seq::new(frames.len(), |i: int| frames[i]@)
}

/// What the frames below `k` say of a name.
pub enum FrameHit {
    Cell(VarView),
    Cleared,
    Miss,
}

pub open spec fn frame_hit(f: FrameView, name: Seq<char>) -> FrameHit {
    let i = find(f.cells, name, 0);
    if i < f.cells.len() {
        FrameHit::Cell(f.cells[i])
    } else if f.arity is Some && positional_above(name, f.arity->0) {
        FrameHit::Cleared
    } else {
        FrameHit::Miss
    }
}

pub open spec fn frames_hit(frames: Seq<FrameView>, k: int, name: Seq<char>) -> FrameHit
    decreases k,
{
    if k <= 0 || k > frames.len() {
        FrameHit::Miss
    } else {
        match frame_hit(frames[k - 1], name) {
            FrameHit::Miss => frames_hit(frames, k - 1, name),
            hit => hit,
        }
    }
}

pub struct StoreView {
    pub globals: Seq<VarView>,
    /// The innermost frame is the last.
    pub frames: Seq<FrameView>,
    /// Whether a cell that an assignment creates is exported.
    pub export_default: bool,
}

impl StoreView {
    /// The cell that a name stands for: that of the innermost frame that
    /// binds it, else the global one; none where a frame hides the name.
    pub open spec fn get(self, name: Seq<char>) -> Option<VarView> {
        match frames_hit(self.frames, self.frames.len() as int, name) {
            FrameHit::Cell(v) => Some(v),
            FrameHit::Cleared => None,
            FrameHit::Miss => {
                let i = find(self.globals, name, 0);
                if i < self.globals.len() {
                    Some(self.globals[i])
                } else {
                    None
                }
            },
        }
    }

    /// The global cell of a name, if there is one.
    pub open spec fn global(self, name: Seq<char>) -> Option<VarView> {
        let i = find(self.globals, name, 0);
        if i < self.globals.len() {
            Some(self.globals[i])
        } else {
            None
        }
    }

    /// The store after a cell was put in the place of the global one of its
    /// name, or added.
    pub open spec fn define(self, cell: VarView) -> StoreView {
        let i = find(self.globals, cell.name, 0);
        if i < self.globals.len() {
            StoreView { globals: self.globals.update(i, cell), ..self }
        } else {
            StoreView { globals: self.globals.push(cell), ..self }
        }
    }

    /// Whether an assignment of this origin to the name takes effect: not
    /// where the name has a global cell of a higher rank.
    pub open spec fn accepts(self, name: Seq<char>, origin: Origin) -> bool {
        match self.global(name) {
            Some(v) => origin.rank() >= v.origin.rank(),
            None => true,
        }
    }

    /// The store after an assignment to a global variable.
    pub open spec fn assign(
        self,
        name: Seq<char>,
        flavor: Flavor,
        origin: Origin,
        loc: Option<LocationView>,
        value: Seq<char>,
    ) -> StoreView {
        match self.global(name) {
            Some(v) => if origin.rank() >= v.origin.rank() {
                self.define(v.redefine(flavor, origin, loc, value))
            } else {
                self
            },
            None => self.define(
                VarView {
                    flavor,
                    origin,
                    loc,
                    name,
                    value,
                    exported: self.export_default && origin != Origin::Automatic,
                    unexported: false,
                    ex_exported: false,
                },
            ),
        }
    }

    /// The store after `text` was appended to a global variable. A variable
    /// that did not exist becomes a recursive one.
    pub open spec fn append(
        self,
        name: Seq<char>,
        origin: Origin,
        loc: Option<LocationView>,
        text: Seq<char>,
    ) -> StoreView {
        match self.global(name) {
            Some(v) => if origin.rank() >= v.origin.rank() {
                self.define(v.append(text))
            } else {
                self
            },
            None => self.assign(name, Flavor::Recursive, origin, loc, trim(text)),
        }
    }

    pub open spec fn export(self, name: Seq<char>) -> StoreView {
        match self.global(name) {
            Some(v) => self.define(v.export()),
            None => self,
        }
    }

    pub open spec fn unexport(self, name: Seq<char>) -> StoreView {
        match self.global(name) {
            Some(v) => self.define(v.unexport()),
            None => self,
        }
    }

    /// Every global cell that no `unexport` named is exported, and so are
    /// the cells that later assignments create.
    pub open spec fn export_all(self) -> StoreView {
        StoreView {
            globals: Seq::new(
                self.globals.len(),
                |i: int|
                    if self.globals[i].unexported {
                        self.globals[i]
                    } else {
                        self.globals[i].export()
                    },
            ),
            export_default: true,
            ..self
        }
    }

    /// Every global cell that is not exported and does not come from the
    /// environment is unexported, and the cells that later assignments create
    /// are not exported.
    pub open spec fn unexport_all(self) -> StoreView {
        StoreView {
            globals: Seq::new(
                self.globals.len(),
                |i: int|
                    if !self.globals[i].exported && self.globals[i].origin != Origin::Env {
                        self.globals[i].unexport()
                    } else {
                        self.globals[i]
                    },
            ),
            export_default: false,
            ..self
        }
    }

    pub open spec fn push_frame(self, arity: Option<usize>) -> StoreView {
        StoreView { frames: self.frames.push(FrameView { cells: Seq::empty(), arity }), ..self }
    }

    pub open spec fn pop_frame(self) -> StoreView {
        if self.frames.len() > 0 {
            StoreView { frames: self.frames.drop_last(), ..self }
        } else {
            self
        }
    }

    /// The store after the innermost frame has bound a cell; unchanged where
    /// no frame is open.
    pub open spec fn bind(self, cell: VarView) -> StoreView {
        if self.frames.len() > 0 {
            let f = self.frames.last();
            let i = find(f.cells, cell.name, 0);
            let cells = if i < f.cells.len() {
                f.cells.update(i, cell)
            } else {
                f.cells.push(cell)
            };
            StoreView {
                frames: self.frames.update(self.frames.len() - 1, FrameView { cells, ..f }),
                ..self
            }
        } else {
            self
        }
    }
}

fn find_cell(cells: &Vec<Var>, name: &Vec<char>) -> (r: usize)
    ensures
        r == find(cells_view(cells@), name@, 0),
        r <= cells.len(),
        r < cells.len() ==> cells[r as int]@.name == name@,
{
    let mut i: usize = 0;
    while i < cells.len() && !text_eq(cells[i].name_text(), name)
        invariant
            i <= cells.len(),
            find(cells_view(cells@), name@, i as int) == find(cells_view(cells@), name@, 0),
        decreases cells.len() - i,
    {
        i += 1;
    }
    i
}

fn is_positional_above(name: &Vec<char>, arity: usize) -> (r: bool)
    ensures
        r == positional_above(name@, arity),
{
    match parse_number(name) {
        Some(n) => {
            if n > arity {
                let d = decimal_of(n);
                text_eq(&d, name)
            } else {
                false
            }
        },
        None => false,
    }
}

fn copy_cells(cells: &Vec<Var>) -> (r: Vec<Var>)
    ensures
        cells_view(r@) == cells_view(cells@),
{
    let mut r: Vec<Var> = Vec::new();
    let mut i: usize = 0;
    while i < cells.len()
        invariant
            i <= cells.len(),
            r.len() == i,
            forall|j: int| 0 <= j < i ==> (#[trigger] r@[j])@ == cells@[j]@,
        decreases cells.len() - i,
    {
        r.push(cells[i].copy());
        i += 1;
    }
    assert(cells_view(r@) =~= cells_view(cells@));
    r
}

/// The global cells: a registry of names, in which no two cells have the
/// same name.
pub struct Registry {
    cells: Vec<Var>,
}

impl View for Registry {
    type V = Seq<VarView>;

    closed spec fn view(&self) -> Seq<VarView> {
        cells_view(self.cells@)
    }
}

impl Registry {
    #[verifier::type_invariant]
    closed spec fn inv(self) -> bool {
        names_distinct(cells_view(self.cells@))
    }

    fn new() -> (r: Registry)
        ensures
            r@ == Seq::<VarView>::empty(),
    {
        let r = Registry { cells: Vec::new() };
        assert(cells_view(r.cells@) =~= Seq::<VarView>::empty());
        r
    }

    fn cells(&self) -> (r: &Vec<Var>)
        ensures
            cells_view(r@) == self@,
    {
        &self.cells
    }

    /// No two cells of the registry have the same name.
    pub fn names_are_distinct(&self)
        ensures
            names_distinct(self@),
    {
        proof {
            use_type_invariant(self);
        }
    }

    fn put(&mut self, cells: Vec<Var>)
        requires
            names_distinct(cells_view(cells@)),
        ensures
            final(self)@ == cells_view(cells@),
    {
        self.cells = cells;
    }
}

/// The variable store. No two of its global cells have the same name.
pub struct SymbolTable {
    globals: Registry,
    frames: Vec<Frame>,
    export_default: bool,
}

impl View for SymbolTable {
    type V = StoreView;

    closed spec fn view(&self) -> StoreView {
        StoreView {
            globals: self.globals@,
            frames: frames_view(self.frames@),
            export_default: self.export_default,
        }
    }
}

impl SymbolTable {
    /// A store without cells or frames, in which new cells are not exported.
    pub fn new() -> (r: SymbolTable)
        ensures
            r@ == (StoreView {
                globals: Seq::empty(),
                frames: Seq::empty(),
                export_default: false,
            }),
    {
        let r = SymbolTable { globals: Registry::new(), frames: Vec::new(), export_default: false };
        assert(frames_view(r.frames@) =~= Seq::empty());
        r
    }

    /// The store is a registry of names: no two global cells of it have the
    /// same name.
    pub fn names_are_distinct(&self)
        ensures
            names_distinct(self@.globals),
    {
        self.globals.names_are_distinct();
    }

    /// The cell that `name` stands for.
    pub fn lookup(&self, name: &Vec<char>) -> (r: Option<&Var>)
        ensures
            match r {
                Some(v) => self@.get(name@) == Some(v@),
                None => self@.get(name@) is None,
            },
    {
        let mut k: usize = self.frames.len();
        while k > 0
            invariant
                k <= self.frames.len(),
                frames_hit(self@.frames, k as int, name@) == frames_hit(
                    self@.frames,
                    self@.frames.len() as int,
                    name@,
                ),
            decreases k,
        {
            let f = &self.frames[k - 1];
            let i = find_cell(&f.cells, name);
            if i < f.cells.len() {
                return Some(&f.cells[i]);
            }
            match f.arity {
                Some(a) => {
                    if is_positional_above(name, a) {
                        return None;
                    }
                },
                None => {},
            }
            k -= 1;
        }
        let cells = self.globals.cells();
        let i = find_cell(cells, name);
        if i < cells.len() {
            Some(&cells[i])
        } else {
            None
        }
    }

    /// The global cell of `name`.
    pub fn lookup_global(&self, name: &Vec<char>) -> (r: Option<&Var>)
        ensures
            match r {
                Some(v) => self@.global(name@) == Some(v@),
                None => self@.global(name@) is None,
            },
    {
        let cells = self.globals.cells();
        let i = find_cell(cells, name);
        if i < cells.len() {
            Some(&cells[i])
        } else {
            None
        }
    }

    /// The value of the variable `name` as it is stored; empty if there is
    /// no such variable.
    pub fn get(&self, name: &str) -> (r: String)
        ensures
            r@ == match self@.get(name@) {
                Some(v) => v.value,
                None => Seq::empty(),
            },
    {
        let n = chars_of(name);
        match self.lookup(&n) {
            Some(v) => v.value(),
            None => String::new(),
        }
    }

    /// Defines a variable as the environment does: a simple one, exported.
    /// A definition of a higher rank stays.
    pub fn set(&mut self, name: &str, value: &str)
        ensures
            final(self)@ == old(self)@.assign(
                name@,
                Flavor::Simple,
                Origin::Env,
                None,
                value@,
            ).export(name@),
    {
        let n = chars_of(name);
        self.assign(copy_text(&n), Flavor::Simple, Origin::Env, None, chars_of(value));
        self.export(&n);
    }

    /// Puts `cell` in the place of the global cell of its name, or adds it.
    pub fn define(&mut self, cell: Var)
        ensures
            final(self)@ == old(self)@.define(cell@),
    {
        self.globals.names_are_distinct();
        let i = find_cell(self.globals.cells(), cell.name_text());
        let mut g = copy_cells(self.globals.cells());
        proof {
            lemma_define_keeps_names_distinct(self@, cell@);
            if i < g.len() {
                lemma_cells_update(g@, i as int, cell);
            } else {
                lemma_cells_push(g@, cell);
            }
        }
        if i < g.len() {
            g[i] = cell;
        } else {
            g.push(cell);
        }
        self.globals.put(g);
    }

    /// Whether an assignment of this origin to `name` would take effect.
    pub fn accepts(&self, name: &Vec<char>, origin: Origin) -> (r: bool)
        ensures
            r == self@.accepts(name@, origin),
    {
        match self.lookup_global(name) {
            Some(v) => origin.rank_of() >= v.origin().rank_of(),
            None => true,
        }
    }

    /// Assigns to a global variable, unless its definition has a higher rank.
    pub fn assign(
        &mut self,
        name: Vec<char>,
        flavor: Flavor,
        origin: Origin,
        loc: Option<Location>,
        value: Vec<char>,
    )
        ensures
            final(self)@ == old(self)@.assign(name@, flavor, origin, loc_view(loc), value@),
    {
        let i = find_cell(self.globals.cells(), &name);
        if i < self.globals.cells().len() {
            if origin.rank_of() >= self.globals.cells()[i].origin().rank_of() {
                let mut cell = self.globals.cells()[i].copy();
                cell.redefine(flavor, origin, loc, value);
                self.define(cell);
            }
        } else {
            let cell = Var::cell(flavor, origin, loc, name, value, self.export_default);
            self.define(cell);
        }
    }

    /// Appends to a global variable, unless its definition has a higher rank.
    pub fn append(&mut self, name: Vec<char>, origin: Origin, loc: Option<Location>, text: &Vec<char>)
        ensures
            final(self)@ == old(self)@.append(name@, origin, loc_view(loc), text@),
    {
        let i = find_cell(self.globals.cells(), &name);
        if i < self.globals.cells().len() {
            if origin.rank_of() >= self.globals.cells()[i].origin().rank_of() {
                let mut cell = self.globals.cells()[i].copy();
                cell.append_text(text);
                self.define(cell);
            }
        } else {
            self.assign(name, Flavor::Recursive, origin, loc, trim_of(text));
        }
    }

    /// Marks the global variable `name` as exported, if there is one.
    pub fn export(&mut self, name: &Vec<char>)
        ensures
            final(self)@ == old(self)@.export(name@),
    {
        let i = find_cell(self.globals.cells(), name);
        if i < self.globals.cells().len() {
            let mut cell = self.globals.cells()[i].copy();
            cell.export();
            self.define(cell);
        }
    }

    /// Marks the global variable `name` as unexported, if there is one.
    pub fn unexport(&mut self, name: &Vec<char>)
        ensures
            final(self)@ == old(self)@.unexport(name@),
    {
        let i = find_cell(self.globals.cells(), name);
        if i < self.globals.cells().len() {
            let mut cell = self.globals.cells()[i].copy();
            cell.unexport();
            self.define(cell);
        }
    }

    /// Exports every global cell that no `unexport` named, and those that
    /// are created later.
    pub fn export_all(&mut self)
        ensures
            final(self)@ == old(self)@.export_all(),
    {
        self.globals.names_are_distinct();
        let mut g: Vec<Var> = Vec::new();
        let n = self.globals.cells().len();
        let mut i: usize = 0;
        while i < n
            invariant
                i <= n,
                n == self@.globals.len(),
                *self == *old(self),
                g.len() == i,
                forall|j: int| 0 <= j < i ==> (#[trigger] g@[j])@ == self@.export_all().globals[j],
            decreases n - i,
        {
            let mut cell = self.globals.cells()[i].copy();
            if !cell.is_unexported() {
                cell.export();
            }
            g.push(cell);
            i += 1;
        }
        proof {
            assert(cells_view(g@) =~= self@.export_all().globals);
            lemma_store_keeps_names_distinct(
                self@,
                Seq::empty(),
                Flavor::Simple,
                Origin::File,
                None,
                Seq::empty(),
            );
        }
        self.globals.put(g);
        self.export_default = true;
    }

    /// Unexports every global cell that is neither exported nor from the
    /// environment, and stops exporting those that are created later.
    pub fn unexport_all(&mut self)
        ensures
            final(self)@ == old(self)@.unexport_all(),
    {
        self.globals.names_are_distinct();
        let mut g: Vec<Var> = Vec::new();
        let n = self.globals.cells().len();
        let mut i: usize = 0;
        while i < n
            invariant
                i <= n,
                n == self@.globals.len(),
                *self == *old(self),
                g.len() == i,
                forall|j: int|
                    0 <= j < i ==> (#[trigger] g@[j])@ == self@.unexport_all().globals[j],
            decreases n - i,
        {
            let mut cell = self.globals.cells()[i].copy();
            let from_env = match cell.origin() {
                Origin::Env => true,
                _ => false,
            };
            if !cell.is_exported() && !from_env {
                cell.unexport();
            }
            g.push(cell);
            i += 1;
        }
        proof {
            assert(cells_view(g@) =~= self@.unexport_all().globals);
            lemma_store_keeps_names_distinct(
                self@,
                Seq::empty(),
                Flavor::Simple,
                Origin::File,
                None,
                Seq::empty(),
            );
        }
        self.globals.put(g);
        self.export_default = false;
    }

    /// Opens a frame.
    pub fn push_frame(&mut self, arity: Option<usize>)
        ensures
            final(self)@ == old(self)@.push_frame(arity),
    {
        let f = Frame { cells: Vec::new(), arity };
        assert(f@.cells =~= Seq::empty());
        self.frames.push(f);
        assert(self@.frames =~= old(self)@.frames.push(f@));
    }

    /// Closes the innermost frame, if one is open.
    pub fn pop_frame(&mut self)
        ensures
            final(self)@ == old(self)@.pop_frame(),
    {
        if self.frames.len() > 0 {
            self.frames.pop();
            assert(self@.frames =~= old(self)@.frames.drop_last());
        }
    }

    /// Binds `cell` in the innermost frame, if one is open.
    pub fn bind(&mut self, cell: Var)
        ensures
            final(self)@ == old(self)@.bind(cell@),
    {
        let n = self.frames.len();
        if n > 0 {
            let mut f = self.frames.pop().unwrap();
            let ghost before = f;
            let i = find_cell(&f.cells, cell.name_text());
            proof {
                if i < f.cells.len() {
                    lemma_cells_update(f.cells@, i as int, cell);
                } else {
                    lemma_cells_push(f.cells@, cell);
                }
            }
            if i < f.cells.len() {
                f.cells[i] = cell;
            } else {
                f.cells.push(cell);
            }
            self.frames.push(f);
            assert(self@.frames =~= old(self)@.frames.update(n - 1, f@));
        }
    }

    /// The number of frames that are open.
    pub fn depth(&self) -> (r: usize)
        ensures
            r == self@.frames.len(),
    {
        self.frames.len()
    }

    /// The number of global cells.
    pub fn len(&self) -> (r: usize)
        ensures
            r == self@.globals.len(),
    {
        self.globals.cells().len()
    }

    /// The global cells, in the order in which they were first defined.
    pub fn enumerate(&self) -> (r: Vec<Var>)
        ensures
            cells_view(r@) == self@.globals,
    {
        copy_cells(self.globals.cells())
    }

    /// A copy of the store.
    pub fn copy(&self) -> (r: SymbolTable)
        ensures
            r@ == self@,
    {
        self.globals.names_are_distinct();
        let mut globals = Registry::new();
        globals.put(self.enumerate());
        let mut frames: Vec<Frame> = Vec::new();
        let mut i: usize = 0;
        while i < self.frames.len()
            invariant
                i <= self.frames.len(),
                frames_view(frames@) == self@.frames.take(i as int),
            decreases self.frames.len() - i,
        {
            let f = &self.frames[i];
            let mut cells: Vec<Var> = Vec::new();
            let mut j: usize = 0;
            while j < f.cells.len()
                invariant
                    j <= f.cells.len(),
                    cells_view(cells@) == cells_view(f.cells@).take(j as int),
                decreases f.cells.len() - j,
            {
                let ghost before = cells@;
                cells.push(f.cells[j].copy());
                proof {
                    lemma_cells_push(before, cells@[j as int]);
                    assert(cells_view(f.cells@).take(j + 1) =~= cells_view(f.cells@).take(
                        j as int,
                    ).push(f.cells@[j as int]@));
                }
                j += 1;
            }
            assert(cells_view(f.cells@).take(f.cells.len() as int) =~= cells_view(f.cells@));
            let ghost before = frames@;
            let copied = Frame { cells, arity: f.arity };
            assert(copied@ == f@);
            frames.push(copied);
            proof {
                assert(frames_view(before.push(copied)) =~= frames_view(before).push(copied@));
                assert(self@.frames.take(i + 1) =~= self@.frames.take(i as int).push(f@));
            }
            i += 1;
        }
        assert(self@.frames.take(self.frames.len() as int) =~= self@.frames);
        SymbolTable { globals, frames, export_default: self.export_default }
    }
}

/// No two cells of the row have the same name.
pub open spec fn names_distinct(cells: Seq<VarView>) -> bool {
    forall|i: int, j: int|
        0 <= i < j < cells.len() ==> (#[trigger] cells[i]).name != (#[trigger] cells[j]).name
}

/// A name that `find` does not find is the name of no cell.
pub proof fn lemma_find_none(cells: Seq<VarView>, name: Seq<char>, i: int)
    requires
        0 <= i <= cells.len(),
        find(cells, name, i) >= cells.len(),
    ensures
        forall|k: int| i <= k < cells.len() ==> (#[trigger] cells[k]).name != name,
    decreases cells.len() - i,
{
    if i < cells.len() {
        lemma_find_none(cells, name, i + 1);
    }
}

/// What `find` finds has the name, and lies in the row.
pub proof fn lemma_find_some(cells: Seq<VarView>, name: Seq<char>, i: int)
    requires
        0 <= i <= cells.len(),
        find(cells, name, i) < cells.len(),
    ensures
        i <= find(cells, name, i),
        cells[find(cells, name, i)].name == name,
    decreases cells.len() - i,
{
    if i < cells.len() && cells[i].name != name {
        lemma_find_some(cells, name, i + 1);
    }
}

/// The store is a registry of names: as long as cells come into it by
/// `define`, and so by `assign`, `append`, `export` and `unexport`, no two
/// global cells have the same name.
pub proof fn lemma_define_keeps_names_distinct(store: StoreView, cell: VarView)
    requires
        names_distinct(store.globals),
    ensures
        names_distinct(store.define(cell).globals),
{
    let i = find(store.globals, cell.name, 0);
    if i < store.globals.len() {
        lemma_find_some(store.globals, cell.name, 0);
    } else {
        lemma_find_none(store.globals, cell.name, 0);
    }
}

/// See `lemma_define_keeps_names_distinct`.
pub proof fn lemma_store_keeps_names_distinct(
    store: StoreView,
    name: Seq<char>,
    flavor: Flavor,
    origin: Origin,
    loc: Option<LocationView>,
    value: Seq<char>,
)
    requires
        names_distinct(store.globals),
    ensures
        names_distinct(store.assign(name, flavor, origin, loc, value).globals),
        names_distinct(store.append(name, origin, loc, value).globals),
        names_distinct(store.export(name).globals),
        names_distinct(store.unexport(name).globals),
        names_distinct(store.export_all().globals),
        names_distinct(store.unexport_all().globals),
{
    let i = find(store.globals, name, 0);
    if i < store.globals.len() {
        lemma_find_some(store.globals, name, 0);
        let v = store.globals[i];
        lemma_define_keeps_names_distinct(store, v.redefine(flavor, origin, loc, value));
        lemma_define_keeps_names_distinct(store, v.append(value));
        lemma_define_keeps_names_distinct(store, v.export());
        lemma_define_keeps_names_distinct(store, v.unexport());
    } else {
        lemma_find_none(store.globals, name, 0);
        lemma_define_keeps_names_distinct(
            store,
            VarView {
                flavor,
                origin,
                loc,
                name,
                value,
                exported: store.export_default && origin != Origin::Automatic,
                unexported: false,
                ex_exported: false,
            },
        );
        lemma_define_keeps_names_distinct(
            store,
            VarView {
                flavor: Flavor::Recursive,
                origin,
                loc,
                name,
                value: trim(value),
                exported: store.export_default && origin != Origin::Automatic,
                unexported: false,
                ex_exported: false,
            },
        );
    }
}

} // verus!
