//! The symbol table and the first pass, which fills it.
//!
//! The table has two levels: global names (labels and defined constants)
//! and names scoped to a label (sub-labels and sub-constants), keyed by the
//! enclosing label and the name.

use vstd::prelude::*;
use crate::error::{outcome_view, AssemblyError, SpecError};
use crate::instructions::{InstructionOrConstant, PreprocessorCommand, SpecCommand, SpecElement};
use crate::layout::{address_after, spec_address_after};

verus! {

/// The view of a [`SymbolTable`].
pub struct SpecSymbols {
    pub globals: Map<Seq<char>, u32>,
    pub subs: Map<(Seq<char>, Seq<char>), u32>,
}

impl SpecSymbols {
    pub open spec fn empty() -> SpecSymbols {
        SpecSymbols { globals: Map::empty(), subs: Map::empty() }
    }

    /// The table with a new global name, which must not be defined yet.
    pub open spec fn define(self, name: Seq<char>, value: u32) -> Result<SpecSymbols, SpecError> {
        if self.globals.contains_key(name) {
            Err(SpecError::DuplicateSymbol(name))
        } else {
            Ok(SpecSymbols { globals: self.globals.insert(name, value), subs: self.subs })
        }
    }

    /// The table with a new name under the enclosing label `scope`. There
    /// must be such a label, and the name must not be defined under it yet.
    pub open spec fn define_sub(self, scope: Option<Seq<char>>, name: Seq<char>, value: u32)
        -> Result<SpecSymbols, SpecError> {
        match scope {
            None => Err(SpecError::NoEnclosingLabel(name)),
            Some(label) => if self.subs.contains_key((label, name)) {
                Err(SpecError::DuplicateSymbol(name))
            } else {
                Ok(
                    SpecSymbols {
                        globals: self.globals,
                        subs: self.subs.insert((label, name), value),
                    },
                )
            },
        }
    }

    /// The value of a name under the enclosing label `scope`, if there is
    /// such a label and it holds the name.
    pub open spec fn sub(self, scope: Option<Seq<char>>, name: Seq<char>) -> Option<u32> {
        match scope {
            None => None,
            Some(label) => self.subs.get((label, name)),
        }
    }
}

#[derive(Debug, Clone)]
struct GlobalEntry {
    name: String,
    value: u32,
}

#[derive(Debug, Clone)]
struct ScopedEntry {
    scope: String,
    name: String,
    value: u32,
}

/// The names of a program and their values. A name, once defined, keeps its
/// value.
#[derive(Debug, Clone)]
pub struct SymbolTable {
    globals: Vec<GlobalEntry>,
    subs: Vec<ScopedEntry>,
}

spec fn globals_of(entries: Seq<GlobalEntry>) -> Map<Seq<char>, u32>
    decreases entries.len(),
{
    if entries.len() == 0 {
        Map::empty()
    } else {
        globals_of(entries.drop_last()).insert(entries.last().name@, entries.last().value)
    }
}

spec fn subs_of(entries: Seq<ScopedEntry>) -> Map<(Seq<char>, Seq<char>), u32>
    decreases entries.len(),
{
    if entries.len() == 0 {
        Map::empty()
    } else {
        subs_of(entries.drop_last()).insert(
            (entries.last().scope@, entries.last().name@),
            entries.last().value,
        )
    }
}

impl View for SymbolTable {
    type V = SpecSymbols;

    closed spec fn view(&self) -> SpecSymbols {
        SpecSymbols { globals: globals_of(self.globals@), subs: subs_of(self.subs@) }
    }
}

impl SymbolTable {
    pub fn new() -> (table: SymbolTable)
        ensures
            table@ == SpecSymbols::empty(),
    {
        SymbolTable { globals: Vec::new(), subs: Vec::new() }
    }

    /// The value of a global name.
    pub fn global(&self, name: &String) -> (r: Option<u32>)
        ensures
            r == self@.globals.get(name@),
    {
        let mut i: usize = self.globals.len();
        assert(self.globals@.take(i as int) == self.globals@);
        while i > 0
            invariant
                i <= self.globals.len(),
                self@.globals.get(name@) == globals_of(self.globals@.take(i as int)).get(name@),
            decreases i,
        {
            i -= 1;
            assert(self.globals@.take(i + 1).drop_last() == self.globals@.take(i as int));
            if self.globals[i].name == *name {
                return Some(self.globals[i].value);
            }
        }
        None
    }

    /// The value of a name under the enclosing label `scope`.
    pub fn sub(&self, scope: Option<&String>, name: &String) -> (r: Option<u32>)
        ensures
            r == self@.sub(scope.deep_view(), name@),
    {
        let label = match scope {
            None => { return None; },
            Some(label) => label,
        };
        let mut i: usize = self.subs.len();
        assert(self.subs@.take(i as int) == self.subs@);
        while i > 0
            invariant
                i <= self.subs.len(),
                scope == Some(label),
                self@.subs.get((label@, name@)) == subs_of(self.subs@.take(i as int)).get(
                    (label@, name@),
                ),
            decreases i,
        {
            i -= 1;
            assert(self.subs@.take(i + 1).drop_last() == self.subs@.take(i as int));
            if self.subs[i].scope == *label && self.subs[i].name == *name {
                return Some(self.subs[i].value);
            }
        }
        None
    }

    /// Defines a global name. A name that is already defined is refused.
    pub fn define(self, name: String, value: u32) -> (r: Result<SymbolTable, AssemblyError>)
        ensures
            outcome_view(r) == self@.define(name@, value),
    {
        if self.global(&name).is_some() {
            return Err(AssemblyError::DuplicateSymbol(name));
        }
        let mut table = self;
        table.globals.push(GlobalEntry { name, value });
        assert(table.globals@.drop_last() == self.globals@);
        Ok(table)
    }

    /// Defines a name under the enclosing label `scope`. It is refused where
    /// there is no enclosing label, or where the label already holds the name.
    pub fn define_sub(self, scope: Option<&String>, name: String, value: u32) -> (r: Result<
        SymbolTable,
        AssemblyError,
    >)
        ensures
            outcome_view(r) == self@.define_sub(scope.deep_view(), name@, value),
    {
        let label = match scope {
            None => { return Err(AssemblyError::NoEnclosingLabel(name)); },
            Some(label) => label,
        };
        if self.sub(scope, &name).is_some() {
            return Err(AssemblyError::DuplicateSymbol(name));
        }
        let mut table = self;
        table.subs.push(ScopedEntry { scope: label.clone(), name, value });
        assert(table.subs@.drop_last() == self.subs@);
        Ok(table)
    }
}

/// The view of a [`Layout`].
pub struct SpecLayout {
    pub cursor: u32,
    pub symbols: SpecSymbols,
    pub scope: Option<Seq<char>>,
}

impl SpecLayout {
    pub open spec fn start() -> SpecLayout {
        SpecLayout { cursor: 0, symbols: SpecSymbols::empty(), scope: None }
    }

    /// The table after `element`: a label binds the cursor, a definition its
    /// own value, and every other element leaves the table as it is.
    pub open spec fn define(self, element: SpecElement) -> Result<SpecSymbols, SpecError> {
        match element {
            SpecElement::Label(name) => self.symbols.define(name, self.cursor),
            SpecElement::SubLabel(name) => self.symbols.define_sub(self.scope, name, self.cursor),
            SpecElement::PreprocessorCommand(SpecCommand::Define(name, value)) =>
                self.symbols.define(name, value),
            SpecElement::PreprocessorCommand(SpecCommand::DefineSub(name, value)) =>
                self.symbols.define_sub(self.scope, name, value),
            _ => Ok(self.symbols),
        }
    }

    /// The state of the first pass after `element`.
    pub open spec fn step(self, element: SpecElement) -> Result<SpecLayout, SpecError> {
        match self.define(element) {
            Err(e) => Err(e),
            Ok(symbols) => match spec_address_after(self.cursor, element) {
                Err(e) => Err(e),
                Ok(cursor) => Ok(
                    SpecLayout { cursor, symbols, scope: spec_scope_after(self.scope, element) },
                ),
            },
        }
    }
}

/// The enclosing label after an element: a top-level label opens a scope,
/// which lasts until the next one.
pub open spec fn spec_scope_after(scope: Option<Seq<char>>, element: SpecElement) -> Option<
    Seq<char>,
> {
    match element {
        SpecElement::Label(name) => Some(name),
        _ => scope,
    }
}

/// The state of the first pass after all of `elements`, or the first
/// failure on the way.
pub open spec fn spec_layout(elements: Seq<SpecElement>) -> Result<SpecLayout, SpecError>
    decreases elements.len(),
{
    if elements.len() == 0 {
        Ok(SpecLayout::start())
    } else {
        match spec_layout(elements.drop_last()) {
            Err(e) => Err(e),
            Ok(layout) => layout.step(elements.last()),
        }
    }
}

/// The symbol table of a program, or the first failure of the first pass.
pub open spec fn spec_symbols(elements: Seq<SpecElement>) -> Result<SpecSymbols, SpecError> {
    match spec_layout(elements) {
        Err(e) => Err(e),
        Ok(layout) => Ok(layout.symbols),
    }
}

/// A failure of the first pass on a prefix is its failure on the whole.
pub proof fn lemma_layout_failure_stays(elements: Seq<SpecElement>, n: int)
    requires
        0 <= n <= elements.len(),
        spec_layout(elements.take(n)) is Err,
    ensures
        spec_layout(elements) == spec_layout(elements.take(n)),
    decreases elements.len() - n,
{
    if n == elements.len() {
        assert(elements.take(n) == elements);
    } else {
        assert(elements.take(n + 1).drop_last() == elements.take(n));
        lemma_layout_failure_stays(elements, n + 1);
    }
}

/// The state of the first pass: where it stands, what it has defined, and
/// under which label.
#[derive(Debug, Clone)]
pub struct Layout {
    pub cursor: u32,
    pub table: SymbolTable,
    pub scope: Option<String>,
}

impl View for Layout {
    type V = SpecLayout;

    open spec fn view(&self) -> SpecLayout {
        SpecLayout { cursor: self.cursor, symbols: self.table@, scope: self.scope.deep_view() }
    }
}

impl Layout {
    pub fn new() -> (layout: Layout)
        ensures
            layout@ == SpecLayout::start(),
    {
        Layout { cursor: 0, table: SymbolTable::new(), scope: None }
    }

    /// Takes one element in: records what it defines and moves the cursor
    /// past it.
    pub fn step(self, element: &InstructionOrConstant) -> (r: Result<Layout, AssemblyError>)
        ensures
            outcome_view(r) == self@.step(element@),
    {
        let Layout { cursor, table, scope } = self;
        let table = match element {
            InstructionOrConstant::Label(name) => table.define(name.clone(), cursor)?,
            InstructionOrConstant::SubLabel(name) => table.define_sub(
                scope.as_ref(),
                name.clone(),
                cursor,
            )?,
            InstructionOrConstant::PreprocessorCommand(PreprocessorCommand::Define(name, value)) =>
                table.define(name.clone(), *value)?,
            InstructionOrConstant::PreprocessorCommand(
                PreprocessorCommand::DefineSub(name, value),
            ) => table.define_sub(scope.as_ref(), name.clone(), *value)?,
            _ => table,
        };
        let next = address_after(cursor, element)?;
        let scope = match element {
            InstructionOrConstant::Label(name) => Some(name.clone()),
            _ => scope,
        };
        Ok(Layout { cursor: next, table, scope })
    }
}

/// The first pass: walks the program, binds every label to the address at
/// which it stands and every defined constant to its value, and checks that
/// no `offset` points backward.
pub fn build_symbol_table(elements: &Vec<InstructionOrConstant>) -> (r: Result<
    SymbolTable,
    AssemblyError,
>)
    ensures
        outcome_view(r) == spec_symbols(elements.deep_view()),
{
    let ghost program = elements.deep_view();
    let mut layout = Layout::new();
    let mut i: usize = 0;
    while i < elements.len()
        invariant
            i <= elements.len(),
            program == elements.deep_view(),
            spec_layout(program.take(i as int)) == Ok::<SpecLayout, SpecError>(layout@),
        decreases elements.len() - i,
    {
        proof {
            assert(program.take(i + 1).drop_last() == program.take(i as int));
            assert(program.take(i + 1).last() == elements@[i as int]@);
        }
        match layout.step(&elements[i]) {
            Ok(next) => {
                layout = next;
            },
            Err(e) => {
                proof {
                    lemma_layout_failure_stays(program, i + 1);
                }
                return Err(e);
            },
        }
        i += 1;
    }
    assert(program.take(i as int) == program);
    Ok(layout.table)
}

} // verus!
