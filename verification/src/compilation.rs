//! Compilation jobs and the compilation units that they hold.

use vstd::prelude::*;
use crate::output::{Expression, Statement, XrefId, SExpr, expr_view};
use crate::ir::{CompatibilityMode, CreateOp, UpdateOp};

verus! {

/// The kind of compilation job.
#[derive(Debug, Clone, Copy, PartialEq, Eq, Structural)]
pub enum CompilationJobKind {
    /// Template compilation.
    Tmpl,
    /// Host binding compilation.
    Host,
    /// Logic that applies to both compilation types.
    Both,
}

/// Possible modes in which a component's template can be compiled.
#[derive(Debug, Clone, Copy, PartialEq, Eq, Structural)]
pub enum TemplateCompilationMode {
    /// Supports the full instruction set, including directives.
    Full,
    /// A narrower instruction set that doesn't support directives and allows optimizations.
    DomOnly,
}

/// Shared constants of a compilation.
#[derive(Debug)]
pub struct ConstantPool {
    pub statements: Vec<Statement>,
}

impl Default for ConstantPool {
    fn default() -> (r: Self)
        ensures
            r.statements@.len() == 0,
    {
        ConstantPool { statements: Vec::new() }
    }
}

/// An ongoing compilation, which results in one or more template functions.
pub trait CompilationJob: Sized {
    /// The xref of the root unit.
    spec fn spec_root_xref(&self) -> XrefId;

    /// The job kind.
    spec fn spec_kind(&self) -> CompilationJobKind;

    /// The compatibility mode.
    spec fn spec_compatibility(&self) -> CompatibilityMode;

    /// Whether `n` more xrefs can be allocated.
    spec fn spec_can_allocate_n(&self, n: nat) -> bool;

    /// The job after an allocation, and the xref allocated.
    spec fn spec_allocate(&self) -> (Self, XrefId);

    /// The xref of the root unit.
    fn root_xref(&self) -> (x: XrefId)
        ensures
            x == self.spec_root_xref(),
    ;

    /// The job kind.
    fn kind(&self) -> (k: CompilationJobKind)
        ensures
            k == self.spec_kind(),
    ;

    /// The compatibility mode.
    fn compatibility(&self) -> (c: CompatibilityMode)
        ensures
            c == self.spec_compatibility(),
    ;

    /// The compilation mode.
    fn mode(&self) -> TemplateCompilationMode;

    /// The suffix of the names of the emitted functions.
    fn fn_suffix(&self) -> &'static str;

    /// The component's name.
    fn component_name(&self) -> &str;

    /// After an allocation, one allocation fewer remains possible.
    proof fn lemma_allocate_n(&self, n: nat)
        requires
            self.spec_can_allocate_n(n + 1),
        ensures
            self.spec_allocate().0.spec_can_allocate_n(n),
    ;

    /// Fewer allocations remain possible when more do.
    proof fn lemma_can_allocate_mono(&self, a: nat, b: nat)
        requires
            self.spec_can_allocate_n(a),
            b <= a,
        ensures
            self.spec_can_allocate_n(b),
    ;

    /// Allocate a new xref.
    fn allocate_xref_id(&mut self) -> (x: XrefId)
        requires
            old(self).spec_can_allocate_n(1),
        ensures
            (*final(self), x) == old(self).spec_allocate(),
    ;
}

/// A unit that is compiled into one template function.
pub trait CompilationUnit {
    fn xref(&self) -> XrefId;

    fn fn_name(&self) -> Option<&String>;

    fn set_fn_name(&mut self, name: String);

    fn vars(&self) -> Option<usize>;

    fn set_vars(&mut self, vars: usize);

    fn create(&self) -> &Vec<CreateOp>;

    fn update(&self) -> &Vec<UpdateOp>;
}

/// The single unit of a host binding compilation.
#[derive(Debug)]
pub struct HostBindingCompilationUnit {
    pub xref: XrefId,
    pub attributes: Option<Expression>,
    pub fn_name: Option<String>,
    pub vars: Option<usize>,
    pub create: Vec<CreateOp>,
    pub update: Vec<UpdateOp>,
}

impl HostBindingCompilationUnit {
    /// An empty unit with xref 0.
    pub fn new() -> (r: Self)
        ensures
            r.xref == (XrefId { id: 0 }),
            r.attributes is None,
            r.fn_name is None,
            r.vars is None,
            r.create@.len() == 0,
            r.update@.len() == 0,
    {
        HostBindingCompilationUnit {
            xref: XrefId { id: 0 },
            attributes: None,
            fn_name: None,
            vars: None,
            create: Vec::new(),
            update: Vec::new(),
        }
    }
}

impl CompilationUnit for HostBindingCompilationUnit {
    fn xref(&self) -> (x: XrefId)
        ensures
            x == self.xref,
    {
        self.xref
    }

    fn fn_name(&self) -> (r: Option<&String>)
        ensures
            r == match self.fn_name {
                Some(s) => Some(&s),
                None => None::<&String>,
            },
    {
        match &self.fn_name {
            Some(s) => Some(s),
            None => None,
        }
    }

    fn set_fn_name(&mut self, name: String)
        ensures
            final(self).fn_name == Some(name),
            final(self).xref == old(self).xref,
            final(self).attributes == old(self).attributes,
            final(self).vars == old(self).vars,
            final(self).create == old(self).create,
            final(self).update == old(self).update,
    {
        self.fn_name = Some(name);
    }

    fn vars(&self) -> (r: Option<usize>)
        ensures
            r == self.vars,
    {
        self.vars
    }

    fn set_vars(&mut self, vars: usize)
        ensures
            final(self).vars == Some(vars),
            final(self).xref == old(self).xref,
            final(self).attributes == old(self).attributes,
            final(self).fn_name == old(self).fn_name,
            final(self).create == old(self).create,
            final(self).update == old(self).update,
    {
        self.vars = Some(vars);
    }

    fn create(&self) -> (r: &Vec<CreateOp>)
        ensures
            r == &self.create,
    {
        &self.create
    }

    fn update(&self) -> (r: &Vec<UpdateOp>)
        ensures
            r == &self.update,
    {
        &self.update
    }
}

/// Compilation of a host binding, which holds a single unit.
#[derive(Debug)]
pub struct HostBindingCompilationJob {
    pub component_name: String,
    pub pool: ConstantPool,
    pub compatibility: CompatibilityMode,
    pub mode: TemplateCompilationMode,
    pub root: HostBindingCompilationUnit,
}

impl HostBindingCompilationJob {
    /// A job whose root unit is empty.
    pub fn new(
        component_name: String,
        pool: ConstantPool,
        compatibility: CompatibilityMode,
        mode: TemplateCompilationMode,
    ) -> (r: Self)
        ensures
            r.component_name@ == component_name@,
            r.pool == pool,
            r.compatibility == compatibility,
            r.mode == mode,
            r.root.xref == (XrefId { id: 0 }),
            r.root.attributes is None,
            r.root.fn_name is None,
            r.root.vars is None,
            r.root.create@.len() == 0,
            r.root.update@.len() == 0,
    {
        let root = HostBindingCompilationUnit::new();
        HostBindingCompilationJob { component_name, pool, compatibility, mode, root }
    }
}

impl CompilationJob for HostBindingCompilationJob {
    open spec fn spec_root_xref(&self) -> XrefId {
        self.root.xref
    }

    open spec fn spec_kind(&self) -> CompilationJobKind {
        CompilationJobKind::Host
    }

    open spec fn spec_compatibility(&self) -> CompatibilityMode {
        self.compatibility
    }

    open spec fn spec_can_allocate_n(&self, n: nat) -> bool {
        true
    }

    proof fn lemma_allocate_n(&self, n: nat) {
    }

    proof fn lemma_can_allocate_mono(&self, a: nat, b: nat) {
    }

    /// Host bindings allocate no xrefs of their own: every allocation gives 0.
    open spec fn spec_allocate(&self) -> (Self, XrefId) {
        (*self, XrefId { id: 0 })
    }

    fn root_xref(&self) -> (x: XrefId) {
        self.root.xref
    }

    fn kind(&self) -> (k: CompilationJobKind) {
        CompilationJobKind::Host
    }

    fn compatibility(&self) -> (c: CompatibilityMode) {
        self.compatibility
    }

    fn mode(&self) -> (m: TemplateCompilationMode)
        ensures
            m == self.mode,
    {
        self.mode
    }

    fn fn_suffix(&self) -> (s: &'static str)
        ensures
            s@ == "HostBindings"@,
    {
        "HostBindings"
    }

    fn component_name(&self) -> (s: &str)
        ensures
            s@ == self.component_name@,
    {
        self.component_name.as_str()
    }

    fn allocate_xref_id(&mut self) -> (x: XrefId) {
        XrefId { id: 0 }
    }
}

} // verus!
