//! The compilation of a component's template: its root view, the embedded views it allocates,
//! kept in insertion order, and the constants it collects.

use vstd::prelude::*;
use crate::output::{Expression, SExpr, XrefId, expr_view, exprs_view, lemma_exprs_view_index, lemma_exprs_view_len,
    lemma_exprs_view_push, lemma_exprs_view_append};
use crate::ir::{CompatibilityMode, ConstIndex, CreateOp, UpdateOp};
use crate::compilation::{CompilationJob, CompilationJobKind, CompilationUnit, ConstantPool, TemplateCompilationMode};
use crate::equivalence::{equiv, is_equivalent};

verus! {

#[verifier::external_type_specification]
#[verifier::external_body]
#[verifier::reject_recursive_types(K)]
#[verifier::reject_recursive_types(V)]
#[verifier::reject_recursive_types(S)]
pub struct ExIndexMap<K, V, S>(indexmap::IndexMap<K, V, S>);

/// The entries of a map of views, key and view, in insertion order.
pub uninterp spec fn view_entries(m: indexmap::IndexMap<u64, ViewCompilationUnit>) -> Seq<(u64, ViewCompilationUnit)>;

/// The keys of a map of views, in insertion order.
pub open spec fn view_keys(m: indexmap::IndexMap<u64, ViewCompilationUnit>) -> Seq<u64> {
    unit_keys(view_entries(m))
}

/// The entries of a map of strings, in insertion order.
pub uninterp spec fn string_entries(m: indexmap::IndexMap<String, String>) -> Seq<(Seq<char>, Seq<char>)>;

/// `IndexMap::new`: a map with no entries.
#[verifier::external_body]
fn new_view_map() -> (r: indexmap::IndexMap<u64, ViewCompilationUnit>)
    ensures
        view_entries(r) == Seq::<(u64, ViewCompilationUnit)>::empty(),
{
    indexmap::IndexMap::new()
}

/// `IndexMap::new`: a map with no entries.
#[verifier::external_body]
fn new_string_map() -> (r: indexmap::IndexMap<String, String>)
    ensures
        string_entries(r) == Seq::<(Seq<char>, Seq<char>)>::empty(),
{
    indexmap::IndexMap::new()
}

/// `IndexMap::insert`: the keys of a map are distinct; a key already present keeps its place,
/// gets the new value, and the old value is returned; a new key goes last with its value and
/// `None` is returned.
#[verifier::external_body]
fn insert_view(
    m: &mut indexmap::IndexMap<u64, ViewCompilationUnit>,
    key: u64,
    value: ViewCompilationUnit,
) -> (r: Option<ViewCompilationUnit>)
    ensures
        view_keys(*old(m)).no_duplicates(),
        forall|i: int|
            0 <= i < view_entries(*old(m)).len() && #[trigger] view_entries(*old(m))[i].0 == key
                ==> view_entries(*final(m)) == view_entries(*old(m)).update(i, (key, value)) && r == Some(
                view_entries(*old(m))[i].1,
            ),
        !view_keys(*old(m)).contains(key) ==> view_entries(*final(m)) == view_entries(*old(m)).push((key, value))
            && r is None,
{
    m.insert(key, value)
}

/// `IndexMap::drain(..)`: every entry is taken out, in the map's order, and the map is left
/// empty; the keys of a map are distinct.
#[verifier::external_body]
fn drain_views(m: &mut indexmap::IndexMap<u64, ViewCompilationUnit>) -> (r: Vec<(u64, ViewCompilationUnit)>)
    ensures
        r@ == view_entries(*old(m)),
        view_keys(*old(m)).no_duplicates(),
        view_entries(*final(m)) == Seq::<(u64, ViewCompilationUnit)>::empty(),
{
    m.drain(..).collect()
}

/// The keys of a list of keyed views.
pub open spec fn unit_keys(v: Seq<(u64, ViewCompilationUnit)>) -> Seq<u64> {
    v.map_values(|p: (u64, ViewCompilationUnit)| p.0)
}

/// Two lists of keyed views have the same keys, in the same order, and each view of the second
/// stands in `rel` to the view of the first at its index.
pub open spec fn units_related(
    a: Seq<(u64, ViewCompilationUnit)>,
    b: Seq<(u64, ViewCompilationUnit)>,
    rel: spec_fn(int, ViewCompilationUnit, ViewCompilationUnit) -> bool,
) -> bool {
    &&& a.len() == b.len()
    &&& forall|i: int| #![trigger b[i]] 0 <= i < a.len() ==> b[i].0 == a[i].0 && rel(i, a[i].1, b[i].1)
}

/// Relating one more view keeps two lists related.
pub(crate) proof fn lemma_units_related_push(
    a: Seq<(u64, ViewCompilationUnit)>,
    b: Seq<(u64, ViewCompilationUnit)>,
    rel: spec_fn(int, ViewCompilationUnit, ViewCompilationUnit) -> bool,
    j: int,
    k: u64,
    v: ViewCompilationUnit,
)
    requires
        0 <= j < a.len(),
        units_related(a.take(j), b, rel),
        k == a[j].0,
        rel(j, a[j].1, v),
    ensures
        units_related(a.take(j + 1), b.push((k, v)), rel),
{
    let b2 = b.push((k, v));
    assert forall|i: int| #![trigger b2[i]] 0 <= i < j + 1 implies b2[i].0 == a.take(j + 1)[i].0 && rel(
        i,
        a.take(j + 1)[i].1,
        b2[i].1,
    ) by {
        if i < j {
            assert(b2[i] == b[i]);
            assert(a.take(j + 1)[i] == a.take(j)[i]);
        }
    }
}

/// Related lists have the same keys.
pub proof fn lemma_units_related_keys(
    a: Seq<(u64, ViewCompilationUnit)>,
    b: Seq<(u64, ViewCompilationUnit)>,
    rel: spec_fn(int, ViewCompilationUnit, ViewCompilationUnit) -> bool,
)
    requires
        units_related(a, b, rel),
    ensures
        unit_keys(a) == unit_keys(b),
{
    assert forall|i: int| 0 <= i < a.len() implies unit_keys(a)[i] == unit_keys(b)[i] by {
        assert(b[i].0 == a[i].0);
    }
    assert(unit_keys(a) =~= unit_keys(b));
}

/// Compilation-in-progress of one view of a template.
pub struct ViewCompilationUnit {
    pub xref: XrefId,
    pub parent: Option<XrefId>,
    pub context_variables: indexmap::IndexMap<String, String>,
    pub decls: Option<usize>,
    pub fn_name: Option<String>,
    pub vars: Option<usize>,
    pub create: Vec<CreateOp>,
    pub update: Vec<UpdateOp>,
}

impl ViewCompilationUnit {
    /// An empty view with the given xref and parent.
    pub fn new(xref: XrefId, parent: Option<XrefId>) -> (r: Self)
        ensures
            r.xref == xref,
            r.parent == parent,
            string_entries(r.context_variables) == Seq::<(Seq<char>, Seq<char>)>::empty(),
            r.decls is None,
            r.fn_name is None,
            r.vars is None,
            r.create@.len() == 0,
            r.update@.len() == 0,
    {
        ViewCompilationUnit {
            xref,
            parent,
            context_variables: new_string_map(),
            decls: None,
            fn_name: None,
            vars: None,
            create: Vec::new(),
            update: Vec::new(),
        }
    }
}

impl CompilationUnit for ViewCompilationUnit {
    fn xref(&self) -> (x: XrefId)
        ensures
            x == self.xref,
    {
        self.xref
    }

    fn fn_name(&self) -> (r: Option<&String>)
        ensures
            r == match self.fn_name {
                Some(s) => Some(&s),
                None => None::<&String>,
            },
    {
        match &self.fn_name {
            Some(s) => Some(s),
            None => None,
        }
    }

    fn set_fn_name(&mut self, name: String)
        ensures
            final(self).fn_name == Some(name),
            final(self).xref == old(self).xref,
            final(self).parent == old(self).parent,
            final(self).decls == old(self).decls,
            final(self).vars == old(self).vars,
            final(self).create == old(self).create,
            final(self).update == old(self).update,
    {
        self.fn_name = Some(name);
    }

    fn vars(&self) -> (r: Option<usize>)
        ensures
            r == self.vars,
    {
        self.vars
    }

    fn set_vars(&mut self, vars: usize)
        ensures
            final(self).vars == Some(vars),
            final(self).xref == old(self).xref,
            final(self).parent == old(self).parent,
            final(self).decls == old(self).decls,
            final(self).fn_name == old(self).fn_name,
            final(self).create == old(self).create,
            final(self).update == old(self).update,
    {
        self.vars = Some(vars);
    }

    fn create(&self) -> (r: &Vec<CreateOp>)
        ensures
            r == &self.create,
    {
        &self.create
    }

    fn update(&self) -> (r: &Vec<UpdateOp>)
        ensures
            r == &self.update,
    {
        &self.update
    }
}

/// Compilation-in-progress of a whole component's template: its root view, the embedded views,
/// keyed by the ids of their xrefs, and the constants of the template.
pub struct ComponentCompilationJob {
    pub component_name: String,
    pub pool: ConstantPool,
    pub compatibility: CompatibilityMode,
    pub mode: TemplateCompilationMode,
    pub relative_context_file_path: String,
    pub i18n_use_external_ids: bool,
    pub all_deferrable_deps_fn: Option<Expression>,
    pub relative_template_path: Option<String>,
    pub enable_debug_locations: bool,
    pub root: ViewCompilationUnit,
    pub views: indexmap::IndexMap<u64, ViewCompilationUnit>,
    pub content_selectors: Option<Expression>,
    pub consts: Vec<Expression>,
    pub consts_initializers: Vec<Expression>,
    pub next_xref_id: XrefId,
}

/// The index of the first constant equivalent to `c`.
pub open spec fn first_equivalent(consts: Seq<SExpr>, c: SExpr) -> Option<int>
    decreases consts.len(),
{
    if consts.len() == 0 {
        None
    } else {
        match first_equivalent(consts.drop_last(), c) {
            Some(i) => Some(i),
            None => if equiv(consts.last(), c) {
                Some(consts.len() - 1)
            } else {
                None
            },
        }
    }
}

/// The two jobs agree on everything but the constants and their initializers.
pub open spec fn same_but_consts(a: ComponentCompilationJob, b: ComponentCompilationJob) -> bool {
    &&& a.component_name == b.component_name
    &&& a.pool == b.pool
    &&& a.compatibility == b.compatibility
    &&& a.mode == b.mode
    &&& a.relative_context_file_path == b.relative_context_file_path
    &&& a.i18n_use_external_ids == b.i18n_use_external_ids
    &&& a.all_deferrable_deps_fn == b.all_deferrable_deps_fn
    &&& a.relative_template_path == b.relative_template_path
    &&& a.enable_debug_locations == b.enable_debug_locations
    &&& a.content_selectors == b.content_selectors
    &&& a.root == b.root
    &&& a.views == b.views
    &&& a.next_id() == b.next_id()
}

/// The two jobs agree on everything but the views, embedded and root.
pub open spec fn same_but_views(a: ComponentCompilationJob, b: ComponentCompilationJob) -> bool {
    &&& a.component_name == b.component_name
    &&& a.pool == b.pool
    &&& a.compatibility == b.compatibility
    &&& a.mode == b.mode
    &&& a.relative_context_file_path == b.relative_context_file_path
    &&& a.i18n_use_external_ids == b.i18n_use_external_ids
    &&& a.all_deferrable_deps_fn == b.all_deferrable_deps_fn
    &&& a.relative_template_path == b.relative_template_path
    &&& a.enable_debug_locations == b.enable_debug_locations
    &&& a.content_selectors == b.content_selectors
    &&& a.consts == b.consts
    &&& a.consts_initializers == b.consts_initializers
    &&& a.next_xref_id == b.next_xref_id
}

/// The two views agree on everything but their creation lists.
pub open spec fn same_unit_but_create(a: ViewCompilationUnit, b: ViewCompilationUnit) -> bool {
    &&& a.xref == b.xref
    &&& a.parent == b.parent
    &&& a.context_variables == b.context_variables
    &&& a.decls == b.decls
    &&& a.fn_name == b.fn_name
    &&& a.vars == b.vars
    &&& a.update == b.update
}

/// The two views agree on everything but their update lists.
pub open spec fn same_unit_but_update(a: ViewCompilationUnit, b: ViewCompilationUnit) -> bool {
    &&& a.xref == b.xref
    &&& a.parent == b.parent
    &&& a.context_variables == b.context_variables
    &&& a.decls == b.decls
    &&& a.fn_name == b.fn_name
    &&& a.vars == b.vars
    &&& a.create == b.create
}

/// The two views agree on everything but their creation and update lists.
pub open spec fn same_unit_but_lists(a: ViewCompilationUnit, b: ViewCompilationUnit) -> bool {
    &&& a.xref == b.xref
    &&& a.parent == b.parent
    &&& a.context_variables == b.context_variables
    &&& a.decls == b.decls
    &&& a.fn_name == b.fn_name
    &&& a.vars == b.vars
}

/// Take the embedded views out of a job, in order.
pub(crate) fn take_view_units(job: &mut ComponentCompilationJob) -> (r: Vec<(u64, ViewCompilationUnit)>)
    ensures
        r@ == view_entries(old(job).views),
        unit_keys(r@).no_duplicates(),
        view_entries(final(job).views) == Seq::<(u64, ViewCompilationUnit)>::empty(),
        same_but_views(*final(job), *old(job)),
        final(job).root == old(job).root,
{
    drain_views(&mut job.views)
}

/// Put embedded views, with distinct keys, back into a job that holds none, in order.
pub(crate) fn restore_view_units(job: &mut ComponentCompilationJob, units: Vec<(u64, ViewCompilationUnit)>)
    requires
        view_entries(old(job).views) == Seq::<(u64, ViewCompilationUnit)>::empty(),
        unit_keys(units@).no_duplicates(),
    ensures
        view_entries(final(job).views) == units@,
        same_but_views(*final(job), *old(job)),
        final(job).root == old(job).root,
{
    let ghost all = units@;
    let ghost keys = unit_keys(all);
    let mut units = units;
    let n = units.len();
    let mut j: usize = 0;
    proof {
        assert(all.take(0) =~= Seq::<(u64, ViewCompilationUnit)>::empty());
        assert(all.skip(0) =~= all);
    }
    while j < n
        invariant
            n == all.len(),
            j <= n,
            keys == unit_keys(all),
            keys.no_duplicates(),
            units@ == all.skip(j as int),
            view_entries(job.views) == all.take(j as int),
            same_but_views(*job, *old(job)),
            job.root == old(job).root,
        decreases n - j,
    {
        let ghost before = units@;
        let (k, u) = units.remove(0);
        proof {
            assert(before[0] == all[j as int]);
            assert(k == keys[j as int]);
            assert(!view_keys(job.views).contains(k)) by {
                if view_keys(job.views).contains(k) {
                    let i = choose|i: int| 0 <= i < view_keys(job.views).len() && view_keys(job.views)[i] == k;
                    assert(view_keys(job.views)[i] == all.take(j as int)[i].0);
                    assert(keys[i] == keys[j as int]);
                }
            }
        }
        let _ = insert_view(&mut job.views, k, u);
        proof {
            assert(all.take(j as int).push((k, u)) =~= all.take(j + 1));
            assert(units@ =~= all.skip(j + 1));
        }
        j += 1;
    }
    proof {
        assert(all.take(n as int) =~= all);
    }
}

/// Whether a view is a fresh one for `x` under `parent`: nothing in it yet.
pub open spec fn fresh_view(v: ViewCompilationUnit, x: XrefId, parent: Option<XrefId>) -> bool {
    &&& v.xref == x
    &&& v.parent == parent
    &&& string_entries(v.context_variables) == Seq::<(Seq<char>, Seq<char>)>::empty()
    &&& v.decls is None
    &&& v.fn_name is None
    &&& v.vars is None
    &&& v.create@.len() == 0
    &&& v.update@.len() == 0
}

impl ComponentCompilationJob {
    /// The id of the next xref to allocate.
    pub open spec fn next_id(&self) -> u64 {
        self.next_xref_id.id
    }

    /// The root view has xref 0, and every embedded view an id below the next one.
    pub open spec fn wf(&self) -> bool {
        &&& self.root.xref.id == 0
        &&& self.next_xref_id.id >= 1
        &&& forall|i: int| 0 <= i < view_keys(self.views).len() ==> #[trigger] view_keys(self.views)[i] < self.next_xref_id.id
    }

    /// A job with an empty root view, no embedded views and no constants.
    pub fn new(
        component_name: String,
        pool: ConstantPool,
        compatibility: CompatibilityMode,
        mode: TemplateCompilationMode,
        relative_context_file_path: String,
        i18n_use_external_ids: bool,
        all_deferrable_deps_fn: Option<Expression>,
        relative_template_path: Option<String>,
        enable_debug_locations: bool,
    ) -> (r: Self)
        ensures
            r.wf(),
            r.next_id() == 1,
            r.component_name@ == component_name@,
            r.pool == pool,
            r.compatibility == compatibility,
            r.mode == mode,
            r.relative_context_file_path@ == relative_context_file_path@,
            r.i18n_use_external_ids == i18n_use_external_ids,
            r.all_deferrable_deps_fn == all_deferrable_deps_fn,
            r.relative_template_path == relative_template_path,
            r.enable_debug_locations == enable_debug_locations,
            r.root.xref == (XrefId { id: 0 }),
            r.root.parent is None,
            view_entries(r.views) == Seq::<(u64, ViewCompilationUnit)>::empty(),
            r.content_selectors is None,
            r.consts@.len() == 0,
            r.consts_initializers@.len() == 0,
    {
        let root = ViewCompilationUnit::new(XrefId { id: 0 }, None);
        let views = new_view_map();
        ComponentCompilationJob {
            component_name,
            pool,
            compatibility,
            mode,
            relative_context_file_path,
            i18n_use_external_ids,
            all_deferrable_deps_fn,
            relative_template_path,
            enable_debug_locations,
            root,
            views,
            content_selectors: None,
            consts: Vec::new(),
            consts_initializers: Vec::new(),
            next_xref_id: XrefId { id: 1 },
        }
    }

    /// Add a view for a new embedded view, under a new xref, which is returned.
    pub fn allocate_view(&mut self, parent: Option<XrefId>) -> (x: XrefId)
        requires
            old(self).wf(),
            old(self).next_id() < u64::MAX,
        ensures
            final(self).wf(),
            x.id == old(self).next_id(),
            final(self).next_id() == old(self).next_id() + 1,
            view_entries(final(self).views).len() == view_entries(old(self).views).len() + 1,
            view_entries(final(self).views).drop_last() == view_entries(old(self).views),
            view_entries(final(self).views).last().0 == x.id,
            fresh_view(view_entries(final(self).views).last().1, x, parent),
            view_keys(final(self).views) == view_keys(old(self).views).push(x.id),
            final(self).root == old(self).root,
            final(self).consts == old(self).consts,
            final(self).consts_initializers == old(self).consts_initializers,
            final(self).component_name == old(self).component_name,
            final(self).compatibility == old(self).compatibility,
            final(self).mode == old(self).mode,
    {
        let xref = self.next_xref_id;
        self.next_xref_id = XrefId { id: xref.id + 1 };
        let view = ViewCompilationUnit::new(xref, parent);
        let ghost keys0 = view_keys(self.views);
        assert(!keys0.contains(xref.id)) by {
            if keys0.contains(xref.id) {
                let i = choose|i: int| 0 <= i < keys0.len() && keys0[i] == xref.id;
                assert(keys0[i] < xref.id);
            }
        }
        let _ = insert_view(&mut self.views, xref.id, view);
        proof {
            assert(view_entries(self.views).drop_last() =~= view_entries(old(self).views));
            assert(view_keys(self.views) =~= keys0.push(xref.id));
            let keys = view_keys(self.views);
            assert forall|i: int| 0 <= i < keys.len() implies #[trigger] keys[i] < self.next_xref_id.id by {
                if i < keys0.len() {
                    assert(keys[i] == keys0[i]);
                }
            }
        }
        xref
    }

    /// The index of a constant equivalent to `new_const`, which is added, with its
    /// initializers, when there is none.
    pub fn add_const(&mut self, new_const: Expression, initializers: Option<Vec<Expression>>) -> (r: ConstIndex)
        ensures
            same_but_consts(*final(self), *old(self)),
            (exprs_view(final(self).consts@), r.index as int) == spec_add_const(
                exprs_view(old(self).consts@),
                expr_view(new_const),
            ),
            match first_equivalent(exprs_view(old(self).consts@), expr_view(new_const)) {
                Some(i) => r.index == i && final(self).consts == old(self).consts && final(self).consts_initializers
                    == old(self).consts_initializers,
                None => r.index == old(self).consts@.len() && exprs_view(final(self).consts@) == exprs_view(
                    old(self).consts@,
                ).push(expr_view(new_const)) && exprs_view(final(self).consts_initializers@) == exprs_view(
                    old(self).consts_initializers@,
                ) + match initializers {
                    Some(v) => exprs_view(v@),
                    None => Seq::<SExpr>::empty(),
                },
            },
    {
        let ghost cv = exprs_view(self.consts@);
        let ghost c = expr_view(new_const);
        proof {
            lemma_exprs_view_len(self.consts@);
        }
        let mut i: usize = 0;
        while i < self.consts.len()
            invariant
                i <= self.consts@.len(),
                cv == exprs_view(self.consts@),
                cv.len() == self.consts@.len(),
                c == expr_view(new_const),
                first_equivalent(cv.take(i as int), c) is None,
            decreases self.consts@.len() - i,
        {
            proof {
                lemma_exprs_view_index(self.consts@, i as int);
                assert(cv.take(i + 1).drop_last() =~= cv.take(i as int));
                assert(cv.take(i + 1).last() == cv[i as int]);
            }
            if is_equivalent(&self.consts[i], &new_const) {
                proof {
                    lemma_first_equivalent_prefix(cv, c, i + 1);
                }
                return ConstIndex { index: i };
            }
            i += 1;
        }
        proof {
            assert(cv.take(cv.len() as int) =~= cv);
        }
        let idx = self.consts.len();
        let ghost before = self.consts@;
        self.consts.push(new_const);
        proof {
            lemma_exprs_view_push(before, new_const);
        }
        match initializers {
            Some(init) => {
                let ghost a = self.consts_initializers@;
                let ghost b = init@;
                let mut init = init;
                self.consts_initializers.append(&mut init);
                proof {
                    lemma_exprs_view_append(a, b);
                }
            },
            None => {
                assert(exprs_view(self.consts_initializers@) + Seq::<SExpr>::empty() =~= exprs_view(self.consts_initializers@));
            },
        }
        ConstIndex { index: idx }
    }
}

proof fn lemma_first_equivalent_prefix(s: Seq<SExpr>, c: SExpr, k: int)
    requires
        0 <= k <= s.len(),
        first_equivalent(s.take(k), c) is Some,
    ensures
        first_equivalent(s, c) == first_equivalent(s.take(k), c),
    decreases s.len(),
{
    if k < s.len() {
        assert(s.drop_last().take(k) =~= s.take(k));
        lemma_first_equivalent_prefix(s.drop_last(), c, k);
    } else {
        assert(s.take(k) =~= s);
    }
}

impl CompilationJob for ComponentCompilationJob {
    open spec fn spec_root_xref(&self) -> XrefId {
        self.root.xref
    }

    open spec fn spec_kind(&self) -> CompilationJobKind {
        CompilationJobKind::Tmpl
    }

    open spec fn spec_compatibility(&self) -> CompatibilityMode {
        self.compatibility
    }

    /// `n` more xrefs can be allocated while the ids fit.
    open spec fn spec_can_allocate_n(&self, n: nat) -> bool {
        self.next_xref_id.id + n <= u64::MAX
    }

    proof fn lemma_allocate_n(&self, n: nat) {
    }

    proof fn lemma_can_allocate_mono(&self, a: nat, b: nat) {
    }

    /// Each allocation gives the next id.
    open spec fn spec_allocate(&self) -> (Self, XrefId) {
        (ComponentCompilationJob { next_xref_id: XrefId { id: (self.next_xref_id.id + 1) as u64 }, ..*self }, self.next_xref_id)
    }

    fn root_xref(&self) -> (x: XrefId) {
        self.root.xref
    }

    fn kind(&self) -> (k: CompilationJobKind) {
        CompilationJobKind::Tmpl
    }

    fn compatibility(&self) -> (c: CompatibilityMode) {
        self.compatibility
    }

    fn mode(&self) -> (m: TemplateCompilationMode)
        ensures
            m == self.mode,
    {
        self.mode
    }

    fn fn_suffix(&self) -> (s: &'static str)
        ensures
            s@ == "Template"@,
    {
        "Template"
    }

    fn component_name(&self) -> (s: &str)
        ensures
            s@ == self.component_name@,
    {
        self.component_name.as_str()
    }

    fn allocate_xref_id(&mut self) -> (x: XrefId) {
        let id = self.next_xref_id;
        self.next_xref_id = XrefId { id: id.id + 1 };
        id
    }
}

/// The constants after adding `c`, and the index that `c` has among them: that of the first
/// equivalent constant, or a new last one.
pub open spec fn spec_add_const(consts: Seq<SExpr>, c: SExpr) -> (Seq<SExpr>, int) {
    match first_equivalent(consts, c) {
        Some(i) => (consts, i),
        None => (consts.push(c), consts.len() as int),
    }
}

/// The job after `k` allocations of xrefs, and the ids that they handed out, in order.
pub open spec fn allocations(job: ComponentCompilationJob, k: nat) -> (ComponentCompilationJob, Seq<u64>)
    decreases k,
{
    if k == 0 {
        (job, Seq::empty())
    } else {
        let (j, ids) = allocations(job, (k - 1) as nat);
        (j.spec_allocate().0, ids.push(j.spec_allocate().1.id))
    }
}

/// Xrefs are handed out in order: from a job whose next id is `n`, `k` allocations give the ids
/// `n, n + 1, ..., n + k - 1`, no two alike, and leave `n + k` as the next id. (`allocate_view`
/// takes the same step.) A well-formed job, such as a new one, whose next id is 1, never hands
/// out the root view's xref 0.
pub proof fn lemma_allocations_count_up(job: ComponentCompilationJob, k: nat)
    requires
        job.next_id() + k <= u64::MAX,
    ensures
        allocations(job, k).1.len() == k,
        forall|i: int| 0 <= i < k ==> #[trigger] allocations(job, k).1[i] == job.next_id() + i,
        allocations(job, k).0.next_id() == job.next_id() + k,
        forall|i: int, j: int|
            0 <= i < j < k ==> #[trigger] allocations(job, k).1[i] != #[trigger] allocations(job, k).1[j],
        job.wf() ==> forall|i: int| 0 <= i < k ==> #[trigger] allocations(job, k).1[i] != job.root.xref.id,
    decreases k,
{
    if k > 0 {
        lemma_allocations_count_up(job, (k - 1) as nat);
    }
}

/// Adding one constant twice: the second addition finds the index that the first returned and
/// leaves the constants as the first left them, so the two add at most one constant. Where an
/// equivalent constant is already there, neither adds anything and both return the first such
/// index.
pub proof fn lemma_add_const_twice(consts: Seq<SExpr>, c: SExpr)
    ensures
        spec_add_const(spec_add_const(consts, c).0, c) == spec_add_const(consts, c),
        spec_add_const(consts, c).0.len() <= consts.len() + 1,
        first_equivalent(consts, c) matches Some(k) ==> spec_add_const(consts, c) == (consts, k),
{
    lemma_added_const_is_found(consts, c);
}

/// Once a constant is added, adding an equivalent one again finds it: the constants after an
/// addition hold one equivalent to it, at the index that the addition returned.
pub proof fn lemma_added_const_is_found(consts: Seq<SExpr>, c: SExpr)
    ensures
        first_equivalent(
            match first_equivalent(consts, c) {
                Some(_) => consts,
                None => consts.push(c),
            },
            c,
        ) == Some(
            match first_equivalent(consts, c) {
                Some(i) => i,
                None => consts.len() as int,
            },
        ),
{
    if first_equivalent(consts, c) is None {
        assert(consts.push(c).drop_last() =~= consts);
        crate::equivalence::lemma_equiv_reflexive(c);
    }
}

} // verus!
